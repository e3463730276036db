//! The relay's HTTP/1.1 wire format: relay URLs, the request bytes a relay
//! client sends, and the reading of the relay's responses. Sending the bytes
//! over a socket is left to the caller.
use vstd::prelude::*;
use vstd::utf8::{decode_utf8, encode_utf8, valid_utf8};
use crate::text::{utf8_lossy, utf8_lossy_text, 
    chars_of, decimal, find_from, find_pair, find_quad, parse_u16, parse_u16_in, push_char,
    push_decimal, push_str, second_word, second_word_bounds, all_digits, digits_value,
    lemma_decimal_reads_back, lemma_find_from_first, lemma_find_from_none, lemma_skip_word_run,
    lemma_skip_space_run, is_white_space, is_digit, skip_space, skip_word, unsigned_digits,
};

verus! {

#[verifier::external_type_specification]
#[verifier::external_body]
pub struct ExIoError(std::io::Error);

#[verifier::external_type_specification]
#[verifier::external_body]
pub struct ExJsonError(serde_json::Error);

/// Errors of the relay transport.
#[derive(Debug)]
pub enum TransportError {
    Io(std::io::Error),
    Json(serde_json::Error),
    InvalidUrl(String),
    Http(String),
}

/// Results of the relay transport.
pub type Result<T> = std::result::Result<T, TransportError>;

/// Host and port of an HTTP endpoint.
#[derive(Clone, Debug, PartialEq, Eq)]
pub struct HttpEndpoint {
    pub host: String,
    pub port: u16,
}

/// `s` with every trailing `/` removed.
pub open spec fn trim_trailing_slashes(s: Seq<char>) -> Seq<char>
    decreases s.len(),
{
    if s.len() > 0 && s.last() == '/' {
        trim_trailing_slashes(s.drop_last())
    } else {
        s
    }
}

/// The position of the last occurrence of `c` in `s`.
pub open spec fn last_index_of(s: Seq<char>, c: char) -> Option<int>
    decreases s.len(),
{
    if s.len() == 0 {
        None
    } else if s.last() == c {
        Some(s.len() - 1)
    } else {
        last_index_of(s.drop_last(), c)
    }
}

/// What is wrong with a relay URL.
#[derive(Clone, Copy, Debug, PartialEq, Eq, Structural)]
pub enum UrlProblem {
    /// It does not start with `http://`.
    NotHttp,
    /// What follows its last `:` is not a port number.
    InvalidPort,
}

/// What splitting `server` as a relay URL gives: `http://`, then the host,
/// then optionally `:` and a port (80 when absent), then any number of `/`.
/// The port is what follows the last `:`.
pub open spec fn url_split(server: Seq<char>) -> std::result::Result<(Seq<char>, u16), UrlProblem> {
    if !(server.len() >= 7 && server.subrange(0, 7) == "http://"@) {
        Err(UrlProblem::NotHttp)
    } else {
        let host_port = trim_trailing_slashes(server.subrange(7, server.len() as int));
        match last_index_of(host_port, ':') {
            Some(k) => match parse_u16(host_port.subrange(k + 1, host_port.len() as int)) {
                Some(p) => Ok((host_port.subrange(0, k), p)),
                None => Err(UrlProblem::InvalidPort),
            },
            None => Ok((host_port, 80u16)),
        }
    }
}

/// What reading `server` as a relay URL gives (see [`url_split`]), with the
/// text of the error otherwise; the host may not be empty.
pub open spec fn url_parts(server: Seq<char>) -> std::result::Result<(Seq<char>, u16), Seq<char>> {
    match url_split(server) {
        Err(UrlProblem::NotHttp) => Err("only http:// URLs are supported"@),
        Err(UrlProblem::InvalidPort) => Err("invalid port"@),
        Ok((host, port)) => if host.len() == 0 {
            Err("missing host"@)
        } else {
            Ok((host, port))
        },
    }
}

proof fn lemma_trim_is_prefix(s: Seq<char>)
    ensures
        trim_trailing_slashes(s).len() <= s.len(),
        trim_trailing_slashes(s) == s.subrange(0, trim_trailing_slashes(s).len() as int),
    decreases s.len(),
{
    if s.len() > 0 && s.last() == '/' {
        lemma_trim_is_prefix(s.drop_last());
        assert(s.drop_last().subrange(0, trim_trailing_slashes(s).len() as int) =~= s.subrange(
            0,
            trim_trailing_slashes(s).len() as int,
        ));
    } else {
        assert(s.subrange(0, s.len() as int) =~= s);
    }
}

proof fn lemma_last_index_bounds(s: Seq<char>, c: char)
    ensures
        last_index_of(s, c) matches Some(k) ==> 0 <= k < s.len() && s[k] == c,
    decreases s.len(),
{
    if s.len() > 0 && s.last() != c {
        lemma_last_index_bounds(s.drop_last(), c);
    }
}

/// The characters `chars[start..end]` as a string.
fn string_of(chars: &Vec<char>, start: usize, end: usize) -> (s: String)
    requires
        start <= end <= chars@.len(),
    ensures
        s@ == chars@.subrange(start as int, end as int),
{
    let mut s = String::new();
    let mut i = start;
    while i < end
        invariant
            start <= i <= end <= chars@.len(),
            s@ == chars@.subrange(start as int, i as int),
        decreases end - i,
    {
        push_char(&mut s, chars[i]);
        assert(chars@.subrange(start as int, i + 1) =~= chars@.subrange(start as int, i as int).push(
            chars@[i as int],
        ));
        i = i + 1;
    }
    s
}

/// Reads a relay URL into its host and port (see [`url_parts`]); fails with
/// `InvalidUrl` and the error's text otherwise.
pub fn parse_http_url(server: &str) -> (r: std::result::Result<HttpEndpoint, TransportError>)
    ensures
        match url_parts(server@) {
            Ok((host, port)) => r matches Ok(e) && e.host@ == host && e.port == port,
            Err(message) => r matches Err(TransportError::InvalidUrl(m)) && m@ == message,
        },
{
    match split_http_url(server) {
        Ok((host, port)) => {
            if host.as_str().is_empty() {
                Err(TransportError::InvalidUrl("missing host".to_owned()))
            } else {
                Ok(HttpEndpoint { host, port })
            }
        },
        Err(UrlProblem::NotHttp) => Err(
            TransportError::InvalidUrl("only http:// URLs are supported".to_owned()),
        ),
        Err(UrlProblem::InvalidPort) => Err(TransportError::InvalidUrl("invalid port".to_owned())),
    }
}

/// Splits a relay URL into its host and port (see [`url_split`]).
pub fn split_http_url(server: &str) -> (r: std::result::Result<(String, u16), UrlProblem>)
    ensures
        match url_split(server@) {
            Ok((host, port)) => r matches Ok((h, p)) && h@ == host && p == port,
            Err(problem) => r == Err::<(String, u16), UrlProblem>(problem),
        },
{
    let chars = chars_of(server);
    let n = chars.len();
    let has_scheme = n >= 7 && chars[0] == 'h' && chars[1] == 't' && chars[2] == 't' && chars[3]
        == 'p' && chars[4] == ':' && chars[5] == '/' && chars[6] == '/';
    proof {
        reveal_strlit("http://");
        if n >= 7 {
            if has_scheme {
                assert(chars@.subrange(0, 7) =~= "http://"@);
            } else {
                assert(chars@.subrange(0, 7) != "http://"@) by {
                    let p = chars@.subrange(0, 7);
                    if p == "http://"@ {
                        assert(p[0] == 'h' && p[1] == 't' && p[2] == 't' && p[3] == 'p' && p[4] == ':'
                            && p[5] == '/' && p[6] == '/');
                    }
                }
            }
        }
    }
    if !has_scheme {
        return Err(UrlProblem::NotHttp);
    }
    // Drop the trailing slashes.
    let mut end = n;
    while end > 7 && chars[end - 1] == '/'
        invariant
            7 <= end <= n,
            n == chars@.len(),
            trim_trailing_slashes(chars@.subrange(7, n as int)) == trim_trailing_slashes(
                chars@.subrange(7, end as int),
            ),
        decreases end,
    {
        assert(chars@.subrange(7, end as int).drop_last() =~= chars@.subrange(7, end - 1));
        end = end - 1;
    }
    let ghost host_port = chars@.subrange(7, end as int);
    assert(trim_trailing_slashes(host_port) == host_port);
    // Find the last ':'.
    let mut k = end;
    while k > 7 && chars[k - 1] != ':'
        invariant
            7 <= k <= end <= n,
            n == chars@.len(),
            host_port == chars@.subrange(7, end as int),
            last_index_of(host_port, ':') == last_index_of(chars@.subrange(7, k as int), ':'),
        decreases k,
    {
        assert(chars@.subrange(7, k as int).drop_last() =~= chars@.subrange(7, k - 1));
        k = k - 1;
    }
    let host_end: usize;
    let port: Option<u16>;
    if k > 7 {
        assert(chars@.subrange(7, k as int).last() == ':');
        assert(last_index_of(host_port, ':') == Some((k - 8) as int));
        host_end = k - 1;
        port = parse_u16_in(&chars, k, end);
        assert(host_port.subrange(k - 7, host_port.len() as int) =~= chars@.subrange(
            k as int,
            end as int,
        ));
        assert(host_port.subrange(0, k - 8) =~= chars@.subrange(7, host_end as int));
    } else {
        assert(chars@.subrange(7, 7) =~= Seq::<char>::empty());
        host_end = end;
        port = Some(80u16);
    }
    match port {
        None => Err(UrlProblem::InvalidPort),
        Some(p) => Ok((string_of(&chars, 7, host_end), p)),
    }
}

/// Calls `std::str::from_utf8`. Claimed, as its documentation says: it
/// accepts exactly the valid UTF-8 byte sequences and then gives the text
/// they encode.
#[verifier::external_body]
fn str_from_utf8(bytes: &[u8]) -> (s: Option<&str>)
    ensures
        s is Some <==> valid_utf8(bytes@),
        s matches Some(t) ==> t@ == decode_utf8(bytes@),
{
    std::str::from_utf8(bytes).ok()
}

/// What reading an HTTP response gives: its status code and body, or the
/// text of the error. The head ends at the first `\r\n\r\n`; the status line
/// is the head up to its first `\r\n`; it must be UTF-8 and its second
/// white-space-separated word must read as a `u16`.
pub open spec fn response_parts(response: Seq<u8>) -> std::result::Result<(u16, Seq<u8>), Seq<char>> {
    match find_from(response, seq![13u8, 10u8, 13u8, 10u8], 0) {
        None => Err("malformed HTTP response"@),
        Some(head_end) => {
            let head = response.subrange(0, head_end);
            let body = response.subrange(head_end + 4, response.len() as int);
            let line_end = match find_from(head, seq![13u8, 10u8], 0) {
                Some(j) => j,
                None => head.len() as int,
            };
            let line = head.subrange(0, line_end);
            if !valid_utf8(line) {
                Err("invalid HTTP status line"@)
            } else {
                match second_word(decode_utf8(line)) {
                    None => Err("missing HTTP status"@),
                    Some(word) => match parse_u16(word) {
                        None => Err("invalid HTTP status"@),
                        Some(status) => Ok((status, body)),
                    },
                }
            }
        },
    }
}

proof fn lemma_find_from_bounds(s: Seq<u8>, pattern: Seq<u8>, i: int)
    ensures
        find_from(s, pattern, i) matches Some(k) ==> i <= k && 0 <= k && k + pattern.len() <= s.len(),
    decreases s.len() + 1 - i,
{
    if !(i < 0 || i + pattern.len() > s.len()) && s.subrange(i, i + pattern.len()) != pattern {
        lemma_find_from_bounds(s, pattern, i + 1);
    }
}

/// The status line of a reply: `HTTP/1.1`, the status code and the reason.
pub open spec fn status_line(status: u16, reason: Seq<char>) -> Seq<char> {
    "HTTP/1.1 "@ + decimal(status as nat) + " "@ + reason
}

/// A reason phrase: ASCII text without a carriage return.
pub open spec fn plain_reason(reason: Seq<char>) -> bool {
    forall|i: int|
        0 <= i < reason.len() ==> '\0' <= #[trigger] reason[i] <= '\u{7f}' && reason[i] != '\r'
}

/// A reply with no header lines: the status line, an empty line, the body.
pub open spec fn http_reply(status: u16, reason: Seq<char>, body: Seq<u8>) -> Seq<u8> {
    encode_utf8(status_line(status, reason)) + seq![13u8, 10u8, 13u8, 10u8] + body
}

/// A status line is ASCII without carriage returns, and its second word is
/// the status code's decimal text.
proof fn lemma_status_line(status: u16, reason: Seq<char>)
    requires
        plain_reason(reason),
    ensures
        vstd::utf8::is_ascii_chars(status_line(status, reason)),
        forall|i: int|
            0 <= i < status_line(status, reason).len() ==> #[trigger] status_line(status, reason)[i]
                != '\r',
        second_word(status_line(status, reason)) == Some(decimal(status as nat)),
{
    reveal_strlit("HTTP/1.1 ");
    reveal_strlit(" ");
    let d = decimal(status as nat);
    lemma_decimal_reads_back(status as nat);
    let line = status_line(status, reason);
    let n = d.len() as int;
    assert forall|i: int| 0 <= i < n implies #[trigger] line[9 + i] == d[i] by {}
    assert forall|i: int| 0 <= i < reason.len() implies #[trigger] line[10 + n + i] == reason[i] by {}
    assert(line[9 + n] == ' ');
    assert forall|i: int| 0 <= i < line.len() implies '\0' <= #[trigger] line[i] <= '\u{7f}' && line[i]
        != '\r' by {
        if i < 9 {
            let prefix = "HTTP/1.1 "@;
            assert(line[i] == prefix[i]);
            assert(prefix =~= seq!['H', 'T', 'T', 'P', '/', '1', '.', '1', ' ']);
            assert('\0' <= line[i] <= '\u{7f}' && line[i] != '\r');
        } else if 9 <= i < 9 + n {
            assert(line[i] == d[i - 9]);
            assert(is_digit(d[i - 9]));
            assert('\0' <= line[i] <= '\u{7f}' && line[i] != '\r');
        } else if i == 9 + n {
            assert('\0' <= line[i] <= '\u{7f}' && line[i] != '\r');
        } else {
            let k = i - 10 - n;
            assert(0 <= k < reason.len());
            assert(line[10 + n + k] == reason[k]);
            assert('\0' <= reason[k] <= '\u{7f}' && reason[k] != '\r');
            assert('\0' <= line[i] <= '\u{7f}' && line[i] != '\r');
        }
    }
    assert(!is_white_space(line[0]));
    lemma_skip_space_run(line, 0, 0);
    assert forall|j: int| 0 <= j < 8 implies !is_white_space(#[trigger] line[j]) by {}
    lemma_skip_word_run(line, 0, 8);
    assert(is_digit(d[0]));
    assert(line[9] == d[0]);
    lemma_skip_space_run(line, 8, 9);
    assert forall|j: int| 9 <= j < 9 + n implies !is_white_space(#[trigger] line[j]) by {
        assert(line[j] == d[j - 9]);
        assert(is_digit(d[j - 9]));
    }
    lemma_skip_word_run(line, 9, 9 + n);
    assert(line.subrange(9, 9 + n) =~= d);
}

/// A reply reads as its status code and its body, whatever the body holds;
/// and a relay takes the body of a reply exactly when its status is 2xx.
pub proof fn lemma_reply_reads_status_and_body(status: u16, reason: Seq<char>, body: Seq<u8>)
    requires
        plain_reason(reason),
    ensures
        response_parts(http_reply(status, reason, body)) == Ok::<(u16, Seq<u8>), Seq<char>>((status, body)),
        200 <= status < 300 ==> response_outcome(http_reply(status, reason, body)) == Ok::<
            Seq<u8>,
            Seq<char>,
        >(body),
        !(200 <= status < 300) ==> response_outcome(http_reply(status, reason, body)) is Err,
{
    let line = status_line(status, reason);
    lemma_status_line(status, reason);
    vstd::utf8::is_ascii_chars_encode_utf8(line);
    vstd::utf8::encode_utf8_valid_utf8(line);
    vstd::utf8::encode_utf8_decode_utf8(line);
    let lb = encode_utf8(line);
    let n = lb.len() as int;
    assert forall|i: int| 0 <= i < n implies #[trigger] lb[i] != 13u8 by {
        let c = line[i];
        assert(c as u8 == lb[i]);
        let u: u32 = c as u32;
        assert(u <= 0x7f && u != 13 ==> (u as u8) != 13u8) by (bit_vector);
        assert((c as u8) == ((c as u32) as u8));
    }
    let quad = seq![13u8, 10u8, 13u8, 10u8];
    let reply = http_reply(status, reason, body);
    assert(reply =~= lb + quad + body);
    assert(reply.subrange(n, n + 4) =~= quad);
    assert forall|j: int| 0 <= j < n implies #[trigger] reply.subrange(j, j + 4) != quad by {
        assert(reply.subrange(j, j + 4)[0] == lb[j]);
    }
    lemma_find_from_first(reply, quad, 0, n);
    assert(reply.subrange(0, n) =~= lb);
    assert(reply.subrange(n + 4, reply.len() as int) =~= body);
    lemma_find_from_none(lb, seq![13u8, 10u8], 0);
    assert(lb.subrange(0, n) =~= lb);
    let d = decimal(status as nat);
    lemma_decimal_reads_back(status as nat);
    assert(is_digit(d[0]));
    assert(unsigned_digits(d) == d);
}

/// Reads an HTTP response into its status code and body (see
/// [`response_parts`]); fails with `Http` and the error's text otherwise.
pub fn parse_http_response(response: &[u8]) -> (r: std::result::Result<(u16, &[u8]), TransportError>)
    ensures
        match response_parts(response@) {
            Ok((status, body)) => r matches Ok((s, b)) && s == status && b@ == body,
            Err(message) => r matches Err(TransportError::Http(m)) && m@ == message,
        },
{
    proof {
        lemma_find_from_bounds(response@, seq![13u8, 10u8, 13u8, 10u8], 0);
    }
    let head_end = match find_quad(response, 13, 10, 13, 10) {
        Some(i) => i,
        None => {
            return Err(TransportError::Http("malformed HTTP response".to_owned()));
        },
    };
    let total = response.len();
    assert(head_end + 4 <= total);
    let head = vstd::slice::slice_subrange(response, 0, head_end);
    let body = vstd::slice::slice_subrange(response, head_end + 4, total);
    proof {
        lemma_find_from_bounds(head@, seq![13u8, 10u8], 0);
    }
    let line_end = match find_pair(head, 13, 10) {
        Some(j) => j,
        None => head.len(),
    };
    let line = vstd::slice::slice_subrange(head, 0, line_end);
    let text = match str_from_utf8(line) {
        Some(t) => t,
        None => {
            return Err(TransportError::Http("invalid HTTP status line".to_owned()));
        },
    };
    let chars = chars_of(text);
    let (start, end) = match second_word_bounds(&chars) {
        Some(bounds) => bounds,
        None => {
            return Err(TransportError::Http("missing HTTP status".to_owned()));
        },
    };
    match parse_u16_in(&chars, start, end) {
        Some(status) => Ok((status, body)),
        None => Err(TransportError::Http("invalid HTTP status".to_owned())),
    }
}

/// What a relay response gives: its body when the response reads (see
/// [`response_parts`]) and its status is 2xx; otherwise the text of the error.
pub open spec fn response_outcome(response: Seq<u8>) -> std::result::Result<Seq<u8>, Seq<char>> {
    match response_parts(response) {
        Err(message) => Err(message),
        Ok((status, body)) => if 200 <= status < 300 {
            Ok(body)
        } else {
            Err("server returned HTTP "@ + decimal(status as nat) + ": "@ + utf8_lossy_text(body))
        },
    }
}

/// The body of a relay response (see [`response_outcome`]); fails with `Http`
/// and the error's text otherwise.
pub fn read_response(response: &[u8]) -> (r: std::result::Result<&[u8], TransportError>)
    ensures
        match response_outcome(response@) {
            Ok(body) => r matches Ok(b) && b@ == body,
            Err(message) => r matches Err(TransportError::Http(m)) && m@ == message,
        },
{
    let (status, body) = parse_http_response(response)?;
    if 200 <= status && status < 300 {
        Ok(body)
    } else {
        let mut message = "server returned HTTP ".to_owned();
        push_decimal(&mut message, status as u64);
        push_str(&mut message, ": ");
        let text = utf8_lossy(body);
        push_str(&mut message, text.as_str());
        Err(TransportError::Http(message))
    }
}

/// The head of an HTTP/1.1 request: request line, `Host`, `Connection:
/// close`, `Content-Length`, a JSON `Content-Type` when there is a body, an
/// `Authorization: Bearer` line when there is a token, and the empty line.
pub open spec fn request_head(
    method: Seq<char>,
    path: Seq<char>,
    host: Seq<char>,
    body_len: nat,
    bearer_token: Option<Seq<char>>,
) -> Seq<char> {
    method + " "@ + path + " HTTP/1.1\r\nHost: "@ + host + "\r\nConnection: close\r\nContent-Length: "@
        + decimal(body_len) + "\r\n"@ + (if body_len > 0 {
        "Content-Type: application/json\r\n"@
    } else {
        Seq::<char>::empty()
    }) + (match bearer_token {
        Some(t) => "Authorization: Bearer "@ + t + "\r\n"@,
        None => Seq::<char>::empty(),
    }) + "\r\n"@
}

/// The bytes of an HTTP/1.1 request: its head in UTF-8, then the body.
pub open spec fn request_bytes(
    method: Seq<char>,
    path: Seq<char>,
    host: Seq<char>,
    bearer_token: Option<Seq<char>>,
    body: Seq<u8>,
) -> Seq<u8> {
    encode_utf8(request_head(method, path, host, body.len(), bearer_token)) + body
}

/// `head` holds a header line `Content-Length: <digits>`, starting a line,
/// whose digits read as `len`.
pub open spec fn announces_length(head: Seq<char>, len: nat) -> bool {
    exists|before: Seq<char>, digits: Seq<char>, after: Seq<char>|
        #![trigger before + "Content-Length: "@ + digits + "\r\n"@ + after]
        head == before + "Content-Length: "@ + digits + "\r\n"@ + after && before.len() >= 2
            && before.subrange(before.len() - 2, before.len() as int) == "\r\n"@ && digits.len() > 0
            && all_digits(digits) && digits_value(digits) == len
}

/// A request announces the length of its body: its head holds a
/// `Content-Length` line whose digits read as the number of body bytes, the
/// head ends with an empty line, and the body's bytes follow the head.
pub proof fn lemma_request_announces_body_length(
    method: Seq<char>,
    path: Seq<char>,
    host: Seq<char>,
    bearer_token: Option<Seq<char>>,
    body: Seq<u8>,
)
    ensures
        announces_length(request_head(method, path, host, body.len(), bearer_token), body.len()),
        ({
            let head = request_head(method, path, host, body.len(), bearer_token);
            head.len() >= 4 && head.subrange(head.len() - 4, head.len() as int) == "\r\n\r\n"@
        }),
        request_bytes(method, path, host, bearer_token, body).subrange(
            encode_utf8(request_head(method, path, host, body.len(), bearer_token)).len() as int,
            request_bytes(method, path, host, bearer_token, body).len() as int,
        ) == body,
{
    reveal_strlit("\r\nConnection: close\r\nContent-Length: ");
    reveal_strlit("\r\nConnection: close\r\n");
    reveal_strlit("Content-Length: ");
    reveal_strlit("\r\n");
    reveal_strlit("\r\n\r\n");
    reveal_strlit("Content-Type: application/json\r\n");
    reveal_strlit("Authorization: Bearer ");
    let len = body.len();
    let head = request_head(method, path, host, len, bearer_token);
    let before = method + " "@ + path + " HTTP/1.1\r\nHost: "@ + host + "\r\nConnection: close\r\n"@;
    let digits = decimal(len);
    let content_type = if len > 0 {
        "Content-Type: application/json\r\n"@
    } else {
        Seq::<char>::empty()
    };
    let authorization = match bearer_token {
        Some(t) => "Authorization: Bearer "@ + t + "\r\n"@,
        None => Seq::<char>::empty(),
    };
    let after = content_type + authorization + "\r\n"@;
    lemma_decimal_reads_back(len);
    assert(head =~= before + "Content-Length: "@ + digits + "\r\n"@ + after);
    assert(before.subrange(before.len() - 2, before.len() as int) =~= "\r\n"@);
    let tail = "\r\n"@ + after;
    let last = if bearer_token is Some {
        authorization
    } else if len > 0 {
        content_type
    } else {
        tail.subrange(0, 2)
    };
    assert(last.len() >= 2 && last.subrange(last.len() - 2, last.len() as int) =~= "\r\n"@);
    assert(head.subrange(head.len() - 4, head.len() as int) =~= "\r\n\r\n"@) by {
        assert(head =~= before + "Content-Length: "@ + digits + "\r\n"@ + content_type + authorization
            + "\r\n"@);
        if bearer_token is Some {
            assert(head.subrange(head.len() - 4, head.len() as int) =~= authorization.subrange(
                authorization.len() - 2,
                authorization.len() as int,
            ) + "\r\n"@);
        } else if len > 0 {
            assert(head.subrange(head.len() - 4, head.len() as int) =~= content_type.subrange(
                content_type.len() - 2,
                content_type.len() as int,
            ) + "\r\n"@);
        } else {
            assert(head.subrange(head.len() - 4, head.len() as int) =~= "\r\n"@ + "\r\n"@);
        }
    }
    let bytes = request_bytes(method, path, host, bearer_token, body);
    assert(bytes.subrange(encode_utf8(head).len() as int, bytes.len() as int) =~= body);
}

/// The text of an optional string slice.
pub open spec fn text_option(t: Option<&str>) -> Option<Seq<char>> {
    match t {
        Some(s) => Some(s@),
        None => None,
    }
}

/// The bytes of an optional body (none is empty).
pub open spec fn body_bytes(body: Option<Vec<u8>>) -> Seq<u8> {
    match body {
        Some(b) => b@,
        None => Seq::<u8>::empty(),
    }
}

/// The bytes of an HTTP/1.1 request to `endpoint` (see [`request_bytes`]).
pub fn encode_http_request(
    endpoint: &HttpEndpoint,
    method: &str,
    path: &str,
    bearer_token: Option<&str>,
    body: Option<Vec<u8>>,
) -> (bytes: Vec<u8>)
    ensures
        bytes@ == request_bytes(method@, path@, endpoint.host@, text_option(bearer_token), body_bytes(body)),
{
    let body = match body {
        Some(b) => b,
        None => Vec::new(),
    };
    let mut head = String::new();
    push_str(&mut head, method);
    push_str(&mut head, " ");
    push_str(&mut head, path);
    push_str(&mut head, " HTTP/1.1\r\nHost: ");
    push_str(&mut head, endpoint.host.as_str());
    push_str(&mut head, "\r\nConnection: close\r\nContent-Length: ");
    push_decimal(&mut head, body.len() as u64);
    push_str(&mut head, "\r\n");
    if body.len() > 0 {
        push_str(&mut head, "Content-Type: application/json\r\n");
    }
    match bearer_token {
        Some(token) => {
            push_str(&mut head, "Authorization: Bearer ");
            push_str(&mut head, token);
            push_str(&mut head, "\r\n");
        },
        None => {},
    }
    push_str(&mut head, "\r\n");
    assert(head@ =~= request_head(method@, path@, endpoint.host@, body@.len(), text_option(bearer_token)));
    let mut bytes: Vec<u8> = Vec::new();
    crate::text::append_bytes(&mut bytes, head.as_str().as_bytes());
    crate::text::append_bytes(&mut bytes, body.as_slice());
    bytes
}

/// An authenticated session with a relay.
#[derive(Clone, Debug, PartialEq, Eq)]
pub struct RelaySession {
    token: String,
    expires_at_ms: u64,
}

impl RelaySession {
    pub closed spec fn token_text(&self) -> Seq<char> {
        self.token@
    }

    pub closed spec fn expiry(&self) -> u64 {
        self.expires_at_ms
    }

    /// The session a relay granted with this token and expiry.
    pub fn new(token: String, expires_at_ms: u64) -> (s: RelaySession)
        ensures
            s.token_text() == token@,
            s.expiry() == expires_at_ms,
    {
        RelaySession { token, expires_at_ms }
    }

    /// The bearer token.
    pub fn token(&self) -> (t: &str)
        ensures
            t@ == self.token_text(),
    {
        self.token.as_str()
    }

    /// When the session expires, in milliseconds since the Unix epoch.
    pub fn expires_at_ms(&self) -> (t: u64)
        ensures
            t == self.expiry(),
    {
        self.expires_at_ms
    }
}

/// A client of a relay server reached over plain HTTP.
#[derive(Clone, Debug)]
pub struct RelayHttpClient {
    endpoint: HttpEndpoint,
}

impl RelayHttpClient {
    pub closed spec fn host(&self) -> Seq<char> {
        self.endpoint.host@
    }

    pub closed spec fn port(&self) -> u16 {
        self.endpoint.port
    }

    /// A client of the relay at `server_url` (see [`url_parts`]); fails with
    /// `InvalidUrl` when the URL does not read.
    pub fn new(server_url: &str) -> (r: std::result::Result<RelayHttpClient, TransportError>)
        ensures
            match url_parts(server_url@) {
                Ok((host, port)) => r matches Ok(c) && c.host() == host && c.port() == port,
                Err(message) => r matches Err(TransportError::InvalidUrl(m)) && m@ == message,
            },
    {
        let endpoint = parse_http_url(server_url)?;
        Ok(RelayHttpClient { endpoint })
    }

    /// The relay's host and port.
    pub fn endpoint(&self) -> (e: &HttpEndpoint)
        ensures
            e.host@ == self.host(),
            e.port == self.port(),
    {
        &self.endpoint
    }

    /// The bytes of a request to this relay (see [`request_bytes`]).
    pub fn encode_request(
        &self,
        method: &str,
        path: &str,
        bearer_token: Option<&str>,
        body: Option<Vec<u8>>,
    ) -> (bytes: Vec<u8>)
        ensures
            bytes@ == request_bytes(method@, path@, self.host(), text_option(bearer_token), body_bytes(body)),
    {
        encode_http_request(&self.endpoint, method, path, bearer_token, body)
    }

    /// The request that asks the relay for an authentication challenge,
    /// carrying the JSON `body`.
    pub fn auth_challenge_request(&self, body: Vec<u8>) -> (bytes: Vec<u8>)
        ensures
            bytes@ == request_bytes("POST"@, "/v1/auth/challenge"@, self.host(), None, body@),
    {
        self.encode_request("POST", "/v1/auth/challenge", None, Some(body))
    }

    /// The request that answers an authentication challenge, carrying the
    /// JSON `body`.
    pub fn auth_verify_request(&self, body: Vec<u8>) -> (bytes: Vec<u8>)
        ensures
            bytes@ == request_bytes("POST"@, "/v1/auth/verify"@, self.host(), None, body@),
    {
        self.encode_request("POST", "/v1/auth/verify", None, Some(body))
    }

    /// The request that submits an envelope (its JSON in `envelope_json`).
    pub fn submit(&self, session: &RelaySession, envelope_json: Vec<u8>) -> (bytes: Vec<u8>)
        ensures
            bytes@ == request_bytes(
                "POST"@,
                "/v1/relay/envelopes"@,
                self.host(),
                Some(session.token_text()),
                envelope_json@,
            ),
    {
        self.encode_request("POST", "/v1/relay/envelopes", Some(session.token()), Some(envelope_json))
    }

    /// The request that fetches the envelopes waiting for this session's peer.
    pub fn pending(&self, session: &RelaySession) -> (bytes: Vec<u8>)
        ensures
            bytes@ == request_bytes(
                "GET"@,
                "/v1/relay/envelopes/pending"@,
                self.host(),
                Some(session.token_text()),
                Seq::<u8>::empty(),
            ),
    {
        self.encode_request("GET", "/v1/relay/envelopes/pending", Some(session.token()), None)
    }

    /// The request that marks a message delivered.
    pub fn mark_delivered(&self, session: &RelaySession, message_id: &str) -> (bytes: Vec<u8>)
        ensures
            bytes@ == request_bytes(
                "POST"@,
                delivered_path(message_id@),
                self.host(),
                Some(session.token_text()),
                Seq::<u8>::empty(),
            ),
    {
        let mut path = "/v1/relay/envelopes/".to_owned();
        push_str(&mut path, message_id);
        push_str(&mut path, "/delivered");
        self.encode_request("POST", path.as_str(), Some(session.token()), None)
    }
}

/// The path that marks a message delivered.
pub open spec fn delivered_path(message_id: Seq<char>) -> Seq<char> {
    "/v1/relay/envelopes/"@ + message_id + "/delivered"@
}

} // verus!
