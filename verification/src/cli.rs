//! The decisions of the developer command-line tool: reading its options,
//! its usage text, and its reading of relay URLs and responses.
use vstd::prelude::*;
use crate::crypto::{opened, CryptoError, IdentityKeypair, PublicIdentity};
use crate::protocol::{uuid_text, Envelope};
use crate::text::{push_str, utf8_lossy, utf8_lossy_text};
use crate::transport::{
    body_bytes, encode_http_request, parse_http_response, read_response, request_bytes,
    response_outcome, response_parts, split_http_url, text_option, url_split, HttpEndpoint,
    TransportError, UrlProblem,
};

verus! {

/// The relay the tool talks to when none is given.
pub const DEFAULT_SERVER: &'static str = "http://127.0.0.1:8080";

/// Errors of the command-line tool.
#[derive(Debug)]
pub enum CliError {
    Usage(String),
    Io(std::io::Error),
    Json(serde_json::Error),
    Crypto(CryptoError),
    Http(String),
}

/// The first position `i` at or after `from` such that `args[i]` is `name`
/// and an argument follows it.
pub open spec fn option_position(args: Seq<String>, name: Seq<char>, from: int) -> Option<int>
    decreases args.len() - from,
{
    if from < 0 || from + 1 >= args.len() {
        None
    } else if args[from]@ == name {
        Some(from)
    } else {
        option_position(args, name, from + 1)
    }
}

/// The option lookup finds the first place where `name` stands with an
/// argument after it: when it gives position `k`, `args[k]` is `name`, an
/// argument follows it, and no earlier argument with one after it is `name`;
/// when it gives nothing, no argument that has one after it is `name`.
pub proof fn lemma_option_position_is_first(args: Seq<String>, name: Seq<char>, from: int)
    requires
        0 <= from,
    ensures
        match option_position(args, name, from) {
            Some(k) => {
                &&& from <= k
                &&& k + 1 < args.len()
                &&& args[k]@ == name
                &&& forall|j: int| from <= j < k ==> #[trigger] args[j]@ != name
            },
            None => forall|j: int| from <= j && j + 1 < args.len() ==> #[trigger] args[j]@ != name,
        },
    decreases args.len() - from,
{
    if from + 1 < args.len() && args[from]@ != name {
        lemma_option_position_is_first(args, name, from + 1);
        match option_position(args, name, from + 1) {
            Some(k) => {
                assert forall|j: int| from <= j < k implies #[trigger] args[j]@ != name by {
                    if j > from {
                    }
                }
            },
            None => {},
        }
    }
}

/// The argument that follows the first `name` that has one.
pub fn option_value<'a>(args: &'a [String], name: &str) -> (r: Option<&'a str>)
    ensures
        match option_position(args@, name@, 0) {
            Some(i) => r matches Some(v) && v@ == args@[i + 1]@,
            None => r is None,
        },
{
    let wanted = name.to_owned();
    let mut i: usize = 0;
    while i < args.len() && args.len() - i > 1
        invariant
            i <= args@.len(),
            wanted@ == name@,
            option_position(args@, name@, 0) == option_position(args@, name@, i as int),
        decreases args@.len() - i,
    {
        if args[i] == wanted {
            return Some(args[i + 1].as_str());
        }
        i = i + 1;
    }
    None
}

/// The tool's usage text.
pub open spec fn usage_text() -> Seq<char> {
    "messenger-dev identity new <identity.json>"@ + "\n"@
        + "messenger-dev identity public <identity.json> <public.json>"@ + "\n"@
        + "messenger-dev send --server <url> --from <identity.json> --to <public.json> --text <message>"@
        + "\n"@ + "messenger-dev receive --server <url> --identity <identity.json> --from <public.json>"@
}

/// The tool's usage text, one command per line.
pub fn usage() -> (s: String)
    ensures
        s@ == usage_text(),
{
    let mut s = String::new();
    push_str(&mut s, "messenger-dev identity new <identity.json>");
    push_str(&mut s, "\n");
    push_str(&mut s, "messenger-dev identity public <identity.json> <public.json>");
    push_str(&mut s, "\n");
    push_str(
        &mut s,
        "messenger-dev send --server <url> --from <identity.json> --to <public.json> --text <message>",
    );
    push_str(&mut s, "\n");
    push_str(
        &mut s,
        "messenger-dev receive --server <url> --identity <identity.json> --from <public.json>",
    );
    s
}

/// The argument that follows option `name`; fails with a usage error that
/// names the missing option when there is none.
pub fn required_option<'a>(args: &'a [String], name: &str) -> (r: Result<&'a str, CliError>)
    ensures
        match option_position(args@, name@, 0) {
            Some(i) => r matches Ok(v) && v@ == args@[i + 1]@,
            None => r matches Err(CliError::Usage(m)) && m@ == "missing "@ + name@ + "\n"@
                + usage_text(),
        },
{
    match option_value(args, name) {
        Some(value) => Ok(value),
        None => {
            let mut message = "missing ".to_owned();
            push_str(&mut message, name);
            push_str(&mut message, "\n");
            let text = usage();
            push_str(&mut message, text.as_str());
            Err(CliError::Usage(message))
        },
    }
}

/// Reads a relay URL the way the tool does (see [`url_split`]); an empty
/// host is accepted.
pub fn parse_relay_url(server: &str) -> (r: Result<HttpEndpoint, CliError>)
    ensures
        match url_split(server@) {
            Ok((host, port)) => r matches Ok(e) && e.host@ == host && e.port == port,
            Err(UrlProblem::NotHttp) => r matches Err(CliError::Usage(m)) && m@
                == "only http:// relay URLs are supported"@,
            Err(UrlProblem::InvalidPort) => r matches Err(CliError::Usage(m)) && m@
                == "invalid relay port"@,
        },
{
    match split_http_url(server) {
        Ok((host, port)) => Ok(HttpEndpoint { host, port }),
        Err(UrlProblem::NotHttp) => Err(
            CliError::Usage("only http:// relay URLs are supported".to_owned()),
        ),
        Err(UrlProblem::InvalidPort) => Err(CliError::Usage("invalid relay port".to_owned())),
    }
}

/// Reads an HTTP response into its status and body the way the tool does
/// (see [`response_parts`]).
pub fn parse_relay_response(response: &[u8]) -> (r: Result<(u16, &[u8]), CliError>)
    ensures
        match response_parts(response@) {
            Ok((status, body)) => r matches Ok((s, b)) && s == status && b@ == body,
            Err(message) => r matches Err(CliError::Http(m)) && m@ == message,
        },
{
    match parse_http_response(response) {
        Ok(parts) => Ok(parts),
        Err(TransportError::Http(message)) => Err(CliError::Http(message)),
        Err(TransportError::InvalidUrl(message)) => Err(CliError::Http(message)),
        Err(TransportError::Io(error)) => Err(CliError::Io(error)),
        Err(TransportError::Json(error)) => Err(CliError::Json(error)),
    }
}

/// What the tool was asked to do.
#[derive(Clone, Debug, PartialEq, Eq)]
pub enum Command {
    /// Print the usage text.
    Help,
    /// Create an identity and write it to the path.
    IdentityNew(String),
    /// Write the public half of the identity at the first path to the second.
    IdentityPublic(String, String),
    /// Send a message; the options follow the command word.
    Send,
    /// Receive pending messages; the options follow the command word.
    Receive,
    /// Create or keep the identity of a client database.
    DbInit,
    /// Write the public identity of a client database to a file.
    DbPublic,
    /// Add a contact to a client database.
    ContactAdd,
    /// Send a message from a client database to one of its contacts.
    MessageSend,
    /// Fetch, open and store the messages waiting for a client database.
    Sync,
    /// List the messages a client database holds for a contact.
    MessagesList,
}

/// Whether `args` ask for `c`; `None` stands for arguments the tool refuses.
/// The first word decides, in this order: no arguments or a lone `help`,
/// `--help` or `-h` ask for help; `identity new <path>` and `identity public
/// <private> <public>` take exactly their arguments; `send` and `receive`
/// take any that follow, and so do the database commands `db init`, `db
/// public`, `contact add`, `message send`, `sync` and `messages list`.
pub open spec fn command_for(args: Seq<String>, c: Option<Command>) -> bool {
    if args.len() == 0 {
        c == Some(Command::Help)
    } else if args.len() == 1 && (args[0]@ == "help"@ || args[0]@ == "--help"@ || args[0]@
        == "-h"@) {
        c == Some(Command::Help)
    } else if args.len() == 3 && args[0]@ == "identity"@ && args[1]@ == "new"@ {
        c matches Some(Command::IdentityNew(path)) && path@ == args[2]@
    } else if args.len() == 4 && args[0]@ == "identity"@ && args[1]@ == "public"@ {
        c matches Some(Command::IdentityPublic(private_path, public_path)) && private_path@
            == args[2]@ && public_path@ == args[3]@
    } else if args[0]@ == "send"@ {
        c == Some(Command::Send)
    } else if args[0]@ == "receive"@ {
        c == Some(Command::Receive)
    } else if args.len() >= 2 && args[0]@ == "db"@ && args[1]@ == "init"@ {
        c == Some(Command::DbInit)
    } else if args.len() >= 2 && args[0]@ == "db"@ && args[1]@ == "public"@ {
        c == Some(Command::DbPublic)
    } else if args.len() >= 2 && args[0]@ == "contact"@ && args[1]@ == "add"@ {
        c == Some(Command::ContactAdd)
    } else if args.len() >= 2 && args[0]@ == "message"@ && args[1]@ == "send"@ {
        c == Some(Command::MessageSend)
    } else if args[0]@ == "sync"@ {
        c == Some(Command::Sync)
    } else if args.len() >= 2 && args[0]@ == "messages"@ && args[1]@ == "list"@ {
        c == Some(Command::MessagesList)
    } else {
        c is None
    }
}

/// Whether `s` is the word `w`.
fn is_word(s: &String, w: &str) -> (b: bool)
    ensures
        b == (s@ == w@),
{
    let word = w.to_owned();
    *s == word
}

/// The command that `args` (the arguments after the program's name) ask for
/// (see [`command_for`]); fails with the usage text as a usage error when the
/// tool refuses them.
pub fn command_of(args: &[String]) -> (r: Result<Command, CliError>)
    ensures
        r matches Ok(c) ==> command_for(args@, Some(c)),
        r matches Err(e) ==> command_for(args@, None) && (e matches CliError::Usage(m) && m@
            == usage_text()),
        r is Ok || command_for(args@, None),
{
    let n = args.len();
    if n == 0 {
        return Ok(Command::Help);
    }
    if n == 1 && (is_word(&args[0], "help") || is_word(&args[0], "--help") || is_word(
        &args[0],
        "-h",
    )) {
        return Ok(Command::Help);
    }
    if n == 3 && is_word(&args[0], "identity") && is_word(&args[1], "new") {
        return Ok(Command::IdentityNew(args[2].clone()));
    }
    if n == 4 && is_word(&args[0], "identity") && is_word(&args[1], "public") {
        return Ok(Command::IdentityPublic(args[2].clone(), args[3].clone()));
    }
    if is_word(&args[0], "send") {
        return Ok(Command::Send);
    }
    if is_word(&args[0], "receive") {
        return Ok(Command::Receive);
    }
    if n >= 2 && is_word(&args[0], "db") && is_word(&args[1], "init") {
        return Ok(Command::DbInit);
    }
    if n >= 2 && is_word(&args[0], "db") && is_word(&args[1], "public") {
        return Ok(Command::DbPublic);
    }
    if n >= 2 && is_word(&args[0], "contact") && is_word(&args[1], "add") {
        return Ok(Command::ContactAdd);
    }
    if n >= 2 && is_word(&args[0], "message") && is_word(&args[1], "send") {
        return Ok(Command::MessageSend);
    }
    if is_word(&args[0], "sync") {
        return Ok(Command::Sync);
    }
    if n >= 2 && is_word(&args[0], "messages") && is_word(&args[1], "list") {
        return Ok(Command::MessagesList);
    }
    Err(CliError::Usage(usage()))
}

/// The endpoint of the relay at `server` and the bytes of the request to
/// send it; fails as [`parse_relay_url`] does when the URL does not read.
pub fn relay_request(
    server: &str,
    method: &str,
    path: &str,
    bearer_token: Option<&str>,
    body: Option<Vec<u8>>,
) -> (r: Result<(HttpEndpoint, Vec<u8>), CliError>)
    ensures
        match url_split(server@) {
            Ok((host, port)) => r matches Ok((e, bytes)) && e.host@ == host && e.port == port
                && bytes@ == request_bytes(method@, path@, host, text_option(bearer_token), body_bytes(body)),
            Err(UrlProblem::NotHttp) => r matches Err(CliError::Usage(m)) && m@
                == "only http:// relay URLs are supported"@,
            Err(UrlProblem::InvalidPort) => r matches Err(CliError::Usage(m)) && m@
                == "invalid relay port"@,
        },
{
    let endpoint = parse_relay_url(server)?;
    let bytes = encode_http_request(&endpoint, method, path, bearer_token, body);
    Ok((endpoint, bytes))
}

/// The body of the relay's answer when it reads and its status is 2xx (see
/// [`response_outcome`]); otherwise an `Http` error with the reason.
pub fn relay_reply(response: &[u8]) -> (r: Result<&[u8], CliError>)
    ensures
        match response_outcome(response@) {
            Ok(body) => r matches Ok(b) && b@ == body,
            Err(message) => r matches Err(CliError::Http(m)) && m@ == message,
        },
{
    match read_response(response) {
        Ok(body) => Ok(body),
        Err(TransportError::Http(message)) => Err(CliError::Http(message)),
        Err(TransportError::InvalidUrl(message)) => Err(CliError::Http(message)),
        Err(TransportError::Io(error)) => Err(CliError::Io(error)),
        Err(TransportError::Json(error)) => Err(CliError::Json(error)),
    }
}

/// The line the tool prints for a received envelope: its message id, a colon
/// and the plaintext read as UTF-8 (invalid sequences replaced); fails with
/// the crypto error when the envelope does not open (see [`opened`]).
pub fn received_line(
    recipient: &IdentityKeypair,
    sender: &PublicIdentity,
    envelope: &Envelope,
) -> (r: Result<String, CliError>)
    ensures
        match opened(recipient.secret(), *sender, *envelope) {
            Ok(plaintext) => r matches Ok(line) && line@ == uuid_text(envelope.message_id@)
                + ": "@ + utf8_lossy_text(plaintext),
            Err(error) => r matches Err(CliError::Crypto(e)) && e == error,
        },
{
    match recipient.decrypt_from(sender, envelope) {
        Ok(plaintext) => {
            let mut line = envelope.message_id.text();
            push_str(&mut line, ": ");
            let text = utf8_lossy(plaintext.as_slice());
            push_str(&mut line, text.as_str());
            Ok(line)
        },
        Err(error) => Err(CliError::Crypto(error)),
    }
}

} // verus!
