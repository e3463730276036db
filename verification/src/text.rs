//! Character and byte helpers shared by the protocol, transport and tool code.
use vstd::prelude::*;
use vstd::string::StrSliceExecFns;
use vstd::utf8::{decode_utf8, valid_utf8};

verus! {

/// Appends one character to a string.
#[verifier::external_body]
pub(crate) fn push_char(s: &mut String, c: char)
    ensures
        final(s)@ == old(s)@.push(c),
{
    s.push(c);
}

/// The characters of a string slice, in order.
pub fn chars_of(s: &str) -> (out: Vec<char>)
    ensures
        out@ == s@,
{
    let n = s.unicode_len();
    let mut out: Vec<char> = Vec::new();
    let mut i: usize = 0;
    while i < n
        invariant
            n == s@.len(),
            i <= n,
            out@ == s@.take(i as int),
        decreases n - i,
    {
        out.push(s.get_char(i));
        i = i + 1;
    }
    assert(s@.take(n as int) =~= s@);
    out
}


/// The lowercase hexadecimal digit for a value below sixteen.
pub open spec fn hex_digit(n: u8) -> char {
    if n < 10 {
        (48 + n) as char
    } else {
        (87 + n) as char
    }
}

/// Lowercase hexadecimal text of a byte sequence, two digits per byte, high
/// nibble first.
pub open spec fn lower_hex(bytes: Seq<u8>) -> Seq<char> {
    Seq::new(
        2 * bytes.len(),
        |i: int|
            if i % 2 == 0 {
                hex_digit(bytes[i / 2] / 16)
            } else {
                hex_digit(bytes[i / 2] % 16)
            },
    )
}

fn hex_char(n: u8) -> (c: char)
    requires
        n < 16,
    ensures
        c == hex_digit(n),
{
    if n < 10 {
        (48u8 + n) as char
    } else {
        (87u8 + n) as char
    }
}

/// Appends the lowercase hexadecimal text of `bytes` to `s`.
pub fn push_lower_hex(s: &mut String, bytes: &[u8])
    ensures
        final(s)@ == old(s)@ + lower_hex(bytes@),
{
    let ghost start = s@;
    let mut i: usize = 0;
    while i < bytes.len()
        invariant
            i <= bytes@.len(),
            s@ == start + lower_hex(bytes@.take(i as int)),
        decreases bytes@.len() - i,
    {
        let b = bytes[i];
        push_char(s, hex_char(b / 16));
        push_char(s, hex_char(b % 16));
        proof {
            assert(lower_hex(bytes@.take(i + 1)) =~= lower_hex(bytes@.take(i as int)).push(
                hex_digit(b / 16),
            ).push(hex_digit(b % 16)));
        }
        i = i + 1;
    }
    assert(bytes@.take(bytes@.len() as int) =~= bytes@);
}

/// The character of a decimal digit below ten.
pub open spec fn decimal_digit(d: nat) -> char {
    (48 + d) as char
}

/// Decimal text of a natural number, without sign or leading zeros.
pub open spec fn decimal(n: nat) -> Seq<char>
    decreases n,
{
    if n < 10 {
        seq![decimal_digit(n)]
    } else {
        decimal(n / 10).push(decimal_digit(n % 10))
    }
}

/// A digit below ten written as a character reads back as that digit.
proof fn lemma_decimal_digit_reads_back(d: nat)
    requires
        d < 10,
    ensures
        is_digit(decimal_digit(d)),
        digit_value(decimal_digit(d)) == d,
{
    let c = decimal_digit(d);
    let u: u32 = (48 + d) as u32;
    assert(c == u as char);
    vstd::utf8::char_u32_cast(c, c as u32);
    assert((c as u32) == u);
}

/// The decimal text of a number is a nonempty run of decimal digits whose
/// value is that number, so reading it back gives the number.
pub proof fn lemma_decimal_reads_back(n: nat)
    ensures
        decimal(n).len() > 0,
        all_digits(decimal(n)),
        digits_value(decimal(n)) == n,
    decreases n,
{
    let d = decimal(n);
    if n < 10 {
        lemma_decimal_digit_reads_back(n);
        assert(d.drop_last() =~= Seq::<char>::empty());
        assert(digits_value(d) == digits_value(d.drop_last()) * 10 + digit_value(d.last()));
    } else {
        lemma_decimal_reads_back(n / 10);
        lemma_decimal_digit_reads_back(n % 10);
        assert(d.drop_last() =~= decimal(n / 10));
        assert(d.last() == decimal_digit(n % 10));
        assert(digits_value(d) == digits_value(decimal(n / 10)) * 10 + digit_value(d.last()));
        assert((n / 10) * 10 + n % 10 == n) by (nonlinear_arith);
        assert forall|i: int| 0 <= i < d.len() implies #[trigger] is_digit(d[i]) by {
            if i < d.len() - 1 {
                assert(d[i] == decimal(n / 10)[i]);
            }
        }
    }
}

/// Appends the decimal text of `n` to `s`.
pub fn push_decimal(s: &mut String, n: u64)
    ensures
        final(s)@ == old(s)@ + decimal(n as nat),
    decreases n,
{
    if n >= 10 {
        push_decimal(s, n / 10);
    }
    let d = (n % 10) as u8;
    push_char(s, (48u8 + d) as char);
    proof {
        if n >= 10 {
            assert(decimal(n as nat) == decimal((n / 10) as nat).push(decimal_digit((n % 10) as nat)));
        }
    }
}

/// Whether a character is an ASCII decimal digit.
pub open spec fn is_digit(c: char) -> bool {
    '0' <= c && c <= '9'
}

/// The value of an ASCII decimal digit.
pub open spec fn digit_value(c: char) -> nat {
    (c as int - 48) as nat
}

/// The value of a run of decimal digits, most significant first.
pub open spec fn digits_value(s: Seq<char>) -> nat
    decreases s.len(),
{
    if s.len() == 0 {
        0
    } else {
        digits_value(s.drop_last()) * 10 + digit_value(s.last())
    }
}

/// Whether every character of `s` is a decimal digit.
pub open spec fn all_digits(s: Seq<char>) -> bool {
    forall|i: int| 0 <= i < s.len() ==> #[trigger] is_digit(s[i])
}

/// The digits of an unsigned number's text: an optional leading `+` is dropped.
pub open spec fn unsigned_digits(s: Seq<char>) -> Seq<char> {
    if s.len() > 0 && s[0] == '+' {
        s.drop_first()
    } else {
        s
    }
}

/// What parsing `s` as a `u16` gives: an optional `+`, then one or more
/// decimal digits whose value is at most 65535.
pub open spec fn parse_u16(s: Seq<char>) -> Option<u16> {
    let d = unsigned_digits(s);
    if d.len() > 0 && all_digits(d) && digits_value(d) <= 65535 {
        Some(digits_value(d) as u16)
    } else {
        None
    }
}

/// A prefix of a run of digits is worth no more than the whole run.
proof fn lemma_digits_prefix_le(s: Seq<char>, k: int)
    requires
        0 <= k <= s.len(),
        all_digits(s),
    ensures
        digits_value(s.take(k)) <= digits_value(s),
    decreases s.len(),
{
    if k < s.len() {
        let p = s.drop_last();
        assert(all_digits(p)) by {
            assert forall|i: int| 0 <= i < p.len() implies #[trigger] is_digit(p[i]) by {
                assert(is_digit(s[i]));
            }
        }
        lemma_digits_prefix_le(p, k);
        assert(p.take(k) =~= s.take(k));
    } else {
        assert(s.take(k) =~= s);
    }
}

/// Parses `chars[start..end]` as a `u16` (see [`parse_u16`]).
pub fn parse_u16_in(chars: &Vec<char>, start: usize, end: usize) -> (r: Option<u16>)
    requires
        start <= end <= chars@.len(),
    ensures
        r == parse_u16(chars@.subrange(start as int, end as int)),
{
    let ghost s = chars@.subrange(start as int, end as int);
    let mut first = start;
    if start < end && chars[start] == '+' {
        first = start + 1;
    }
    let ghost d = chars@.subrange(first as int, end as int);
    assert(d =~= unsigned_digits(s));
    if first == end {
        return None;
    }
    let mut value: u32 = 0;
    let mut i: usize = first;
    while i < end
        invariant
            start <= first <= i <= end <= chars@.len(),
            d == chars@.subrange(first as int, end as int),
            s == chars@.subrange(start as int, end as int),
            d == unsigned_digits(s),
            d.len() > 0,
            value as nat == digits_value(d.take(i - first)),
            value <= 65535,
            all_digits(d.take(i - first)),
        decreases end - i,
    {
        let c = chars[i];
        if !('0' <= c && c <= '9') {
            assert(!is_digit(d[i - first]));
            return None;
        }
        let ghost k = i - first;
        assert(d.take(k + 1).drop_last() =~= d.take(k));
        let next = value * 10 + ((c as u32) - 48);
        assert(all_digits(d.take(k + 1))) by {
            assert forall|j: int| 0 <= j < k + 1 implies #[trigger] is_digit(d.take(k + 1)[j]) by {
                if j < k {
                    assert(is_digit(d.take(k)[j]));
                }
            }
        }
        assert(d.take(k + 1).last() == c);
        assert(next as nat == digits_value(d.take(k + 1)));
        if next > 65535 {
            proof {
                if all_digits(d) {
                    lemma_digits_prefix_le(d, k + 1);
                }
            }
            return None;
        }
        value = next;
        i = i + 1;
    }
    assert(d.take(d.len() as int) =~= d);
    Some(value as u16)
}


/// Appends `bytes` to `v`.
pub fn append_bytes(v: &mut Vec<u8>, bytes: &[u8])
    ensures
        final(v)@ == old(v)@ + bytes@,
{
    let ghost start = v@;
    let mut i: usize = 0;
    while i < bytes.len()
        invariant
            i <= bytes@.len(),
            v@ == start + bytes@.take(i as int),
        decreases bytes@.len() - i,
    {
        v.push(bytes[i]);
        assert(bytes@.take(i + 1) =~= bytes@.take(i as int).push(bytes@[i as int]));
        i = i + 1;
    }
    assert(bytes@.take(bytes@.len() as int) =~= bytes@);
}

/// Big-endian bytes of a `u16`.
pub open spec fn be_u16(v: u16) -> Seq<u8> {
    seq![(v >> 8u16) as u8, v as u8]
}

/// Big-endian bytes of a `u64`.
pub open spec fn be_u64(v: u64) -> Seq<u8> {
    seq![
        (v >> 56u64) as u8,
        (v >> 48u64) as u8,
        (v >> 40u64) as u8,
        (v >> 32u64) as u8,
        (v >> 24u64) as u8,
        (v >> 16u64) as u8,
        (v >> 8u64) as u8,
        v as u8,
    ]
}

/// Appends the big-endian bytes of `value` to `v`.
pub fn append_be_u16(v: &mut Vec<u8>, value: u16)
    ensures
        final(v)@ == old(v)@ + be_u16(value),
{
    v.push((value >> 8u16) as u8);
    v.push(value as u8);
}

/// Appends the big-endian bytes of `value` to `v`.
pub fn append_be_u64(v: &mut Vec<u8>, value: u64)
    ensures
        final(v)@ == old(v)@ + be_u64(value),
{
    v.push((value >> 56u64) as u8);
    v.push((value >> 48u64) as u8);
    v.push((value >> 40u64) as u8);
    v.push((value >> 32u64) as u8);
    v.push((value >> 24u64) as u8);
    v.push((value >> 16u64) as u8);
    v.push((value >> 8u64) as u8);
    v.push(value as u8);
}

/// Appends the characters of `t` to `s`.
pub fn push_str(s: &mut String, t: &str)
    ensures
        final(s)@ == old(s)@ + t@,
{
    let chars = chars_of(t);
    let ghost start = s@;
    let mut i: usize = 0;
    while i < chars.len()
        invariant
            i <= chars@.len(),
            chars@ == t@,
            s@ == start + chars@.take(i as int),
        decreases chars@.len() - i,
    {
        push_char(s, chars[i]);
        assert(chars@.take(i + 1) =~= chars@.take(i as int).push(chars@[i as int]));
        i = i + 1;
    }
    assert(chars@.take(chars@.len() as int) =~= chars@);
}

/// The first position, at or after `i`, where `pattern` occurs in `s`.
pub open spec fn find_from(s: Seq<u8>, pattern: Seq<u8>, i: int) -> Option<int>
    decreases s.len() + 1 - i,
{
    if i < 0 || i + pattern.len() > s.len() {
        None
    } else if s.subrange(i, i + pattern.len()) == pattern {
        Some(i)
    } else {
        find_from(s, pattern, i + 1)
    }
}

/// `pattern` occurs first at `k` from `i` on: `find_from` finds it there.
pub proof fn lemma_find_from_first(s: Seq<u8>, pattern: Seq<u8>, i: int, k: int)
    requires
        0 <= i <= k,
        k + pattern.len() <= s.len(),
        s.subrange(k, k + pattern.len()) == pattern,
        forall|j: int| i <= j < k ==> #[trigger] s.subrange(j, j + pattern.len()) != pattern,
    ensures
        find_from(s, pattern, i) == Some(k),
    decreases k - i,
{
    if i < k {
        lemma_find_from_first(s, pattern, i + 1, k);
    }
}

/// No byte of `s` from `i` on starts `pattern`: `find_from` finds nothing.
pub proof fn lemma_find_from_none(s: Seq<u8>, pattern: Seq<u8>, i: int)
    requires
        0 <= i,
        pattern.len() > 0,
        forall|j: int| i <= j < s.len() ==> #[trigger] s[j] != pattern[0],
    ensures
        find_from(s, pattern, i) is None,
    decreases s.len() + 1 - i,
{
    if !(i + pattern.len() > s.len()) {
        assert(s.subrange(i, i + pattern.len())[0] == s[i]);
        lemma_find_from_none(s, pattern, i + 1);
    }
}

/// The first position where the two bytes `a b` occur in `s`, if any.
pub fn find_pair(s: &[u8], a: u8, b: u8) -> (r: Option<usize>)
    ensures
        r == match find_from(s@, seq![a, b], 0) {
            Some(i) => Some(i as usize),
            None => None::<usize>,
        },
{
    let mut i: usize = 0;
    while s.len() >= 2 && i <= s.len() - 2
        invariant
            i <= s@.len(),
            find_from(s@, seq![a, b], 0) == find_from(s@, seq![a, b], i as int),
        decreases s@.len() - i,
    {
        if s[i] == a && s[i + 1] == b {
            assert(s@.subrange(i as int, i + 2) =~= seq![a, b]);
            return Some(i);
        }
        assert(s@.subrange(i as int, i + 2) != seq![a, b]) by {
            if s[i as int] != a {
                assert(s@.subrange(i as int, i + 2)[0] != a);
            } else {
                assert(s@.subrange(i as int, i + 2)[1] != b);
            }
        }
        i = i + 1;
    }
    None
}

/// The first position where the four bytes `a b c d` occur in `s`, if any.
pub fn find_quad(s: &[u8], a: u8, b: u8, c: u8, d: u8) -> (r: Option<usize>)
    ensures
        r == match find_from(s@, seq![a, b, c, d], 0) {
            Some(i) => Some(i as usize),
            None => None::<usize>,
        },
{
    let mut i: usize = 0;
    while s.len() >= 4 && i <= s.len() - 4
        invariant
            i <= s@.len(),
            find_from(s@, seq![a, b, c, d], 0) == find_from(s@, seq![a, b, c, d], i as int),
        decreases s@.len() - i,
    {
        if s[i] == a && s[i + 1] == b && s[i + 2] == c && s[i + 3] == d {
            assert(s@.subrange(i as int, i + 4) =~= seq![a, b, c, d]);
            return Some(i);
        }
        assert(s@.subrange(i as int, i + 4) != seq![a, b, c, d]) by {
            let w = s@.subrange(i as int, i + 4);
            if s[i as int] != a {
                assert(w[0] != a);
            } else if s[i + 1] != b {
                assert(w[1] != b);
            } else if s[i + 2] != c {
                assert(w[2] != c);
            } else {
                assert(w[3] != d);
            }
        }
        i = i + 1;
    }
    None
}

/// Whether a character has the Unicode `White_Space` property.
pub open spec fn is_white_space(c: char) -> bool {
    ||| ('\u{9}' <= c && c <= '\u{d}')
    ||| c == ' '
    ||| c == '\u{85}'
    ||| c == '\u{a0}'
    ||| c == '\u{1680}'
    ||| ('\u{2000}' <= c && c <= '\u{200a}')
    ||| c == '\u{2028}'
    ||| c == '\u{2029}'
    ||| c == '\u{202f}'
    ||| c == '\u{205f}'
    ||| c == '\u{3000}'
}

/// Whether a character has the Unicode `White_Space` property.
pub fn white_space(c: char) -> (b: bool)
    ensures
        b == is_white_space(c),
{
    ('\u{9}' <= c && c <= '\u{d}') || c == ' ' || c == '\u{85}' || c == '\u{a0}' || c == '\u{1680}'
        || ('\u{2000}' <= c && c <= '\u{200a}') || c == '\u{2028}' || c == '\u{2029}' || c
        == '\u{202f}' || c == '\u{205f}' || c == '\u{3000}'
}

/// The first position at or after `i` that is not white space (or the end).
pub open spec fn skip_space(s: Seq<char>, i: int) -> int
    decreases s.len() - i,
{
    if i < 0 || i >= s.len() {
        if i < 0 { 0 } else { s.len() as int }
    } else if is_white_space(s[i]) {
        skip_space(s, i + 1)
    } else {
        i
    }
}

/// The first position at or after `i` that is white space (or the end).
pub open spec fn skip_word(s: Seq<char>, i: int) -> int
    decreases s.len() - i,
{
    if i < 0 || i >= s.len() {
        if i < 0 { 0 } else { s.len() as int }
    } else if !is_white_space(s[i]) {
        skip_word(s, i + 1)
    } else {
        i
    }
}

/// The second white-space-separated word of `s`, if it has one.
pub open spec fn second_word(s: Seq<char>) -> Option<Seq<char>> {
    let a = skip_space(s, 0);
    let b = skip_word(s, a);
    let c = skip_space(s, b);
    let d = skip_word(s, c);
    if c >= s.len() {
        None
    } else {
        Some(s.subrange(c, d))
    }
}

/// A run of non-white-space characters from `i` that ends at `k` (at white
/// space or at the end) is what `skip_word` skips.
pub proof fn lemma_skip_word_run(s: Seq<char>, i: int, k: int)
    requires
        0 <= i <= k <= s.len(),
        forall|j: int| i <= j < k ==> !is_white_space(#[trigger] s[j]),
        k == s.len() || is_white_space(s[k]),
    ensures
        skip_word(s, i) == k,
    decreases k - i,
{
    if i < k {
        lemma_skip_word_run(s, i + 1, k);
    }
}

/// A run of white space from `i` that ends at `k` (at a character that is
/// not white space, or at the end) is what `skip_space` skips.
pub proof fn lemma_skip_space_run(s: Seq<char>, i: int, k: int)
    requires
        0 <= i <= k <= s.len(),
        forall|j: int| i <= j < k ==> is_white_space(#[trigger] s[j]),
        k == s.len() || !is_white_space(s[k]),
    ensures
        skip_space(s, i) == k,
    decreases k - i,
{
    if i < k {
        lemma_skip_space_run(s, i + 1, k);
    }
}

proof fn lemma_skip_bounds(s: Seq<char>, i: int)
    requires
        0 <= i <= s.len(),
    ensures
        i <= skip_space(s, i) <= s.len(),
        i <= skip_word(s, i) <= s.len(),
    decreases s.len() - i,
{
    if i < s.len() {
        lemma_skip_bounds(s, i + 1);
    }
}

/// Position after the white space starting at `i`.
fn skip_space_from(chars: &Vec<char>, i: usize) -> (j: usize)
    requires
        i <= chars@.len(),
    ensures
        j == skip_space(chars@, i as int),
{
    let mut j = i;
    while j < chars.len() && white_space(chars[j])
        invariant
            i <= j <= chars@.len(),
            skip_space(chars@, i as int) == skip_space(chars@, j as int),
        decreases chars@.len() - j,
    {
        j = j + 1;
    }
    j
}

/// Position after the word starting at `i`.
fn skip_word_from(chars: &Vec<char>, i: usize) -> (j: usize)
    requires
        i <= chars@.len(),
    ensures
        j == skip_word(chars@, i as int),
{
    let mut j = i;
    while j < chars.len() && !white_space(chars[j])
        invariant
            i <= j <= chars@.len(),
            skip_word(chars@, i as int) == skip_word(chars@, j as int),
        decreases chars@.len() - j,
    {
        j = j + 1;
    }
    j
}

/// The bounds of the second word of `chars`, if it has one (see
/// [`second_word`]).
pub fn second_word_bounds(chars: &Vec<char>) -> (r: Option<(usize, usize)>)
    ensures
        match second_word(chars@) {
            Some(w) => r matches Some((c, d)) && c <= d <= chars@.len() && chars@.subrange(c as int, d as int) == w,
            None => r is None,
        },
{
    proof {
        lemma_skip_bounds(chars@, 0);
    }
    let a = skip_space_from(chars, 0);
    proof {
        lemma_skip_bounds(chars@, a as int);
    }
    let b = skip_word_from(chars, a);
    proof {
        lemma_skip_bounds(chars@, b as int);
    }
    let c = skip_space_from(chars, b);
    proof {
        lemma_skip_bounds(chars@, c as int);
    }
    let d = skip_word_from(chars, c);
    if c >= chars.len() {
        None
    } else {
        Some((c, d))
    }
}

/// The text `String::from_utf8_lossy` gives for a byte sequence.
pub uninterp spec fn utf8_lossy_text(bytes: Seq<u8>) -> Seq<char>;

/// Calls `String::from_utf8_lossy`. Claimed, as its documentation says: valid
/// UTF-8 gives the text it encodes.
#[verifier::external_body]
pub(crate) fn utf8_lossy(bytes: &[u8]) -> (s: String)
    ensures
        s@ == utf8_lossy_text(bytes@),
        valid_utf8(bytes@) ==> s@ == decode_utf8(bytes@),
{
    String::from_utf8_lossy(bytes).into_owned()
}

} // verus!
