//! Wire and domain types: peer identifiers, message ids, envelopes and the
//! exact bytes that an envelope's signature covers.
use vstd::prelude::*;
use crate::text::{append_be_u16, append_be_u64, append_bytes, be_u16, be_u64, chars_of, lower_hex, push_char, push_lower_hex};
use vstd::utf8::encode_utf8;
use vstd::string::StringSliceAdditionalSpecFns;

verus! {

/// The protocol version written into every envelope.
pub const PROTOCOL_VERSION: u16 = 1;

/// A protocol version number.
#[derive(Clone, Copy, Debug, PartialEq, Eq, Structural)]
pub struct ProtocolVersion(u16);

impl ProtocolVersion {
    /// The version this library speaks.
    pub fn current() -> (v: ProtocolVersion)
        ensures
            v.as_u16_spec() == PROTOCOL_VERSION,
    {
        ProtocolVersion(PROTOCOL_VERSION)
    }

    pub closed spec fn as_u16_spec(self) -> u16 {
        self.0
    }

    /// The number carried by this version.
    pub fn as_u16(self) -> (n: u16)
        ensures
            n == self.as_u16_spec(),
    {
        self.0
    }
}

/// A character that may appear in a peer identifier.
pub open spec fn peer_id_char(c: char) -> bool {
    ||| ('a' <= c && c <= 'z')
    ||| ('A' <= c && c <= 'Z')
    ||| ('0' <= c && c <= '9')
    ||| c == '-'
    ||| c == '_'
    ||| c == ':'
}

/// A text is a valid peer identifier when it is 16 to 128 characters long and
/// made only of ASCII letters, digits, `-`, `_` and `:`.
pub open spec fn valid_peer_id(s: Seq<char>) -> bool {
    &&& 16 <= s.len() <= 128
    &&& forall|i: int| 0 <= i < s.len() ==> #[trigger] peer_id_char(s[i])
}

/// The identifier of a peer, as text.
#[derive(Clone, Debug, PartialEq, Eq, Hash)]
pub struct PeerId(String);

impl View for PeerId {
    type V = Seq<char>;

    closed spec fn view(&self) -> Seq<char> {
        self.0@
    }
}

/// Checks that every character of `chars` may stand in a peer identifier.
fn all_peer_id_chars(chars: &Vec<char>) -> (ok: bool)
    ensures
        ok == (forall|i: int| 0 <= i < chars@.len() ==> #[trigger] peer_id_char(chars@[i])),
{
    let mut i: usize = 0;
    while i < chars.len()
        invariant
            i <= chars@.len(),
            forall|j: int| 0 <= j < i ==> #[trigger] peer_id_char(chars@[j]),
        decreases chars@.len() - i,
    {
        let c = chars[i];
        let allowed = ('a' <= c && c <= 'z') || ('A' <= c && c <= 'Z') || ('0' <= c && c <= '9')
            || c == '-' || c == '_' || c == ':';
        if !allowed {
            assert(!peer_id_char(chars@[i as int]));
            return false;
        }
        i = i + 1;
    }
    true
}

impl PeerId {
    /// Accepts `value` as a peer identifier when it is valid (see
    /// [`valid_peer_id`]); otherwise fails with `InvalidPeerId`.
    pub fn new(value: &str) -> (r: Result<PeerId, ProtocolError>)
        ensures
            r is Ok <==> valid_peer_id(value@),
            r matches Ok(p) ==> p@ == value@,
            r matches Err(e) ==> e == ProtocolError::InvalidPeerId,
    {
        let byte_len = value.len();
        let chars = chars_of(value);
        let all_allowed = all_peer_id_chars(&chars);
        let char_count = chars.len();
        proof {
            if all_allowed {
                assert(vstd::utf8::is_ascii_chars(value@)) by {
                    assert forall|i: int| 0 <= i < value@.len() implies '\0' <= #[trigger] value@[i]
                        <= '\u{7f}' by {
                        assert(peer_id_char(chars@[i]));
                    }
                }
                vstd::utf8::is_ascii_chars_encode_utf8(value@);
                assert(value.spec_bytes() == vstd::utf8::encode_utf8(value@));
                assert(chars@.len() == value@.len());
                assert(value@.len() <= usize::MAX);
                assert(byte_len == value@.len());
            }
        }
        if byte_len < 16 || byte_len > 128 {
            return Err(ProtocolError::InvalidPeerId);
        }
        if !all_allowed {
            return Err(ProtocolError::InvalidPeerId);
        }
        assert(chars@ == value@);
        Ok(PeerId(value.to_owned()))
    }

    /// Wraps text as an identifier without checking it, as decoding a stored
    /// or received identifier does.
    pub fn from_text(text: String) -> (p: PeerId)
        ensures
            p@ == text@,
    {
        PeerId(text)
    }

    /// The identifier's text.
    pub fn as_str(&self) -> (s: &str)
        ensures
            s@ == self@,
    {
        self.0.as_str()
    }

    /// The UTF-8 bytes of the identifier's text.
    pub fn as_bytes(&self) -> (b: &[u8])
        ensures
            b@ == vstd::utf8::encode_utf8(self@),
    {
        self.0.as_str().as_bytes()
    }

    /// A second identifier with the same text.
    pub fn cloned(&self) -> (p: PeerId)
        ensures
            p@ == self@,
    {
        PeerId(self.0.clone())
    }

    /// Whether two identifiers have the same text.
    pub fn same_as(&self, other: &PeerId) -> (b: bool)
        ensures
            b == (self@ == other@),
    {
        self.0 == other.0
    }
}


/// Calls `uuid::Uuid::new_v4` and gives the sixteen bytes of the random
/// version-4 UUID. Claimed: the version nibble (high half of byte 6) is 4 and
/// the variant (top two bits of byte 8) is `10`; the other bits are random.
#[verifier::external_body]
fn random_uuid_bytes() -> (b: [u8; 16])
    ensures
        b@[6] / 16 == 4,
        b@[8] / 64 == 2,
{
    *uuid::Uuid::new_v4().as_bytes()
}

/// Hyphenated lowercase text of sixteen UUID bytes, grouped 8-4-4-4-12 digits.
pub open spec fn uuid_text(b: Seq<u8>) -> Seq<char> {
    lower_hex(b.subrange(0, 4)) + seq!['-'] + lower_hex(b.subrange(4, 6)) + seq!['-']
        + lower_hex(b.subrange(6, 8)) + seq!['-'] + lower_hex(b.subrange(8, 10)) + seq!['-']
        + lower_hex(b.subrange(10, 16))
}

/// Appends the hyphenated text of sixteen UUID bytes to `s`.
pub fn push_uuid_text(s: &mut String, b: &[u8; 16])
    ensures
        final(s)@ == old(s)@ + uuid_text(b@),
{
    let ghost start = s@;
    let mut part: Vec<u8> = Vec::new();
    let mut i: usize = 0;
    while i < 16
        invariant
            i <= 16,
            b@.len() == 16,
            s@ == start + uuid_groups(b@, i as int),
            part@ == group_part(b@, i as int),
        decreases 16 - i,
    {
        part.push(b[i]);
        i = i + 1;
        if i == 4 || i == 6 || i == 8 || i == 10 || i == 16 {
            push_lower_hex(s, part.as_slice());
            if i != 16 {
                push_char(s, '-');
            }
            part = Vec::new();
        }
    }
    assert(uuid_groups(b@, 16) == uuid_text(b@));
}

spec fn group_start(i: int) -> int {
    if i < 4 { 0 } else if i < 6 { 4 } else if i < 8 { 6 } else if i < 10 { 8 } else { 10 }
}

spec fn group_part(b: Seq<u8>, i: int) -> Seq<u8> {
    if i == 4 || i == 6 || i == 8 || i == 10 || i == 16 { seq![] } else { b.subrange(group_start(i), i) }
}

spec fn uuid_groups(b: Seq<u8>, i: int) -> Seq<char> {
    if i < 4 {
        seq![]
    } else if i < 6 {
        lower_hex(b.subrange(0, 4)) + seq!['-']
    } else if i < 8 {
        lower_hex(b.subrange(0, 4)) + seq!['-'] + lower_hex(b.subrange(4, 6)) + seq!['-']
    } else if i < 10 {
        lower_hex(b.subrange(0, 4)) + seq!['-'] + lower_hex(b.subrange(4, 6)) + seq!['-']
            + lower_hex(b.subrange(6, 8)) + seq!['-']
    } else if i < 16 {
        lower_hex(b.subrange(0, 4)) + seq!['-'] + lower_hex(b.subrange(4, 6)) + seq!['-']
            + lower_hex(b.subrange(6, 8)) + seq!['-'] + lower_hex(b.subrange(8, 10)) + seq!['-']
    } else {
        uuid_text(b)
    }
}

/// A message identifier: the sixteen bytes of a UUID.
#[derive(Clone, Copy, Debug, PartialEq, Eq, Hash)]
pub struct MessageId([u8; 16]);

impl View for MessageId {
    type V = Seq<u8>;

    closed spec fn view(&self) -> Seq<u8> {
        self.0@
    }
}

impl MessageId {
    /// An identifier has sixteen bytes.
    pub proof fn lemma_sixteen_bytes(&self)
        ensures
            self@.len() == 16,
    {
    }

    /// A fresh random (version 4) identifier.
    pub fn new() -> (id: MessageId)
        ensures
            id@.len() == 16,
            id@[6] / 16 == 4,
            id@[8] / 64 == 2,
    {
        MessageId(random_uuid_bytes())
    }

    /// Whether two identifiers have the same bytes.
    pub fn same_as(&self, other: &MessageId) -> (b: bool)
        ensures
            b == (self@ == other@),
    {
        let mut i: usize = 0;
        while i < 16
            invariant
                i <= 16,
                self@.len() == 16,
                other@.len() == 16,
                forall|j: int| 0 <= j < i ==> self@[j] == other@[j],
            decreases 16 - i,
        {
            if self.0[i] != other.0[i] {
                return false;
            }
            i = i + 1;
        }
        assert(self@ =~= other@);
        true
    }

    /// The identifier with the given UUID bytes.
    pub fn from_bytes(bytes: [u8; 16]) -> (id: MessageId)
        ensures
            id@ == bytes@,
    {
        MessageId(bytes)
    }

    /// The identifier's UUID bytes.
    pub fn as_bytes(&self) -> (b: &[u8; 16])
        ensures
            b@ == self@,
    {
        &self.0
    }

    /// The identifier as hyphenated lowercase UUID text.
    pub fn text(&self) -> (s: String)
        ensures
            s@ == uuid_text(self@),
    {
        let mut s = String::new();
        push_uuid_text(&mut s, &self.0);
        s
    }

    /// Reads an identifier from UUID text as `uuid::Uuid::parse_str` does;
    /// `None` where that refuses the text. The text that [`MessageId::text`]
    /// writes reads back as the same identifier.
    pub fn parse(text: &str) -> (r: Option<MessageId>)
        ensures
            r is Some <==> uuid_parsed(text@) is Some,
            r matches Some(id) ==> uuid_parsed(text@) == Some(id@),
            forall|b: Seq<u8>|
                #![trigger uuid_text(b)]
                b.len() == 16 && text@ == uuid_text(b) ==> (r is Some && r->0@ == b),
    {
        match parse_uuid(text) {
            Some(bytes) => Some(MessageId(bytes)),
            None => None,
        }
    }
}

/// The sixteen bytes that `uuid::Uuid::parse_str` reads from a text, or `None`
/// where it refuses the text.
pub uninterp spec fn uuid_parsed(text: Seq<char>) -> Option<Seq<u8>>;

/// Calls `uuid::Uuid::parse_str` and gives the bytes of the UUID it reads.
/// Claims that the result is [`uuid_parsed`] of the text and, since the crate
/// documents that its parser reads every format the crate writes, that the
/// hyphenated lowercase text of sixteen bytes (see [`uuid_text`]) reads back
/// as those bytes. Which other texts it accepts is left to the name.
#[verifier::external_body]
fn parse_uuid(text: &str) -> (r: Option<[u8; 16]>)
    ensures
        r matches Some(x) ==> uuid_parsed(text@) == Some(x@),
        r is None ==> uuid_parsed(text@) is None,
        forall|b: Seq<u8>|
            #![trigger uuid_text(b)]
            b.len() == 16 && text@ == uuid_text(b) ==> (r is Some && r->0@ == b),
{
    match uuid::Uuid::parse_str(text) {
        Ok(uuid) => Some(*uuid.as_bytes()),
        Err(_) => None,
    }
}


/// Calls `blake3::hash` on `input` and gives the 32-byte digest.
#[verifier::external_body]
fn blake3_digest(input: &[u8]) -> (d: [u8; 32])
    ensures
        d@ == blake3_hash(input@),
{
    *blake3::hash(input).as_bytes()
}

/// The BLAKE3 hash (32 bytes) of a byte sequence, as `blake3::hash` computes it.
pub uninterp spec fn blake3_hash(input: Seq<u8>) -> Seq<u8>;

/// Domain prefix hashed in front of a peer's public keys.
pub open spec fn peer_id_domain() -> Seq<u8> {
    encode_utf8("messenger/peer-id/v1"@)
}

/// The identifier derived from a peer's public keys: `peer:` followed by the
/// first 32 lowercase hexadecimal digits (16 bytes) of the BLAKE3 hash of the
/// domain prefix, the signing key and the agreement key.
pub open spec fn derived_peer_id(signing_key: Seq<u8>, agreement_key: Seq<u8>) -> Seq<char> {
    "peer:"@ + lower_hex(blake3_hash(peer_id_domain() + signing_key + agreement_key).subrange(0, 16))
}

impl PeerId {
    /// The identifier derived from a peer's public signing and agreement keys
    /// (see [`derived_peer_id`]).
    pub fn from_public_identity(signing_key: &[u8; 32], agreement_key: &[u8; 32]) -> (p: PeerId)
        ensures
            p@ == derived_peer_id(signing_key@, agreement_key@),
            valid_peer_id(p@),
            p@.len() == 37,
    {
        let mut input: Vec<u8> = Vec::new();
        append_bytes(&mut input, "messenger/peer-id/v1".as_bytes());
        append_bytes(&mut input, signing_key.as_slice());
        append_bytes(&mut input, agreement_key.as_slice());
        let digest = blake3_digest(input.as_slice());
        let mut first: Vec<u8> = Vec::new();
        let mut i: usize = 0;
        while i < 16
            invariant
                i <= 16,
                digest@.len() == 32,
                first@ == digest@.subrange(0, i as int),
            decreases 16 - i,
        {
            first.push(digest[i]);
            assert(digest@.subrange(0, i + 1) =~= digest@.subrange(0, i as int).push(digest@[i as int]));
            i = i + 1;
        }
        let mut text = "peer:".to_owned();
        push_lower_hex(&mut text, first.as_slice());
        proof {
            lemma_derived_peer_id_is_valid(signing_key@, agreement_key@);
        }
        PeerId(text)
    }
}

/// A derived identifier is a valid identifier whenever the hash has its 32 bytes.
proof fn lemma_derived_peer_id_is_valid(signing_key: Seq<u8>, agreement_key: Seq<u8>)
    requires
        blake3_hash(peer_id_domain() + signing_key + agreement_key).len() == 32,
    ensures
        valid_peer_id(derived_peer_id(signing_key, agreement_key)),
        derived_peer_id(signing_key, agreement_key).len() == 37,
{
    let h = blake3_hash(peer_id_domain() + signing_key + agreement_key).subrange(0, 16);
    let t = derived_peer_id(signing_key, agreement_key);
    reveal_strlit("peer:");
    assert(t.len() == 37);
    assert forall|i: int| 0 <= i < t.len() implies #[trigger] peer_id_char(t[i]) by {
        if i >= 5 {
            let j = i - 5;
            let n = if j % 2 == 0 { h[j / 2] / 16 } else { h[j / 2] % 16 };
            assert(t[i] == hex_digit_of(n));
        }
    }
}

spec fn hex_digit_of(n: u8) -> char {
    crate::text::hex_digit(n)
}

/// Kinds of payload an envelope may carry.
#[derive(Clone, Copy, Debug, PartialEq, Eq, Structural)]
pub enum PayloadKind {
    Text,
    DeliveryReceipt,
    KeyAnnouncement,
    WebRtcSignal,
}

/// The name under which a payload kind enters the signed bytes.
pub open spec fn payload_kind_label(k: PayloadKind) -> Seq<char> {
    match k {
        PayloadKind::Text => "Text"@,
        PayloadKind::DeliveryReceipt => "DeliveryReceipt"@,
        PayloadKind::KeyAnnouncement => "KeyAnnouncement"@,
        PayloadKind::WebRtcSignal => "WebRtcSignal"@,
    }
}

impl PayloadKind {
    /// The kind's name, as it enters the signed bytes.
    pub fn label(self) -> (s: &'static str)
        ensures
            s@ == payload_kind_label(self),
    {
        match self {
            PayloadKind::Text => "Text",
            PayloadKind::DeliveryReceipt => "DeliveryReceipt",
            PayloadKind::KeyAnnouncement => "KeyAnnouncement",
            PayloadKind::WebRtcSignal => "WebRtcSignal",
        }
    }
}

/// Ways a message can travel.
#[derive(Clone, Copy, Debug, PartialEq, Eq, Structural)]
pub enum TransportKind {
    Relay,
    WebRtc,
    LocalNetwork,
}

/// Which transports a message may use.
#[derive(Clone, Copy, Debug, PartialEq, Eq, Structural)]
pub enum DeliveryPolicy {
    PreferDirect,
    DirectOnly,
    RelayOnly,
}

/// A chat message before encryption, addressed by conversation text.
#[derive(Clone, Debug, PartialEq, Eq)]
pub struct ChatMessage {
    pub conversation_id: String,
    pub body: String,
    pub client_created_at_ms: u64,
}

impl ChatMessage {
    /// A text message in a conversation, with creation time 0.
    pub fn text(conversation_id: &str, body: &str) -> (m: ChatMessage)
        ensures
            m.conversation_id@ == conversation_id@,
            m.body@ == body@,
            m.client_created_at_ms == 0,
    {
        ChatMessage {
            conversation_id: conversation_id.to_owned(),
            body: body.to_owned(),
            client_created_at_ms: 0,
        }
    }
}

/// A plain message in a conversation named by a UUID (its sixteen bytes).
#[derive(Clone, Debug, PartialEq, Eq)]
pub struct PlainMessage {
    pub conversation_id: [u8; 16],
    pub body: String,
    pub client_created_at_ms: u64,
}

/// An encrypted payload: algorithm name, nonce and ciphertext.
#[derive(Clone, Debug, PartialEq, Eq)]
pub struct CipherPayload {
    pub algorithm: String,
    pub nonce: Vec<u8>,
    pub ciphertext: Vec<u8>,
}

/// A signed, encrypted message between two peers.
#[derive(Clone, Debug, PartialEq, Eq)]
pub struct Envelope {
    pub version: u16,
    pub message_id: MessageId,
    pub sender: PeerId,
    pub recipient: PeerId,
    pub created_at_ms: u64,
    pub expires_at_ms: Option<u64>,
    pub payload_kind: PayloadKind,
    pub payload: CipherPayload,
    pub signature: Vec<u8>,
}

/// Everything that an envelope's signature covers except the ciphertext, which
/// comes last.
pub open spec fn signed_prefix(e: Envelope) -> Seq<u8> {
    be_u16(e.version) + e.message_id@ + encode_utf8(e.sender@) + seq![0u8] + encode_utf8(
        e.recipient@,
    ) + seq![0u8] + be_u64(e.created_at_ms) + be_u64(
        match e.expires_at_ms {
            Some(t) => t,
            None => 0,
        },
    ) + encode_utf8(payload_kind_label(e.payload_kind)) + seq![0u8] + encode_utf8(
        e.payload.algorithm@,
    ) + seq![0u8] + e.payload.nonce@ + seq![0u8]
}

/// The bytes an envelope's signature covers: version, message id, sender and
/// recipient text (each ended by a zero byte), creation and expiry times
/// (big-endian, a missing expiry as 0), payload kind name, algorithm name,
/// nonce (each ended by a zero byte) and finally the ciphertext. The signature
/// itself is not covered.
pub open spec fn envelope_signing_bytes(e: Envelope) -> Seq<u8> {
    signed_prefix(e) + e.payload.ciphertext@
}

impl Envelope {
    /// A new envelope from `sender` to `recipient` with a fresh random id, the
    /// current protocol version, no expiry and an empty signature.
    pub fn new_unsigned(
        sender: PeerId,
        recipient: PeerId,
        created_at_ms: u64,
        payload_kind: PayloadKind,
        payload: CipherPayload,
    ) -> (e: Envelope)
        ensures
            e.version == PROTOCOL_VERSION,
            e.message_id@.len() == 16,
            e.message_id@[6] / 16 == 4,
            e.message_id@[8] / 64 == 2,
            e.sender == sender,
            e.recipient == recipient,
            e.created_at_ms == created_at_ms,
            e.expires_at_ms is None,
            e.payload_kind == payload_kind,
            e.payload == payload,
            e.signature@.len() == 0,
    {
        Envelope {
            version: PROTOCOL_VERSION,
            message_id: MessageId::new(),
            sender,
            recipient,
            created_at_ms,
            expires_at_ms: None,
            payload_kind,
            payload,
            signature: Vec::new(),
        }
    }

    /// The bytes this envelope's signature covers (see
    /// [`envelope_signing_bytes`]).
    pub fn signing_bytes(&self) -> (bytes: Vec<u8>)
        ensures
            bytes@ == envelope_signing_bytes(*self),
    {
        let mut bytes: Vec<u8> = Vec::new();
        append_be_u16(&mut bytes, self.version);
        append_bytes(&mut bytes, self.message_id.as_bytes().as_slice());
        append_bytes(&mut bytes, self.sender.as_bytes());
        bytes.push(0);
        append_bytes(&mut bytes, self.recipient.as_bytes());
        bytes.push(0);
        append_be_u64(&mut bytes, self.created_at_ms);
        let expires = match self.expires_at_ms {
            Some(t) => t,
            None => 0,
        };
        append_be_u64(&mut bytes, expires);
        append_bytes(&mut bytes, self.payload_kind.label().as_bytes());
        bytes.push(0);
        append_bytes(&mut bytes, self.payload.algorithm.as_str().as_bytes());
        bytes.push(0);
        append_bytes(&mut bytes, self.payload.nonce.as_slice());
        bytes.push(0);
        append_bytes(&mut bytes, self.payload.ciphertext.as_slice());
        bytes
    }
}

/// Envelopes that differ only in their ciphertext are signed over different
/// bytes: a change of ciphertext changes the signing bytes.
pub proof fn lemma_signing_bytes_cover_ciphertext(a: Envelope, b: Envelope)
    requires
        signed_prefix(a) == signed_prefix(b),
        a.payload.ciphertext@ != b.payload.ciphertext@,
    ensures
        envelope_signing_bytes(a) != envelope_signing_bytes(b),
{
    let p = signed_prefix(a);
    if envelope_signing_bytes(a) == envelope_signing_bytes(b) {
        assert(a.payload.ciphertext@ =~= envelope_signing_bytes(a).subrange(
            p.len() as int,
            envelope_signing_bytes(a).len() as int,
        ));
        assert(b.payload.ciphertext@ =~= envelope_signing_bytes(b).subrange(
            p.len() as int,
            envelope_signing_bytes(b).len() as int,
        ));
    }
}

/// The UTF-8 bytes of a valid peer identifier are as many as its characters,
/// none of them is zero, and they decode back to the identifier.
proof fn lemma_peer_id_bytes(s: Seq<char>)
    requires
        valid_peer_id(s),
    ensures
        encode_utf8(s).len() == s.len(),
        forall|i: int| 0 <= i < s.len() ==> #[trigger] encode_utf8(s)[i] != 0,
        vstd::utf8::decode_utf8(encode_utf8(s)) == s,
{
    assert(vstd::utf8::is_ascii_chars(s)) by {
        assert forall|i: int| 0 <= i < s.len() implies '\0' <= #[trigger] s[i] <= '\u{7f}' by {
            assert(peer_id_char(s[i]));
        }
    }
    vstd::utf8::is_ascii_chars_encode_utf8(s);
    vstd::utf8::encode_utf8_decode_utf8(s);
    assert forall|i: int| 0 <= i < s.len() implies #[trigger] encode_utf8(s)[i] != 0 by {
        let c = s[i];
        assert(peer_id_char(c));
        assert(c as u8 == encode_utf8(s)[i]);
        assert((c as u32) >= 0x2d && (c as u32) <= 0x7a);
        let u: u32 = c as u32;
        assert(u >= 0x2d && u <= 0x7a ==> (u as u8) != 0) by (bit_vector);
        assert((c as u8) == ((c as u32) as u8));
    }
}

/// Big-endian encoding of a `u16` is one to one.
proof fn lemma_be_u16_injective(x: u16, y: u16)
    requires
        be_u16(x) == be_u16(y),
    ensures
        x == y,
{
    assert(be_u16(x)[0] == be_u16(y)[0] && be_u16(x)[1] == be_u16(y)[1]);
    assert(((x >> 8u16) as u8 == (y >> 8u16) as u8 && x as u8 == y as u8) ==> x == y) by (bit_vector);
}

/// Big-endian encoding of a `u64` is one to one.
proof fn lemma_be_u64_injective(x: u64, y: u64)
    requires
        be_u64(x) == be_u64(y),
    ensures
        x == y,
{
    let a = be_u64(x);
    let b = be_u64(y);
    assert(a[0] == b[0] && a[1] == b[1] && a[2] == b[2] && a[3] == b[3]);
    assert(a[4] == b[4] && a[5] == b[5] && a[6] == b[6] && a[7] == b[7]);
    assert(((x >> 56u64) as u8 == (y >> 56u64) as u8 && (x >> 48u64) as u8 == (y >> 48u64) as u8
        && (x >> 40u64) as u8 == (y >> 40u64) as u8 && (x >> 32u64) as u8 == (y >> 32u64) as u8
        && (x >> 24u64) as u8 == (y >> 24u64) as u8 && (x >> 16u64) as u8 == (y >> 16u64) as u8
        && (x >> 8u64) as u8 == (y >> 8u64) as u8 && x as u8 == y as u8) ==> x == y) by (bit_vector);
}

/// The expiry written into the signing bytes (a missing expiry as 0).
pub open spec fn expiry_field(e: Envelope) -> u64 {
    match e.expires_at_ms {
        Some(t) => t,
        None => 0,
    }
}

/// A zero byte ends a field that holds no zero byte: two such fields followed
/// by the same bytes are the same, and so are the bytes after them.
proof fn lemma_zero_terminated(x: Seq<u8>, r1: Seq<u8>, y: Seq<u8>, r2: Seq<u8>)
    requires
        x + (seq![0u8] + r1) == y + (seq![0u8] + r2),
        forall|i: int| 0 <= i < x.len() ==> #[trigger] x[i] != 0,
        forall|i: int| 0 <= i < y.len() ==> #[trigger] y[i] != 0,
    ensures
        x == y,
        r1 == r2,
{
    let whole = x + (seq![0u8] + r1);
    if x.len() < y.len() {
        assert(whole[x.len() as int] == 0);
        assert(whole[x.len() as int] == y[x.len() as int]);
    }
    if y.len() < x.len() {
        assert(whole[y.len() as int] == x[y.len() as int]);
        assert(whole[y.len() as int] == 0);
    }
    assert(x =~= whole.subrange(0, x.len() as int));
    assert(y =~= whole.subrange(0, y.len() as int));
    assert(r1 =~= whole.subrange(x.len() as int + 1, whole.len() as int));
    assert(r2 =~= whole.subrange(y.len() as int + 1, whole.len() as int));
}

/// The signing bytes of an envelope after its version and message id: the
/// sender, a zero byte, and what follows it.
spec fn after_id(e: Envelope) -> Seq<u8> {
    encode_utf8(e.sender@) + (seq![0u8] + after_sender(e))
}

/// The signing bytes after the sender's zero byte: the recipient, a zero
/// byte, and what follows it.
spec fn after_sender(e: Envelope) -> Seq<u8> {
    encode_utf8(e.recipient@) + (seq![0u8] + after_recipient(e))
}

/// The signing bytes after the recipient's zero byte: the two times, then the
/// payload fields.
spec fn after_recipient(e: Envelope) -> Seq<u8> {
    be_u64(e.created_at_ms) + be_u64(expiry_field(e)) + (encode_utf8(payload_kind_label(e.payload_kind))
        + seq![0u8] + encode_utf8(e.payload.algorithm@) + seq![0u8] + e.payload.nonce@ + seq![0u8]
        + e.payload.ciphertext@)
}

proof fn lemma_signing_bytes_layout(e: Envelope)
    ensures
        envelope_signing_bytes(e) == be_u16(e.version) + e.message_id@ + after_id(e),
{
    assert(envelope_signing_bytes(e) =~= be_u16(e.version) + e.message_id@ + after_id(e));
}

/// Envelopes whose peer identifiers are valid and whose signing bytes are
/// equal agree on version, message id, sender, recipient, creation time and
/// expiry (a missing expiry counts as 0): a signature over an envelope
/// covers its routing header.
pub proof fn lemma_signing_bytes_cover_header(a: Envelope, b: Envelope)
    requires
        valid_peer_id(a.sender@),
        valid_peer_id(a.recipient@),
        valid_peer_id(b.sender@),
        valid_peer_id(b.recipient@),
        envelope_signing_bytes(a) == envelope_signing_bytes(b),
    ensures
        a.version == b.version,
        a.message_id@ == b.message_id@,
        a.sender@ == b.sender@,
        a.recipient@ == b.recipient@,
        a.created_at_ms == b.created_at_ms,
        expiry_field(a) == expiry_field(b),
{
    a.message_id.lemma_sixteen_bytes();
    b.message_id.lemma_sixteen_bytes();
    lemma_signing_bytes_layout(a);
    lemma_signing_bytes_layout(b);
    let bytes = envelope_signing_bytes(a);
    // Version and message id sit at fixed places.
    assert(bytes.subrange(0, 2) =~= be_u16(a.version));
    assert(bytes.subrange(0, 2) =~= be_u16(b.version));
    lemma_be_u16_injective(a.version, b.version);
    assert(bytes.subrange(2, 18) =~= a.message_id@);
    assert(bytes.subrange(2, 18) =~= b.message_id@);
    assert(bytes.subrange(18, bytes.len() as int) =~= after_id(a));
    assert(bytes.subrange(18, bytes.len() as int) =~= after_id(b));
    // Sender and recipient each end at a zero byte.
    lemma_peer_id_bytes(a.sender@);
    lemma_peer_id_bytes(b.sender@);
    lemma_zero_terminated(encode_utf8(a.sender@), after_sender(a), encode_utf8(b.sender@), after_sender(b));
    lemma_peer_id_bytes(a.recipient@);
    lemma_peer_id_bytes(b.recipient@);
    lemma_zero_terminated(
        encode_utf8(a.recipient@),
        after_recipient(a),
        encode_utf8(b.recipient@),
        after_recipient(b),
    );
    // The two times follow at fixed places.
    let rest = after_recipient(a);
    assert(rest.subrange(0, 8) =~= be_u64(a.created_at_ms));
    assert(rest.subrange(0, 8) =~= be_u64(b.created_at_ms));
    lemma_be_u64_injective(a.created_at_ms, b.created_at_ms);
    assert(rest.subrange(8, 16) =~= be_u64(expiry_field(a)));
    assert(rest.subrange(8, 16) =~= be_u64(expiry_field(b)));
    lemma_be_u64_injective(expiry_field(a), expiry_field(b));
}

/// Routing information of an envelope without its payload.
#[derive(Clone, Debug, PartialEq, Eq)]
pub struct EnvelopeHeader {
    pub version: u16,
    pub message_id: MessageId,
    pub sender: PeerId,
    pub recipient: PeerId,
    pub created_at_ms: u64,
    pub expires_at_ms: Option<u64>,
    pub payload_kind: PayloadKind,
    pub delivery_policy: DeliveryPolicy,
}

impl EnvelopeHeader {
    /// A header for a text message from `sender` to `recipient`, with a fresh
    /// random id, creation time 0, no expiry and the prefer-direct policy.
    pub fn new(sender: PeerId, recipient: PeerId) -> (h: EnvelopeHeader)
        ensures
            h.version == PROTOCOL_VERSION,
            h.message_id@.len() == 16,
            h.message_id@[6] / 16 == 4,
            h.message_id@[8] / 64 == 2,
            h.sender == sender,
            h.recipient == recipient,
            h.created_at_ms == 0,
            h.expires_at_ms is None,
            h.payload_kind == PayloadKind::Text,
            h.delivery_policy == DeliveryPolicy::PreferDirect,
    {
        EnvelopeHeader {
            version: PROTOCOL_VERSION,
            message_id: MessageId::new(),
            sender,
            recipient,
            created_at_ms: 0,
            expires_at_ms: None,
            payload_kind: PayloadKind::Text,
            delivery_policy: DeliveryPolicy::PreferDirect,
        }
    }
}

/// A relay's authentication challenge, to be signed by the peer it names.
#[derive(Clone, Debug, PartialEq, Eq)]
pub struct AuthChallenge {
    pub challenge_id: String,
    pub peer_id: PeerId,
    pub nonce: String,
    pub expires_at_ms: u64,
}

/// The bytes a challenge signature covers: challenge id, peer id and nonce
/// text, each ended by a zero byte, then the expiry time (big-endian).
pub open spec fn challenge_signing_bytes(c: AuthChallenge) -> Seq<u8> {
    encode_utf8(c.challenge_id@) + seq![0u8] + encode_utf8(c.peer_id@) + seq![0u8] + encode_utf8(
        c.nonce@,
    ) + seq![0u8] + be_u64(c.expires_at_ms)
}

impl AuthChallenge {
    /// The bytes this challenge's signature covers (see
    /// [`challenge_signing_bytes`]).
    pub fn signing_bytes(&self) -> (bytes: Vec<u8>)
        ensures
            bytes@ == challenge_signing_bytes(*self),
    {
        let mut bytes: Vec<u8> = Vec::new();
        append_bytes(&mut bytes, self.challenge_id.as_str().as_bytes());
        bytes.push(0);
        append_bytes(&mut bytes, self.peer_id.as_bytes());
        bytes.push(0);
        append_bytes(&mut bytes, self.nonce.as_str().as_bytes());
        bytes.push(0);
        append_be_u64(&mut bytes, self.expires_at_ms);
        bytes
    }
}

impl Default for MessageId {
    /// A fresh random identifier, as [`MessageId::new`] gives.
    fn default() -> (id: MessageId)
        ensures
            id@.len() == 16,
            id@[6] / 16 == 4,
            id@[8] / 64 == 2,
    {
        MessageId::new()
    }
}

/// Errors of the protocol layer.
#[derive(Debug, PartialEq, Eq, Structural)]
pub enum ProtocolError {
    InvalidPeerId,
    InvalidEnvelope,
    UnsupportedVersion(u16),
}

} // verus!
