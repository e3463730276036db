//! Identity keys, contact public keys, and encrypted signed envelopes.
//!
//! Signing uses Ed25519, key agreement X25519, key derivation BLAKE3 and
//! encryption XChaCha20-Poly1305. The keys are held as plain bytes; each
//! primitive is one call into its crate, and what that call computes is named
//! by an uninterpreted function below.
use vstd::prelude::*;
use chacha20poly1305::aead::{Aead, KeyInit};
use ed25519_dalek::{Signer, Verifier};
use rand_core::RngCore;
use crate::protocol::{
    challenge_signing_bytes, derived_peer_id, envelope_signing_bytes, uuid_text, valid_peer_id, AuthChallenge,
    CipherPayload, Envelope, MessageId, PayloadKind, PeerId, PlainMessage, ProtocolError,
    PROTOCOL_VERSION,
};
use crate::text::{append_be_u16, append_bytes, be_u16, decimal, push_char, push_decimal};
use crate::protocol::push_uuid_text;
use crate::clock::now_ms;
use vstd::utf8::encode_utf8;

verus! {

/// Length of an XChaCha20-Poly1305 nonce.
pub const NONCE_LEN: usize = 24;

/// The Ed25519 verifying key (32 bytes) of a 32-byte secret key seed.
pub uninterp spec fn ed25519_public(seed: Seq<u8>) -> Seq<u8>;

/// The Ed25519 signature (64 bytes) of `message` under the secret key seed.
pub uninterp spec fn ed25519_signature(seed: Seq<u8>, message: Seq<u8>) -> Seq<u8>;

/// Whether 32 bytes decode to an Ed25519 verifying key (a curve point).
pub uninterp spec fn ed25519_key_accepted(public: Seq<u8>) -> bool;

/// Whether a 64-byte signature over `message` verifies under `public`.
pub uninterp spec fn ed25519_verifies(public: Seq<u8>, message: Seq<u8>, signature: Seq<u8>) -> bool;

/// The X25519 public key of a 32-byte secret.
pub uninterp spec fn x25519_public(secret: Seq<u8>) -> Seq<u8>;

/// The X25519 shared secret of an own secret and a peer's public key.
pub uninterp spec fn x25519_shared(secret: Seq<u8>, public: Seq<u8>) -> Seq<u8>;

/// The 32-byte key that BLAKE3 derives from a context string and key material.
pub uninterp spec fn blake3_derived_key(context: Seq<char>, material: Seq<u8>) -> Seq<u8>;

/// XChaCha20-Poly1305 encryption (no associated data) of `plaintext` under a
/// 32-byte key and a 24-byte nonce: the ciphertext with its tag, or `None`
/// when the cipher refuses the input.
pub uninterp spec fn xchacha_seal(key: Seq<u8>, nonce: Seq<u8>, plaintext: Seq<u8>) -> Option<Seq<u8>>;

/// XChaCha20-Poly1305 decryption (no associated data): the plaintext, or
/// `None` when the tag does not authenticate.
pub uninterp spec fn xchacha_open(key: Seq<u8>, nonce: Seq<u8>, ciphertext: Seq<u8>) -> Option<Seq<u8>>;

/// The bytes of an optional byte vector.
pub open spec fn bytes_option(v: Option<Vec<u8>>) -> Option<Seq<u8>> {
    match v {
        Some(b) => Some(b@),
        None => None,
    }
}

/// Calls `ed25519_dalek::SigningKey::from_bytes` on the seed and gives the
/// bytes of its verifying key.
#[verifier::external_body]
fn ed25519_public_key(seed: &[u8; 32]) -> (public: [u8; 32])
    ensures
        public@ == ed25519_public(seed@),
{
    ed25519_dalek::SigningKey::from_bytes(seed).verifying_key().to_bytes()
}

/// Calls `Signer::sign` of `ed25519_dalek::SigningKey` (built from the seed)
/// on `message`. Claimed: the 64 signature bytes are those named by
/// [`ed25519_signature`].
#[verifier::external_body]
fn ed25519_sign(seed: &[u8; 32], message: &[u8]) -> (signature: Vec<u8>)
    ensures
        signature@ == ed25519_signature(seed@, message@),
        signature@.len() == 64,
{
    ed25519_dalek::SigningKey::from_bytes(seed).sign(message).to_bytes().to_vec()
}

/// Calls `ed25519_dalek::VerifyingKey::from_bytes` and tells whether it
/// accepted the bytes. Claimed: it accepts every verifying key that a secret
/// key seed gives.
#[verifier::external_body]
fn ed25519_key_is_valid(public: &[u8; 32]) -> (ok: bool)
    ensures
        ok == ed25519_key_accepted(public@),
        forall|seed: Seq<u8>|
            seed.len() == 32 && #[trigger] ed25519_public(seed) == public@ ==> ok,
{
    ed25519_dalek::VerifyingKey::from_bytes(public).is_ok()
}

/// Calls `Verifier::verify` of `ed25519_dalek::VerifyingKey` with the
/// signature read by `ed25519_dalek::Signature::from_slice`. Claimed: a
/// signature made with a seed verifies under that seed's verifying key. That
/// no other signature verifies is a security property and is not stated.
#[verifier::external_body]
fn ed25519_verify(public: &[u8; 32], message: &[u8], signature: &[u8]) -> (ok: bool)
    requires
        ed25519_key_accepted(public@),
        signature@.len() == 64,
    ensures
        ok == ed25519_verifies(public@, message@, signature@),
        forall|seed: Seq<u8>|
            seed.len() == 32 && #[trigger] ed25519_public(seed) == public@
                && ed25519_signature(seed, message@) == signature@ ==> ok,
{
    match (
        ed25519_dalek::VerifyingKey::from_bytes(public),
        ed25519_dalek::Signature::from_slice(signature),
    ) {
        (Ok(key), Ok(signature)) => key.verify(message, &signature).is_ok(),
        _ => false,
    }
}

/// Calls `ed25519_dalek::SigningKey::generate` with the operating system's
/// random source and gives the new secret key seed. Nothing is claimed of
/// the bytes.
#[verifier::external_body]
fn ed25519_random_seed() -> (seed: [u8; 32]) {
    ed25519_dalek::SigningKey::generate(&mut rand_core::OsRng).to_bytes()
}

/// Calls `PublicKey::from(&StaticSecret)` of `x25519_dalek` and gives the
/// public key bytes.
#[verifier::external_body]
fn x25519_public_key(secret: &[u8; 32]) -> (public: [u8; 32])
    ensures
        public@ == x25519_public(secret@),
{
    x25519_dalek::PublicKey::from(&x25519_dalek::StaticSecret::from(*secret)).to_bytes()
}

/// Calls `x25519_dalek::StaticSecret::diffie_hellman`. Claimed: the
/// Diffie-Hellman property, that two peers who each combine their own secret
/// with the other's public key obtain the same shared secret.
#[verifier::external_body]
fn x25519_agree(secret: &[u8; 32], public: &[u8; 32]) -> (shared: [u8; 32])
    ensures
        shared@ == x25519_shared(secret@, public@),
        forall|other: Seq<u8>|
            other.len() == 32 && #[trigger] x25519_public(other) == public@ ==> shared@
                == x25519_shared(other, x25519_public(secret@)),
{
    x25519_dalek::StaticSecret::from(*secret)
        .diffie_hellman(&x25519_dalek::PublicKey::from(*public))
        .to_bytes()
}

/// Calls `x25519_dalek::StaticSecret::random_from_rng` with the operating
/// system's random source and gives the secret's bytes. Nothing is claimed of
/// the bytes.
#[verifier::external_body]
fn x25519_random_secret() -> (secret: [u8; 32]) {
    x25519_dalek::StaticSecret::random_from_rng(rand_core::OsRng).to_bytes()
}

/// Calls `blake3::derive_key`.
#[verifier::external_body]
fn blake3_derive(context: &str, material: &[u8]) -> (key: [u8; 32])
    ensures
        key@ == blake3_derived_key(context@, material@),
{
    blake3::derive_key(context, material)
}

/// The length from which XChaCha20-Poly1305 refuses a plaintext: 2^32 - 1
/// blocks of 64 bytes.
pub const XCHACHA_MAX_PLAINTEXT: u64 = 274877906880;

/// Calls `Aead::encrypt` of `chacha20poly1305::XChaCha20Poly1305`. Claimed, as
/// the crate's source shows: it refuses a plaintext exactly when it holds
/// [`XCHACHA_MAX_PLAINTEXT`] bytes or more, and otherwise appends the 16-byte
/// Poly1305 tag to a ciphertext as long as the plaintext.
#[verifier::external_body]
fn xchacha_encrypt(key: &[u8; 32], nonce: &[u8; 24], plaintext: &[u8]) -> (c: Option<Vec<u8>>)
    ensures
        bytes_option(c) == xchacha_seal(key@, nonce@, plaintext@),
        c is Some <==> plaintext@.len() < XCHACHA_MAX_PLAINTEXT,
        c matches Some(v) ==> v@.len() == plaintext@.len() + 16,
{
    chacha20poly1305::XChaCha20Poly1305::new(chacha20poly1305::Key::from_slice(key))
        .encrypt(chacha20poly1305::XNonce::from_slice(nonce), plaintext)
        .ok()
}

/// Calls `Aead::decrypt` of `chacha20poly1305::XChaCha20Poly1305`. Claimed:
/// decrypting what was encrypted under the same key and nonce gives the
/// plaintext back.
#[verifier::external_body]
fn xchacha_decrypt(key: &[u8; 32], nonce: &[u8; 24], ciphertext: &[u8]) -> (p: Option<Vec<u8>>)
    ensures
        bytes_option(p) == xchacha_open(key@, nonce@, ciphertext@),
        forall|plaintext: Seq<u8>|
            #[trigger] xchacha_seal(key@, nonce@, plaintext) == Some(ciphertext@) ==> bytes_option(p)
                == Some(plaintext),
{
    chacha20poly1305::XChaCha20Poly1305::new(chacha20poly1305::Key::from_slice(key))
        .decrypt(chacha20poly1305::XNonce::from_slice(nonce), ciphertext)
        .ok()
}

/// Calls `RngCore::fill_bytes` of `rand_core::OsRng` on a nonce buffer.
/// Nothing is claimed of the bytes.
#[verifier::external_body]
fn random_nonce() -> (nonce: [u8; 24]) {
    let mut nonce = [0u8; 24];
    rand_core::OsRng.fill_bytes(&mut nonce);
    nonce
}


/// Errors of the cryptographic layer.
#[derive(Debug, PartialEq, Eq, Structural)]
pub enum CryptoError {
    InvalidPublicKeyLength,
    InvalidPrivateKeyLength,
    InvalidSignature,
    EncryptionFailed,
    DecryptionFailed,
    Protocol(ProtocolError),
}

impl CryptoError {
    /// The error that wraps a protocol error.
    pub fn from_protocol(error: ProtocolError) -> (e: CryptoError)
        ensures
            e == CryptoError::Protocol(error),
    {
        CryptoError::Protocol(error)
    }
}

/// A peer's public identity: its identifier and its two public keys.
#[derive(Clone, Debug, PartialEq, Eq)]
pub struct PublicIdentity {
    pub peer_id: PeerId,
    pub signing_key: [u8; 32],
    pub agreement_key: [u8; 32],
}

/// `p` is the public identity of the secret key seed `seed` and agreement
/// secret `secret`.
pub open spec fn is_public_identity_of(p: PublicIdentity, seed: Seq<u8>, secret: Seq<u8>) -> bool {
    &&& p.signing_key@ == ed25519_public(seed)
    &&& p.agreement_key@ == x25519_public(secret)
    &&& p.peer_id@ == derived_peer_id(p.signing_key@, p.agreement_key@)
}

impl PublicIdentity {
    /// The public identity with these keys; its identifier is derived from
    /// them.
    pub fn from_keys(signing_key: [u8; 32], agreement_key: [u8; 32]) -> (p: PublicIdentity)
        ensures
            p.signing_key == signing_key,
            p.agreement_key == agreement_key,
            p.peer_id@ == derived_peer_id(signing_key@, agreement_key@),
            valid_peer_id(p.peer_id@),
            p.peer_id@.len() == 37,
    {
        let peer_id = PeerId::from_public_identity(&signing_key, &agreement_key);
        PublicIdentity { peer_id, signing_key, agreement_key }
    }
}

/// The secret halves of an identity, as stored.
#[derive(Clone, Copy, Debug, PartialEq, Eq)]
pub struct PrivateIdentity {
    pub signing_key: [u8; 32],
    pub agreement_secret: [u8; 32],
}

/// A peer's identity key pair: an Ed25519 secret key seed and an X25519
/// agreement secret.
#[derive(Clone)]
pub struct IdentityKeypair {
    signing_key: [u8; 32],
    agreement_secret: [u8; 32],
}

/// The key a message's payload is encrypted under: BLAKE3 key derivation in
/// the envelope context over the X25519 shared secret, the nonce, the message
/// id, and the sender and recipient identifiers.
pub open spec fn message_key(
    own_secret: Seq<u8>,
    peer_public: Seq<u8>,
    nonce: Seq<u8>,
    message_id: Seq<u8>,
    sender: Seq<char>,
    recipient: Seq<char>,
) -> Seq<u8> {
    blake3_derived_key(
        "messenger/v1/p2p-envelope"@,
        x25519_shared(own_secret, peer_public) + nonce + message_id + encode_utf8(sender)
            + encode_utf8(recipient),
    )
}

/// The key of envelope `e` for the holder of `own_secret` talking to the owner
/// of `peer_public`.
pub open spec fn envelope_key(own_secret: Seq<u8>, peer_public: Seq<u8>, e: Envelope) -> Seq<u8> {
    message_key(own_secret, peer_public, e.payload.nonce@, e.message_id@, e.sender@, e.recipient@)
}

/// The bytes an envelope signature is made over: the protocol version
/// (big-endian) followed by the envelope's signing bytes.
pub open spec fn signature_message(e: Envelope) -> Seq<u8> {
    be_u16(PROTOCOL_VERSION) + envelope_signing_bytes(e)
}

/// The algorithm name written into every payload.
pub open spec fn payload_algorithm() -> Seq<char> {
    "xchacha20poly1305+blake3-x25519"@
}

/// `e` holds `plaintext` sealed by the identity (`seed`, `secret`) for the
/// owner of the agreement key `recipient_agreement`: the sender is that
/// identity, the nonce has 24 bytes, the ciphertext is the encryption of
/// `plaintext` under the envelope's key, and the signature is the sender's
/// signature over the envelope.
pub open spec fn sealed_for(
    e: Envelope,
    seed: Seq<u8>,
    secret: Seq<u8>,
    recipient_agreement: Seq<u8>,
    plaintext: Seq<u8>,
) -> bool {
    &&& e.sender@ == derived_peer_id(ed25519_public(seed), x25519_public(secret))
    &&& e.payload.nonce@.len() == 24
    &&& xchacha_seal(envelope_key(secret, recipient_agreement, e), e.payload.nonce@, plaintext)
        == Some(e.payload.ciphertext@)
    &&& e.signature@ == ed25519_signature(seed, signature_message(e))
    &&& e.signature@.len() == 64
}

/// The header fields of an envelope sealed by `sender_id` for `recipient_id`.
pub open spec fn sealed_header(
    e: Envelope,
    sender_id: Seq<char>,
    recipient_id: Seq<char>,
) -> bool {
    &&& e.version == PROTOCOL_VERSION
    &&& e.sender@ == sender_id
    &&& e.recipient@ == recipient_id
    &&& e.expires_at_ms is None
    &&& e.payload_kind == PayloadKind::Text
    &&& e.payload.algorithm@ == payload_algorithm()
}

/// What opening envelope `e` from `sender` with the agreement secret `secret`
/// gives: the sender must match, the key must decode, the signature must have
/// 64 bytes and verify over the envelope, the nonce must have 24 bytes and the
/// ciphertext must decrypt.
pub open spec fn opened(secret: Seq<u8>, sender: PublicIdentity, e: Envelope) -> Result<
    Seq<u8>,
    CryptoError,
> {
    if e.sender@ != sender.peer_id@ {
        Err(CryptoError::InvalidSignature)
    } else if !ed25519_key_accepted(sender.signing_key@) {
        Err(CryptoError::InvalidPublicKeyLength)
    } else if e.signature@.len() != 64 {
        Err(CryptoError::InvalidSignature)
    } else if !ed25519_verifies(sender.signing_key@, signature_message(e), e.signature@) {
        Err(CryptoError::InvalidSignature)
    } else if e.payload.nonce@.len() != 24 {
        Err(CryptoError::DecryptionFailed)
    } else {
        match xchacha_open(envelope_key(secret, sender.agreement_key@, e), e.payload.nonce@, e.payload.ciphertext@) {
            Some(p) => Ok(p),
            None => Err(CryptoError::DecryptionFailed),
        }
    }
}

/// The bytes of a decryption result.
pub open spec fn bytes_result(r: Result<Vec<u8>, CryptoError>) -> Result<Seq<u8>, CryptoError> {
    match r {
        Ok(v) => Ok(v@),
        Err(e) => Err(e),
    }
}

/// What checking a signature over `message` by `sender` gives.
pub open spec fn signature_check(sender: PublicIdentity, message: Seq<u8>, signature: Seq<u8>) -> Result<
    (),
    CryptoError,
> {
    if !ed25519_key_accepted(sender.signing_key@) {
        Err(CryptoError::InvalidPublicKeyLength)
    } else if signature.len() != 64 {
        Err(CryptoError::InvalidSignature)
    } else if !ed25519_verifies(sender.signing_key@, message, signature) {
        Err(CryptoError::InvalidSignature)
    } else {
        Ok(())
    }
}

/// Checks `signature` over `message` against the sender's signing key.
fn check_signature(sender: &PublicIdentity, message: &[u8], signature: &[u8]) -> (r: Result<
    (),
    CryptoError,
>)
    ensures
        r == signature_check(*sender, message@, signature@),
        forall|seed: Seq<u8>|
            seed.len() == 32 && sender.signing_key@ == #[trigger] ed25519_public(seed)
                && signature@.len() == 64 && signature@ == ed25519_signature(seed, message@) ==> r is Ok,
{
    if !ed25519_key_is_valid(&sender.signing_key) {
        return Err(CryptoError::InvalidPublicKeyLength);
    }
    if signature.len() != 64 {
        return Err(CryptoError::InvalidSignature);
    }
    if !ed25519_verify(&sender.signing_key, message, signature) {
        return Err(CryptoError::InvalidSignature);
    }
    Ok(())
}


/// The protocol version followed by an envelope's signing bytes.
fn signature_message_bytes(envelope: &Envelope) -> (m: Vec<u8>)
    ensures
        m@ == signature_message(*envelope),
{
    let mut message: Vec<u8> = Vec::new();
    append_be_u16(&mut message, PROTOCOL_VERSION);
    let signing = envelope.signing_bytes();
    append_bytes(&mut message, signing.as_slice());
    message
}

/// The key of a message, computed from the own agreement secret and the
/// peer's public agreement key.
fn derive_message_key(
    own_secret: &[u8; 32],
    peer_public: &[u8; 32],
    nonce: &[u8; 24],
    envelope: &Envelope,
) -> (key: [u8; 32])
    ensures
        key@ == message_key(
            own_secret@,
            peer_public@,
            nonce@,
            envelope.message_id@,
            envelope.sender@,
            envelope.recipient@,
        ),
        forall|other: Seq<u8>|
            other.len() == 32 && #[trigger] x25519_public(other) == peer_public@ ==> key@
                == message_key(
                other,
                x25519_public(own_secret@),
                nonce@,
                envelope.message_id@,
                envelope.sender@,
                envelope.recipient@,
            ),
{
    let shared = x25519_agree(own_secret, peer_public);
    let mut material: Vec<u8> = Vec::new();
    append_bytes(&mut material, shared.as_slice());
    append_bytes(&mut material, nonce.as_slice());
    append_bytes(&mut material, envelope.message_id.as_bytes().as_slice());
    append_bytes(&mut material, envelope.sender.as_bytes());
    append_bytes(&mut material, envelope.recipient.as_bytes());
    blake3_derive("messenger/v1/p2p-envelope", material.as_slice())
}

/// The 24 bytes of a nonce held in a vector of that length.
fn nonce_array(bytes: &Vec<u8>) -> (nonce: [u8; 24])
    requires
        bytes@.len() == 24,
    ensures
        nonce@ == bytes@,
{
    let mut nonce = [0u8; 24];
    let mut i: usize = 0;
    while i < 24
        invariant
            i <= 24,
            bytes@.len() == 24,
            nonce@.len() == 24,
            forall|j: int| 0 <= j < i ==> nonce@[j] == bytes@[j],
        decreases 24 - i,
    {
        nonce[i] = bytes[i];
        i = i + 1;
    }
    assert(nonce@ =~= bytes@);
    nonce
}

/// Checks an envelope's signature against the sender's signing key.
pub fn verify_envelope_signature(sender: &PublicIdentity, envelope: &Envelope) -> (r: Result<
    (),
    CryptoError,
>)
    ensures
        r == signature_check(*sender, signature_message(*envelope), envelope.signature@),
        forall|seed: Seq<u8>|
            seed.len() == 32 && sender.signing_key@ == #[trigger] ed25519_public(seed)
                && envelope.signature@.len() == 64 && envelope.signature@ == ed25519_signature(
                seed,
                signature_message(*envelope),
            ) ==> r is Ok,
{
    let message = signature_message_bytes(envelope);
    check_signature(sender, message.as_slice(), envelope.signature.as_slice())
}

/// Checks a challenge signature against the sender's signing key.
pub fn verify_auth_challenge(
    sender: &PublicIdentity,
    challenge: &AuthChallenge,
    signature: &[u8],
) -> (r: Result<(), CryptoError>)
    ensures
        r == signature_check(*sender, challenge_signing_bytes(*challenge), signature@),
        forall|seed: Seq<u8>|
            seed.len() == 32 && sender.signing_key@ == #[trigger] ed25519_public(seed)
                && signature@.len() == 64 && signature@ == ed25519_signature(
                seed,
                challenge_signing_bytes(*challenge),
            ) ==> r is Ok,
{
    let message = challenge.signing_bytes();
    check_signature(sender, message.as_slice(), signature)
}

impl IdentityKeypair {
    /// The Ed25519 secret key seed.
    pub closed spec fn seed(&self) -> Seq<u8> {
        self.signing_key@
    }

    /// The X25519 agreement secret.
    pub closed spec fn secret(&self) -> Seq<u8> {
        self.agreement_secret@
    }

    /// The key pair holding the secrets of a private identity.
    pub closed spec fn from_private_spec(identity: PrivateIdentity) -> IdentityKeypair {
        IdentityKeypair {
            signing_key: identity.signing_key,
            agreement_secret: identity.agreement_secret,
        }
    }

    /// The private identity holding this key pair's secrets.
    pub closed spec fn private_spec(&self) -> PrivateIdentity {
        PrivateIdentity { signing_key: self.signing_key, agreement_secret: self.agreement_secret }
    }

    /// This key pair's peer identifier.
    pub open spec fn peer_text(&self) -> Seq<char> {
        derived_peer_id(ed25519_public(self.seed()), x25519_public(self.secret()))
    }

    /// A fresh key pair from the operating system's random source.
    pub fn generate() -> (k: IdentityKeypair)
        ensures
            k.seed().len() == 32,
            k.secret().len() == 32,
    {
        IdentityKeypair { signing_key: ed25519_random_seed(), agreement_secret: x25519_random_secret() }
    }

    /// The key pair holding the secrets of `identity`.
    pub fn from_private_identity(identity: PrivateIdentity) -> (k: IdentityKeypair)
        ensures
            k == IdentityKeypair::from_private_spec(identity),
            k.seed() == identity.signing_key@,
            k.secret() == identity.agreement_secret@,
    {
        IdentityKeypair {
            signing_key: identity.signing_key,
            agreement_secret: identity.agreement_secret,
        }
    }

    /// The secrets of this key pair, for storage.
    pub fn private_identity(&self) -> (p: PrivateIdentity)
        ensures
            p == self.private_spec(),
            p.signing_key@ == self.seed(),
            p.agreement_secret@ == self.secret(),
    {
        PrivateIdentity { signing_key: self.signing_key, agreement_secret: self.agreement_secret }
    }

    /// The public identity of this key pair.
    pub fn public_identity(&self) -> (p: PublicIdentity)
        ensures
            is_public_identity_of(p, self.seed(), self.secret()),
            valid_peer_id(p.peer_id@),
            p.peer_id@.len() == 37,
    {
        PublicIdentity::from_keys(ed25519_public_key(&self.signing_key), self.agreement_public_key())
    }

    /// This key pair's peer identifier.
    pub fn peer_id(&self) -> (id: PeerId)
        ensures
            id@ == self.peer_text(),
            valid_peer_id(id@),
            id@.len() == 37,
    {
        self.public_identity().peer_id
    }

    /// The public X25519 agreement key.
    pub fn agreement_public_key(&self) -> (k: [u8; 32])
        ensures
            k@ == x25519_public(self.secret()),
    {
        x25519_public_key(&self.agreement_secret)
    }

    /// Signs a relay challenge.
    pub fn sign_auth_challenge(&self, challenge: &AuthChallenge) -> (signature: Vec<u8>)
        ensures
            signature@ == ed25519_signature(self.seed(), challenge_signing_bytes(*challenge)),
            signature@.len() == 64,
    {
        let message = challenge.signing_bytes();
        ed25519_sign(&self.signing_key, message.as_slice())
    }

    fn sign_envelope(&self, envelope: &Envelope) -> (signature: Vec<u8>)
        ensures
            signature@ == ed25519_signature(self.seed(), signature_message(*envelope)),
            signature@.len() == 64,
    {
        let message = signature_message_bytes(envelope);
        ed25519_sign(&self.signing_key, message.as_slice())
    }

    /// Seals `plaintext` for `recipient` with the given nonce, creation time
    /// and message id: the envelope's payload is the encryption of `plaintext`
    /// under the message key, and the envelope is signed. Fails with
    /// `EncryptionFailed` exactly when the cipher refuses the plaintext.
    pub fn seal_envelope(
        &self,
        recipient: &PublicIdentity,
        plaintext: &[u8],
        nonce: [u8; 24],
        created_at_ms: u64,
        message_id: MessageId,
    ) -> (r: Result<Envelope, CryptoError>)
        ensures
            match r {
                Ok(e) => {
                    &&& sealed_header(e, self.peer_text(), recipient.peer_id@)
                    &&& e.message_id == message_id
                    &&& e.created_at_ms == created_at_ms
                    &&& e.payload.nonce@ == nonce@
                    &&& sealed_for(e, self.seed(), self.secret(), recipient.agreement_key@, plaintext@)
                },
                Err(err) => err == CryptoError::EncryptionFailed,
            },
            r is Ok <==> plaintext@.len() < XCHACHA_MAX_PLAINTEXT,
            r matches Ok(e) ==> e.payload.ciphertext@.len() == plaintext@.len() + 16,
            r is Err <==> xchacha_seal(
                message_key(
                    self.secret(),
                    recipient.agreement_key@,
                    nonce@,
                    message_id@,
                    self.peer_text(),
                    recipient.peer_id@,
                ),
                nonce@,
                plaintext@,
            ) is None,
    {
        let sender = self.public_identity();
        let payload = CipherPayload {
            algorithm: "xchacha20poly1305+blake3-x25519".to_owned(),
            nonce: vstd::slice::slice_to_vec(nonce.as_slice()),
            ciphertext: Vec::new(),
        };
        let mut envelope = Envelope {
            version: PROTOCOL_VERSION,
            message_id,
            sender: sender.peer_id,
            recipient: recipient.peer_id.cloned(),
            created_at_ms,
            expires_at_ms: None,
            payload_kind: PayloadKind::Text,
            payload,
            signature: Vec::new(),
        };
        let key = derive_message_key(
            &self.agreement_secret,
            &recipient.agreement_key,
            &nonce,
            &envelope,
        );
        match xchacha_encrypt(&key, &nonce, plaintext) {
            Some(ciphertext) => {
                envelope.payload.ciphertext = ciphertext;
                let signature = self.sign_envelope(&envelope);
                envelope.signature = signature;
                Ok(envelope)
            },
            None => Err(CryptoError::EncryptionFailed),
        }
    }

    /// Encrypts `plaintext` for `recipient` in a new signed envelope, with a
    /// random nonce, a random message id and the current time. Whatever the
    /// random values, a returned envelope holds `plaintext` sealed by this key
    /// pair for the recipient's agreement key.
    pub fn encrypt_for(&self, recipient: &PublicIdentity, plaintext: &[u8]) -> (r: Result<
        Envelope,
        CryptoError,
    >)
        ensures
            match r {
                Ok(e) => {
                    &&& sealed_header(e, self.peer_text(), recipient.peer_id@)
                    &&& sealed_for(e, self.seed(), self.secret(), recipient.agreement_key@, plaintext@)
                },
                Err(err) => err == CryptoError::EncryptionFailed,
            },
            r is Ok <==> plaintext@.len() < XCHACHA_MAX_PLAINTEXT,
            r matches Ok(e) ==> e.payload.ciphertext@.len() == plaintext@.len() + 16,
    {
        let nonce = random_nonce();
        let message_id = MessageId::new();
        let created_at_ms = now_ms();
        self.seal_envelope(recipient, plaintext, nonce, created_at_ms, message_id)
    }

    /// Opens an envelope from `sender`: checks that it names the sender,
    /// checks the sender's signature, and decrypts the payload (see
    /// [`opened`]). An envelope that the sender's key pair sealed for this key
    /// pair opens to the sealed plaintext.
    pub fn decrypt_from(&self, sender: &PublicIdentity, envelope: &Envelope) -> (r: Result<
        Vec<u8>,
        CryptoError,
    >)
        ensures
            bytes_result(r) == opened(self.secret(), *sender, *envelope),
            forall|seed: Seq<u8>, secret: Seq<u8>, plaintext: Seq<u8>|
                seed.len() == 32 && secret.len() == 32 && is_public_identity_of(*sender, seed, secret)
                    && #[trigger] sealed_for(
                    *envelope,
                    seed,
                    secret,
                    x25519_public(self.secret()),
                    plaintext,
                ) ==> bytes_result(r) == Ok::<Seq<u8>, CryptoError>(plaintext),
    {
        if !envelope.sender.same_as(&sender.peer_id) {
            return Err(CryptoError::InvalidSignature);
        }
        match verify_envelope_signature(sender, envelope) {
            Ok(()) => {},
            Err(e) => {
                return Err(e);
            },
        }
        if envelope.payload.nonce.len() != 24 {
            return Err(CryptoError::DecryptionFailed);
        }
        let nonce = nonce_array(&envelope.payload.nonce);
        let key = derive_message_key(&self.agreement_secret, &sender.agreement_key, &nonce, envelope);
        match xchacha_decrypt(&key, &nonce, envelope.payload.ciphertext.as_slice()) {
            Some(plaintext) => Ok(plaintext),
            None => Err(CryptoError::DecryptionFailed),
        }
    }
}

/// Reading back the private identity of a key pair built from a private
/// identity gives that private identity.
pub proof fn lemma_private_identity_round_trip(identity: PrivateIdentity)
    ensures
        IdentityKeypair::from_private_spec(identity).private_spec() == identity,
{
}

/// The text a plain message is sealed as: the conversation UUID, a NUL, the
/// creation time in decimal, a NUL, and the body.
pub open spec fn sealed_text(message: PlainMessage) -> Seq<char> {
    uuid_text(message.conversation_id@) + seq!['\0'] + decimal(message.client_created_at_ms as nat)
        + seq!['\0'] + message.body@
}

/// Seals plain messages.
pub struct SealedMessage;

impl SealedMessage {
    /// Encrypts the UTF-8 bytes of the message's sealed text (see
    /// [`sealed_text`]) from `sender` for `recipient`.
    pub fn seal_text(
        sender: &IdentityKeypair,
        recipient: &PublicIdentity,
        message: &PlainMessage,
    ) -> (r: Result<Envelope, CryptoError>)
        ensures
            match r {
                Ok(e) => {
                    &&& sealed_header(e, sender.peer_text(), recipient.peer_id@)
                    &&& sealed_for(
                        e,
                        sender.seed(),
                        sender.secret(),
                        recipient.agreement_key@,
                        encode_utf8(sealed_text(*message)),
                    )
                },
                Err(err) => err == CryptoError::EncryptionFailed,
            },
            r is Ok <==> encode_utf8(sealed_text(*message)).len() < XCHACHA_MAX_PLAINTEXT,
            r matches Ok(e) ==> e.payload.ciphertext@.len() == encode_utf8(sealed_text(*message)).len()
                + 16,
    {
        let mut text = String::new();
        push_uuid_text(&mut text, &message.conversation_id);
        push_char(&mut text, '\0');
        push_decimal(&mut text, message.client_created_at_ms);
        push_char(&mut text, '\0');
        let mut i: usize = 0;
        let body = crate::text::chars_of(message.body.as_str());
        let ghost start = text@;
        while i < body.len()
            invariant
                i <= body@.len(),
                body@ == message.body@,
                text@ == start + body@.take(i as int),
            decreases body@.len() - i,
        {
            push_char(&mut text, body[i]);
            assert(body@.take(i + 1) =~= body@.take(i as int).push(body@[i as int]));
            i = i + 1;
        }
        assert(body@.take(body@.len() as int) =~= body@);
        assert(text@ =~= sealed_text(*message));
        sender.encrypt_for(recipient, text.as_str().as_bytes())
    }
}

} // verus!
