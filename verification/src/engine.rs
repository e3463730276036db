//! The messenger's core: one identity that composes and opens messages.
use vstd::prelude::*;
use crate::crypto::{
    bytes_result, is_public_identity_of, opened, sealed_for, sealed_header, CryptoError,
    IdentityKeypair, PublicIdentity, x25519_public, XCHACHA_MAX_PLAINTEXT,
};
use crate::protocol::{Envelope, PeerId};
use crate::storage::StorageError;

verus! {

/// Errors of the core.
#[derive(Debug)]
pub enum CoreError {
    Crypto(CryptoError),
    Storage(StorageError),
}

/// A messenger core holding one identity.
#[derive(Clone)]
pub struct MessengerCore {
    identity: IdentityKeypair,
}

impl MessengerCore {
    /// The identity this core acts as.
    pub closed spec fn keys(&self) -> IdentityKeypair {
        self.identity
    }

    /// A core acting as `identity`.
    pub fn new(identity: IdentityKeypair) -> (c: MessengerCore)
        ensures
            c.keys() == identity,
    {
        MessengerCore { identity }
    }

    /// A core with a fresh random identity.
    pub fn generate() -> (c: MessengerCore)
        ensures
            c.keys().seed().len() == 32,
            c.keys().secret().len() == 32,
    {
        MessengerCore::new(IdentityKeypair::generate())
    }

    /// The identifier of this core's identity.
    pub fn peer_id(&self) -> (id: PeerId)
        ensures
            id@ == self.keys().peer_text(),
    {
        self.identity.peer_id()
    }

    /// This core's identity.
    pub fn identity(&self) -> (k: &IdentityKeypair)
        ensures
            *k == self.keys(),
    {
        &self.identity
    }

    /// Encrypts `plaintext` for `recipient` (see
    /// [`IdentityKeypair::encrypt_for`]).
    pub fn compose_message(&self, recipient: &PublicIdentity, plaintext: &[u8]) -> (r: Result<
        Envelope,
        CoreError,
    >)
        ensures
            match r {
                Ok(e) => {
                    &&& sealed_header(e, self.keys().peer_text(), recipient.peer_id@)
                    &&& sealed_for(
                        e,
                        self.keys().seed(),
                        self.keys().secret(),
                        recipient.agreement_key@,
                        plaintext@,
                    )
                },
                Err(err) => err is Crypto && err->Crypto_0 == CryptoError::EncryptionFailed,
            },
            r is Ok <==> plaintext@.len() < XCHACHA_MAX_PLAINTEXT,
            r matches Ok(e) ==> e.payload.ciphertext@.len() == plaintext@.len() + 16,
    {
        match self.identity.encrypt_for(recipient, plaintext) {
            Ok(envelope) => Ok(envelope),
            Err(error) => Err(CoreError::Crypto(error)),
        }
    }

    /// Opens an envelope from `sender` (see [`IdentityKeypair::decrypt_from`]).
    pub fn open_message(&self, sender: &PublicIdentity, envelope: &Envelope) -> (r: Result<
        Vec<u8>,
        CoreError,
    >)
        ensures
            match opened(self.keys().secret(), *sender, *envelope) {
                Ok(p) => r matches Ok(v) && v@ == p,
                Err(e) => r matches Err(CoreError::Crypto(c)) && c == e,
            },
            forall|seed: Seq<u8>, secret: Seq<u8>, plaintext: Seq<u8>|
                seed.len() == 32 && secret.len() == 32 && is_public_identity_of(*sender, seed, secret)
                    && #[trigger] sealed_for(
                    *envelope,
                    seed,
                    secret,
                    x25519_public(self.keys().secret()),
                    plaintext,
                ) ==> (r matches Ok(v) && v@ == plaintext),
    {
        let r = self.identity.decrypt_from(sender, envelope);
        match r {
            Ok(plaintext) => Ok(plaintext),
            Err(error) => Err(CoreError::Crypto(error)),
        }
    }
}

} // verus!
