use chacha20poly1305::aead::{Aead, KeyInit};
use ed25519_dalek::Signer;
use messenger::crypto::{
    verify_auth_challenge, verify_envelope_signature, CryptoError, IdentityKeypair,
    PrivateIdentity, PublicIdentity, SealedMessage,
};
use messenger::engine::{CoreError, MessengerCore};
use messenger::protocol::{AuthChallenge, MessageId, PeerId, PlainMessage};

#[test]
fn encrypted_envelope_round_trips() {
    let alice = IdentityKeypair::generate();
    let bob = IdentityKeypair::generate();
    let plaintext = b"hello bob";

    let envelope = alice
        .encrypt_for(&bob.public_identity(), plaintext)
        .unwrap();
    let decrypted = bob
        .decrypt_from(&alice.public_identity(), &envelope)
        .unwrap();

    assert_eq!(decrypted, plaintext);
}

#[test]
fn tampered_ciphertext_fails_signature_verification() {
    let alice = IdentityKeypair::generate();
    let bob = IdentityKeypair::generate();
    let mut envelope = alice
        .encrypt_for(&bob.public_identity(), b"hello bob")
        .unwrap();

    envelope.payload.ciphertext[0] ^= 1;

    let result = bob.decrypt_from(&alice.public_identity(), &envelope);
    assert!(matches!(result, Err(CryptoError::InvalidSignature)));
}

#[test]
fn auth_challenge_signature_verifies() {
    let alice = IdentityKeypair::generate();
    let challenge = AuthChallenge {
        challenge_id: "challenge-1".to_owned(),
        peer_id: alice.peer_id(),
        nonce: "nonce".to_owned(),
        expires_at_ms: 1,
    };
    let signature = alice.sign_auth_challenge(&challenge);

    verify_auth_challenge(&alice.public_identity(), &challenge, &signature).unwrap();
}

#[test]
fn auth_challenge_signature_rejects_wrong_challenge() {
    let alice = IdentityKeypair::generate();
    let challenge = AuthChallenge {
        challenge_id: "challenge-1".to_owned(),
        peer_id: alice.peer_id(),
        nonce: "nonce".to_owned(),
        expires_at_ms: 1,
    };
    let mut other = challenge.clone();
    other.nonce = "other".to_owned();
    let signature = alice.sign_auth_challenge(&challenge);

    let result = verify_auth_challenge(&alice.public_identity(), &other, &signature);

    assert!(matches!(result, Err(CryptoError::InvalidSignature)));
}

#[test]
fn generated_core_has_peer_id() {
    let core = MessengerCore::generate();
    assert!(!core.peer_id().as_str().is_empty());
}

fn fixed_keypair(seed: u8, secret: u8) -> IdentityKeypair {
    IdentityKeypair::from_private_identity(PrivateIdentity {
        signing_key: [seed; 32],
        agreement_secret: [secret; 32],
    })
}

#[test]
fn private_identity_round_trips() {
    let identity = PrivateIdentity { signing_key: [3u8; 32], agreement_secret: [4u8; 32] };
    assert_eq!(IdentityKeypair::from_private_identity(identity).private_identity(), identity);
}

#[test]
fn public_identity_matches_the_dalek_keys() {
    let keypair = fixed_keypair(3, 4);
    let public = keypair.public_identity();
    let signing = ed25519_dalek::SigningKey::from_bytes(&[3u8; 32]).verifying_key().to_bytes();
    let agreement =
        x25519_dalek::PublicKey::from(&x25519_dalek::StaticSecret::from([4u8; 32])).to_bytes();
    assert_eq!(public.signing_key, signing);
    assert_eq!(public.agreement_key, agreement);
    assert_eq!(keypair.agreement_public_key(), agreement);
    assert_ne!(public.signing_key, [3u8; 32]);
    assert_eq!(public.peer_id, PeerId::from_public_identity(&signing, &agreement));
    assert_eq!(keypair.peer_id(), public.peer_id);
    assert_eq!(PublicIdentity::from_keys(signing, agreement), public);
}

#[test]
fn sealed_envelope_fields() {
    let alice = fixed_keypair(1, 2);
    let bob = fixed_keypair(5, 6);
    let id = MessageId::from_bytes([8u8; 16]);
    let envelope = alice
        .seal_envelope(&bob.public_identity(), b"hi", [7u8; 24], 42, id)
        .unwrap();
    assert_eq!(envelope.version, 1);
    assert_eq!(envelope.created_at_ms, 42);
    assert!(envelope.message_id.same_as(&id));
    assert_eq!(envelope.sender, alice.peer_id());
    assert_eq!(envelope.recipient, bob.peer_id());
    assert_eq!(envelope.payload.nonce, vec![7u8; 24]);
    assert_eq!(envelope.payload.algorithm, "xchacha20poly1305+blake3-x25519");
    assert_eq!(envelope.payload.ciphertext.len(), 2 + 16);
    assert_ne!(&envelope.payload.ciphertext[..2], b"hi");
    assert_eq!(envelope.signature.len(), 64);
    verify_envelope_signature(&alice.public_identity(), &envelope).unwrap();
    // The same inputs seal to the same envelope.
    let again = alice
        .seal_envelope(&bob.public_identity(), b"hi", [7u8; 24], 42, id)
        .unwrap();
    assert_eq!(again, envelope);
    assert_eq!(bob.decrypt_from(&alice.public_identity(), &envelope).unwrap(), b"hi");
}

#[test]
fn decrypt_errors() {
    let alice = fixed_keypair(1, 2);
    let bob = fixed_keypair(5, 6);
    let carol = fixed_keypair(9, 10);
    let envelope = alice.encrypt_for(&bob.public_identity(), b"secret").unwrap();

    // Wrong sender named.
    assert!(matches!(
        bob.decrypt_from(&carol.public_identity(), &envelope),
        Err(CryptoError::InvalidSignature)
    ));
    // Short signature.
    let mut short = envelope.clone();
    short.signature.pop();
    assert!(matches!(bob.decrypt_from(&alice.public_identity(), &short), Err(CryptoError::InvalidSignature)));
    // A signing key that is not a curve point.
    let mut bad_key = alice.public_identity();
    let mut found = false;
    for first in 0u8..=255 {
        let mut candidate = [0u8; 32];
        candidate[0] = first;
        candidate[1] = 1;
        if ed25519_dalek::VerifyingKey::from_bytes(&candidate).is_err() {
            bad_key.signing_key = candidate;
            found = true;
            break;
        }
    }
    assert!(found);
    assert!(matches!(
        bob.decrypt_from(&bad_key, &envelope),
        Err(CryptoError::InvalidPublicKeyLength)
    ));
    // The wrong recipient cannot decrypt a correctly signed envelope.
    assert!(matches!(
        carol.decrypt_from(&alice.public_identity(), &envelope),
        Err(CryptoError::DecryptionFailed)
    ));
}

#[test]
fn seal_text_encrypts_the_framed_text() {
    let alice = fixed_keypair(1, 2);
    let bob = fixed_keypair(5, 6);
    let message = PlainMessage {
        conversation_id: [0xab; 16],
        body: "body text".to_owned(),
        client_created_at_ms: 1234,
    };
    let envelope = SealedMessage::seal_text(&alice, &bob.public_identity(), &message).unwrap();
    let plaintext = bob.decrypt_from(&alice.public_identity(), &envelope).unwrap();
    assert_eq!(
        String::from_utf8(plaintext).unwrap(),
        "abababab-abab-abab-abab-abababababab\u{0}1234\u{0}body text"
    );
}

#[test]
fn core_composes_and_opens() {
    let alice = MessengerCore::new(fixed_keypair(1, 2));
    let bob = MessengerCore::new(fixed_keypair(5, 6));
    let envelope = alice
        .compose_message(&bob.identity().public_identity(), b"ping")
        .unwrap();
    assert_eq!(
        bob.open_message(&alice.identity().public_identity(), &envelope).unwrap(),
        b"ping"
    );
    let mut tampered = envelope.clone();
    tampered.created_at_ms += 1;
    assert!(matches!(
        bob.open_message(&alice.identity().public_identity(), &tampered),
        Err(CoreError::Crypto(CryptoError::InvalidSignature))
    ));
}

#[test]
fn sealed_envelope_matches_the_primitives() {
    let alice = fixed_keypair(1, 2);
    let bob = fixed_keypair(5, 6);
    let id = MessageId::from_bytes([9u8; 16]);
    let nonce = [3u8; 24];
    let envelope = alice
        .seal_envelope(&bob.public_identity(), b"attack at dawn", nonce, 7, id)
        .unwrap();

    let shared = x25519_dalek::StaticSecret::from([2u8; 32])
        .diffie_hellman(&x25519_dalek::PublicKey::from(bob.public_identity().agreement_key));
    let mut hasher = blake3::Hasher::new_derive_key("messenger/v1/p2p-envelope");
    hasher.update(shared.as_bytes());
    hasher.update(&nonce);
    hasher.update(&[9u8; 16]);
    hasher.update(alice.peer_id().as_str().as_bytes());
    hasher.update(bob.peer_id().as_str().as_bytes());
    let key = *hasher.finalize().as_bytes();
    let expected = chacha20poly1305::XChaCha20Poly1305::new(chacha20poly1305::Key::from_slice(&key))
        .encrypt(chacha20poly1305::XNonce::from_slice(&nonce), &b"attack at dawn"[..])
        .unwrap();
    assert_eq!(envelope.payload.ciphertext, expected);

    let mut message = 1u16.to_be_bytes().to_vec();
    message.extend_from_slice(&envelope.signing_bytes());
    let signature = ed25519_dalek::SigningKey::from_bytes(&[1u8; 32]).sign(&message);
    assert_eq!(envelope.signature, signature.to_bytes().to_vec());
}

#[test]
fn protocol_errors_wrap() {
    use_protocol_error(messenger::protocol::ProtocolError::InvalidEnvelope);
}

fn use_protocol_error(error: messenger::protocol::ProtocolError) {
    assert_eq!(
        CryptoError::from_protocol(error),
        CryptoError::Protocol(messenger::protocol::ProtocolError::InvalidEnvelope)
    );
}

#[test]
fn sealing_succeeds_with_a_tag_sized_overhead() {
    let alice = fixed_keypair(1, 2);
    let bob = fixed_keypair(5, 6);
    for len in [0usize, 1, 63, 64, 1000] {
        let plaintext = vec![0x5au8; len];
        let envelope = alice.encrypt_for(&bob.public_identity(), &plaintext).unwrap();
        assert_eq!(envelope.payload.ciphertext.len(), len + 16);
        let core = MessengerCore::new(fixed_keypair(1, 2));
        let composed = core.compose_message(&bob.public_identity(), &plaintext).unwrap();
        assert_eq!(composed.payload.ciphertext.len(), len + 16);
    }
    let message = PlainMessage {
        conversation_id: [1u8; 16],
        body: "x".to_owned(),
        client_created_at_ms: 7,
    };
    let sealed = SealedMessage::seal_text(&alice, &bob.public_identity(), &message).unwrap();
    assert_eq!(sealed.payload.ciphertext.len(), 36 + 1 + 1 + 1 + 1 + 16);
    assert_eq!(alice.peer_id().as_str().len(), 37);
    assert!(PeerId::new(alice.peer_id().as_str()).is_ok());
}
