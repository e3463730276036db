use messenger::protocol::{
    CipherPayload, ChatMessage, Envelope, EnvelopeHeader, MessageId, PayloadKind, PeerId,
    ProtocolError, ProtocolVersion, DeliveryPolicy, PROTOCOL_VERSION,
};

#[test]
fn rejects_short_peer_ids() {
    assert!(PeerId::new("short").is_err());
}

#[test]
fn signing_bytes_change_when_payload_changes() {
    let sender = PeerId::new("peer:aaaaaaaaaaaaaaaa").unwrap();
    let recipient = PeerId::new("peer:bbbbbbbbbbbbbbbb").unwrap();
    let payload = CipherPayload {
        algorithm: "test".to_owned(),
        nonce: vec![1],
        ciphertext: vec![2],
    };
    let mut envelope = Envelope::new_unsigned(sender, recipient, 1, PayloadKind::Text, payload);
    let before = envelope.signing_bytes();
    envelope.payload.ciphertext = vec![3];

    assert_ne!(before, envelope.signing_bytes());
}

#[test]
fn peer_id_length_bounds() {
    assert!(PeerId::new(&"a".repeat(15)).is_err());
    assert_eq!(PeerId::new(&"a".repeat(16)).unwrap().as_str(), "a".repeat(16));
    assert!(PeerId::new(&"a".repeat(128)).is_ok());
    assert!(PeerId::new(&"a".repeat(129)).is_err());
}

#[test]
fn peer_id_characters() {
    assert!(PeerId::new("peer:AZaz09-_::xyzw").is_ok());
    assert!(matches!(PeerId::new("peer aaaaaaaaaaaaaaaa"), Err(ProtocolError::InvalidPeerId)));
    assert!(PeerId::new("peer/aaaaaaaaaaaaaaaa").is_err());
    // Twelve characters but sixteen bytes: refused for the character, not the length.
    assert!(PeerId::new("ééééaaaaaaaa").is_err());
}

#[test]
fn peer_id_bytes_are_its_text() {
    let id = PeerId::new("peer:aaaaaaaaaaaaaaaa").unwrap();
    assert_eq!(id.as_bytes(), b"peer:aaaaaaaaaaaaaaaa");
    assert!(id.same_as(&id.cloned()));
}

#[test]
fn derived_peer_id_has_its_format() {
    let id = PeerId::from_public_identity(&[1u8; 32], &[2u8; 32]);
    let text = id.as_str();
    assert_eq!(text.len(), 37);
    assert!(text.starts_with("peer:"));
    assert!(text[5..].chars().all(|c| c.is_ascii_hexdigit() && !c.is_ascii_uppercase()));
    assert!(PeerId::new(text).is_ok());
    let mut input = b"messenger/peer-id/v1".to_vec();
    input.extend_from_slice(&[1u8; 32]);
    input.extend_from_slice(&[2u8; 32]);
    let expected = blake3::hash(&input).to_hex();
    assert_eq!(&text[5..], &expected[..32]);
    assert_ne!(id, PeerId::from_public_identity(&[2u8; 32], &[1u8; 32]));
}

#[test]
fn message_id_text_is_hyphenated_uuid() {
    let bytes: [u8; 16] = [0, 1, 2, 3, 4, 5, 6, 7, 8, 9, 10, 11, 12, 13, 14, 255];
    let id = MessageId::from_bytes(bytes);
    assert_eq!(id.text(), "00010203-0405-0607-0809-0a0b0c0d0eff");
    assert_eq!(id.as_bytes(), &bytes);
    assert_eq!(id.text(), uuid::Uuid::from_bytes(bytes).to_string());
}

#[test]
fn fresh_message_ids_are_version_four() {
    let a = MessageId::new();
    let b = MessageId::default();
    assert_eq!(a.as_bytes()[6] >> 4, 4);
    assert_eq!(a.as_bytes()[8] >> 6, 2);
    assert!(!a.same_as(&b));
    assert!(a.same_as(&MessageId::from_bytes(*a.as_bytes())));
}

#[test]
fn signing_bytes_layout() {
    let envelope = Envelope {
        version: 1,
        message_id: MessageId::from_bytes([7u8; 16]),
        sender: PeerId::new("peer:aaaaaaaaaaaaaaaa").unwrap(),
        recipient: PeerId::new("peer:bbbbbbbbbbbbbbbb").unwrap(),
        created_at_ms: 0x0102,
        expires_at_ms: Some(3),
        payload_kind: PayloadKind::DeliveryReceipt,
        payload: CipherPayload { algorithm: "alg".to_owned(), nonce: vec![9, 9], ciphertext: vec![5] },
        signature: vec![1, 2, 3],
    };
    let mut expected = vec![0u8, 1];
    expected.extend_from_slice(&[7u8; 16]);
    expected.extend_from_slice(b"peer:aaaaaaaaaaaaaaaa\0peer:bbbbbbbbbbbbbbbb\0");
    expected.extend_from_slice(&0x0102u64.to_be_bytes());
    expected.extend_from_slice(&3u64.to_be_bytes());
    expected.extend_from_slice(b"DeliveryReceipt\0alg\0");
    expected.extend_from_slice(&[9, 9, 0, 5]);
    assert_eq!(envelope.signing_bytes(), expected);

    let mut unsigned = envelope.clone();
    unsigned.signature = Vec::new();
    assert_eq!(unsigned.signing_bytes(), expected);
    unsigned.expires_at_ms = None;
    assert_ne!(unsigned.signing_bytes(), expected);
}

#[test]
fn new_envelope_and_header_defaults() {
    let sender = PeerId::new("peer:aaaaaaaaaaaaaaaa").unwrap();
    let recipient = PeerId::new("peer:bbbbbbbbbbbbbbbb").unwrap();
    let payload = CipherPayload { algorithm: String::new(), nonce: vec![], ciphertext: vec![] };
    let envelope = Envelope::new_unsigned(sender.clone(), recipient.clone(), 5, PayloadKind::Text, payload);
    assert_eq!(envelope.version, PROTOCOL_VERSION);
    assert_eq!(envelope.expires_at_ms, None);
    assert!(envelope.signature.is_empty());
    let header = EnvelopeHeader::new(sender, recipient);
    assert_eq!(header.created_at_ms, 0);
    assert_eq!(header.delivery_policy, DeliveryPolicy::PreferDirect);
    assert_eq!(header.payload_kind, PayloadKind::Text);
    assert_eq!(ProtocolVersion::current().as_u16(), 1);
}

#[test]
fn chat_message_text() {
    let message = ChatMessage::text("conversation", "hi");
    assert_eq!(message.conversation_id, "conversation");
    assert_eq!(message.body, "hi");
    assert_eq!(message.client_created_at_ms, 0);
}

#[test]
fn payload_kind_labels() {
    assert_eq!(PayloadKind::Text.label(), "Text");
    assert_eq!(PayloadKind::WebRtcSignal.label(), "WebRtcSignal");
    assert_eq!(PayloadKind::KeyAnnouncement.label(), "KeyAnnouncement");
}

#[test]
fn signing_bytes_cover_the_header() {
    let sender = PeerId::new("peer:aaaaaaaaaaaaaaaa").unwrap();
    let recipient = PeerId::new("peer:bbbbbbbbbbbbbbbb").unwrap();
    let payload = CipherPayload { algorithm: "test".to_owned(), nonce: vec![1], ciphertext: vec![2] };
    let base = Envelope::new_unsigned(sender, recipient, 1, PayloadKind::Text, payload);
    let bytes = base.signing_bytes();

    let mut later = base.clone();
    later.created_at_ms = 2;
    assert_ne!(later.signing_bytes(), bytes);

    let mut expiring = base.clone();
    expiring.expires_at_ms = Some(5);
    assert_ne!(expiring.signing_bytes(), bytes);

    let mut other_id = base.clone();
    other_id.message_id = MessageId::from_bytes([0u8; 16]);
    assert_ne!(other_id.signing_bytes(), bytes);

    let mut swapped = base.clone();
    swapped.sender = base.recipient.clone();
    swapped.recipient = base.sender.clone();
    assert_ne!(swapped.signing_bytes(), bytes);

    let mut longer = base.clone();
    longer.sender = PeerId::new("peer:aaaaaaaaaaaaaaaaa").unwrap();
    assert_ne!(longer.signing_bytes(), bytes);

    // A missing expiry is written as 0, so it signs like an expiry of 0.
    let mut zero = base.clone();
    zero.expires_at_ms = Some(0);
    assert_eq!(zero.signing_bytes(), bytes);
}
