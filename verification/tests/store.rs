use messenger::crypto::{IdentityKeypair, PrivateIdentity};
use messenger::protocol::MessageId;
use messenger::store::{
    time_column, ContactRecord, ContactRow, MessageDirection, MessageRecord, MessageRow,
    OutboxRecord, OutboxRow,
};

fn keypair(seed: u8, secret: u8) -> IdentityKeypair {
    IdentityKeypair::from_private_identity(PrivateIdentity {
        signing_key: [seed; 32],
        agreement_secret: [secret; 32],
    })
}

fn message(created_at_ms: u64, direction: MessageDirection) -> MessageRecord {
    let bob = keypair(5, 6).peer_id();
    MessageRecord {
        message_id: MessageId::from_bytes([
            0x55, 0x0e, 0x84, 0x00, 0xe2, 0x9b, 0x41, 0xd4, 0xa7, 0x16, 0x44, 0x66, 0x55, 0x44,
            0x00, 0x00,
        ]),
        conversation_id: bob.as_str().to_owned(),
        peer_id: bob,
        sender_peer_id: keypair(1, 2).peer_id(),
        body: "hello".to_owned(),
        created_at_ms,
        direction,
    }
}

#[test]
fn message_rows_hold_text_columns() {
    let m = message(42, MessageDirection::Outbound);
    let row = m.to_row();
    assert_eq!(row.message_id, "550e8400-e29b-41d4-a716-446655440000");
    assert_eq!(row.conversation_id, m.conversation_id);
    assert_eq!(row.peer_id, m.peer_id.as_str());
    assert_eq!(row.sender_peer_id, m.sender_peer_id.as_str());
    assert_eq!(row.body, "hello");
    assert_eq!(row.created_at_ms, 42);
    assert_eq!(row.direction, "outbound");
}

#[test]
fn message_rows_read_back() {
    for created_at_ms in [0u64, 1_700_000_000_000, i64::MAX as u64, u64::MAX] {
        for direction in [MessageDirection::Inbound, MessageDirection::Outbound] {
            let m = message(created_at_ms, direction);
            assert_eq!(MessageRecord::from_row(m.to_row()), Some(m));
        }
    }
    assert_eq!(message(u64::MAX, MessageDirection::Inbound).to_row().created_at_ms, -1);
}

#[test]
fn unreadable_message_rows() {
    let good = message(7, MessageDirection::Inbound).to_row();
    let mut bad_id = message(7, MessageDirection::Inbound).to_row();
    bad_id.message_id = "not-a-uuid".to_owned();
    assert_eq!(MessageRecord::from_row(bad_id), None);
    let mut bad_peer = message(7, MessageDirection::Inbound).to_row();
    bad_peer.peer_id = "short".to_owned();
    assert_eq!(MessageRecord::from_row(bad_peer), None);
    let mut bad_sender = message(7, MessageDirection::Inbound).to_row();
    bad_sender.sender_peer_id = "has spaces in it, too many".to_owned();
    assert_eq!(MessageRecord::from_row(bad_sender), None);
    let mut odd_direction = good;
    odd_direction.direction = "sideways".to_owned();
    assert_eq!(
        MessageRecord::from_row(odd_direction).map(|m| m.direction),
        Some(MessageDirection::Inbound)
    );
}

#[test]
fn message_ids_parse_the_uuid_formats() {
    let id = message(0, MessageDirection::Inbound).message_id;
    for text in [
        "550e8400-e29b-41d4-a716-446655440000",
        "550E8400-E29B-41D4-A716-446655440000",
        "550e8400e29b41d4a716446655440000",
        "{550e8400-e29b-41d4-a716-446655440000}",
        "urn:uuid:550e8400-e29b-41d4-a716-446655440000",
    ] {
        assert_eq!(MessageId::parse(text), Some(id), "{text}");
    }
    assert_eq!(MessageId::parse(""), None);
    assert_eq!(MessageId::parse("550e8400-e29b-41d4-a716-44665544000g"), None);
    let fresh = MessageId::new();
    assert_eq!(MessageId::parse(&fresh.text()), Some(fresh));
}

#[test]
fn contact_rows() {
    let bob = keypair(5, 6).public_identity();
    let row = ContactRow {
        peer_id: bob.peer_id.as_str().to_owned(),
        display_name: "Bob".to_owned(),
        public_identity: bob.clone(),
        verified_at_ms: time_column(Some(42)),
    };
    let contact = ContactRecord::from_row(row).unwrap();
    assert_eq!(contact.peer_id, bob.peer_id);
    assert_eq!(contact.display_name, "Bob");
    assert_eq!(contact.public_identity, bob);
    assert_eq!(contact.verified_at_ms, Some(42));

    let unverified = ContactRow {
        peer_id: bob.peer_id.as_str().to_owned(),
        display_name: "Bob".to_owned(),
        public_identity: bob.clone(),
        verified_at_ms: None,
    };
    assert_eq!(ContactRecord::from_row(unverified).unwrap().verified_at_ms, None);

    let bad = ContactRow {
        peer_id: "peer".to_owned(),
        display_name: "Bob".to_owned(),
        public_identity: bob,
        verified_at_ms: Some(1),
    };
    assert_eq!(ContactRecord::from_row(bad), None);
}

#[test]
fn time_columns_round_trip() {
    assert_eq!(time_column(None), None);
    assert_eq!(time_column(Some(5)), Some(5));
    assert_eq!(time_column(Some(u64::MAX)), Some(-1));
    let bob = keypair(5, 6).public_identity();
    for t in [0u64, 99, i64::MAX as u64 + 1, u64::MAX] {
        let row = ContactRow {
            peer_id: bob.peer_id.as_str().to_owned(),
            display_name: "Bob".to_owned(),
            public_identity: bob.clone(),
            verified_at_ms: time_column(Some(t)),
        };
        assert_eq!(ContactRecord::from_row(row).unwrap().verified_at_ms, Some(t));
    }
}

#[test]
fn queued_envelopes_read_back() {
    let alice = keypair(1, 2);
    let bob = keypair(5, 6);
    let envelope = alice.encrypt_for(&bob.public_identity(), b"hello").unwrap();
    let row = OutboxRow::queued(envelope.clone(), 1_234);
    assert_eq!(row.message_id, envelope.message_id.text());
    assert_eq!(row.created_at_ms, 1_234);
    assert_eq!(row.retry_count, 0);
    let record = OutboxRecord::from_row(row).unwrap();
    assert_eq!(record.message_id, envelope.message_id);
    assert_eq!(record.envelope, envelope);
    assert_eq!(record.created_at_ms, 1_234);
    assert_eq!(record.retry_count, 0);

    let retried = OutboxRow {
        message_id: envelope.message_id.text(),
        envelope: envelope.clone(),
        created_at_ms: -1,
        retry_count: (1i64 << 32) + 3,
    };
    let record = OutboxRecord::from_row(retried).unwrap();
    assert_eq!(record.created_at_ms, u64::MAX);
    assert_eq!(record.retry_count, 3);

    let unreadable = OutboxRow {
        message_id: "x".to_owned(),
        envelope,
        created_at_ms: 0,
        retry_count: 0,
    };
    assert!(OutboxRecord::from_row(unreadable).is_none());
}
