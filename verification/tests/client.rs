use messenger::client::{contact_for_sender, inbound_record, open_pending, outbound_record};
use messenger::crypto::{CryptoError, IdentityKeypair, PrivateIdentity};
use messenger::ffi::{contact_to_dto, list_contacts, list_messages, message_to_dto, sync};
use messenger::protocol::{MessageId, PeerId};
use messenger::store::{contact_by_name, ContactRecord, MessageDirection};
use messenger::clock::{millis_as_u64, now_ms};
use messenger::server::health;
use messenger::protocol::TransportKind;

fn keypair(seed: u8, secret: u8) -> IdentityKeypair {
    IdentityKeypair::from_private_identity(PrivateIdentity {
        signing_key: [seed; 32],
        agreement_secret: [secret; 32],
    })
}

fn contact(name: &str, keys: &IdentityKeypair) -> ContactRecord {
    let public = keys.public_identity();
    ContactRecord {
        peer_id: public.peer_id.clone(),
        display_name: name.to_owned(),
        public_identity: public,
        verified_at_ms: None,
    }
}

#[test]
fn direction_names_round_trip() {
    assert_eq!(MessageDirection::Inbound.as_str(), "inbound");
    assert_eq!(MessageDirection::Outbound.as_str(), "outbound");
    for d in [MessageDirection::Inbound, MessageDirection::Outbound] {
        assert_eq!(MessageDirection::from_str(d.as_str()), d);
    }
    assert_eq!(MessageDirection::from_str("sideways"), MessageDirection::Inbound);
    assert_eq!(MessageDirection::from_str("Outbound"), MessageDirection::Inbound);
}

#[test]
fn finds_contacts_by_name_and_sender() {
    let a = keypair(1, 2);
    let b = keypair(3, 4);
    let contacts = vec![contact("Ann", &a), contact("Bob", &b), contact("Bob", &a)];
    assert_eq!(contact_by_name(&contacts, "Bob"), Some(1));
    assert_eq!(contact_by_name(&contacts, "Cy"), None);
    assert_eq!(contact_for_sender(&contacts, &a.peer_id()), Some(0));
    assert_eq!(contact_for_sender(&contacts, &b.peer_id()), Some(1));
    assert_eq!(
        contact_for_sender(&contacts, &PeerId::new("peer:0000000000000000").unwrap()),
        None
    );
}

#[test]
fn sync_opens_known_senders_in_order() {
    let me = keypair(1, 2);
    let ann = keypair(3, 4);
    let stranger = keypair(5, 6);
    let contacts = vec![contact("Ann", &ann)];
    let first = ann.encrypt_for(&me.public_identity(), b"one").unwrap();
    let skipped = stranger.encrypt_for(&me.public_identity(), b"who").unwrap();
    let second = ann.encrypt_for(&me.public_identity(), b"t\xffo").unwrap();
    let plan = open_pending(&me, &contacts, &vec![first.clone(), skipped, second.clone()]);
    assert!(plan.error.is_none());
    assert_eq!(plan.messages.len(), 2);
    assert!(plan.messages[0].message_id.same_as(&first.message_id));
    assert_eq!(plan.messages[0].sender, ann.peer_id());
    assert_eq!(plan.messages[0].body, "one");
    assert_eq!(plan.messages[1].body, "t\u{fffd}o");

    let mut broken = second.clone();
    broken.payload.ciphertext[0] ^= 1;
    let plan = open_pending(&me, &contacts, &vec![first.clone(), broken, second]);
    assert_eq!(plan.messages.len(), 1);
    assert_eq!(plan.error, Some(CryptoError::InvalidSignature));

    let record = inbound_record(&plan.messages[0], 77);
    assert_eq!(record.conversation_id, ann.peer_id().as_str());
    assert_eq!(record.peer_id, ann.peer_id());
    assert_eq!(record.sender_peer_id, ann.peer_id());
    assert_eq!(record.body, "one");
    assert_eq!(record.created_at_ms, 77);
    assert_eq!(record.direction, MessageDirection::Inbound);
}

#[test]
fn outbound_records_and_dtos() {
    let me = keypair(1, 2);
    let ann = keypair(3, 4);
    let ann_contact = contact("Ann", &ann);
    let id = MessageId::from_bytes([1u8; 16]);
    let record = outbound_record(&ann_contact, &me.peer_id(), id, "hello", 5);
    assert_eq!(record.conversation_id, ann.peer_id().as_str());
    assert_eq!(record.sender_peer_id, me.peer_id());
    assert_eq!(record.direction, MessageDirection::Outbound);

    let dto = message_to_dto("Ann", &record);
    assert_eq!(dto.message_id, "01010101-0101-0101-0101-010101010101");
    assert_eq!(dto.contact_name, "Ann");
    assert_eq!(dto.direction, "outbound");
    assert_eq!(dto.body, "hello");
    assert_eq!(dto.created_at_ms, 5);

    let listed = list_messages(&ann_contact, &vec![record.clone(), record]);
    assert_eq!(listed.len(), 2);
    assert_eq!(listed[1], dto);

    let contact_dto = contact_to_dto(&ann_contact);
    assert_eq!(contact_dto.name, "Ann");
    assert_eq!(contact_dto.peer_id, ann.peer_id().as_str());
    assert_eq!(list_contacts(&vec![ann_contact]), vec![contact_dto]);
}

#[test]
fn synced_dtos() {
    let me = keypair(1, 2);
    let ann = keypair(3, 4);
    let envelope = ann.encrypt_for(&me.public_identity(), b"yo").unwrap();
    let plan = open_pending(&me, &vec![contact("Ann", &ann)], &vec![envelope.clone()]);
    let dtos = sync(&plan.messages);
    assert_eq!(dtos.len(), 1);
    assert_eq!(dtos[0].message_id, envelope.message_id.text());
    assert_eq!(dtos[0].sender_peer_id, ann.peer_id().as_str());
    assert_eq!(dtos[0].body, "yo");
}

#[test]
fn clock_and_health() {
    assert!(now_ms() > 1_600_000_000_000);
    assert_eq!(millis_as_u64(None), 0);
    assert_eq!(millis_as_u64(Some((1u128 << 64) + 5)), 5);
    let report = health();
    assert_eq!(report.status, "ok");
    assert_eq!(report.protocol_version, 1);
    assert_eq!(report.transports, [TransportKind::Relay, TransportKind::WebRtc]);
}
