//! What a client decides when it sends and receives: the records it keeps
//! and which pending envelopes it accepts.
use vstd::prelude::*;
use crate::crypto::{opened, CryptoError, IdentityKeypair};
use crate::protocol::{Envelope, MessageId, PeerId};
use crate::store::{ContactRecord, MessageDirection, MessageRecord};
use crate::text::{utf8_lossy, utf8_lossy_text};

verus! {

/// The outcome of sending a message.
#[derive(Clone, Debug, PartialEq, Eq)]
pub struct SentMessage {
    pub message_id: MessageId,
    pub accepted: bool,
}

/// A message received from a contact.
#[derive(Clone, Debug, PartialEq, Eq)]
pub struct SyncedMessage {
    pub message_id: MessageId,
    pub sender: PeerId,
    pub body: String,
}

/// The id, sender text and body text of a received message.
pub open spec fn synced_view(m: SyncedMessage) -> (Seq<u8>, Seq<char>, Seq<char>) {
    (m.message_id@, m.sender@, m.body@)
}

/// The position of the first contact whose identifier is `sender`.
pub open spec fn first_with_peer(contacts: Seq<ContactRecord>, sender: Seq<char>) -> Option<int>
    decreases contacts.len(),
{
    if contacts.len() == 0 {
        None
    } else if contacts[0].peer_id@ == sender {
        Some(0)
    } else {
        match first_with_peer(contacts.drop_first(), sender) {
            Some(i) => Some(i + 1),
            None => None,
        }
    }
}

proof fn lemma_first_with_peer_bounds(contacts: Seq<ContactRecord>, sender: Seq<char>)
    ensures
        first_with_peer(contacts, sender) matches Some(i) ==> 0 <= i < contacts.len()
            && contacts[i].peer_id@ == sender,
    decreases contacts.len(),
{
    if contacts.len() > 0 && contacts[0].peer_id@ != sender {
        lemma_first_with_peer_bounds(contacts.drop_first(), sender);
    }
}

/// Looking a contact up by sender finds the first contact with that
/// identifier: the position it gives holds a contact whose identifier is
/// `sender` and no earlier contact has it; when it gives nothing, no contact
/// has it.
pub proof fn lemma_first_with_peer_is_first(contacts: Seq<ContactRecord>, sender: Seq<char>)
    ensures
        match first_with_peer(contacts, sender) {
            Some(k) => {
                &&& 0 <= k < contacts.len()
                &&& contacts[k].peer_id@ == sender
                &&& forall|j: int| 0 <= j < k ==> #[trigger] contacts[j].peer_id@ != sender
            },
            None => forall|j: int| 0 <= j < contacts.len() ==> #[trigger] contacts[j].peer_id@ != sender,
        },
    decreases contacts.len(),
{
    if contacts.len() > 0 && contacts[0].peer_id@ != sender {
        let rest = contacts.drop_first();
        lemma_first_with_peer_is_first(rest, sender);
        match first_with_peer(rest, sender) {
            Some(k) => {
                assert(contacts[k + 1] == rest[k]);
                assert forall|j: int| 0 <= j < k + 1 implies #[trigger] contacts[j].peer_id@ != sender by {
                    if j > 0 {
                        assert(contacts[j] == rest[j - 1]);
                    }
                }
            },
            None => {
                assert forall|j: int| 0 <= j < contacts.len() implies #[trigger] contacts[j].peer_id@ != sender by {
                    if j > 0 {
                        assert(contacts[j] == rest[j - 1]);
                    }
                }
            },
        }
    }
}

/// The position of the first contact whose identifier is `sender` (see
/// [`first_with_peer`]).
pub fn contact_for_sender(contacts: &Vec<ContactRecord>, sender: &PeerId) -> (r: Option<usize>)
    ensures
        match first_with_peer(contacts@, sender@) {
            Some(i) => r == Some(i as usize),
            None => r is None,
        },
        r matches Some(i) ==> i < contacts@.len() && contacts@[i as int].peer_id@ == sender@,
{
    let ghost all = contacts@;
    let mut i: usize = 0;
    assert(all.skip(0) =~= all);
    while i < contacts.len()
        invariant
            i <= contacts@.len(),
            contacts@ == all,
            first_with_peer(all, sender@) == match first_with_peer(all.skip(i as int), sender@) {
                Some(j) => Some(j + i),
                None => None::<int>,
            },
        decreases contacts@.len() - i,
    {
        assert(all.skip(i as int)[0] == all[i as int]);
        if contacts[i].peer_id.same_as(sender) {
            assert(all.skip(i as int).len() > 0);
            assert(first_with_peer(all.skip(i as int), sender@) == Some(0int));
            return Some(i);
        }
        assert(all.skip(i as int).drop_first() =~= all.skip(i + 1));
        i = i + 1;
    }
    assert(all.skip(i as int).len() == 0);
    None
}

/// What syncing the pending `envelopes` gives, in order: envelopes from
/// unknown senders are skipped; an envelope from a contact is opened with the
/// contact's public identity (see [`opened`]) and gives a message whose body
/// is the plaintext read as UTF-8 (invalid sequences replaced); the first
/// envelope that does not open stops the sync with its error.
pub open spec fn sync_outcome(
    secret: Seq<u8>,
    contacts: Seq<ContactRecord>,
    envelopes: Seq<Envelope>,
) -> (Seq<(Seq<u8>, Seq<char>, Seq<char>)>, Option<CryptoError>)
    decreases envelopes.len(),
{
    if envelopes.len() == 0 {
        (seq![], None)
    } else {
        let e = envelopes[0];
        match first_with_peer(contacts, e.sender@) {
            None => sync_outcome(secret, contacts, envelopes.drop_first()),
            Some(i) => match opened(secret, contacts[i].public_identity, e) {
                Err(err) => (seq![], Some(err)),
                Ok(p) => {
                    let rest = sync_outcome(secret, contacts, envelopes.drop_first());
                    (seq![(e.message_id@, contacts[i].peer_id@, utf8_lossy_text(p))] + rest.0, rest.1)
                },
            },
        }
    }
}

/// Message `m` is what a sync takes from envelope `e`: it carries the
/// envelope's message id and the envelope's sender, and that sender is one of
/// the contacts.
pub open spec fn taken_from(
    m: (Seq<u8>, Seq<char>, Seq<char>),
    e: Envelope,
    contacts: Seq<ContactRecord>,
) -> bool {
    &&& m.0 == e.message_id@
    &&& m.1 == e.sender@
    &&& exists|i: int| 0 <= i < contacts.len() && #[trigger] contacts[i].peer_id@ == e.sender@
}

/// Every message a sync accepts is taken from one of the pending envelopes:
/// its id and its sender are that envelope's, and the sender is a known
/// contact.
pub proof fn lemma_synced_messages_keep_their_sender(
    secret: Seq<u8>,
    contacts: Seq<ContactRecord>,
    envelopes: Seq<Envelope>,
)
    ensures
        forall|k: int|
            0 <= k < sync_outcome(secret, contacts, envelopes).0.len() ==> exists|j: int|
                0 <= j < envelopes.len() && taken_from(
                    #[trigger] sync_outcome(secret, contacts, envelopes).0[k],
                    envelopes[j],
                    contacts,
                ),
    decreases envelopes.len(),
{
    if envelopes.len() > 0 {
        let e = envelopes[0];
        let rest = envelopes.drop_first();
        lemma_synced_messages_keep_their_sender(secret, contacts, rest);
        lemma_first_with_peer_bounds(contacts, e.sender@);
        let out = sync_outcome(secret, contacts, envelopes).0;
        let tail = sync_outcome(secret, contacts, rest).0;
        assert forall|k: int| 0 <= k < out.len() implies exists|j: int|
            0 <= j < envelopes.len() && taken_from(#[trigger] out[k], envelopes[j], contacts) by {
            match first_with_peer(contacts, e.sender@) {
                None => {
                    let j = choose|j: int| 0 <= j < rest.len() && taken_from(tail[k], rest[j], contacts);
                    assert(envelopes[j + 1] == rest[j]);
                },
                Some(i) => {
                    match opened(secret, contacts[i].public_identity, e) {
                        Err(_) => {},
                        Ok(p) => {
                            if k == 0 {
                                assert(contacts[i].peer_id@ == e.sender@);
                                assert(taken_from(out[0], envelopes[0], contacts));
                            } else {
                                assert(out[k] == tail[k - 1]);
                                let j = choose|j: int|
                                    0 <= j < rest.len() && taken_from(tail[k - 1], rest[j], contacts);
                                assert(envelopes[j + 1] == rest[j]);
                            }
                        },
                    }
                },
            }
        }
    }
}

/// The messages a sync accepts, and the error that stopped it, if any.
pub struct SyncPlan {
    pub messages: Vec<SyncedMessage>,
    pub error: Option<CryptoError>,
}

/// Opens the pending envelopes from known contacts, in order, until one
/// fails (see [`sync_outcome`]). The caller stores and acknowledges each
/// accepted message in order, then reports the error if there is one.
pub fn open_pending(
    identity: &IdentityKeypair,
    contacts: &Vec<ContactRecord>,
    envelopes: &Vec<Envelope>,
) -> (plan: SyncPlan)
    ensures
        plan.messages@.map_values(|m: SyncedMessage| synced_view(m)) == sync_outcome(
            identity.secret(),
            contacts@,
            envelopes@,
        ).0,
        plan.error == sync_outcome(identity.secret(), contacts@, envelopes@).1,
{
    let ghost secret = identity.secret();
    let ghost all = envelopes@;
    let mut messages: Vec<SyncedMessage> = Vec::new();
    let mut k: usize = 0;
    assert(all.skip(0) =~= all);
    while k < envelopes.len()
        invariant
            k <= envelopes@.len(),
            envelopes@ == all,
            secret == identity.secret(),
            messages@.map_values(|m: SyncedMessage| synced_view(m)) + sync_outcome(
                secret,
                contacts@,
                all.skip(k as int),
            ).0 == sync_outcome(secret, contacts@, all).0,
            sync_outcome(secret, contacts@, all.skip(k as int)).1 == sync_outcome(
                secret,
                contacts@,
                all,
            ).1,
        decreases envelopes@.len() - k,
    {
        let envelope = &envelopes[k];
        let _contact_count = contacts.len();
        let ghost rest = all.skip(k as int);
        assert(rest.len() > 0);
        assert(rest[0] == all[k as int]);
        assert(*envelope == rest[0]);
        proof {
            lemma_first_with_peer_bounds(contacts@, envelope.sender@);
        }
        assert(rest.drop_first() =~= all.skip(k + 1));
        match contact_for_sender(contacts, &envelope.sender) {
            None => {},
            Some(i) => {
                assert(first_with_peer(contacts@, rest[0].sender@) == Some(i as int));
                let contact = &contacts[i];
                match identity.decrypt_from(&contact.public_identity, envelope) {
                    Err(error) => {
                        assert(opened(secret, contacts@[i as int].public_identity, rest[0]) == Err::<Seq<u8>, CryptoError>(error));
                        assert(sync_outcome(secret, contacts@, rest).0 =~= Seq::<(Seq<u8>, Seq<char>, Seq<char>)>::empty());
                        assert(messages@.map_values(|m: SyncedMessage| synced_view(m)) + Seq::<(Seq<u8>, Seq<char>, Seq<char>)>::empty()
                            =~= messages@.map_values(|m: SyncedMessage| synced_view(m)));
                        return SyncPlan { messages, error: Some(error) };
                    },
                    Ok(plaintext) => {
                        let body = utf8_lossy(plaintext.as_slice());
                        let message = SyncedMessage {
                            message_id: envelope.message_id,
                            sender: contact.peer_id.cloned(),
                            body,
                        };
                        let ghost before = messages@.map_values(|m: SyncedMessage| synced_view(m));
                        messages.push(message);
                        assert(messages@.map_values(|m: SyncedMessage| synced_view(m)) =~= before.push(
                            synced_view(message),
                        ));
                        let ghost tail = sync_outcome(secret, contacts@, all.skip(k + 1));
                        assert(sync_outcome(secret, contacts@, rest).0 == seq![synced_view(message)]
                            + tail.0);
                        assert(before.push(synced_view(message)) + tail.0 =~= before + (seq![
                            synced_view(message),
                        ] + tail.0));
                    },
                }
            },
        }
        k = k + 1;
    }
    assert(all.skip(k as int).len() == 0);
    assert(messages@.map_values(|m: SyncedMessage| synced_view(m)) + Seq::<(Seq<u8>, Seq<char>, Seq<char>)>::empty()
        =~= messages@.map_values(|m: SyncedMessage| synced_view(m)));
    SyncPlan { messages, error: None }
}

/// The record of a message received from its sender: the conversation is the
/// sender's identifier.
pub fn inbound_record(message: &SyncedMessage, created_at_ms: u64) -> (r: MessageRecord)
    ensures
        r.message_id == message.message_id,
        r.conversation_id@ == message.sender@,
        r.peer_id@ == message.sender@,
        r.sender_peer_id@ == message.sender@,
        r.body@ == message.body@,
        r.created_at_ms == created_at_ms,
        r.direction == MessageDirection::Inbound,
{
    MessageRecord {
        message_id: message.message_id,
        conversation_id: message.sender.as_str().to_owned(),
        peer_id: message.sender.cloned(),
        sender_peer_id: message.sender.cloned(),
        body: message.body.clone(),
        created_at_ms,
        direction: MessageDirection::Inbound,
    }
}

/// The record of a message sent by `own_peer_id` to `contact`: the
/// conversation is the contact's identifier.
pub fn outbound_record(
    contact: &ContactRecord,
    own_peer_id: &PeerId,
    message_id: MessageId,
    body: &str,
    created_at_ms: u64,
) -> (r: MessageRecord)
    ensures
        r.message_id == message_id,
        r.conversation_id@ == contact.peer_id@,
        r.peer_id@ == contact.peer_id@,
        r.sender_peer_id@ == own_peer_id@,
        r.body@ == body@,
        r.created_at_ms == created_at_ms,
        r.direction == MessageDirection::Outbound,
{
    MessageRecord {
        message_id,
        conversation_id: contact.peer_id.as_str().to_owned(),
        peer_id: contact.peer_id.cloned(),
        sender_peer_id: own_peer_id.cloned(),
        body: body.to_owned(),
        created_at_ms,
        direction: MessageDirection::Outbound,
    }
}

} // verus!
