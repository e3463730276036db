//! The records a client keeps locally: contacts, messages and the outbox.
use vstd::prelude::*;
use crate::crypto::PublicIdentity;
use crate::protocol::{uuid_parsed, uuid_text, valid_peer_id, Envelope, MessageId, PeerId};
use crate::text::chars_of;

verus! {

/// Whether a message was received or sent.
#[derive(Clone, Copy, Debug, PartialEq, Eq, Structural)]
pub enum MessageDirection {
    Inbound,
    Outbound,
}

/// The stored name of a direction.
pub open spec fn direction_text(d: MessageDirection) -> Seq<char> {
    match d {
        MessageDirection::Inbound => "inbound"@,
        MessageDirection::Outbound => "outbound"@,
    }
}

/// The direction a stored name stands for: `outbound` is outbound, any other
/// text inbound.
pub open spec fn direction_of(text: Seq<char>) -> MessageDirection {
    if text == "outbound"@ {
        MessageDirection::Outbound
    } else {
        MessageDirection::Inbound
    }
}

impl MessageDirection {
    /// The stored name of this direction.
    pub fn as_str(self) -> (s: &'static str)
        ensures
            s@ == direction_text(self),
    {
        match self {
            MessageDirection::Inbound => "inbound",
            MessageDirection::Outbound => "outbound",
        }
    }

    /// The direction a stored name stands for (see [`direction_of`]).
    pub fn from_str(value: &str) -> (d: MessageDirection)
        ensures
            d == direction_of(value@),
    {
        let chars = chars_of(value);
        proof {
            reveal_strlit("outbound");
        }
        let is_outbound = chars.len() == 8 && chars[0] == 'o' && chars[1] == 'u' && chars[2] == 't'
            && chars[3] == 'b' && chars[4] == 'o' && chars[5] == 'u' && chars[6] == 'n' && chars[7]
            == 'd';
        if is_outbound {
            assert(value@ =~= "outbound"@);
            MessageDirection::Outbound
        } else {
            assert(value@ != "outbound"@) by {
                if value@ == "outbound"@ {
                    assert(chars@[0] == 'o' && chars@[7] == 'd');
                }
            }
            MessageDirection::Inbound
        }
    }
}

/// Reading back the stored name of a direction gives that direction.
pub proof fn lemma_direction_round_trip(d: MessageDirection)
    ensures
        direction_of(direction_text(d)) == d,
{
    reveal_strlit("inbound");
    reveal_strlit("outbound");
    if d == MessageDirection::Inbound {
        assert(direction_text(d)[0] == 'i');
    }
}

/// A stored contact.
#[derive(Clone, Debug, PartialEq, Eq)]
pub struct ContactRecord {
    pub peer_id: PeerId,
    pub display_name: String,
    pub public_identity: PublicIdentity,
    pub verified_at_ms: Option<u64>,
}

/// A stored message.
#[derive(Clone, Debug, PartialEq, Eq)]
pub struct MessageRecord {
    pub message_id: MessageId,
    pub conversation_id: String,
    pub peer_id: PeerId,
    pub sender_peer_id: PeerId,
    pub body: String,
    pub created_at_ms: u64,
    pub direction: MessageDirection,
}

/// An envelope waiting in the outbox.
#[derive(Clone, Debug, PartialEq, Eq)]
pub struct OutboxRecord {
    pub message_id: MessageId,
    pub envelope: Envelope,
    pub created_at_ms: u64,
    pub retry_count: u32,
}

/// A stored message as plain values: the id's bytes, the conversation, the
/// peer, the sender, the body, the time and the direction.
pub type MessageView = (Seq<u8>, Seq<char>, Seq<char>, Seq<char>, Seq<char>, u64, MessageDirection);

impl View for MessageRecord {
    type V = MessageView;

    open spec fn view(&self) -> MessageView {
        (
            self.message_id@,
            self.conversation_id@,
            self.peer_id@,
            self.sender_peer_id@,
            self.body@,
            self.created_at_ms,
            self.direction,
        )
    }
}

/// The columns of a stored message, as the database holds them.
#[derive(Clone, Debug, PartialEq, Eq)]
pub struct MessageRow {
    pub message_id: String,
    pub conversation_id: String,
    pub peer_id: String,
    pub sender_peer_id: String,
    pub body: String,
    pub created_at_ms: i64,
    pub direction: String,
}

/// The columns of a stored message as plain values, in column order.
pub type MessageRowView = (Seq<char>, Seq<char>, Seq<char>, Seq<char>, Seq<char>, i64, Seq<char>);

impl View for MessageRow {
    type V = MessageRowView;

    open spec fn view(&self) -> MessageRowView {
        (
            self.message_id@,
            self.conversation_id@,
            self.peer_id@,
            self.sender_peer_id@,
            self.body@,
            self.created_at_ms,
            self.direction@,
        )
    }
}

/// The row a message is stored as: the id as hyphenated UUID text, the time
/// as a signed 64-bit number, the direction by its name.
pub open spec fn message_row_of(m: MessageView) -> MessageRowView {
    (uuid_text(m.0), m.1, m.2, m.3, m.4, m.5 as i64, direction_text(m.6))
}

/// A row can be read back when its id is UUID text and both peer columns are
/// valid peer identifiers.
pub open spec fn message_row_readable(row: MessageRowView) -> bool {
    &&& uuid_parsed(row.0) is Some
    &&& valid_peer_id(row.2)
    &&& valid_peer_id(row.3)
}

/// The message a readable row stands for.
pub open spec fn message_of_row(row: MessageRowView) -> MessageView {
    (uuid_parsed(row.0)->0, row.1, row.2, row.3, row.4, row.5 as u64, direction_of(row.6))
}

impl MessageRecord {
    /// The row this message is stored as (see [`message_row_of`]).
    pub fn to_row(&self) -> (row: MessageRow)
        ensures
            row@ == message_row_of(self@),
    {
        MessageRow {
            message_id: self.message_id.text(),
            conversation_id: self.conversation_id.clone(),
            peer_id: self.peer_id.as_str().to_owned(),
            sender_peer_id: self.sender_peer_id.as_str().to_owned(),
            body: self.body.clone(),
            created_at_ms: self.created_at_ms as i64,
            direction: self.direction.as_str().to_owned(),
        }
    }

    /// The message a stored row stands for; `None` where the id or a peer
    /// column does not read back. A row written for a message whose peer
    /// identifiers are valid reads back as that message.
    pub fn from_row(row: MessageRow) -> (r: Option<MessageRecord>)
        ensures
            r is Some <==> message_row_readable(row@),
            r matches Some(m) ==> m@ == message_of_row(row@),
            forall|v: MessageView|
                #![trigger message_row_of(v)]
                message_row_of(v) == row@ && v.0.len() == 16 && valid_peer_id(v.2) && valid_peer_id(
                    v.3,
                ) ==> (r is Some && r->0@ == v),
    {
        let ghost rv = row@;
        let message_id = MessageId::parse(row.message_id.as_str());
        let peer_id = PeerId::new(row.peer_id.as_str());
        let sender_peer_id = PeerId::new(row.sender_peer_id.as_str());
        let direction = MessageDirection::from_str(row.direction.as_str());
        proof {
            assert forall|v: MessageView|
                #[trigger] message_row_of(v) == rv && v.0.len() == 16 implies v.5 == (rv.5 as u64)
                && v.6 == direction_of(rv.6) && uuid_parsed(rv.0) == Some(v.0) by {
                let t: u64 = v.5;
                assert((t as i64) as u64 == t) by (bit_vector);
                lemma_direction_round_trip(v.6);
                assert(uuid_text(v.0) == rv.0);
            }
        }
        match (message_id, peer_id, sender_peer_id) {
            (Some(message_id), Ok(peer_id), Ok(sender_peer_id)) => Some(
                MessageRecord {
                    message_id,
                    conversation_id: row.conversation_id,
                    peer_id,
                    sender_peer_id,
                    body: row.body,
                    created_at_ms: row.created_at_ms as u64,
                    direction,
                },
            ),
            _ => None,
        }
    }
}

/// A time read from a nullable integer column.
pub open spec fn stored_time(t: Option<i64>) -> Option<u64> {
    match t {
        Some(t) => Some(t as u64),
        None => None,
    }
}

/// A time as a nullable integer column holds it.
pub open spec fn time_column_of(t: Option<u64>) -> Option<i64> {
    match t {
        Some(t) => Some(t as i64),
        None => None,
    }
}

/// The value an optional time is written to its column as (see
/// [`time_column_of`]).
pub fn time_column(t: Option<u64>) -> (c: Option<i64>)
    ensures
        c == time_column_of(t),
{
    match t {
        Some(t) => Some(t as i64),
        None => None,
    }
}

/// An optional time written to its column reads back unchanged.
pub proof fn lemma_time_column_round_trip(t: Option<u64>)
    ensures
        stored_time(time_column_of(t)) == t,
{
    if let Some(x) = t {
        assert((x as i64) as u64 == x) by (bit_vector);
    }
}

/// The columns of a stored contact, with the public identity already read
/// from its JSON column.
#[derive(Clone, Debug, PartialEq, Eq)]
pub struct ContactRow {
    pub peer_id: String,
    pub display_name: String,
    pub public_identity: PublicIdentity,
    pub verified_at_ms: Option<i64>,
}

impl ContactRecord {
    /// The contact a stored row stands for; `None` where the peer column is
    /// not a valid peer identifier.
    pub fn from_row(row: ContactRow) -> (r: Option<ContactRecord>)
        ensures
            r is Some <==> valid_peer_id(row.peer_id@),
            r matches Some(c) ==> {
                &&& c.peer_id@ == row.peer_id@
                &&& c.display_name@ == row.display_name@
                &&& c.public_identity == row.public_identity
                &&& c.verified_at_ms == stored_time(row.verified_at_ms)
            },
    {
        let verified_at_ms = match row.verified_at_ms {
            Some(t) => Some(t as u64),
            None => None,
        };
        match PeerId::new(row.peer_id.as_str()) {
            Ok(peer_id) => Some(
                ContactRecord {
                    peer_id,
                    display_name: row.display_name,
                    public_identity: row.public_identity,
                    verified_at_ms,
                },
            ),
            Err(_) => None,
        }
    }
}

/// The columns of an outbox entry, with the envelope already read from its
/// JSON column.
#[derive(Clone, Debug, PartialEq, Eq)]
pub struct OutboxRow {
    pub message_id: String,
    pub envelope: Envelope,
    pub created_at_ms: i64,
    pub retry_count: i64,
}

impl OutboxRow {
    /// The row an envelope is queued as at time `now_ms`: keyed by the
    /// envelope's message id, not yet retried.
    pub fn queued(envelope: Envelope, now_ms: u64) -> (row: OutboxRow)
        ensures
            row.message_id@ == uuid_text(envelope.message_id@),
            row.envelope == envelope,
            row.created_at_ms == now_ms as i64,
            row.created_at_ms as u64 == now_ms,
            row.retry_count == 0,
    {
        assert((now_ms as i64) as u64 == now_ms) by (bit_vector);
        OutboxRow {
            message_id: envelope.message_id.text(),
            envelope,
            created_at_ms: now_ms as i64,
            retry_count: 0,
        }
    }
}

impl OutboxRecord {
    /// The outbox entry a stored row stands for; `None` where the id column
    /// is not UUID text. A queued envelope reads back with its own id, its
    /// time and no retries.
    pub fn from_row(row: OutboxRow) -> (r: Option<OutboxRecord>)
        ensures
            r is Some <==> uuid_parsed(row.message_id@) is Some,
            r matches Some(o) ==> {
                &&& uuid_parsed(row.message_id@) == Some(o.message_id@)
                &&& o.envelope == row.envelope
                &&& o.created_at_ms == row.created_at_ms as u64
                &&& o.retry_count == row.retry_count as u32
            },
            row.message_id@ == uuid_text(row.envelope.message_id@) ==> (r is Some
                && r->0.message_id@ == row.envelope.message_id@),
    {
        proof {
            row.envelope.message_id.lemma_sixteen_bytes();
        }
        match MessageId::parse(row.message_id.as_str()) {
            Some(message_id) => Some(
                OutboxRecord {
                    message_id,
                    envelope: row.envelope,
                    created_at_ms: row.created_at_ms as u64,
                    retry_count: row.retry_count as u32,
                },
            ),
            None => None,
        }
    }
}

/// The position of the first contact named `name`.
pub open spec fn first_named(contacts: Seq<ContactRecord>, name: Seq<char>) -> Option<int>
    decreases contacts.len(),
{
    if contacts.len() == 0 {
        None
    } else if contacts[0].display_name@ == name {
        Some(0)
    } else {
        match first_named(contacts.drop_first(), name) {
            Some(i) => Some(i + 1),
            None => None,
        }
    }
}

/// Looking a contact up by name finds the first contact with that name: the
/// position it gives holds a contact named `name` and no earlier contact has
/// that name; when it gives nothing, no contact has that name.
pub proof fn lemma_first_named_is_first(contacts: Seq<ContactRecord>, name: Seq<char>)
    ensures
        match first_named(contacts, name) {
            Some(k) => {
                &&& 0 <= k < contacts.len()
                &&& contacts[k].display_name@ == name
                &&& forall|j: int| 0 <= j < k ==> #[trigger] contacts[j].display_name@ != name
            },
            None => forall|j: int| 0 <= j < contacts.len() ==> #[trigger] contacts[j].display_name@ != name,
        },
    decreases contacts.len(),
{
    if contacts.len() > 0 && contacts[0].display_name@ != name {
        let rest = contacts.drop_first();
        lemma_first_named_is_first(rest, name);
        assert forall|j: int| 1 <= j < contacts.len() implies contacts[j] == #[trigger] rest[j - 1] by {}
        match first_named(rest, name) {
            Some(k) => {
                assert(contacts[k + 1] == rest[k]);
                assert forall|j: int| 0 <= j < k + 1 implies #[trigger] contacts[j].display_name@ != name by {
                    if j > 0 {
                        assert(contacts[j] == rest[j - 1]);
                    }
                }
            },
            None => {
                assert forall|j: int| 0 <= j < contacts.len() implies #[trigger] contacts[j].display_name@ != name by {
                    if j > 0 {
                        assert(contacts[j] == rest[j - 1]);
                    }
                }
            },
        }
    }
}

/// The position of the first contact named `name` (see [`first_named`]).
pub fn contact_by_name(contacts: &Vec<ContactRecord>, name: &str) -> (r: Option<usize>)
    ensures
        match first_named(contacts@, name@) {
            Some(i) => r == Some(i as usize),
            None => r is None,
        },
        r matches Some(i) ==> i < contacts@.len() && contacts@[i as int].display_name@ == name@,
{
    let ghost all = contacts@;
    let wanted = name.to_owned();
    let mut i: usize = 0;
    assert(all.skip(0) =~= all);
    while i < contacts.len()
        invariant
            i <= contacts@.len(),
            contacts@ == all,
            wanted@ == name@,
            first_named(all, name@) == match first_named(all.skip(i as int), name@) {
                Some(j) => Some(j + i),
                None => None::<int>,
            },
        decreases contacts@.len() - i,
    {
        assert(all.skip(i as int)[0] == all[i as int]);
        if contacts[i].display_name == wanted {
            assert(all.skip(i as int).len() > 0);
            assert(first_named(all.skip(i as int), name@) == Some(0int));
            return Some(i);
        }
        assert(all.skip(i as int).drop_first() =~= all.skip(i + 1));
        i = i + 1;
    }
    assert(all.skip(i as int).len() == 0);
    None
}

} // verus!
