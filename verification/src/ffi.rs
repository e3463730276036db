//! Plain records handed across the application boundary, and how the
//! client's records turn into them.
use vstd::prelude::*;
use crate::client::SyncedMessage;
use crate::protocol::uuid_text;
use crate::store::{direction_text, ContactRecord, MessageRecord};

verus! {

/// Where a client keeps its database and which relay it uses.
#[derive(Clone, Debug, PartialEq, Eq)]
pub struct ClientConfig {
    pub database_path: String,
    pub relay_url: String,
}

/// A contact as shown to the user.
#[derive(Clone, Debug, PartialEq, Eq)]
pub struct ContactDto {
    pub name: String,
    pub peer_id: String,
}

/// A stored message as shown to the user.
#[derive(Clone, Debug, PartialEq, Eq)]
pub struct MessageDto {
    pub message_id: String,
    pub contact_name: String,
    pub direction: String,
    pub body: String,
    pub created_at_ms: u64,
}

/// A newly received message as shown to the user.
#[derive(Clone, Debug, PartialEq, Eq)]
pub struct SyncedMessageDto {
    pub message_id: String,
    pub sender_peer_id: String,
    pub body: String,
}

/// `d` shows contact `c`.
pub open spec fn shows_contact(d: ContactDto, c: ContactRecord) -> bool {
    d.name@ == c.display_name@ && d.peer_id@ == c.peer_id@
}

/// `d` shows message `m` of the contact named `contact_name`.
pub open spec fn shows_message(d: MessageDto, contact_name: Seq<char>, m: MessageRecord) -> bool {
    &&& d.message_id@ == uuid_text(m.message_id@)
    &&& d.contact_name@ == contact_name
    &&& d.direction@ == direction_text(m.direction)
    &&& d.body@ == m.body@
    &&& d.created_at_ms == m.created_at_ms
}

/// `d` shows received message `m`.
pub open spec fn shows_synced(d: SyncedMessageDto, m: SyncedMessage) -> bool {
    &&& d.message_id@ == uuid_text(m.message_id@)
    &&& d.sender_peer_id@ == m.sender@
    &&& d.body@ == m.body@
}

/// A contact as shown to the user: its name and identifier.
pub fn contact_to_dto(contact: &ContactRecord) -> (d: ContactDto)
    ensures
        shows_contact(d, *contact),
{
    ContactDto { name: contact.display_name.clone(), peer_id: contact.peer_id.as_str().to_owned() }
}

/// A message as shown to the user.
pub fn message_to_dto(contact_name: &str, message: &MessageRecord) -> (d: MessageDto)
    ensures
        shows_message(d, contact_name@, *message),
{
    MessageDto {
        message_id: message.message_id.text(),
        contact_name: contact_name.to_owned(),
        direction: message.direction.as_str().to_owned(),
        body: message.body.clone(),
        created_at_ms: message.created_at_ms,
    }
}

/// A received message as shown to the user.
pub fn synced_to_dto(message: &SyncedMessage) -> (d: SyncedMessageDto)
    ensures
        shows_synced(d, *message),
{
    SyncedMessageDto {
        message_id: message.message_id.text(),
        sender_peer_id: message.sender.as_str().to_owned(),
        body: message.body.clone(),
    }
}

/// The stored contacts as shown to the user, in the same order.
pub fn list_contacts(contacts: &Vec<ContactRecord>) -> (dtos: Vec<ContactDto>)
    ensures
        dtos@.len() == contacts@.len(),
        forall|i: int| 0 <= i < contacts@.len() ==> shows_contact(#[trigger] dtos@[i], contacts@[i]),
{
    let mut dtos: Vec<ContactDto> = Vec::new();
    let mut i: usize = 0;
    while i < contacts.len()
        invariant
            i <= contacts@.len(),
            dtos@.len() == i,
            forall|j: int| 0 <= j < i ==> shows_contact(#[trigger] dtos@[j], contacts@[j]),
        decreases contacts@.len() - i,
    {
        dtos.push(contact_to_dto(&contacts[i]));
        i = i + 1;
    }
    dtos
}

/// A contact's stored messages as shown to the user, in the same order.
pub fn list_messages(contact: &ContactRecord, messages: &Vec<MessageRecord>) -> (dtos: Vec<
    MessageDto,
>)
    ensures
        dtos@.len() == messages@.len(),
        forall|i: int|
            0 <= i < messages@.len() ==> shows_message(
                #[trigger] dtos@[i],
                contact.display_name@,
                messages@[i],
            ),
{
    let mut dtos: Vec<MessageDto> = Vec::new();
    let mut i: usize = 0;
    while i < messages.len()
        invariant
            i <= messages@.len(),
            dtos@.len() == i,
            forall|j: int|
                0 <= j < i ==> shows_message(#[trigger] dtos@[j], contact.display_name@, messages@[j]),
        decreases messages@.len() - i,
    {
        dtos.push(message_to_dto(contact.display_name.as_str(), &messages[i]));
        i = i + 1;
    }
    dtos
}

/// The received messages as shown to the user, in the same order.
pub fn sync(messages: &Vec<SyncedMessage>) -> (dtos: Vec<SyncedMessageDto>)
    ensures
        dtos@.len() == messages@.len(),
        forall|i: int| 0 <= i < messages@.len() ==> shows_synced(#[trigger] dtos@[i], messages@[i]),
{
    let mut dtos: Vec<SyncedMessageDto> = Vec::new();
    let mut i: usize = 0;
    while i < messages.len()
        invariant
            i <= messages@.len(),
            dtos@.len() == i,
            forall|j: int| 0 <= j < i ==> shows_synced(#[trigger] dtos@[j], messages@[j]),
        decreases messages@.len() - i,
    {
        dtos.push(synced_to_dto(&messages[i]));
        i = i + 1;
    }
    dtos
}

} // verus!
