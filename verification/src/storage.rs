//! Kinds of queue and errors of a message store.
use vstd::prelude::*;
use crate::protocol::MessageId;

verus! {

/// Errors of a message store.
#[derive(Debug)]
pub enum StorageError {
    NotFound(MessageId),
    Backend(String),
}

/// Which queue of a message store.
#[derive(Clone, Copy, Debug, PartialEq, Eq, Structural)]
pub enum QueueKind {
    Inbox,
    Outbox,
}

} // verus!
