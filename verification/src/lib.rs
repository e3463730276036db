//! Messenger core: identities, sealed envelopes, relay wire handling.
pub mod text;
pub mod protocol;
pub mod clock;
pub mod crypto;
pub mod transport;
pub mod store;
pub mod client;
pub mod storage;
pub mod engine;
pub mod ffi;
pub mod cli;
pub mod server;
