//! What the relay server reports about itself.
use vstd::prelude::*;
use crate::protocol::{TransportKind, PROTOCOL_VERSION};

verus! {

/// The server's health report.
#[derive(Clone, Copy, Debug, PartialEq, Eq)]
pub struct HealthResponse {
    pub status: &'static str,
    pub protocol_version: u16,
    pub transports: [TransportKind; 2],
}

/// The health report: status `ok`, the protocol version, and the relay and
/// WebRTC transports.
pub fn health() -> (h: HealthResponse)
    ensures
        h.status@ == "ok"@,
        h.protocol_version == PROTOCOL_VERSION,
        h.transports@ == seq![TransportKind::Relay, TransportKind::WebRtc],
{
    let h = HealthResponse {
        status: "ok",
        protocol_version: PROTOCOL_VERSION,
        transports: [TransportKind::Relay, TransportKind::WebRtc],
    };
    assert(h.transports@ =~= seq![TransportKind::Relay, TransportKind::WebRtc]);
    h
}

} // verus!
