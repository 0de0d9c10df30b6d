use crate::payload::EthosMessagePayload;
use vstd::prelude::*;

verus! {

/// Message sent between client and server.
#[allow(dead_code)]
pub struct EthosMessage {
    /// Size of the message including payload.
    size: u16,
    /// Type of message.
    msg_type: u16,
    /// Shared key used to validate the message.
    key: u128,
    /// Timestamp of the message (usually in sync with the server).
    timestamp: u64,
    /// Payload of the message.
    payload: EthosMessagePayload,
}

} // verus!
