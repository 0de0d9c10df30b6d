use vstd::prelude::*;

verus! {

/// Failures of decoding an [`EthosMessagePayload`](crate::payload::EthosMessagePayload).
#[derive(Debug, Clone, Copy, PartialEq, Eq, Structural)]
pub enum EthosError {
    /// The message received is invalid.
    InvalidNetMessage,
    /// The payload discriminant is unknown.
    InvalidPayloadType,
    /// The payload size disagrees with its discriminant or with the buffer.
    InvalidPayloadSize,
}

} // verus!
