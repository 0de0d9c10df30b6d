use vstd::prelude::*;

verus! {

/// Recoverable failures of encoding and decoding frames.
#[derive(Debug, Clone, Copy, PartialEq, Eq, Structural)]
pub enum Error {
    /// The destination buffer cannot hold the encoded message.
    BufferSizeTooSmall,
    /// Not enough bytes yet to read the whole message: retry with more.
    IncompleteMessage,
    /// The discriminant does not belong to the expected payload set.
    InvalidMessage,
    /// The declared size disagrees with the size computed from the content.
    MessageSizeInvalid,
    /// The computed size exceeds the limit of the message's direction.
    MessageSizeGreaterThanLimit,
}

} // verus!
