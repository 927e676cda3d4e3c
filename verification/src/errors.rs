use vstd::prelude::*;

verus! {

/// The error taxonomy of the service. Every business-rule failure is returned
/// to the caller as one of these kinds; no operation aborts the process.
#[derive(Clone, Copy, Debug, PartialEq, Eq, Structural)]
pub enum Error {
    /// Malformed request data: a non-positive capacity or a negative hourly rate.
    InvalidInput,
    /// The referenced block id does not exist.
    UnknownBlock,
    /// A block with the requested name already exists.
    DuplicateName,
    /// The block has no free slot: active sessions have reached its capacity.
    BlockFull,
    /// No active parking session exists for the vehicle.
    NoActiveSession,
    /// More than one active session exists for the vehicle; the checkout
    /// refuses to pick one silently.
    MultipleActiveSessions,
    /// A stored or supplied timestamp is not valid RFC 3339 text.
    TimestampParseError,
    /// A value cannot be represented in the store (an exhausted id space or an
    /// invoice amount beyond the representable range).
    ConstraintViolation,
}

} // verus!
