use vstd::prelude::*;

verus! {

/// The failures that a caller of any command can observe.
#[derive(Debug, Clone, PartialEq, Eq)]
pub enum Error {
    /// A command for a key that already has an outstanding operation.
    AlreadyInProgress,
    /// No native completion arrived within the deadline.
    Timeout,
    /// The link dropped while the operation was outstanding.
    Disconnected,
    /// The native stack reported a failure; its description is kept verbatim.
    Native(String),
    /// The command named an unknown peripheral, service, characteristic or descriptor.
    NotFound,
    /// The actor went away while the reply was pending.
    ChannelClosed,
}

} // verus!
