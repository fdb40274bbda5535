use vstd::prelude::*;

verus! {

/// Errors of the ABCI server core.
#[derive(Debug, Clone, Copy, PartialEq, Eq, Structural)]
pub enum Error {
    /// A request carried no value.
    ABCIFormatError,
    /// A request arrived that the consensus state machine does not accept
    /// in its current state, or an expected packet was not there.
    ABCIPacketError,
    /// A block was asked for outside the `DeliverBlock` state.
    StateError,
    /// The server was run before it was bound to an address.
    ServerNotBinding,
}

} // verus!
