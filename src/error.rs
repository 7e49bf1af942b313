use vstd::prelude::*;

verus! {

/// Conditions that the bridge reports to the host.
#[derive(Clone, Copy, Debug, PartialEq, Eq, Structural)]
pub enum BridgeError {
    /// The client was closed: the operation was refused, or the stream it
    /// read from was cut by the close.
    Closed,
    /// The stream ended cleanly: the gateway will send no more items.
    EndOfStream,
    /// A blocking call was made from a thread that is itself running
    /// asynchronous work; it is refused instead of deadlocking.
    NestedBlocking,
}

} // verus!
