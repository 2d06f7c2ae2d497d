//! The error taxonomy of the transport core.

use vstd::prelude::*;

verus! {

/// Why a connect attempt sequence failed as a whole.
#[derive(Clone, Copy, Debug, PartialEq, Eq, Structural)]
pub enum ConnectKind {
    /// An attempt failed with a timeout-kind error; later candidates are not tried.
    TimedOut,
    /// Every candidate was attempted and the last attempt's error is propagated.
    Exhausted,
}

/// Every failure the transport core can surface to a caller.
#[derive(Clone, Copy, Debug, PartialEq, Eq, Structural)]
pub enum Error {
    /// Name resolution produced no usable endpoint.
    AddressResolution,
    /// Establishing a connection failed: all candidates exhausted, or a
    /// timeout-kind error during one attempt.
    Connect(ConnectKind),
    /// The secure-channel handshake or its configuration failed.
    Tls,
    /// An underlying read or write failed.
    IO,
    /// An awaited deadline expired before data arrived, or the channel closed
    /// before a single awaited chunk was delivered.
    Timeout,
}

} // verus!
