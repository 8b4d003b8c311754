//! The gateway's error taxonomy.

use vstd::prelude::*;

use crate::security::SecurityError;

verus! {

/// Why an operation of the gateway failed.
#[derive(Clone, Copy, Debug, PartialEq, Eq, Structural)]
pub enum GatewayError {
    /// Malformed wire bytes.
    Parse,
    /// Same source and target protocol.
    InvalidRoute,
    /// No rule matched.
    NoRoute,
    /// A custom transform names a module that is not registered.
    NoTransform,
    /// A key or cryptographic failure.
    Security(SecurityError),
    /// A configuration failed validation.
    Config,
    /// The pipeline's channel is closed.
    ChannelClosed,
    /// The pipeline is not running.
    NotRunning,
}

} // verus!
