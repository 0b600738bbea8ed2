//! The capability contract every transport connector implements.

use vstd::prelude::*;

use crate::error::TransportError;
use std::time::Duration;

verus! {

/// A client connected to an instrument over some transport.
///
/// A connector owns its transport handle and exposes exactly the four
/// operations the facade needs. What a physical transport answers depends on
/// the device at the other end, so the methods carry no promises: an
/// implementation may fail any call with a [`TransportError`].
pub trait InstrumentClient {
    /// Set a new timeout for the device connection. It applies to all
    /// subsequent operations on this connection, until changed again.
    fn set_timeout(&self, duration: Duration);

    /// Send a command to the device.
    fn command(&self, cmd: &str) -> Result<(), TransportError>;

    /// Send a command and read the response as a vector of bytes.
    fn query_raw(&self, cmd: &str) -> Result<Vec<u8>, TransportError>;

    /// Send a command and read the response as a UTF-8 string.
    fn query(&self, cmd: &str) -> Result<String, TransportError>;
}

} // verus!
