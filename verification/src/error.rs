//! Error taxonomy: address-level failures, transport-level failures, and the
//! umbrella error returned by `connect`.

use vstd::prelude::*;

verus! {

/// Why an address string failed to resolve.
///
/// Resolution is all-or-nothing: no partial state survives a failure.
#[derive(Clone, Copy, Debug, PartialEq, Eq, Structural)]
pub enum AddressError {
    /// The first segment of the address matches no known interface family.
    UnrecognizedInterface,
    /// The matched interface family needs more segments than the address holds.
    MissingField,
    /// A numeric field is not valid hexadecimal, or its value does not fit in
    /// 16 bits.
    MalformedField,
}

/// A transport-level failure: either the connection could not be established,
/// or an operation on an established connection failed. The message carries
/// what the transport driver reported.
#[derive(Debug)]
pub struct TransportError {
    pub message: String,
}

impl TransportError {
    /// The driver's description of the failure.
    pub fn describe(&self) -> (r: String)
        ensures
            r@ == self.message@,
    {
        self.message.clone()
    }
}

/// Umbrella error for `connect`: either the address did not resolve, or the
/// transport failed to establish the connection.
#[derive(Debug)]
pub enum ConnectError {
    /// The address string did not resolve; carries the resolver's verdict.
    Address(AddressError),
    /// Resolution succeeded but the transport could not connect
    /// (device absent, busy, permission denied).
    Transport(TransportError),
}

} // verus!
