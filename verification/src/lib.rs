//! Connect to, command, and query laboratory instruments (oscilloscopes,
//! multimeters, ...) through a single VISA-style resource address.
//!
//! An address such as `USB::0x0699::0x0368::SN123::INSTR` is resolved into a
//! transport family plus transport-specific fields; the resolved address is
//! dispatched to the matching connector; the live connection is wrapped in the
//! [`Instrument`] facade, which hides which transport backs it and can be
//! shared across threads.
//!
//! Currently only the USBTMC transport family is implemented; the resolver and
//! the facade are kept open so further families can be added without touching
//! existing call sites.

use vstd::prelude::*;

pub mod error;
pub mod interface;
pub mod resolver;
pub mod usb;

use crate::error::{AddressError, ConnectError, TransportError};
use crate::interface::InstrumentClient;
use crate::resolver::{resolve, resolve_spec, ResolvedView};
use crate::usb::{dispatch, UsbConnector};
use std::sync::Arc;
use std::time::Duration;

verus! {

/// Relies on Arc::clone: the returned handle refers to the same allocation as
/// the argument, so its contents are the argument's contents.
#[verifier::external_body]
fn share<C: InstrumentClient>(client: &Arc<C>) -> (r: Arc<C>)
    ensures
        r == *client,
{
    Arc::clone(client)
}

/// The transport-agnostic instrument handle.
///
/// Holds exactly one connector behind shared, reference-counted, thread-safe
/// ownership: cloning the handle yields another reference to the same live
/// connection, and the connection is released when the last handle is
/// dropped. Which transport backs the handle is fixed at construction and
/// never changes.
pub struct Instrument<C: InstrumentClient> {
    client: Arc<C>,
}

impl<C: InstrumentClient> Instrument<C> {
    /// The connector every operation of this handle forwards to.
    pub closed spec fn connector(&self) -> C {
        *self.client
    }

    /// Wrap an already-constructed connector in a shareable handle.
    pub fn from_client(client: Arc<C>) -> (r: Self)
        ensures
            r.connector() == *client,
    {
        Instrument { client }
    }

    /// Set a new timeout for the device connection.
    ///
    /// Forwarded to the held connector with the duration unmodified. The
    /// timeout is a property of the shared connection: every handle cloned
    /// from this one observes it. No failure is reported; the connector's
    /// timeout setter has no error channel.
    pub fn set_timeout(&self, duration: Duration)
        ensures
            call_ensures(C::set_timeout, (&self.connector(), duration), ()),
    {
        self.client.set_timeout(duration);
    }

    /// Send a command to the device.
    ///
    /// Pure pass-through: the result is an outcome of the held connector's
    /// `command` on the identical string. Fails when the transport write
    /// fails; a failure does not invalidate the handle.
    pub fn command(&self, cmd: &str) -> (r: Result<(), TransportError>)
        ensures
            call_ensures(C::command, (&self.connector(), cmd), r),
    {
        self.client.command(cmd)
    }

    /// Send a command and read the response as a UTF-8 string.
    ///
    /// Pure pass-through: the result is an outcome of the held connector's
    /// `query` on the identical string. Fails on a transport error or when
    /// the response is not valid UTF-8.
    pub fn query(&self, cmd: &str) -> (r: Result<String, TransportError>)
        ensures
            call_ensures(C::query, (&self.connector(), cmd), r),
    {
        self.client.query(cmd)
    }

    /// Send a command and read the undecoded response bytes.
    ///
    /// Pure pass-through: the result is an outcome of the held connector's
    /// `query_raw` on the identical string, with the same failure modes as
    /// [`Instrument::query`] short of UTF-8 decoding.
    pub fn query_raw(&self, cmd: &str) -> (r: Result<Vec<u8>, TransportError>)
        ensures
            call_ensures(C::query_raw, (&self.connector(), cmd), r),
    {
        self.client.query_raw(cmd)
    }
}

impl<C: InstrumentClient> Clone for Instrument<C> {
    /// Another handle to the same live connection: not a new connection.
    fn clone(&self) -> (r: Self)
        ensures
            r.connector() == self.connector(),
    {
        Instrument { client: share(&self.client) }
    }
}

impl Instrument<UsbConnector> {
    /// Connect to a compatible device with a VISA-style resource address.
    ///
    /// Runs the resolver, then the dispatcher, and wraps the connector it
    /// built in a shareable handle. Exactly the addresses accepted by
    /// [`resolve_spec`] reach the transport; on those, the handle's connector
    /// carries the parsed vendor and product IDs, unless the transport itself
    /// failed to connect. Resolver and dispatcher errors are surfaced
    /// unchanged under the [`ConnectError`] umbrella.
    pub fn connect(address: &str) -> (r: Result<Self, ConnectError>)
        ensures
            r matches Ok(inst) ==> resolve_spec(address@) matches Ok(m)
                && inst.connector().vid() == m.vid && inst.connector().pid() == m.pid,
            r matches Err(ConnectError::Address(e)) ==> resolve_spec(address@) == Err::<
                ResolvedView,
                AddressError,
            >(e),
            r matches Err(ConnectError::Transport(_)) ==> resolve_spec(address@) is Ok,
    {
        let resolved = match resolve(address) {
            Ok(ra) => ra,
            Err(e) => { return Err(ConnectError::Address(e)) },
        };
        let connector = match dispatch(&resolved) {
            Ok(c) => c,
            Err(e) => { return Err(e) },
        };
        Ok(Instrument { client: Arc::new(connector) })
    }
}

} // verus!
