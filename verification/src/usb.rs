//! The USBTMC transport family: a connector backed by rs_usbtmc, and the
//! dispatcher that maps a resolved address to its connector's construction
//! routine.

use vstd::prelude::*;

use crate::error::{ConnectError, TransportError};
use crate::interface::InstrumentClient;
use crate::resolver::{InterfaceFamily, ResolvedAddress};
use std::time::Duration;

verus! {

/// Declares rs_usbtmc's client type so values of it can stand in fields.
/// A value of it is opaque here: it carries the live USB handle.
#[verifier::external_type_specification]
#[verifier::external_body]
pub struct ExUsbtmcClient(rs_usbtmc::UsbtmcClient);

/// Relies on rs_usbtmc::UsbtmcClient::connect: opens the USB device with the
/// given vendor and product IDs, claims its USBTMC interface and clears its
/// buffers. Success depends on what is on the bus, so nothing is promised of
/// the outcome. The driver subtracts one from the configuration number a
/// device reports, so a device reporting configuration 0 panics a debug
/// build; that is device-triggered and no requires on the IDs can exclude it.
#[verifier::external_body]
fn usbtmc_connect(vid: u16, pid: u16) -> Result<rs_usbtmc::UsbtmcClient, TransportError> {
    rs_usbtmc::UsbtmcClient::connect(vid, pid).map_err(
        |e| TransportError { message: format!("{}", e) },
    )
}

/// Relies on rs_usbtmc::UsbtmcClient::set_timeout: stores the new timeout in
/// the connection's shared timeout cell; it has no error channel.
#[verifier::external_body]
fn usbtmc_set_timeout(client: &rs_usbtmc::UsbtmcClient, duration: Duration) {
    client.set_timeout(duration)
}

/// Relies on rs_usbtmc::UsbtmcClient::command: writes the command to the bulk
/// OUT endpoint. The device's reaction is not observable here, so nothing is
/// promised of the outcome.
#[verifier::external_body]
fn usbtmc_command(client: &rs_usbtmc::UsbtmcClient, cmd: &str) -> Result<(), TransportError> {
    client.command(cmd).map_err(|e| TransportError { message: format!("{}", e) })
}

/// Relies on rs_usbtmc::UsbtmcClient::query_raw: writes the command, then
/// reads the response bytes from the bulk IN endpoint. What comes back is the
/// device's to choose, so nothing is promised of the outcome. The driver
/// slices the response past its 12-byte header, so a device answering fewer
/// than 12 bytes panics; device-triggered, not excludable by a requires.
#[verifier::external_body]
fn usbtmc_query_raw(client: &rs_usbtmc::UsbtmcClient, cmd: &str) -> Result<
    Vec<u8>,
    TransportError,
> {
    client.query_raw(cmd).map_err(|e| TransportError { message: format!("{}", e) })
}

/// Relies on rs_usbtmc::UsbtmcClient::query: like `query_raw`, but decodes
/// the response as UTF-8 (failing on invalid bytes) and trims surrounding
/// whitespace. What comes back is the device's to choose, so nothing is
/// promised of the outcome. It shares `query_raw`'s panic on a response
/// shorter than its 12-byte header; device-triggered, not excludable by a
/// requires.
#[verifier::external_body]
fn usbtmc_query(client: &rs_usbtmc::UsbtmcClient, cmd: &str) -> Result<String, TransportError> {
    client.query(cmd).map_err(|e| TransportError { message: format!("{}", e) })
}

/// A connector for the USBTMC transport family: a live connection to the
/// device it was opened for. The vendor/product pair is fixed at
/// construction; the transport behind a connector never changes.
pub struct UsbConnector {
    vid: u16,
    pid: u16,
    client: rs_usbtmc::UsbtmcClient,
}

impl UsbConnector {
    /// The vendor ID this connector was opened for.
    pub closed spec fn vid(&self) -> u16 {
        self.vid
    }

    /// The product ID this connector was opened for.
    pub closed spec fn pid(&self) -> u16 {
        self.pid
    }

    /// Open the USB device with the given vendor and product IDs. This is
    /// where the physical connection is established; it fails with a
    /// transport error when the device is absent or cannot be claimed.
    pub fn open(vid: u16, pid: u16) -> (r: Result<UsbConnector, TransportError>)
        ensures
            r matches Ok(c) ==> c.vid() == vid && c.pid() == pid,
    {
        match usbtmc_connect(vid, pid) {
            Ok(client) => Ok(UsbConnector { vid, pid, client }),
            Err(e) => Err(e),
        }
    }
}

impl InstrumentClient for UsbConnector {
    fn set_timeout(&self, duration: Duration) {
        usbtmc_set_timeout(&self.client, duration)
    }

    fn command(&self, cmd: &str) -> Result<(), TransportError> {
        usbtmc_command(&self.client, cmd)
    }

    fn query_raw(&self, cmd: &str) -> Result<Vec<u8>, TransportError> {
        usbtmc_query_raw(&self.client, cmd)
    }

    fn query(&self, cmd: &str) -> Result<String, TransportError> {
        usbtmc_query(&self.client, cmd)
    }
}

/// Map a resolved address to the matching connector's construction routine
/// and run it. This is the registry: a new transport family is added here,
/// without touching the resolver or the facade. Construction failures
/// propagate unchanged as transport errors.
pub fn dispatch(resolved: &ResolvedAddress) -> (r: Result<UsbConnector, ConnectError>)
    ensures
        r matches Ok(c) ==> c.vid() == resolved.vid && c.pid() == resolved.pid,
        r matches Err(e) ==> e is Transport,
{
    match resolved.family {
        InterfaceFamily::Usb => match UsbConnector::open(resolved.vid, resolved.pid) {
            Ok(c) => Ok(c),
            Err(e) => Err(ConnectError::Transport(e)),
        },
    }
}

} // verus!
