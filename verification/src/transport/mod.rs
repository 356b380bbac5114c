//! The transport abstraction and the transports that live in memory.

pub mod ble;
pub mod mock;
pub mod usb;

use vstd::prelude::*;
use crate::errors::Result;

verus! {

/// The duration of `millis` milliseconds, as `Duration::from_millis` makes it
/// (durations are opaque here: only equal arguments are known to give equal
/// durations).
pub uninterp spec fn millis_duration(millis: u64) -> core::time::Duration;

/// `Duration::from_millis`: the duration of `millis` milliseconds; it depends
/// on `millis` alone.
pub assume_specification[ core::time::Duration::from_millis ](millis: u64) -> (r: core::time::Duration)
    ensures
        r == millis_duration(millis),
;

/// A link to a printer.
pub trait Transport {
    /// Establishes the connection with the printer.
    fn connect(&mut self) -> Result<()>;

    /// Sends the complete buffer to the printer.
    fn write(&mut self, data: &[u8]) -> Result<()>;

    /// Reads response bytes from the printer (for status queries) into the
    /// front of `buf`; returns how many were read.
    fn read(&mut self, buf: &mut [u8]) -> Result<usize>;

    /// Closes the connection.
    fn disconnect(&mut self) -> Result<()>;

    /// Whether the connection is currently active.
    fn is_connected(&self) -> bool;

    /// Name of the transport, for logging.
    fn transport_name(&self) -> &'static str;

    /// Preferred size of the chunks a buffer is written in; 8 KiB unless the
    /// transport says otherwise.
    fn preferred_chunk_size(&self) -> (n: usize)
        ensures
            n > 0,
        default_ensures
            n == 8192,
    {
        8192
    }

    /// Delay between two chunks of a buffer; none unless the transport says
    /// otherwise.
    fn chunk_delay(&self) -> (d: std::time::Duration)
        default_ensures
            d == millis_duration(0),
    {
        std::time::Duration::from_millis(0)
    }
}

} // verus!
