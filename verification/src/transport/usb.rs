//! How the errors of the USB stack (`nusb`) read as printer errors.

use vstd::prelude::*;
use crate::errors::PrinterError;

verus! {

#[verifier::external_type_specification]
#[verifier::external_body]
pub struct ExNusbErrorKind(nusb::ErrorKind);

#[verifier::external_type_specification]
#[verifier::external_body]
pub struct ExNusbError(nusb::Error);

#[verifier::external_type_specification]
#[verifier::external_body]
pub struct ExNusbTransferError(nusb::transfer::TransferError);

/// Typical OUT endpoint of ESC/POS printers.
pub const USB_ENDPOINT_OUT: u8 = 0x01;
/// Interface claimed on the printer.
pub const USB_INTERFACE: u8 = 0;
/// Size of one pipelined bulk OUT transfer.
pub const PIPELINE_CHUNK: usize = 16 * 1024;
/// Number of transfers kept in flight.
pub const PIPELINE_WINDOW: usize = 4;

/// Category of a USB error.
#[derive(Debug, Clone, Copy, PartialEq, Eq, Structural)]
pub enum UsbErrorKind {
    Disconnected,
    Busy,
    PermissionDenied,
    NotFound,
    Unsupported,
    Other,
}

/// The category of an `nusb::ErrorKind`: the variant of the same name (a kind
/// added by a later release of the crate reads as `Other`). It depends on the
/// kind alone.
pub uninterp spec fn usb_category(kind: nusb::ErrorKind) -> UsbErrorKind;

/// The kind of an `nusb::Error` (`Error::kind`, a field read); it depends on
/// the error alone.
pub uninterp spec fn nusb_kind_of(e: nusb::Error) -> nusb::ErrorKind;

/// Tells the variants of an `nusb::ErrorKind` apart, one arm each: the result
/// is the kind's category.
#[verifier::external_body]
fn usb_error_kind(kind: nusb::ErrorKind) -> (r: UsbErrorKind)
    ensures
        r == usb_category(kind),
{
    match kind {
        nusb::ErrorKind::Disconnected => UsbErrorKind::Disconnected,
        nusb::ErrorKind::Busy => UsbErrorKind::Busy,
        nusb::ErrorKind::PermissionDenied => UsbErrorKind::PermissionDenied,
        nusb::ErrorKind::NotFound => UsbErrorKind::NotFound,
        nusb::ErrorKind::Unsupported => UsbErrorKind::Unsupported,
        _ => UsbErrorKind::Other,
    }
}

/// `nusb::Error::kind`: the kind stored in the error.
#[verifier::external_body]
fn nusb_error_kind(e: &nusb::Error) -> (r: nusb::ErrorKind)
    ensures
        r == nusb_kind_of(*e),
{
    e.kind()
}

/// The text of an `nusb::Error` (its `Display`); not stated, the error being
/// opaque here and its text coming from the operating system.
#[verifier::external_body]
fn nusb_error_text(e: &nusb::Error) -> String {
    e.to_string()
}

/// The text of a failed transfer (its `Display`); not stated.
#[verifier::external_body]
fn transfer_error_text(e: &nusb::transfer::TransferError) -> String {
    e.to_string()
}

/// The printer error for a USB error category.
pub open spec fn usb_error_spec(kind: UsbErrorKind, message: Seq<char>, e: PrinterError) -> bool {
    match kind {
        UsbErrorKind::NotFound => e matches PrinterError::PrinterNotFound(m) && m@ == message,
        UsbErrorKind::PermissionDenied => e matches PrinterError::PermissionDenied(m) && m@ == message,
        UsbErrorKind::Busy => e matches PrinterError::PermissionDenied(m) && m@ == message,
        _ => e matches PrinterError::ConnectionFailed(m) && m@ == message,
    }
}

/// A missing device is "not found", a refused or busy one "permission
/// denied", anything else a connection failure; the message is kept.
pub fn map_usb_error_kind(kind: UsbErrorKind, message: &str) -> (e: PrinterError)
    ensures
        usb_error_spec(kind, message@, e),
{
    let message = String::from_str(message);
    match kind {
        UsbErrorKind::NotFound => PrinterError::PrinterNotFound(message),
        UsbErrorKind::PermissionDenied | UsbErrorKind::Busy => PrinterError::PermissionDenied(message),
        _ => PrinterError::ConnectionFailed(message),
    }
}

/// The printer error for an `nusb` error kind, carrying `message`.
pub fn map_nusb_error_kind(kind: nusb::ErrorKind, message: &str) -> (e: PrinterError)
    ensures
        usb_error_spec(usb_category(kind), message@, e),
{
    let k = usb_error_kind(kind);
    map_usb_error_kind(k, message)
}

/// The printer error for an `nusb` error, by the category of its kind,
/// carrying its text (which comes from the operating system and is not
/// stated).
pub fn map_nusb_err(e: nusb::Error) -> (r: PrinterError)
    ensures
        exists|m: Seq<char>| usb_error_spec(usb_category(nusb_kind_of(e)), m, r),
{
    let kind = nusb_error_kind(&e);
    let text = nusb_error_text(&e);
    map_nusb_error_kind(kind, text.as_str())
}

/// A failed transfer is a connection failure carrying its text.
pub fn map_transfer_err(e: nusb::transfer::TransferError) -> (r: PrinterError)
    ensures
        r is ConnectionFailed,
{
    PrinterError::ConnectionFailed(transfer_error_text(&e))
}

/// Bookkeeping of a pipelined bulk transfer of `total` chunks: chunks are
/// submitted in order, at most `PIPELINE_WINDOW` at a time.
pub struct Pipeline {
    total: usize,
    submitted: usize,
    in_flight: usize,
}

impl Pipeline {
    /// Chunks of the transfer.
    pub closed spec fn total(&self) -> nat {
        self.total as nat
    }

    /// Chunks submitted so far (chunks `0..submitted`).
    pub closed spec fn submitted(&self) -> nat {
        self.submitted as nat
    }

    /// Chunks submitted and not yet completed.
    pub closed spec fn in_flight(&self) -> nat {
        self.in_flight as nat
    }

    #[verifier::type_invariant]
    closed spec fn consistent(&self) -> bool {
        &&& self.submitted <= self.total
        &&& self.in_flight <= self.submitted
        &&& self.in_flight <= PIPELINE_WINDOW
        &&& self.submitted < self.total ==> self.in_flight > 0
    }

    /// Starts a transfer of `total` chunks: the first `min(total, window)`
    /// chunks are submitted at once.
    pub fn start(total: usize) -> (p: Self)
        ensures
            p.total() == total,
            p.submitted() == if total < PIPELINE_WINDOW { total as nat } else { PIPELINE_WINDOW as nat },
            p.in_flight() == p.submitted(),
    {
        let first = if total < PIPELINE_WINDOW { total } else { PIPELINE_WINDOW };
        Pipeline { total, submitted: first, in_flight: first }
    }

    /// Whether transfers are still pending; once none is, every chunk has
    /// been submitted, so a transfer whose completions all succeed sends all
    /// its chunks.
    pub fn pending(&self) -> (r: bool)
        ensures
            r == (self.in_flight() > 0),
            !r ==> self.submitted() == self.total(),
            self.in_flight() <= PIPELINE_WINDOW,
    {
        proof {
            use_type_invariant(self);
        }
        self.in_flight > 0
    }

    /// Records the successful completion of the oldest pending transfer and
    /// returns the index of the chunk to submit next, if any is left.
    pub fn completed(&mut self) -> (next: Option<usize>)
        requires
            old(self).in_flight() > 0,
        ensures
            final(self).total() == old(self).total(),
            old(self).submitted() < old(self).total() ==> next == Some(old(self).submitted() as usize)
                && final(self).submitted() == old(self).submitted() + 1 && final(self).in_flight()
                == old(self).in_flight(),
            old(self).submitted() == old(self).total() ==> next is None && final(self).submitted()
                == old(self).submitted() && final(self).in_flight() == old(self).in_flight() - 1,
    {
        proof {
            use_type_invariant(&*self);
        }
        if self.submitted < self.total {
            let idx = self.submitted;
            self.submitted = self.submitted + 1;
            Some(idx)
        } else {
            self.in_flight = self.in_flight - 1;
            None
        }
    }
}


/// How USB errors read: a missing device is "printer not found", a refused
/// or busy one "permission denied", a disconnected, unsupported or other one
/// a connection failure; the message is always kept.
pub proof fn law_usb_error_categories(kind: UsbErrorKind, message: Seq<char>, e: PrinterError)
    requires
        usb_error_spec(kind, message, e),
    ensures
        kind == UsbErrorKind::NotFound ==> (e matches PrinterError::PrinterNotFound(m) && m@ == message),
        (kind == UsbErrorKind::PermissionDenied || kind == UsbErrorKind::Busy) ==> (e matches PrinterError::PermissionDenied(
            m,
        ) && m@ == message),
        (kind == UsbErrorKind::Disconnected || kind == UsbErrorKind::Unsupported || kind == UsbErrorKind::Other)
            ==> (e matches PrinterError::ConnectionFailed(m) && m@ == message),
{
}

} // verus!
