//! The error type of the library and the text each error reads as.

use vstd::prelude::*;

verus! {

#[verifier::external_type_specification]
#[verifier::external_body]
pub struct ExIoError(std::io::Error);

/// Errors of the print pipeline.
#[derive(Debug)]
pub enum PrinterError {
    TransportUnavailable(String),
    ConnectionFailed(String),
    Timeout,
    EscposError(String),
    PermissionDenied(String),
    JobCancelled,
    PlatformNotSupported,
    Io(std::io::Error),
    PrinterNotFound(String),
    InvalidConfig(String),
}

pub type Result<T> = std::result::Result<T, PrinterError>;

/// The text of an I/O error (`std::io::Error` through `ToString`).
///
/// What the operating system reports for an error is not stated.
#[verifier::external_body]
fn io_error_text(e: &std::io::Error) -> String {
    e.to_string()
}

impl PrinterError {
    /// The human-readable message of the error, `None` for the I/O variant whose
    /// text comes from the operating system.
    pub open spec fn spec_message(&self) -> Option<Seq<char>> {
        match self {
            PrinterError::TransportUnavailable(s) => Some("Transport unavailable: "@ + s@),
            PrinterError::ConnectionFailed(s) => Some("Connection error: "@ + s@),
            PrinterError::Timeout => Some("Timeout while communicating with the printer"@),
            PrinterError::EscposError(s) => Some("Error building ESC/POS command: "@ + s@),
            PrinterError::PermissionDenied(s) => Some("Permission denied: "@ + s@),
            PrinterError::JobCancelled => Some("Print job cancelled"@),
            PrinterError::PlatformNotSupported => Some("Transport not supported on this platform"@),
            PrinterError::Io(_) => None,
            PrinterError::PrinterNotFound(s) => Some("Printer not found: "@ + s@),
            PrinterError::InvalidConfig(s) => Some("Configuration error: "@ + s@),
        }
    }

    /// The message of the error, as its `Display` text reads.
    pub fn message(&self) -> (r: String)
        ensures
            self.spec_message() matches Some(m) ==> r@ == m,
            self is Io ==> r@.take(11) == "I/O Error: "@,
    {
        match self {
            PrinterError::TransportUnavailable(s) => String::from_str("Transport unavailable: ").concat(s.as_str()),
            PrinterError::ConnectionFailed(s) => String::from_str("Connection error: ").concat(s.as_str()),
            PrinterError::Timeout => String::from_str("Timeout while communicating with the printer"),
            PrinterError::EscposError(s) => String::from_str("Error building ESC/POS command: ").concat(s.as_str()),
            PrinterError::PermissionDenied(s) => String::from_str("Permission denied: ").concat(s.as_str()),
            PrinterError::JobCancelled => String::from_str("Print job cancelled"),
            PrinterError::PlatformNotSupported => String::from_str("Transport not supported on this platform"),
            PrinterError::Io(e) => {
                let t = io_error_text(e);
                let r = String::from_str("I/O Error: ").concat(t.as_str());
                proof {
                    reveal_strlit("I/O Error: ");
                    assert(r@.take(11) =~= "I/O Error: "@);
                }
                r
            },
            PrinterError::PrinterNotFound(s) => String::from_str("Printer not found: ").concat(s.as_str()),
            PrinterError::InvalidConfig(s) => String::from_str("Configuration error: ").concat(s.as_str()),
        }
    }
}

} // verus!
