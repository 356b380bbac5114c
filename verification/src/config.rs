//! Configuration of the print service.

use vstd::prelude::*;

verus! {

/// Transport to use for the connection.
#[derive(Debug, Clone)]
pub enum TransportKind {
    /// TCP/IP: network printers (typical port 9100).
    Tcp { host: String, port: u16 },
    /// USB: desktop only (Linux, Windows, macOS).
    Usb { vendor_id: u16, product_id: u16 },
    /// Bluetooth Low Energy: desktop and mobile.
    Ble { address: String },
}

/// Character encoding of printed text.
#[derive(Debug, Clone, Copy, PartialEq, Eq, Structural)]
pub enum CharEncoding {
    Pc437,
    Utf8,
    Iso8859_1,
}

impl Default for CharEncoding {
    fn default() -> (e: Self)
        ensures
            e == CharEncoding::Pc437,
    {
        CharEncoding::Pc437
    }
}

/// Complete configuration of the print service.
#[derive(Debug, Clone)]
pub struct PrinterConfig {
    pub transport: TransportKind,
    pub timeout_ms: u64,
    /// Paper width in characters (typical: 32 or 48).
    pub paper_width: u8,
    /// Character encoding (default: PC437).
    pub encoding: CharEncoding,
    /// Number of automatic reconnection attempts.
    pub max_retries: u8,
    /// BLE only: override of the write chunk size in bytes; `None` keeps the
    /// transport's own size.
    pub ble_chunk_size: Option<usize>,
    /// BLE only: override of the inter-chunk delay in milliseconds; `None`
    /// keeps the 20 ms default.
    pub ble_chunk_delay_ms: Option<u64>,
}

impl Default for PrinterConfig {
    /// TCP to 127.0.0.1:9100, 5 s timeout, 48 characters, PC437, 3 retries.
    fn default() -> (c: Self)
        ensures
            c.transport matches TransportKind::Tcp { host, port } && host@ == "127.0.0.1"@ && port
                == 9100,
            c.timeout_ms == 5000,
            c.paper_width == 48,
            c.encoding == CharEncoding::Pc437,
            c.max_retries == 3,
            c.ble_chunk_size is None,
            c.ble_chunk_delay_ms is None,
    {
        PrinterConfig {
            transport: TransportKind::Tcp { host: String::from_str("127.0.0.1"), port: 9100 },
            timeout_ms: 5000,
            paper_width: 48,
            encoding: CharEncoding::Pc437,
            max_retries: 3,
            ble_chunk_size: None,
            ble_chunk_delay_ms: None,
        }
    }
}

} // verus!
