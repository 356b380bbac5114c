use thermal_printer_rs::config::{CharEncoding, PrinterConfig, TransportKind};
use thermal_printer_rs::errors::PrinterError;
use thermal_printer_rs::text::decimal_string;

#[test]
fn error_messages() {
    assert_eq!(
        PrinterError::TransportUnavailable("x".into()).message(),
        "Transport unavailable: x"
    );
    assert_eq!(PrinterError::ConnectionFailed("y".into()).message(), "Connection error: y");
    assert_eq!(
        PrinterError::Timeout.message(),
        "Timeout while communicating with the printer"
    );
    assert_eq!(
        PrinterError::EscposError("z".into()).message(),
        "Error building ESC/POS command: z"
    );
    assert_eq!(PrinterError::PermissionDenied("p".into()).message(), "Permission denied: p");
    assert_eq!(PrinterError::JobCancelled.message(), "Print job cancelled");
    assert_eq!(
        PrinterError::PlatformNotSupported.message(),
        "Transport not supported on this platform"
    );
    assert_eq!(PrinterError::PrinterNotFound("q".into()).message(), "Printer not found: q");
    assert_eq!(PrinterError::InvalidConfig("c".into()).message(), "Configuration error: c");
    let io = PrinterError::Io(std::io::Error::new(std::io::ErrorKind::Other, "disk"));
    assert_eq!(io.message(), "I/O Error: disk");
}

#[test]
fn decimal_strings() {
    assert_eq!(decimal_string(0), "0");
    assert_eq!(decimal_string(7), "7");
    assert_eq!(decimal_string(10), "10");
    assert_eq!(decimal_string(16777216), "16777216");
    assert_eq!(decimal_string(usize::MAX), usize::MAX.to_string());
}

#[test]
fn printer_config_defaults() {
    let c = PrinterConfig::default();
    match c.transport {
        TransportKind::Tcp { host, port } => {
            assert_eq!(host, "127.0.0.1");
            assert_eq!(port, 9100);
        }
        other => panic!("unexpected {other:?}"),
    }
    assert_eq!(c.timeout_ms, 5000);
    assert_eq!(c.paper_width, 48);
    assert_eq!(c.encoding, CharEncoding::Pc437);
    assert_eq!(c.max_retries, 3);
    assert_eq!(CharEncoding::default(), CharEncoding::Pc437);
}
