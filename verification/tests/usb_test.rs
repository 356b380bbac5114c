use nusb::ErrorKind;
use thermal_printer_rs::errors::PrinterError;
use thermal_printer_rs::transport::usb::{map_nusb_error_kind, map_usb_error_kind, UsbErrorKind};

#[test]
fn map_nusb_err_not_found() {
    let e = map_nusb_error_kind(ErrorKind::NotFound, "not found");
    assert!(matches!(e, PrinterError::PrinterNotFound(_)));
}

#[test]
fn map_nusb_err_permission() {
    let e = map_nusb_error_kind(ErrorKind::PermissionDenied, "denied");
    assert!(matches!(e, PrinterError::PermissionDenied(_)));
}

#[test]
fn map_nusb_err_busy() {
    let e = map_nusb_error_kind(ErrorKind::Busy, "busy");
    assert!(matches!(e, PrinterError::PermissionDenied(_)));
}

#[test]
fn map_nusb_err_other() {
    let e = map_nusb_error_kind(ErrorKind::Other, "other");
    assert!(matches!(e, PrinterError::ConnectionFailed(_)));
}

#[test]
fn map_usb_kinds_keep_message() {
    match map_usb_error_kind(UsbErrorKind::Disconnected, "gone") {
        PrinterError::ConnectionFailed(m) => assert_eq!(m, "gone"),
        other => panic!("unexpected {other:?}"),
    }
    match map_usb_error_kind(UsbErrorKind::NotFound, "nf") {
        PrinterError::PrinterNotFound(m) => assert_eq!(m, "nf"),
        other => panic!("unexpected {other:?}"),
    }
    assert!(matches!(
        map_nusb_error_kind(ErrorKind::Unsupported, "u"),
        PrinterError::ConnectionFailed(_)
    ));
    assert!(matches!(
        map_nusb_error_kind(ErrorKind::Disconnected, "d"),
        PrinterError::ConnectionFailed(_)
    ));
}
