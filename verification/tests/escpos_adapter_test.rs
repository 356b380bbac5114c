use escpos::driver::Driver;
use thermal_printer_rs::errors::PrinterError;
use thermal_printer_rs::escpos_adapter::{EscposAdapter, MemoryDriver, ReceiptLine};

fn adapter() -> EscposAdapter {
    EscposAdapter::new(48)
}

#[test]
fn test_build_text_returns_nonempty_buffer() {
    let buf = adapter().build_text("Hello World").unwrap();
    assert!(!buf.is_empty(), "ESC/POS buffer should not be empty");
}

#[test]
fn test_buffer_contains_esc_init() {
    let buf = adapter().build_text("Test").unwrap();
    // ESC/POS always starts with ESC @ (0x1B 0x40)
    assert!(
        buf.windows(2).any(|w| w == [0x1B, 0x40]),
        "Buffer should contain ESC @ (init command)"
    );
}

#[test]
fn test_build_receipt_nonempty() {
    let lines = vec![
        ReceiptLine {
            label: "Coffee".into(),
            value: "$45.00".into(),
        },
        ReceiptLine {
            label: "Water".into(),
            value: "$20.00".into(),
        },
    ];
    let buf = adapter()
        .build_receipt("TICKET", &lines, "$65.00", None)
        .unwrap();
    assert!(!buf.is_empty());
}

#[test]
fn test_build_receipt_with_qr() {
    let buf = adapter()
        .build_receipt("TEST", &[], "$0.00", Some("https://example.com"))
        .unwrap();
    assert!(!buf.is_empty());
}

#[test]
fn test_memory_driver_captures_bytes() {
    let driver = MemoryDriver::new();
    driver.write(b"hello").unwrap();
    driver.write(b" world").unwrap();
    let buf = driver.take_buffer();
    assert_eq!(buf, b"hello world");
}

#[test]
fn build_text_exact_bytes() {
    let buf = adapter().build_text("Hi").unwrap();
    let expected: Vec<u8> = vec![
        0x1B, 0x40, // init
        0x1B, 0x61, 0x00, // left
        b'H', b'i', 0x1B, 0x64, 0x01, // line
        0x1B, 0x64, 0x01, // feed
        0x1D, 0x56, 0x41, 0x00, // cut
    ];
    assert_eq!(buf, expected);
}

fn find(hay: &[u8], needle: &[u8]) -> bool {
    hay.windows(needle.len()).any(|w| w == needle)
}

#[test]
fn receipt_rows_are_padded_to_width() {
    let a = EscposAdapter::new(20);
    let buf = a
        .build_receipt_pairs("T", &[("Tea", "$1.00")], "$1.00", None)
        .unwrap();
    // "Tea" + 12 spaces + "$1.00" = 20 bytes, then a line feed.
    let mut row = b"Tea".to_vec();
    row.extend_from_slice(&[b' '; 12]);
    row.extend_from_slice(b"$1.00");
    row.extend_from_slice(&[0x1B, 0x64, 0x01]);
    assert!(find(&buf, &row));
    let mut sep = vec![b'-'; 20];
    sep.extend_from_slice(&[0x1B, 0x64, 0x01]);
    assert!(find(&buf, &sep));
    assert!(find(&buf, b"TOTAL: $1.00"));
}

#[test]
fn receipt_row_wider_than_paper_has_no_padding() {
    let a = EscposAdapter::new(8);
    let buf = a
        .build_receipt_pairs("T", &[("Long label", "99")], "99", None)
        .unwrap();
    assert!(find(&buf, b"Long label99"));
}

#[test]
fn receipt_layout_exact() {
    let a = EscposAdapter::new(4);
    let buf = a.build_receipt_pairs("T", &[("a", "b")], "1", None).unwrap();
    let expected: Vec<u8> = [
        &[0x1B, 0x40][..],
        &[0x1B, 0x61, 0x01],
        &[0x1B, 0x45, 0x01],
        &[0x1D, 0x21, 0x00],
        b"T",
        &[0x1B, 0x64, 0x01],
        &[0x1B, 0x45, 0x00],
        b"----",
        &[0x1B, 0x64, 0x01],
        &[0x1B, 0x61, 0x00],
        b"a  b",
        &[0x1B, 0x64, 0x01],
        b"----",
        &[0x1B, 0x64, 0x01],
        &[0x1B, 0x61, 0x02],
        &[0x1B, 0x45, 0x01],
        b"TOTAL: 1",
        &[0x1B, 0x64, 0x01],
        &[0x1B, 0x45, 0x00],
        &[0x1B, 0x64, 0x01],
        &[0x1D, 0x56, 0x41, 0x00],
    ]
    .concat();
    assert_eq!(buf, expected);
}

#[test]
fn receipt_with_qr_is_larger_and_holds_payload() {
    let a = adapter();
    let lines = [("Item A", "$10.00")];
    let plain = a.build_receipt_pairs("TEST", &lines, "$10.00", None).unwrap();
    let qr = a
        .build_receipt_pairs("TEST", &lines, "$10.00", Some("https://example.com"))
        .unwrap();
    assert!(qr.len() > plain.len());
    let mut data_cmd = vec![0x1D, 0x28, 0x6B, 22, 0, 49, 80, 48];
    data_cmd.extend_from_slice(b"https://example.com");
    assert!(find(&qr, &data_cmd));
    // module size 5
    assert!(find(&qr, &[0x1D, 0x28, 0x6B, 3, 0, 49, 67, 5]));
}

#[test]
fn receipt_qr_too_long_is_refused() {
    let data = "x".repeat(7090);
    match adapter().build_receipt_pairs("T", &[], "0", Some(&data)) {
        Err(PrinterError::EscposError(m)) => assert_eq!(
            m,
            "Input error: QR code data is too long (7090), its length should be smaller than 7090"
        ),
        other => panic!("unexpected {other:?}"),
    }
    assert!(adapter().build_qr(&"y".repeat(7089)).is_ok());
}

#[test]
fn build_qr_exact_bytes() {
    let buf = adapter().build_qr("AB").unwrap();
    let expected: Vec<u8> = [
        &[0x1B, 0x40][..],
        &[0x1B, 0x61, 0x01],
        &[0x1D, 0x28, 0x6B, 4, 0, 49, 65, 50, 0],
        &[0x1D, 0x28, 0x6B, 3, 0, 49, 67, 6],
        &[0x1D, 0x28, 0x6B, 3, 0, 49, 69, 49],
        &[0x1D, 0x28, 0x6B, 5, 0, 49, 80, 48, b'A', b'B'],
        &[0x1D, 0x28, 0x6B, 3, 0, 49, 81, 48],
        &[0x1B, 0x64, 0x01],
        &[0x1D, 0x56, 0x41, 0x00],
    ]
    .concat();
    assert_eq!(buf, expected);
}

#[test]
fn build_ean13_valid_and_invalid() {
    let buf = adapter().build_ean13("590123412345").unwrap();
    let mut print = vec![0x1D, 0x6B, 2];
    print.extend_from_slice(b"590123412345");
    print.push(0);
    assert!(find(&buf, &print));
    assert!(find(&buf, &[0x1D, 0x77, 3, 0x1D, 0x68, 153, 0x1D, 0x66, 0, 0x1D, 0x48, 2]));
    match adapter().build_ean13("12AB") {
        Err(PrinterError::EscposError(m)) => assert_eq!(m, "Input error: invalid EAN13 data: 12AB"),
        other => panic!("unexpected {other:?}"),
    }
}

#[test]
fn build_cut_is_init_and_cut() {
    assert_eq!(
        adapter().build_cut().unwrap(),
        vec![0x1B, 0x40, 0x1D, 0x56, 0x41, 0x00]
    );
}

#[test]
fn build_receipt_matches_pairs() {
    let a = adapter();
    let lines = vec![ReceiptLine {
        label: "Coffee".into(),
        value: "$45.00".into(),
    }];
    let from_lines = a.build_receipt("T", &lines, "$45.00", None).unwrap();
    let from_pairs = a
        .build_receipt_pairs("T", &[("Coffee", "$45.00")], "$45.00", None)
        .unwrap();
    assert_eq!(from_lines, from_pairs);
}
