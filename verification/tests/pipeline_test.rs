//! The print pipeline driven synchronously through the library's pieces:
//! adapter -> chunk plan -> mock transport -> retry policy, in the order the
//! print service runs them. The asynchronous service itself (with its I/O
//! task, sleeps and cancellation) lives in the application crate and is not
//! run here.

use thermal_printer_rs::errors::PrinterError;
use thermal_printer_rs::escpos_adapter::EscposAdapter;
use thermal_printer_rs::printer::{after_send, plan_chunks, SendStep, WriteOutcome};
use thermal_printer_rs::transport::mock::{MockConfig, MockTransport};
use thermal_printer_rs::transport::Transport;

fn mock(config: MockConfig) -> MockTransport {
    MockTransport::new_with_buffer(Vec::new()).with_config(config)
}

/// One write command: the buffer in planned chunks, the untouched buffer
/// back on failure.
fn write_buffer(transport: &mut MockTransport, data: Vec<u8>) -> WriteOutcome {
    let plan = plan_chunks(
        data.len(),
        transport.preferred_chunk_size(),
        !transport.chunk_delay().is_zero(),
    );
    let mut sent: usize = 0;
    for chunk in &plan {
        if let Err(e) = transport.write(&data[chunk.start..chunk.end]) {
            return Err((Some(data), e));
        }
        sent += chunk.end - chunk.start;
    }
    Ok(sent)
}

/// Sends with the retry policy (no waiting between sends).
fn send_retrying(transport: &mut MockTransport, buf: Vec<u8>, max_retries: u8) -> Result<usize, PrinterError> {
    let mut sends_done: u8 = 1;
    let mut outcome = write_buffer(transport, buf);
    loop {
        match after_send(sends_done, max_retries, outcome) {
            SendStep::Finished(r) => return r,
            SendStep::Retry { data, attempt, .. } => {
                if !transport.is_connected() {
                    let _ = transport.connect();
                }
                outcome = write_buffer(transport, data);
                sends_done = attempt + 1;
            }
        }
    }
}

/// Prints as the service does: connects when needed, then sends.
fn print(transport: &mut MockTransport, buf: Vec<u8>) -> Result<usize, PrinterError> {
    if !transport.is_connected() {
        transport.connect()?;
    }
    send_retrying(transport, buf, 0)
}

#[test]
fn test_service_connect_and_disconnect() {
    let mut t = mock(MockConfig::default());
    t.connect().expect("Connect should succeed");
    t.disconnect().expect("Disconnect should succeed");
}

#[test]
fn test_connect_fails_when_configured_to_fail() {
    let mut t = mock(MockConfig {
        fail_on_connect: true,
        ..Default::default()
    });
    assert!(t.connect().is_err(), "Connect should fail when configured to fail");
}

#[test]
fn test_print_text_sends_escpos_bytes() {
    let mut t = mock(MockConfig::default());
    let buf = EscposAdapter::new(48).build_text("Hello World").unwrap();
    let bytes = print(&mut t, buf).expect("print_text should succeed");
    assert!(bytes > 0, "Should report bytes sent");
    let captured = t.written_bytes();
    assert!(!captured.is_empty(), "Buffer should contain ESC/POS bytes");
    assert!(
        captured.windows(2).any(|w| w == [0x1B, 0x40]),
        "Buffer must contain ESC @ (init command)"
    );
}

#[test]
fn test_print_text_auto_connects() {
    let mut t = mock(MockConfig::default());
    let buf = EscposAdapter::new(48).build_text("Auto-connect test").unwrap();
    print(&mut t, buf).expect("Service should auto-connect and print");
    assert!(!t.written_bytes().is_empty());
}

#[test]
fn test_print_text_fails_when_write_fails() {
    let mut t = mock(MockConfig {
        starts_connected: true,
        fail_on_write: true,
        ..Default::default()
    });
    let buf = EscposAdapter::new(48).build_text("This should fail").unwrap();
    assert!(print(&mut t, buf).is_err(), "Should fail when write is configured to fail");
}

#[test]
fn test_print_receipt_sends_bytes() {
    let mut t = mock(MockConfig::default());
    let lines = [("Americano Coffee", "$45.00"), ("Mixed Sandwich", "$89.00")];
    let buf = EscposAdapter::new(48)
        .build_receipt_pairs("SALE TICKET", &lines, "$134.00", None)
        .unwrap();
    let bytes = print(&mut t, buf).expect("print_receipt should succeed");
    assert!(bytes > 0);
    let captured = t.written_bytes();
    assert!(!captured.is_empty());
    assert!(captured.windows(2).any(|w| w == [0x1B, 0x40]));
}

#[test]
fn test_print_receipt_with_qr_is_larger() {
    let lines = [("Item A", "$10.00")];
    let adapter = EscposAdapter::new(48);
    let mut plain = mock(MockConfig::default());
    let bytes_plain = print(
        &mut plain,
        adapter.build_receipt_pairs("TEST", &lines, "$10.00", None).unwrap(),
    )
    .unwrap();
    let mut with_qr = mock(MockConfig::default());
    let bytes_qr = print(
        &mut with_qr,
        adapter
            .build_receipt_pairs("TEST", &lines, "$10.00", Some("https://example.com"))
            .unwrap(),
    )
    .unwrap();
    assert!(
        bytes_qr > bytes_plain,
        "Receipt with QR ({bytes_qr}B) should be larger than without QR ({bytes_plain}B)"
    );
}

#[test]
fn test_adapter_builds_text_buffer() {
    let buf = EscposAdapter::new(48)
        .build_text("Adapter test")
        .expect("Adapter should build ESC/POS buffer");
    assert!(!buf.is_empty());
    assert!(buf.windows(2).any(|w| w == [0x1B, 0x40]));
}

#[test]
fn test_send_buffer_owned_writes_raw_bytes() {
    let mut t = mock(MockConfig {
        starts_connected: true,
        ..Default::default()
    });
    let raw = b"raw escpos data";
    let bytes = send_retrying(&mut t, raw.to_vec(), 0).expect("send_buffer_owned should succeed");
    assert_eq!(bytes, raw.len());
    assert_eq!(t.written_bytes(), raw);
}

#[test]
fn test_send_buffer_without_retries_succeeds() {
    let mut t = mock(MockConfig {
        starts_connected: true,
        ..Default::default()
    });
    let payload = vec![0xAA; 4096];
    let sent = send_retrying(&mut t, payload.clone(), 0).expect("send without retries should succeed");
    assert_eq!(sent, payload.len());
    assert_eq!(t.written_bytes(), payload);
}

#[test]
fn large_payload_is_written_whole_in_chunks() {
    let mut t = mock(MockConfig {
        starts_connected: true,
        ..Default::default()
    });
    let payload: Vec<u8> = (0..20_000u32).map(|i| (i % 251) as u8).collect();
    let sent = send_retrying(&mut t, payload.clone(), 0).unwrap();
    assert_eq!(sent, payload.len());
    assert_eq!(t.written_bytes(), payload);
}

#[test]
fn failing_writes_are_retried_then_reported() {
    let mut t = mock(MockConfig {
        starts_connected: true,
        fail_on_write: true,
        ..Default::default()
    });
    match send_retrying(&mut t, vec![1, 2, 3], 3) {
        Err(PrinterError::ConnectionFailed(_)) => {}
        other => panic!("expected the write error, got {other:?}"),
    }
    assert!(t.written_bytes().is_empty());
}
