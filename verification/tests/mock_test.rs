use thermal_printer_rs::errors::PrinterError;
use thermal_printer_rs::transport::mock::{MockConfig, MockTransport};
use thermal_printer_rs::transport::Transport;

#[test]
fn test_mock_connects_and_writes() {
    let mut transport = MockTransport::new();
    transport.connect().unwrap();
    assert!(transport.is_connected());

    transport.write(b"ESC/POS data").unwrap();
    assert_eq!(transport.written_bytes(), b"ESC/POS data");
}

#[test]
fn test_mock_fail_on_connect() {
    let mut transport = MockTransport::new().with_config(MockConfig {
        fail_on_connect: true,
        ..Default::default()
    });
    let result = transport.connect();
    assert!(result.is_err());
    assert!(!transport.is_connected());
}

#[test]
fn test_mock_fail_on_write() {
    let mut transport = MockTransport::new().with_config(MockConfig {
        fail_on_write: true,
        starts_connected: true,
        ..Default::default()
    });
    let result = transport.write(b"data");
    assert!(result.is_err());
    assert!(transport.written_bytes().is_empty());
}

#[test]
fn test_mock_write_without_connect_fails() {
    let mut transport = MockTransport::new();
    let result = transport.write(b"data");
    assert!(result.is_err());
}

#[test]
fn test_mock_shared_buffer() {
    let mut transport = MockTransport::new_with_buffer(Vec::new());
    transport.connect().unwrap();
    transport.write(b"hello").unwrap();
    transport.write(b" world").unwrap();

    let data = transport.written_bytes();
    assert_eq!(data, b"hello world");
}

#[test]
fn test_mock_disconnect_resets_state() {
    let mut transport = MockTransport::new();
    transport.connect().unwrap();
    assert!(transport.is_connected());
    transport.disconnect().unwrap();
    assert!(!transport.is_connected());
}

#[test]
fn mock_error_messages() {
    let mut t = MockTransport::new();
    match t.write(b"x") {
        Err(PrinterError::TransportUnavailable(m)) => {
            assert_eq!(m, "MockTransport: write attempted without active connection")
        }
        other => panic!("unexpected {other:?}"),
    }
    let mut t = MockTransport::new().with_config(MockConfig {
        fail_on_connect: true,
        ..Default::default()
    });
    match t.connect() {
        Err(PrinterError::ConnectionFailed(m)) => {
            assert_eq!(m, "Simulated connection failure (MockTransport)")
        }
        other => panic!("unexpected {other:?}"),
    }
    let mut t = MockTransport::new().with_config(MockConfig {
        fail_on_write: true,
        starts_connected: true,
        ..Default::default()
    });
    match t.write(b"x") {
        Err(PrinterError::ConnectionFailed(m)) => {
            assert_eq!(m, "Simulated write failure (MockTransport)")
        }
        other => panic!("unexpected {other:?}"),
    }
}

#[test]
fn mock_read_copies_preset_data() {
    let mut t = MockTransport::new().with_read_data(vec![1, 2, 3]);
    let mut buf = [9u8; 2];
    assert_eq!(t.read(&mut buf).unwrap(), 2);
    assert_eq!(buf, [1, 2]);
    let mut big = [9u8; 5];
    assert_eq!(t.read(&mut big).unwrap(), 3);
    assert_eq!(big, [1, 2, 3, 9, 9]);
    let mut empty_source = MockTransport::new();
    let mut b = [7u8; 3];
    assert_eq!(empty_source.read(&mut b).unwrap(), 0);
    assert_eq!(b, [7, 7, 7]);
}

#[test]
fn mock_buffer_start_and_clear() {
    let mut t = MockTransport::new_with_buffer(b"ab".to_vec()).with_config(MockConfig {
        starts_connected: true,
        ..Default::default()
    });
    t.write(b"c").unwrap();
    assert_eq!(t.written_bytes(), b"abc");
    t.clear();
    assert!(t.written_bytes().is_empty());
    assert!(t.is_connected());
}

#[test]
fn mock_defaults() {
    let t = MockTransport::default();
    assert!(!t.is_connected());
    assert_eq!(t.transport_name(), "Mock");
    assert_eq!(t.preferred_chunk_size(), 8192);
    assert_eq!(t.chunk_delay(), std::time::Duration::from_millis(0));
}
