use thermal_printer_rs::api::simple::{
    build_config, enqueue_print_receipt, enqueue_print_text, enqueue_with_budget,
    enqueue_write_bytes, reserve_job, settle_enqueue, PrintResultDto, PrinterConfigDto,
    PrinterStateDto, ReceiptLineDto, TransportTypeDto,
};
use thermal_printer_rs::config::{CharEncoding, TransportKind};
use thermal_printer_rs::errors::PrinterError;
use thermal_printer_rs::escpos_adapter::EscposAdapter;
use thermal_printer_rs::jobs::{queued_bytes, PrintCommand, WorkerState};
use thermal_printer_rs::session::QueueBudget;
use tokio::sync::mpsc;

#[test]
fn config_dto_defaults() {
    let d = PrinterConfigDto::default();
    assert_eq!(d.transport, TransportTypeDto::Tcp);
    assert_eq!(d.host.as_deref(), Some("192.168.1.100"));
    assert_eq!(d.port, Some(9100));
    assert_eq!(d.timeout_ms, 5000);
    assert_eq!(d.paper_width, 48);
    assert_eq!(d.max_retries, 3);
}

#[test]
fn build_config_tcp_default_port() {
    let mut d = PrinterConfigDto::default();
    d.port = None;
    let c = build_config(d).unwrap();
    match c.transport {
        TransportKind::Tcp { host, port } => {
            assert_eq!(host, "192.168.1.100");
            assert_eq!(port, 9100);
        }
        other => panic!("unexpected {other:?}"),
    }
    assert_eq!(c.encoding, CharEncoding::Pc437);
    assert!(c.ble_chunk_size.is_none());
}

fn invalid(r: Result<thermal_printer_rs::config::PrinterConfig, PrinterError>) -> String {
    match r {
        Err(PrinterError::InvalidConfig(m)) => m,
        other => panic!("unexpected {other:?}"),
    }
}

#[test]
fn build_config_missing_fields() {
    let mut d = PrinterConfigDto::default();
    d.host = None;
    assert_eq!(invalid(build_config(d)), "TCP requires 'host'");

    let mut d = PrinterConfigDto::default();
    d.transport = TransportTypeDto::Usb;
    assert_eq!(invalid(build_config(d.clone())), "USB requires 'vendor_id'");
    d.vendor_id = Some(0x04b8);
    assert_eq!(invalid(build_config(d.clone())), "USB requires 'product_id'");
    d.product_id = Some(0x0202);
    match build_config(d).unwrap().transport {
        TransportKind::Usb { vendor_id, product_id } => {
            assert_eq!((vendor_id, product_id), (0x04b8, 0x0202))
        }
        other => panic!("unexpected {other:?}"),
    }

    let mut d = PrinterConfigDto::default();
    d.transport = TransportTypeDto::Bluetooth;
    assert_eq!(invalid(build_config(d.clone())), "BLE requires 'ble_address'");
    d.ble_address = Some("AA:BB".into());
    assert!(matches!(
        build_config(d).unwrap().transport,
        TransportKind::Ble { .. }
    ));
}

#[test]
fn print_result_dto() {
    let ok = PrintResultDto::ok(42);
    assert!(ok.success && ok.bytes_sent == 42 && ok.error_message.is_none());
    let err = PrintResultDto::err("boom".to_string());
    assert!(!err.success && err.bytes_sent == 0);
    assert_eq!(err.error_message.as_deref(), Some("boom"));
}

#[test]
fn printer_state_from_worker_state() {
    assert_eq!(PrinterStateDto::from(WorkerState::Printing), PrinterStateDto::Printing);
    assert_eq!(PrinterStateDto::from(WorkerState::Error), PrinterStateDto::Error);
    assert_eq!(
        PrinterStateDto::from(WorkerState::Disconnected),
        PrinterStateDto::Disconnected
    );
}

/// Hands a prepared job to the queue and settles the answer, as the
/// application does.
fn hand_over(
    budget: &mut QueueBudget,
    tx: &mpsc::Sender<PrintCommand>,
    prepared: Result<PrintCommand, String>,
) -> Result<(), String> {
    let cmd = prepared?;
    let len = queued_bytes(&cmd);
    let sent = tx.try_send(cmd).map_err(|e| e.to_string());
    settle_enqueue(budget, len, sent)
}

fn payload(r: Result<PrintCommand, String>) -> Vec<u8> {
    match r {
        Ok(PrintCommand::Print(b)) => b,
        _ => panic!("expected a print job"),
    }
}

#[test]
fn enqueue_without_session() {
    let r = enqueue_write_bytes(None, true, vec![1, 2, 3]);
    assert!(matches!(r, Err(m) if m == "PrintService not initialized"));
}

#[test]
fn enqueue_accounts_bytes_and_sends() {
    let (tx, mut rx) = mpsc::channel::<PrintCommand>(4);
    let mut budget = QueueBudget::new(10);
    let prepared = enqueue_write_bytes(Some(&mut budget), true, vec![1, 2, 3]);
    hand_over(&mut budget, &tx, prepared).unwrap();
    match rx.try_recv().unwrap() {
        PrintCommand::Print(b) => assert_eq!(b, vec![1, 2, 3]),
        _ => panic!("expected a print job"),
    }
    // 3 of 10 bytes are held: 8 more do not fit.
    let r = enqueue_write_bytes(Some(&mut budget), true, vec![0; 8]);
    assert!(matches!(
        r,
        Err(m) if m == "Transport unavailable: Print queue memory budget exceeded (11 > 10 bytes)"
    ));
    assert!(budget.try_reserve(7).is_ok());
}

#[test]
fn enqueue_gives_the_exact_payload() {
    let mut budget = QueueBudget::new(10);
    let p = payload(enqueue_with_budget(Some(&mut budget), true, vec![4, 5, 6]));
    assert_eq!(p, vec![4, 5, 6]);
    assert!(budget.try_reserve(8).is_err());
    assert!(budget.try_reserve(7).is_ok());
}

#[test]
fn enqueue_full_queue_gives_bytes_back() {
    let (tx, _rx) = mpsc::channel::<PrintCommand>(1);
    let mut budget = QueueBudget::new(100);
    let prepared = enqueue_with_budget(Some(&mut budget), true, vec![0; 10]);
    hand_over(&mut budget, &tx, prepared).unwrap();
    let prepared = enqueue_with_budget(Some(&mut budget), true, vec![0; 10]);
    let r = hand_over(&mut budget, &tx, prepared);
    assert_eq!(r, Err("Failed to enqueue: no available capacity".to_string()));
    // only the first job's 10 bytes are still held
    assert!(budget.try_reserve(90).is_ok());
    assert!(budget.try_reserve(1).is_err());
}

#[test]
fn enqueue_closed_queue() {
    let (tx, rx) = mpsc::channel::<PrintCommand>(1);
    drop(rx);
    let mut budget = QueueBudget::new(100);
    let prepared = enqueue_with_budget(Some(&mut budget), true, vec![0; 10]);
    let r = hand_over(&mut budget, &tx, prepared);
    assert_eq!(r, Err("Failed to enqueue: channel closed".to_string()));
    assert!(budget.try_reserve(100).is_ok());
}

#[test]
fn enqueue_without_worker_keeps_reservation() {
    let mut budget = QueueBudget::new(10);
    let r = enqueue_with_budget(Some(&mut budget), false, vec![0; 4]);
    assert!(matches!(r, Err(m) if m == "Background worker not running"));
    assert!(budget.try_reserve(7).is_err());
    assert!(budget.try_reserve(6).is_ok());
}

#[test]
fn enqueue_text_and_receipt() {
    let (tx, mut rx) = mpsc::channel::<PrintCommand>(4);
    let mut budget = QueueBudget::new(10_000);
    let adapter = EscposAdapter::new(48);
    let prepared = enqueue_print_text(Some(&adapter), Some(&mut budget), true, "Hi".to_string());
    hand_over(&mut budget, &tx, prepared).unwrap();
    match rx.try_recv().unwrap() {
        PrintCommand::Print(b) => assert_eq!(b, adapter.build_text("Hi").unwrap()),
        _ => panic!("expected a print job"),
    }
    let lines = vec![ReceiptLineDto {
        label: "Tea".into(),
        value: "$1".into(),
    }];
    let prepared = enqueue_print_receipt(
        Some(&adapter),
        Some(&mut budget),
        true,
        "T".into(),
        lines,
        "$1".into(),
        None,
    );
    hand_over(&mut budget, &tx, prepared).unwrap();
    match rx.try_recv().unwrap() {
        PrintCommand::Print(b) => assert_eq!(
            b,
            adapter
                .build_receipt_pairs("T", &[("Tea", "$1")], "$1", None)
                .unwrap()
        ),
        _ => panic!("expected a print job"),
    }
    assert!(matches!(
        enqueue_print_text(None, Some(&mut budget), true, "x".into()),
        Err(m) if m == "PrintService not initialized"
    ));
}

#[test]
fn enqueue_receipt_with_oversized_qr() {
    let mut budget = QueueBudget::new(100_000);
    let adapter = EscposAdapter::new(48);
    let r = enqueue_print_receipt(
        Some(&adapter),
        Some(&mut budget),
        true,
        "T".into(),
        vec![],
        "0".into(),
        Some("q".repeat(8000)),
    );
    assert!(matches!(
        r,
        Err(m) if m == "Error building ESC/POS command: Input error: QR code data is too long (8000), its length should be smaller than 7090"
    ));
    assert!(budget.try_reserve(100_000).is_ok());
}

#[test]
fn reserve_and_settle() {
    let mut budget = QueueBudget::new(10);
    assert_eq!(
        reserve_job(None, 1),
        Err("PrintService not initialized".to_string())
    );
    reserve_job(Some(&mut budget), 6).unwrap();
    assert_eq!(
        settle_enqueue(&mut budget, 6, Err("channel closed".to_string())),
        Err("Failed to enqueue: channel closed".to_string())
    );
    assert!(budget.try_reserve(10).is_ok());
}

#[test]
fn enqueue_without_service_leaves_budget_alone() {
    let mut budget = QueueBudget::new(10);
    budget.try_reserve(4).unwrap();
    let r = enqueue_print_text(None, Some(&mut budget), true, "x".to_string());
    assert!(matches!(r, Err(m) if m == "PrintService not initialized"));
    let r = enqueue_print_receipt(
        None,
        Some(&mut budget),
        true,
        "T".to_string(),
        vec![],
        "1".to_string(),
        None,
    );
    assert!(matches!(r, Err(m) if m == "PrintService not initialized"));
    // still 4 of 10 held: 6 fit, 7 do not
    assert!(budget.try_reserve(7).is_err());
    assert!(budget.try_reserve(6).is_ok());
}
