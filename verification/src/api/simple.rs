//! The application-facing API: data transfer types, configuration checks and
//! the accounting of print jobs handed to the background queue.

use vstd::prelude::*;

use crate::config::{CharEncoding, PrinterConfig, TransportKind};
use crate::errors::{PrinterError, Result};
use crate::escpos_adapter::{escpos_outcome, receipt_result, text_job, EscposAdapter, ReceiptLine};
use crate::jobs::{PrintCommand, WorkerState};
use crate::session::{budget_exceeded_message, reserve_result, saturating_diff, saturating_sum, QueueBudget};

verus! {

/// Transport type for a connection.
#[derive(Debug, Clone, Copy, PartialEq, Eq, Structural)]
pub enum TransportTypeDto {
    Tcp,
    Usb,
    Bluetooth,
}

/// Printer configuration as the application passes it.
#[derive(Debug, Clone)]
pub struct PrinterConfigDto {
    pub transport: TransportTypeDto,
    pub host: Option<String>,
    pub port: Option<u16>,
    pub vendor_id: Option<u16>,
    pub product_id: Option<u16>,
    pub ble_address: Option<String>,
    pub timeout_ms: u64,
    pub paper_width: u8,
    pub max_retries: u8,
}

impl Default for PrinterConfigDto {
    /// TCP to 192.168.1.100:9100, 5 s timeout, 48 characters, 3 retries.
    fn default() -> (d: Self)
        ensures
            d.transport == TransportTypeDto::Tcp,
            d.host matches Some(h) && h@ == "192.168.1.100"@,
            d.port == Some(9100u16),
            d.vendor_id is None,
            d.product_id is None,
            d.ble_address is None,
            d.timeout_ms == 5000,
            d.paper_width == 48,
            d.max_retries == 3,
    {
        PrinterConfigDto {
            transport: TransportTypeDto::Tcp,
            host: Some(String::from_str("192.168.1.100")),
            port: Some(9100),
            vendor_id: None,
            product_id: None,
            ble_address: None,
            timeout_ms: 5000,
            paper_width: 48,
            max_retries: 3,
        }
    }
}

/// Result of a print operation.
#[derive(Debug, Clone)]
pub struct PrintResultDto {
    pub success: bool,
    pub bytes_sent: u32,
    pub error_message: Option<String>,
}

impl PrintResultDto {
    /// A successful print of `bytes` bytes (reported modulo 2^32).
    pub fn ok(bytes: usize) -> (r: Self)
        ensures
            r.success,
            r.bytes_sent == bytes as u32,
            r.error_message is None,
    {
        PrintResultDto { success: true, bytes_sent: bytes as u32, error_message: None }
    }

    /// A failed print with its message.
    pub fn err(msg: String) -> (r: Self)
        ensures
            !r.success,
            r.bytes_sent == 0,
            r.error_message == Some(msg),
    {
        PrintResultDto { success: false, bytes_sent: 0, error_message: Some(msg) }
    }
}

/// Receipt item (label and value or price).
#[derive(Debug, Clone)]
pub struct ReceiptLineDto {
    pub label: String,
    pub value: String,
}

/// Printer state tracked by the background worker.
#[derive(Debug, Clone, Copy, PartialEq, Eq, Structural)]
pub enum PrinterStateDto {
    Disconnected,
    Connecting,
    Connected,
    Printing,
    Error,
}

impl From<WorkerState> for PrinterStateDto {
    fn from(state: WorkerState) -> (r: Self) {
        match state {
            WorkerState::Disconnected => PrinterStateDto::Disconnected,
            WorkerState::Connecting => PrinterStateDto::Connecting,
            WorkerState::Connected => PrinterStateDto::Connected,
            WorkerState::Printing => PrinterStateDto::Printing,
            WorkerState::Error => PrinterStateDto::Error,
        }
    }
}

impl vstd::std_specs::convert::FromSpecImpl<WorkerState> for PrinterStateDto {
    open spec fn obeys_from_spec() -> bool {
        true
    }

    open spec fn from_spec(state: WorkerState) -> Self {
        match state {
            WorkerState::Disconnected => PrinterStateDto::Disconnected,
            WorkerState::Connecting => PrinterStateDto::Connecting,
            WorkerState::Connected => PrinterStateDto::Connected,
            WorkerState::Printing => PrinterStateDto::Printing,
            WorkerState::Error => PrinterStateDto::Error,
        }
    }
}

// ── Configuration ─────────────────────────────────────────────────────

/// The message of a configuration whose transport lacks a required field,
/// `None` when the transport has what it needs.
pub open spec fn config_problem(dto: PrinterConfigDto) -> Option<Seq<char>> {
    match dto.transport {
        TransportTypeDto::Tcp => if dto.host is None {
            Some("TCP requires 'host'"@)
        } else {
            None
        },
        TransportTypeDto::Usb => if dto.vendor_id is None {
            Some("USB requires 'vendor_id'"@)
        } else if dto.product_id is None {
            Some("USB requires 'product_id'"@)
        } else {
            None
        },
        TransportTypeDto::Bluetooth => if dto.ble_address is None {
            Some("BLE requires 'ble_address'"@)
        } else {
            None
        },
    }
}

/// Whether `transport` is the one `dto` describes (TCP port 9100 by default).
pub open spec fn transport_of(dto: PrinterConfigDto, transport: TransportKind) -> bool {
    match dto.transport {
        TransportTypeDto::Tcp => transport matches TransportKind::Tcp { host, port } && Some(host)
            == dto.host && port == match dto.port {
            Some(p) => p,
            None => 9100u16,
        },
        TransportTypeDto::Usb => transport matches TransportKind::Usb { vendor_id, product_id }
            && Some(vendor_id) == dto.vendor_id && Some(product_id) == dto.product_id,
        TransportTypeDto::Bluetooth => transport matches TransportKind::Ble { address } && Some(
            address,
        ) == dto.ble_address,
    }
}

/// A configuration is accepted exactly when its transport has the fields it
/// needs, and the built transport carries them: a TCP host with the given
/// port (9100 only when none is given), the USB vendor and product ids, the
/// BLE address.
pub proof fn law_config_transport(dto: PrinterConfigDto, t: TransportKind)
    ensures
        config_problem(dto) is None <==> match dto.transport {
            TransportTypeDto::Tcp => dto.host is Some,
            TransportTypeDto::Usb => dto.vendor_id is Some && dto.product_id is Some,
            TransportTypeDto::Bluetooth => dto.ble_address is Some,
        },
        dto.transport == TransportTypeDto::Tcp && transport_of(dto, t) ==> (t matches TransportKind::Tcp {
            host,
            port,
        } && dto.host == Some(host) && (dto.port matches Some(p) ==> port == p) && (dto.port is None ==> port
            == 9100)),
        dto.transport == TransportTypeDto::Usb && transport_of(dto, t) ==> (t matches TransportKind::Usb {
            vendor_id,
            product_id,
        } && dto.vendor_id == Some(vendor_id) && dto.product_id == Some(product_id)),
        dto.transport == TransportTypeDto::Bluetooth && transport_of(dto, t) ==> (t matches TransportKind::Ble {
            address,
        } && dto.ble_address == Some(address)),
{
}

/// Turns the application's configuration into the service's: the transport
/// must have its address fields; the encoding is PC437 and the BLE overrides
/// are left unset.
pub fn build_config(dto: PrinterConfigDto) -> (r: Result<PrinterConfig>)
    ensures
        match config_problem(dto) {
            Some(m) => r matches Err(PrinterError::InvalidConfig(s)) && s@ == m,
            None => r matches Ok(c) && transport_of(dto, c.transport) && c.timeout_ms == dto.timeout_ms
                && c.paper_width == dto.paper_width && c.max_retries == dto.max_retries && c.encoding
                == CharEncoding::Pc437 && c.ble_chunk_size is None && c.ble_chunk_delay_ms is None,
        },
{
    let transport = match dto.transport {
        TransportTypeDto::Tcp => {
            let host = match dto.host {
                Some(h) => h,
                None => return Err(PrinterError::InvalidConfig(String::from_str("TCP requires 'host'"))),
            };
            let port = match dto.port {
                Some(p) => p,
                None => 9100,
            };
            TransportKind::Tcp { host, port }
        },
        TransportTypeDto::Usb => {
            let vid = match dto.vendor_id {
                Some(v) => v,
                None => return Err(
                    PrinterError::InvalidConfig(String::from_str("USB requires 'vendor_id'")),
                ),
            };
            let pid = match dto.product_id {
                Some(p) => p,
                None => return Err(
                    PrinterError::InvalidConfig(String::from_str("USB requires 'product_id'")),
                ),
            };
            TransportKind::Usb { vendor_id: vid, product_id: pid }
        },
        TransportTypeDto::Bluetooth => {
            let addr = match dto.ble_address {
                Some(a) => a,
                None => return Err(
                    PrinterError::InvalidConfig(String::from_str("BLE requires 'ble_address'")),
                ),
            };
            TransportKind::Ble { address: addr }
        },
    };
    Ok(
        PrinterConfig {
            transport,
            timeout_ms: dto.timeout_ms,
            paper_width: dto.paper_width,
            encoding: CharEncoding::default(),
            max_retries: dto.max_retries,
            ble_chunk_size: None,
            ble_chunk_delay_ms: None,
        },
    )
}

// ── Jobs handed to the background queue ──────────────────────────────

/// The message of a job whose bytes do not fit in the queue budget.
pub open spec fn over_budget_message(max: nat, used: nat, len: nat) -> Seq<char> {
    "Transport unavailable: "@ + budget_exceeded_message(saturating_sum(used, len), max)
}

/// Accounts `len` bytes of a new job: refused when there is no session or
/// when the job does not fit in the budget (then nothing changes).
pub fn reserve_job(budget: Option<&mut QueueBudget>, len: usize) -> (r: std::result::Result<(), String>)
    ensures
        match budget {
            None => r matches Err(m) && m@ == "PrintService not initialized"@,
            Some(b) => final(b).max() == b.max() && match reserve_result(b.max(), b.used(), len as nat) {
                None => final(b).used() == b.used() && (r matches Err(m) && m@ == over_budget_message(
                    b.max(),
                    b.used(),
                    len as nat,
                )),
                Some(next) => r is Ok && final(b).used() == next,
            },
        },
{
    match budget {
        None => Err(String::from_str("PrintService not initialized")),
        Some(b) => match b.try_reserve(len) {
            Ok(()) => Ok(()),
            Err(e) => {
                let m = e.message();
                Err(m)
            },
        },
    }
}

/// Closes the hand-over of a job of `len` reserved bytes to the queue: `sent`
/// is the queue's answer, with the queue's own text when it refused the job;
/// a refused job gives its bytes back.
pub fn settle_enqueue(budget: &mut QueueBudget, len: usize, sent: std::result::Result<(), String>) -> (r: std::result::Result<(), String>)
    ensures
        final(budget).max() == old(budget).max(),
        match sent {
            Ok(()) => r is Ok && final(budget).used() == old(budget).used(),
            Err(why) => r matches Err(m) && m@ == "Failed to enqueue: "@ + why@ && final(budget).used()
                == saturating_diff(old(budget).used(), len as nat),
        },
{
    match sent {
        Ok(()) => Ok(()),
        Err(why) => {
            budget.release(len);
            Err(String::from_str("Failed to enqueue: ").concat(why.as_str()))
        },
    }
}

/// What preparing `job` for the background queue gives and does to the
/// budget: refused when it does not fit (nothing changes) or when no worker
/// runs (the reservation stays); otherwise its bytes are accounted and the
/// command to hand to the queue is exactly `PrintCommand::Print(job)`.
pub open spec fn enqueue_outcome(
    old_max: nat,
    old_used: nat,
    new_used: nat,
    job: Seq<u8>,
    worker_running: bool,
    r: std::result::Result<PrintCommand, String>,
) -> bool {
    match reserve_result(old_max, old_used, job.len()) {
        None => new_used == old_used && (r matches Err(m) && m@ == over_budget_message(old_max, old_used, job.len())),
        Some(next) => new_used == next && if !worker_running {
            r matches Err(m) && m@ == "Background worker not running"@
        } else {
            r matches Ok(c) && c matches PrintCommand::Print(p) && p@ == job
        },
    }
}

/// Reserves the bytes of a fire-and-forget job and gives the command to hand
/// to the background queue; the caller sends it and settles the queue's
/// answer with `settle_enqueue`.
pub fn enqueue_with_budget(
    budget: Option<&mut QueueBudget>,
    worker_running: bool,
    bytes: Vec<u8>,
) -> (r: std::result::Result<PrintCommand, String>)
    ensures
        match budget {
            None => r matches Err(m) && m@ == "PrintService not initialized"@,
            Some(b) => final(b).max() == b.max() && enqueue_outcome(
                b.max(),
                b.used(),
                final(b).used(),
                bytes@,
                worker_running,
                r,
            ),
        },
{
    let len = bytes.len();
    match budget {
        None => Err(String::from_str("PrintService not initialized")),
        Some(b) => {
            match reserve_job(Some(&mut *b), len) {
                Ok(()) => {},
                Err(m) => return Err(m),
            }
            if !worker_running {
                return Err(String::from_str("Background worker not running"));
            }
            Ok(PrintCommand::Print(bytes))
        },
    }
}

/// A raw bytes payload for the background queue (fire-and-forget).
pub fn enqueue_write_bytes(
    budget: Option<&mut QueueBudget>,
    worker_running: bool,
    bytes: Vec<u8>,
) -> (r: std::result::Result<PrintCommand, String>)
    ensures
        match budget {
            None => r matches Err(m) && m@ == "PrintService not initialized"@,
            Some(b) => final(b).max() == b.max() && enqueue_outcome(
                b.max(),
                b.used(),
                final(b).used(),
                bytes@,
                worker_running,
                r,
            ),
        },
{
    enqueue_with_budget(budget, worker_running, bytes)
}

/// A text print job for the background queue: the text job of the service's
/// adapter.
pub fn enqueue_print_text(
    adapter: Option<&EscposAdapter>,
    budget: Option<&mut QueueBudget>,
    worker_running: bool,
    text: String,
) -> (r: std::result::Result<PrintCommand, String>)
    ensures
        adapter is None ==> (r matches Err(m) && m@ == "PrintService not initialized"@) && (budget matches Some(
            b,
        ) ==> final(b).used() == b.used() && final(b).max() == b.max()),
        adapter is Some ==> match budget {
            None => r matches Err(m) && m@ == "PrintService not initialized"@,
            Some(b) => final(b).max() == b.max() && enqueue_outcome(
                b.max(),
                b.used(),
                final(b).used(),
                text_job(text@),
                worker_running,
                r,
            ),
        },
{
    let buf = match adapter {
        None => return Err(String::from_str("PrintService not initialized")),
        Some(a) => match a.build_text(text.as_str()) {
            Ok(b) => b,
            Err(e) => return Err(e.message()),
        },
    };
    enqueue_write_bytes(budget, worker_running, buf)
}

/// A receipt print job for the background queue, built by the service's
/// adapter; a receipt that cannot be built is reported with its error
/// message.
pub fn enqueue_print_receipt(
    adapter: Option<&EscposAdapter>,
    budget: Option<&mut QueueBudget>,
    worker_running: bool,
    title: String,
    lines: Vec<ReceiptLineDto>,
    total: String,
    qr_data: Option<String>,
) -> (r: std::result::Result<PrintCommand, String>)
    ensures
        match adapter {
            None => (r matches Err(m) && m@ == "PrintService not initialized"@) && (budget matches Some(b)
                ==> final(b).used() == b.used() && final(b).max() == b.max()),
            Some(a) => match receipt_result(
                a.width(),
                title@,
                lines@.map_values(|l: ReceiptLineDto| (l.label@, l.value@)),
                total@,
                match qr_data {
                    Some(d) => Some(d@),
                    None => None,
                },
            ) {
                Err(e) => (r matches Err(m) && m@ == "Error building ESC/POS command: "@ + e) && (budget matches Some(
                    b,
                ) ==> final(b).used() == b.used() && final(b).max() == b.max()),
                Ok(job) => match budget {
                    None => r matches Err(m) && m@ == "PrintService not initialized"@,
                    Some(b) => final(b).max() == b.max() && enqueue_outcome(
                        b.max(),
                        b.used(),
                        final(b).used(),
                        job,
                        worker_running,
                        r,
                    ),
                },
            },
        },
{
    let a = match adapter {
        None => return Err(String::from_str("PrintService not initialized")),
        Some(a) => a,
    };
    let mut receipt_lines: Vec<ReceiptLine> = Vec::new();
    let ghost view = lines@.map_values(|l: ReceiptLineDto| (l.label@, l.value@));
    for i in 0..lines.len()
        invariant
            receipt_lines@.len() == i,
            forall|j: int|
                #![trigger receipt_lines@[j]]
                0 <= j < i ==> (receipt_lines@[j].label@, receipt_lines@[j].value@) == view[j],
            view == lines@.map_values(|l: ReceiptLineDto| (l.label@, l.value@)),
    {
        let label = lines[i].label.clone();
        let value = lines[i].value.clone();
        receipt_lines.push(ReceiptLine { label, value });
    }
    assert(receipt_lines@.map_values(|l: ReceiptLine| (l.label@, l.value@)) =~= view);
    let qr = match &qr_data {
        Some(d) => Some(d.as_str()),
        None => None,
    };
    let buf = match a.build_receipt(title.as_str(), receipt_lines.as_slice(), total.as_str(), qr) {
        Ok(b) => b,
        Err(e) => return Err(e.message()),
    };
    enqueue_write_bytes(budget, worker_running, buf)
}


/// Preparing a job that fits, with a worker running, accounts exactly its
/// bytes and gives the command that prints exactly those bytes; a job that
/// does not fit changes nothing; without a worker the reservation stays and
/// no command is given. (A total past `usize::MAX` saturates, and is left
/// out here.)
pub proof fn law_enqueue(
    max: nat,
    used: nat,
    new_used: nat,
    job: Seq<u8>,
    worker_running: bool,
    r: std::result::Result<PrintCommand, String>,
)
    requires
        enqueue_outcome(max, used, new_used, job, worker_running, r),
        used <= max,
        max <= usize::MAX,
        used + job.len() <= usize::MAX,
    ensures
        used + job.len() <= max && worker_running ==> (r matches Ok(c) && c matches PrintCommand::Print(p) && p@
            == job && new_used == used + job.len()),
        used + job.len() > max ==> (r is Err && new_used == used),
        used + job.len() <= max && !worker_running ==> (r is Err && new_used == used + job.len()),
        r is Ok ==> used + job.len() <= max && worker_running,
{
}

} // verus!
