//! ESC/POS buffers for text, receipts, QR codes and barcodes, built command by
//! command with the `escpos` crate.

use std::cell::RefCell;
use std::rc::Rc;

use escpos::driver::Driver;
use escpos::errors::PrinterError as EscposError;
use escpos::printer::Printer;
use escpos::printer_options::PrinterOptions;
use escpos::utils::{
    BarcodeFont, BarcodeHeight, BarcodeOption, BarcodePosition, BarcodeWidth, JustifyMode, Protocol,
    QRCodeCorrectionLevel, QRCodeModel, QRCodeOption,
};
use vstd::prelude::*;
use vstd::utf8::encode_utf8;

use crate::errors::{PrinterError, Result};
use crate::text::{decimal, string_push};

verus! {

#[verifier::external_type_specification]
#[verifier::external_body]
#[verifier::reject_recursive_types(T)]
pub struct ExRefCell<T: ?Sized>(std::cell::RefCell<T>);

#[verifier::external_type_specification]
#[verifier::external_body]
pub struct ExEscposError(EscposError);

/// `RefCell::new`: a new cell holding `value` (its contents are not modelled).
pub assume_specification<T>[ std::cell::RefCell::<T>::new ](value: T) -> std::cell::RefCell<T>;

/// `RefCell::take`: the value held, leaving the default (`Vec::new()`) behind.
///
/// The contents of the shared cell are not modelled, so nothing is stated of
/// the result.
#[verifier::external_body]
fn take_cell(cell: &RefCell<Vec<u8>>) -> Vec<u8> {
    cell.take()
}

/// Driver of the `escpos` crate that captures every written byte in memory.
///
/// The buffer is shared between clones and written through `&self`, as the
/// `Driver` trait asks; its contents are not followed by the contracts.
#[derive(Clone, Default)]
pub struct MemoryDriver {
    pub buffer: Rc<RefCell<Vec<u8>>>,
}

impl MemoryDriver {
    pub fn new() -> Self {
        MemoryDriver { buffer: Rc::new(RefCell::new(Vec::with_capacity(1024))) }
    }

    /// The bytes captured so far; the capture starts over empty.
    pub fn take_buffer(&self) -> Vec<u8> {
        take_cell(&*self.buffer)
    }
}

impl Driver for MemoryDriver {
    #[verifier::external_body]
    fn name(&self) -> String {
        "MemoryDriver".to_string()
    }

    #[verifier::external_body]
    fn write(&self, data: &[u8]) -> escpos::errors::Result<()> {
        self.buffer.borrow_mut().extend_from_slice(data);
        Ok(())
    }

    #[verifier::external_body]
    fn read(&self, _buf: &mut [u8]) -> escpos::errors::Result<usize> {
        Ok(0)
    }

    #[verifier::external_body]
    fn flush(&self) -> escpos::errors::Result<()> {
        Ok(())
    }
}

/// Horizontal alignment of the following lines.
#[derive(Debug, Clone, Copy, PartialEq, Eq, Structural)]
pub enum Justification {
    Left,
    Center,
    Right,
}

// ── Commands, as the escpos crate encodes them ─────────────────────────

/// `ESC @`: initialise the printer.
pub open spec fn init_cmd() -> Seq<u8> {
    seq![0x1Bu8, 0x40u8]
}

/// `ESC a n`: select justification.
pub open spec fn justify_cmd(j: Justification) -> Seq<u8> {
    seq![
        0x1Bu8,
        0x61u8,
        match j {
            Justification::Left => 0u8,
            Justification::Center => 1u8,
            Justification::Right => 2u8,
        },
    ]
}

/// `ESC E n`: emphasis on or off.
pub open spec fn bold_cmd(enabled: bool) -> Seq<u8> {
    seq![0x1Bu8, 0x45u8, if enabled { 1u8 } else { 0u8 }]
}

/// `GS ! n`: character size, `width` and `height` in 1..=8.
pub open spec fn size_cmd(width: u8, height: u8) -> Seq<u8> {
    seq![0x1Du8, 0x21u8, ((width - 1) * 16 + (height - 1)) as u8]
}

/// `ESC d 1`: print and feed one line.
pub open spec fn feed_cmd() -> Seq<u8> {
    seq![0x1Bu8, 0x64u8, 0x01u8]
}

/// A line of text (UTF-8) followed by a line feed.
pub open spec fn line_cmd(text: Seq<char>) -> Seq<u8> {
    encode_utf8(text) + feed_cmd()
}

/// `GS V A 0`: full paper cut.
pub open spec fn cut_cmd() -> Seq<u8> {
    seq![0x1Du8, 0x56u8, 0x41u8, 0x00u8]
}

/// Largest QR code payload, in bytes.
pub open spec fn qr_max_data() -> nat {
    7089
}

/// QR code, model 2, error correction M, module size `size` (capped at 15),
/// storing `data`.
pub open spec fn qr_cmd(data: Seq<u8>, size: u8) -> Seq<u8> {
    let n = data.len() + 3;
    seq![0x1Du8, 0x28u8, 0x6Bu8, 4u8, 0u8, 49u8, 65u8, 50u8, 0u8] + seq![
        0x1Du8,
        0x28u8,
        0x6Bu8,
        3u8,
        0u8,
        49u8,
        67u8,
        if size > 15 { 15u8 } else { size },
    ] + seq![0x1Du8, 0x28u8, 0x6Bu8, 3u8, 0u8, 49u8, 69u8, 49u8] + seq![
        0x1Du8,
        0x28u8,
        0x6Bu8,
        (n % 256) as u8,
        (n / 256) as u8,
        49u8,
        80u8,
        48u8,
    ] + data + seq![0x1Du8, 0x28u8, 0x6Bu8, 3u8, 0u8, 49u8, 81u8, 48u8]
}

/// Message of a QR payload over the limit.
pub open spec fn qr_too_long_message(len: nat) -> Seq<char> {
    "Input error: QR code data is too long ("@ + decimal(len)
        + "), its length should be smaller than 7090"@
}

/// EAN13 barcode, module width 3, height 153 dots, HRI font A printed below.
pub open spec fn ean13_cmd(data: Seq<u8>) -> Seq<u8> {
    seq![0x1Du8, 0x77u8, 3u8] + seq![0x1Du8, 0x68u8, 153u8] + seq![0x1Du8, 0x66u8, 0u8] + seq![
        0x1Du8,
        0x48u8,
        2u8,
    ] + seq![0x1Du8, 0x6Bu8, 2u8] + data + seq![0u8]
}

/// EAN13 data: 12 or 13 decimal digits.
pub open spec fn ean13_valid(data: Seq<char>) -> bool {
    &&& forall|i: int| 0 <= i < data.len() ==> '0' <= #[trigger] data[i] <= '9'
    &&& (encode_utf8(data).len() == 12 || encode_utf8(data).len() == 13)
}

// ── Calls into the escpos crate ────────────────────────────────────────

/// `Printer::init` with the default options (no code page): `ESC @`.
#[verifier::external_body]
fn escpos_init() -> (r: Vec<u8>)
    ensures
        r@ == init_cmd(),
{
    let driver = MemoryDriver::new();
    let mut printer = Printer::new(driver.clone(), Protocol::default(), Some(PrinterOptions::default()));
    let _ = printer.init();
    let _ = printer.print();
    driver.take_buffer()
}

/// `Printer::justify`: `ESC a 0|1|2`.
#[verifier::external_body]
fn escpos_justify(mode: Justification) -> (r: Vec<u8>)
    ensures
        r@ == justify_cmd(mode),
{
    let mode = match mode {
        Justification::Left => JustifyMode::LEFT,
        Justification::Center => JustifyMode::CENTER,
        Justification::Right => JustifyMode::RIGHT,
    };
    let driver = MemoryDriver::new();
    let mut printer = Printer::new(driver.clone(), Protocol::default(), Some(PrinterOptions::default()));
    let _ = printer.justify(mode);
    let _ = printer.print();
    driver.take_buffer()
}

/// `Printer::bold`: `ESC E 0|1`.
#[verifier::external_body]
fn escpos_bold(enabled: bool) -> (r: Vec<u8>)
    ensures
        r@ == bold_cmd(enabled),
{
    let driver = MemoryDriver::new();
    let mut printer = Printer::new(driver.clone(), Protocol::default(), Some(PrinterOptions::default()));
    let _ = printer.bold(enabled);
    let _ = printer.print();
    driver.take_buffer()
}

/// `Printer::size`: `GS ! n` for sizes in 1..=8; other sizes are refused
/// (the width is checked first) with the crate's input error.
#[verifier::external_body]
fn escpos_size(width: u8, height: u8) -> (r: std::result::Result<Vec<u8>, String>)
    ensures
        r is Ok <==> (1 <= width <= 8 && 1 <= height <= 8),
        r matches Ok(b) ==> b@ == size_cmd(width, height),
        r matches Err(m) ==> m@ == if !(1 <= width <= 8) {
            "Input error: invalid text_size width: "@ + decimal(width as nat)
        } else {
            "Input error: invalid text_size height: "@ + decimal(height as nat)
        },
{
    let driver = MemoryDriver::new();
    let mut printer = Printer::new(driver.clone(), Protocol::default(), Some(PrinterOptions::default()));
    if let Err(e) = printer.size(width, height) {
        return Err(e.to_string());
    }
    let _ = printer.print();
    Ok(driver.take_buffer())
}

/// `Printer::writeln` with the default UTF-8 encoder: the UTF-8 bytes of the
/// text, then `ESC d 1`.
#[verifier::external_body]
fn escpos_writeln(text: &str) -> (r: Vec<u8>)
    ensures
        r@ == line_cmd(text@),
{
    let driver = MemoryDriver::new();
    let mut printer = Printer::new(driver.clone(), Protocol::default(), Some(PrinterOptions::default()));
    let _ = printer.writeln(text);
    let _ = printer.print();
    driver.take_buffer()
}

/// `Printer::feed`: `ESC d 1`.
#[verifier::external_body]
fn escpos_feed() -> (r: Vec<u8>)
    ensures
        r@ == feed_cmd(),
{
    let driver = MemoryDriver::new();
    let mut printer = Printer::new(driver.clone(), Protocol::default(), Some(PrinterOptions::default()));
    let _ = printer.feed();
    let _ = printer.print();
    driver.take_buffer()
}

/// `Printer::print_cut`: `GS V A 0`, then the buffer is flushed.
#[verifier::external_body]
fn escpos_print_cut() -> (r: Vec<u8>)
    ensures
        r@ == cut_cmd(),
{
    let driver = MemoryDriver::new();
    let mut printer = Printer::new(driver.clone(), Protocol::default(), Some(PrinterOptions::default()));
    let _ = printer.print_cut();
    driver.take_buffer()
}

/// `Printer::cut`: `GS V A 0`.
#[verifier::external_body]
fn escpos_cut() -> (r: Vec<u8>)
    ensures
        r@ == cut_cmd(),
{
    let driver = MemoryDriver::new();
    let mut printer = Printer::new(driver.clone(), Protocol::default(), Some(PrinterOptions::default()));
    let _ = printer.cut();
    let _ = printer.print();
    driver.take_buffer()
}

/// `Printer::qrcode_option` with model 2, error correction M and the given
/// module size: refused when the payload is over 7089 bytes.
#[verifier::external_body]
fn escpos_qrcode(data: &str, size: u8) -> (r: std::result::Result<Vec<u8>, String>)
    ensures
        r is Ok <==> encode_utf8(data@).len() <= qr_max_data(),
        r matches Ok(b) ==> b@ == qr_cmd(encode_utf8(data@), size),
        r matches Err(m) ==> m@ == qr_too_long_message(encode_utf8(data@).len()),
{
    let driver = MemoryDriver::new();
    let mut printer = Printer::new(driver.clone(), Protocol::default(), Some(PrinterOptions::default()));
    let option = QRCodeOption::new(QRCodeModel::Model2, size, QRCodeCorrectionLevel::M);
    if let Err(e) = printer.qrcode_option(data, option) {
        return Err(e.to_string());
    }
    let _ = printer.print();
    Ok(driver.take_buffer())
}

/// `Printer::ean13_option` with width M, height M, font A, HRI below: refused
/// unless the data is 12 or 13 digits.
#[verifier::external_body]
fn escpos_ean13(data: &str) -> (r: std::result::Result<Vec<u8>, String>)
    ensures
        r is Ok <==> ean13_valid(data@),
        r matches Ok(b) ==> b@ == ean13_cmd(encode_utf8(data@)),
        r matches Err(m) ==> m@ == "Input error: invalid EAN13 data: "@ + data@,
{
    let driver = MemoryDriver::new();
    let mut printer = Printer::new(driver.clone(), Protocol::default(), Some(PrinterOptions::default()));
    let option = BarcodeOption::new(BarcodeWidth::M, BarcodeHeight::M, BarcodeFont::A, BarcodePosition::Below);
    if let Err(e) = printer.ean13_option(data, option) {
        return Err(e.to_string());
    }
    let _ = printer.print();
    Ok(driver.take_buffer())
}

// ── Documents ──────────────────────────────────────────────────────────

/// A separator line of `width` dashes.
pub open spec fn separator_line(width: nat) -> Seq<char> {
    Seq::new(width, |i: int| '-')
}

/// `n` spaces.
pub open spec fn spaces(n: nat) -> Seq<char> {
    Seq::new(n, |i: int| ' ')
}

/// A receipt row: the label, then spaces up to `width` bytes, then the value.
/// A label and value that already take `width` bytes or more are written
/// side by side with no padding.
pub open spec fn receipt_row(width: nat, label: Seq<char>, value: Seq<char>) -> Seq<char> {
    let used = encode_utf8(label).len() + encode_utf8(value).len();
    label + spaces(if width > used { (width - used) as nat } else { 0 }) + value
}

/// The item rows of a receipt, one printed line each.
pub open spec fn item_lines(width: nat, items: Seq<(Seq<char>, Seq<char>)>) -> Seq<u8>
    decreases items.len(),
{
    if items.len() == 0 {
        seq![]
    } else {
        item_lines(width, items.drop_last()) + line_cmd(
            receipt_row(width, items.last().0, items.last().1),
        )
    }
}

/// The label and value of each receipt item.
pub open spec fn pairs_view(lines: Seq<(&str, &str)>) -> Seq<(Seq<char>, Seq<char>)> {
    lines.map_values(|p: (&str, &str)| (p.0@, p.1@))
}

/// A text job: the text left-aligned on its line, one more line fed, cut.
pub open spec fn text_job(text: Seq<char>) -> Seq<u8> {
    init_cmd() + justify_cmd(Justification::Left) + line_cmd(text) + feed_cmd() + cut_cmd()
}

/// A receipt: centred bold title, separator, left-aligned items, separator,
/// right-aligned bold total, an optional centred QR code (module size 5), cut.
pub open spec fn receipt_job(
    width: nat,
    title: Seq<char>,
    items: Seq<(Seq<char>, Seq<char>)>,
    total: Seq<char>,
    qr: Option<Seq<u8>>,
) -> Seq<u8> {
    init_cmd() + justify_cmd(Justification::Center) + bold_cmd(true) + size_cmd(1, 1) + line_cmd(title)
        + bold_cmd(false) + line_cmd(separator_line(width)) + justify_cmd(Justification::Left)
        + item_lines(width, items) + line_cmd(separator_line(width)) + justify_cmd(
        Justification::Right,
    ) + bold_cmd(true) + line_cmd("TOTAL: "@ + total) + bold_cmd(false) + feed_cmd() + match qr {
        Some(code) => justify_cmd(Justification::Center) + code + feed_cmd(),
        None => Seq::<u8>::empty(),
    } + cut_cmd()
}

/// What a receipt build gives: the receipt, or the message of a QR payload
/// over the limit.
pub open spec fn receipt_result(
    width: nat,
    title: Seq<char>,
    items: Seq<(Seq<char>, Seq<char>)>,
    total: Seq<char>,
    qr_data: Option<Seq<char>>,
) -> std::result::Result<Seq<u8>, Seq<char>> {
    match qr_data {
        None => Ok(receipt_job(width, title, items, total, None)),
        Some(d) => if encode_utf8(d).len() <= qr_max_data() {
            Ok(receipt_job(width, title, items, total, Some(qr_cmd(encode_utf8(d), 5))))
        } else {
            Err(qr_too_long_message(encode_utf8(d).len()))
        },
    }
}

/// A job with a centred QR code (module size 6), cut.
pub open spec fn qr_job(data: Seq<char>) -> Seq<u8> {
    init_cmd() + justify_cmd(Justification::Center) + qr_cmd(encode_utf8(data), 6) + feed_cmd()
        + cut_cmd()
}

/// A job with a centred EAN13 barcode, cut.
pub open spec fn ean13_job(data: Seq<char>) -> Seq<u8> {
    init_cmd() + justify_cmd(Justification::Center) + ean13_cmd(encode_utf8(data)) + feed_cmd()
        + cut_cmd()
}

/// Whether `r` is the buffer `expected`, or the ESC/POS error of its message.
pub open spec fn escpos_outcome(r: Result<Vec<u8>>, expected: std::result::Result<Seq<u8>, Seq<char>>) -> bool {
    match expected {
        Ok(bytes) => r matches Ok(v) && v@ == bytes,
        Err(m) => r matches Err(PrinterError::EscposError(s)) && s@ == m,
    }
}

/// A receipt item.
#[derive(Debug, Clone)]
pub struct ReceiptLine {
    pub label: String,
    pub value: String,
}

/// Builds ESC/POS buffers in memory for a paper `paper_width` characters wide.
pub struct EscposAdapter {
    paper_width: u8,
    /// Separator line, built once per paper width.
    separator: String,
}

/// Appends a command to a buffer.
fn emit(out: &mut Vec<u8>, cmd: Vec<u8>)
    ensures
        final(out)@ == old(out)@ + cmd@,
{
    let mut cmd = cmd;
    out.append(&mut cmd);
}

impl EscposAdapter {
    /// The paper width, in characters.
    pub closed spec fn width(&self) -> nat {
        self.paper_width as nat
    }

    #[verifier::type_invariant]
    closed spec fn separator_fits(&self) -> bool {
        self.separator@ == separator_line(self.paper_width as nat)
    }

    pub fn new(paper_width: u8) -> (a: Self)
        ensures
            a.width() == paper_width,
    {
        let mut separator = String::new();
        for i in 0..paper_width
            invariant
                separator@ == separator_line(i as nat),
        {
            string_push(&mut separator, '-');
            assert(separator@ =~= separator_line((i + 1) as nat));
        }
        assert(separator@ =~= separator_line(paper_width as nat));
        EscposAdapter { paper_width, separator }
    }

    /// Text with paper cut.
    pub fn build_text(&self, text: &str) -> (r: Result<Vec<u8>>)
        ensures
            r matches Ok(v) && v@ == text_job(text@),
    {
        let mut out: Vec<u8> = Vec::new();
        emit(&mut out, escpos_init());
        emit(&mut out, escpos_justify(Justification::Left));
        emit(&mut out, escpos_writeln(text));
        emit(&mut out, escpos_feed());
        emit(&mut out, escpos_print_cut());
        assert(out@ =~= text_job(text@));
        Ok(out)
    }

    /// Writes `label`, padding spaces and `value` into `buf` (previous contents
    /// are dropped), padded to the paper width in bytes.
    fn format_line_into(&self, buf: &mut String, label: &str, value: &str)
        ensures
            final(buf)@ == receipt_row(self.width(), label@, value@),
    {
        *buf = String::new();
        let width = self.paper_width as usize;
        let used = label.as_bytes().len().saturating_add(value.as_bytes().len());
        let available = width.saturating_sub(used);
        buf.append(label);
        let ghost base = buf@;
        for k in 0..available
            invariant
                buf@ == base + spaces(k as nat),
        {
            string_push(buf, ' ');
            assert(buf@ =~= base + spaces((k + 1) as nat));
        }
        buf.append(value);
        proof {
            let u = encode_utf8(label@).len() + encode_utf8(value@).len();
            assert(available == if self.width() > u { (self.width() - u) as nat } else { 0nat });
            assert(buf@ =~= receipt_row(self.width(), label@, value@));
        }
    }

    /// Emits a line of text, then a line feed.
    fn emit_line(out: &mut Vec<u8>, text: &str)
        ensures
            final(out)@ == old(out)@ + line_cmd(text@),
    {
        emit(out, escpos_writeln(text));
    }

    /// A complete receipt from label/value pairs: title, items, total and an
    /// optional QR code.
    pub fn build_receipt_pairs(
        &self,
        title: &str,
        lines: &[(&str, &str)],
        total: &str,
        qr_data: Option<&str>,
    ) -> (r: Result<Vec<u8>>)
        ensures
            escpos_outcome(
                r,
                receipt_result(
                    self.width(),
                    title@,
                    pairs_view(lines@),
                    total@,
                    match qr_data {
                        Some(d) => Some(d@),
                        None => None,
                    },
                ),
            ),
    {
        proof {
            use_type_invariant(self);
        }
        let ghost w = self.width();
        let ghost items = pairs_view(lines@);
        let mut out: Vec<u8> = Vec::new();
        emit(&mut out, escpos_init());
        emit(&mut out, escpos_justify(Justification::Center));
        emit(&mut out, escpos_bold(true));
        match escpos_size(1, 1) {
            Ok(cmd) => emit(&mut out, cmd),
            Err(m) => return Err(PrinterError::EscposError(m)),
        }
        Self::emit_line(&mut out, title);
        emit(&mut out, escpos_bold(false));
        Self::emit_line(&mut out, self.separator.as_str());
        emit(&mut out, escpos_justify(Justification::Left));
        let ghost head = out@;
        assert(items.take(0) =~= Seq::<(Seq<char>, Seq<char>)>::empty());
        let mut row = String::new();
        for i in 0..lines.len()
            invariant
                items == pairs_view(lines@),
                w == self.width(),
                out@ == head + item_lines(w, items.take(i as int)),
        {
            let (label, value) = lines[i];
            self.format_line_into(&mut row, label, value);
            Self::emit_line(&mut out, row.as_str());
            proof {
                assert(items.take(i + 1).drop_last() =~= items.take(i as int));
                assert(items[i as int] == (label@, value@));
            }
        }
        assert(items.take(lines@.len() as int) =~= items);
        Self::emit_line(&mut out, self.separator.as_str());
        emit(&mut out, escpos_justify(Justification::Right));
        emit(&mut out, escpos_bold(true));
        let total_line = String::from_str("TOTAL: ").concat(total);
        Self::emit_line(&mut out, total_line.as_str());
        emit(&mut out, escpos_bold(false));
        emit(&mut out, escpos_feed());
        if let Some(qr) = qr_data {
            emit(&mut out, escpos_justify(Justification::Center));
            match escpos_qrcode(qr, 5) {
                Ok(cmd) => emit(&mut out, cmd),
                Err(m) => return Err(PrinterError::EscposError(m)),
            }
            emit(&mut out, escpos_feed());
        }
        emit(&mut out, escpos_print_cut());
        proof {
            match qr_data {
                Some(d) => {
                    assert(out@ =~= receipt_job(w, title@, items, total@, Some(qr_cmd(encode_utf8(d@), 5))));
                },
                None => {
                    assert(out@ =~= receipt_job(w, title@, items, total@, None));
                },
            }
        }
        Ok(out)
    }

    /// A complete receipt: title, items, total and an optional QR code.
    pub fn build_receipt(
        &self,
        title: &str,
        lines: &[ReceiptLine],
        total: &str,
        qr_data: Option<&str>,
    ) -> (r: Result<Vec<u8>>)
        ensures
            escpos_outcome(
                r,
                receipt_result(
                    self.width(),
                    title@,
                    lines@.map_values(|l: ReceiptLine| (l.label@, l.value@)),
                    total@,
                    match qr_data {
                        Some(d) => Some(d@),
                        None => None,
                    },
                ),
            ),
    {
        let mut pairs: Vec<(&str, &str)> = Vec::new();
        for i in 0..lines.len()
            invariant
                pairs@.len() == i,
                forall|j: int|
                    #![trigger pairs@[j]]
                    0 <= j < i ==> pairs@[j].0@ == lines@[j].label@ && pairs@[j].1@ == lines@[j].value@,
        {
            let label: &str = lines[i].label.as_str();
            let value: &str = lines[i].value.as_str();
            pairs.push((label, value));
        }
        assert(pairs_view(pairs@) =~= lines@.map_values(|l: ReceiptLine| (l.label@, l.value@)));
        self.build_receipt_pairs(title, pairs.as_slice(), total, qr_data)
    }

    /// A centred QR code (module size 6) with paper cut; refused when the
    /// payload is over 7089 bytes.
    pub fn build_qr(&self, data: &str) -> (r: Result<Vec<u8>>)
        ensures
            escpos_outcome(
                r,
                if encode_utf8(data@).len() <= qr_max_data() {
                    Ok(qr_job(data@))
                } else {
                    Err(qr_too_long_message(encode_utf8(data@).len()))
                },
            ),
    {
        let mut out: Vec<u8> = Vec::new();
        emit(&mut out, escpos_init());
        emit(&mut out, escpos_justify(Justification::Center));
        match escpos_qrcode(data, 6) {
            Ok(cmd) => emit(&mut out, cmd),
            Err(m) => return Err(PrinterError::EscposError(m)),
        }
        emit(&mut out, escpos_feed());
        emit(&mut out, escpos_print_cut());
        assert(out@ =~= qr_job(data@));
        Ok(out)
    }

    /// A centred EAN13 barcode with paper cut; refused unless the data is 12 or
    /// 13 digits.
    pub fn build_ean13(&self, data: &str) -> (r: Result<Vec<u8>>)
        ensures
            escpos_outcome(
                r,
                if ean13_valid(data@) {
                    Ok(ean13_job(data@))
                } else {
                    Err("Input error: invalid EAN13 data: "@ + data@)
                },
            ),
    {
        let mut out: Vec<u8> = Vec::new();
        emit(&mut out, escpos_init());
        emit(&mut out, escpos_justify(Justification::Center));
        match escpos_ean13(data) {
            Ok(cmd) => emit(&mut out, cmd),
            Err(m) => return Err(PrinterError::EscposError(m)),
        }
        emit(&mut out, escpos_feed());
        emit(&mut out, escpos_print_cut());
        assert(out@ =~= ean13_job(data@));
        Ok(out)
    }

    /// Paper cut only.
    pub fn build_cut(&self) -> (r: Result<Vec<u8>>)
        ensures
            r matches Ok(v) && v@ == init_cmd() + cut_cmd(),
    {
        let mut out: Vec<u8> = Vec::new();
        emit(&mut out, escpos_init());
        emit(&mut out, escpos_cut());
        Ok(out)
    }
}

// ── Laws ───────────────────────────────────────────────────────────────

/// Every job the adapter builds starts with the printer initialisation
/// `ESC @`.
pub proof fn law_jobs_start_with_init(
    text: Seq<char>,
    width: nat,
    title: Seq<char>,
    items: Seq<(Seq<char>, Seq<char>)>,
    total: Seq<char>,
    qr: Option<Seq<u8>>,
)
    ensures
        text_job(text).subrange(0, 2) == init_cmd(),
        receipt_job(width, title, items, total, qr).subrange(0, 2) == init_cmd(),
        qr_job(text).subrange(0, 2) == init_cmd(),
        ean13_job(text).subrange(0, 2) == init_cmd(),
        (init_cmd() + cut_cmd()).subrange(0, 2) == init_cmd(),
{
    assert(text_job(text).subrange(0, 2) =~= init_cmd());
    assert(receipt_job(width, title, items, total, qr).subrange(0, 2) =~= init_cmd());
    assert(qr_job(text).subrange(0, 2) =~= init_cmd());
    assert(ean13_job(text).subrange(0, 2) =~= init_cmd());
    assert((init_cmd() + cut_cmd()).subrange(0, 2) =~= init_cmd());
}

/// A receipt with a QR code is the same receipt with the centred code and a
/// line feed inserted before the cut: longer by the code's length plus six
/// bytes.
pub proof fn law_qr_lengthens_receipt(
    width: nat,
    title: Seq<char>,
    items: Seq<(Seq<char>, Seq<char>)>,
    total: Seq<char>,
    code: Seq<u8>,
)
    ensures
        receipt_job(width, title, items, total, Some(code)).len() == receipt_job(
            width,
            title,
            items,
            total,
            None,
        ).len() + code.len() + 6,
{
}

proof fn lemma_encode_concat(a: Seq<char>, b: Seq<char>)
    ensures
        encode_utf8(a + b) == encode_utf8(a) + encode_utf8(b),
    decreases a.len(),
{
    if a.len() == 0 {
        assert(a + b =~= b);
        assert(encode_utf8(a) =~= Seq::<u8>::empty());
        assert(encode_utf8(a) + encode_utf8(b) =~= encode_utf8(b));
    } else {
        lemma_encode_concat(a.drop_first(), b);
        assert((a + b).drop_first() =~= a.drop_first() + b);
        assert((a + b)[0] == a[0]);
        assert(encode_utf8(a + b) =~= encode_utf8(a) + encode_utf8(b));
    }
}

/// A receipt row whose label and value fit on the paper fills exactly the
/// paper width, in bytes.
pub proof fn law_row_fills_width(width: nat, label: Seq<char>, value: Seq<char>)
    requires
        encode_utf8(label).len() + encode_utf8(value).len() <= width,
    ensures
        encode_utf8(receipt_row(width, label, value)).len() == width,
{
    let used = encode_utf8(label).len() + encode_utf8(value).len();
    let pad = spaces((width - used) as nat);
    assert(vstd::utf8::is_ascii_chars(pad));
    vstd::utf8::is_ascii_chars_encode_utf8(pad);
    lemma_encode_concat(label, pad);
    lemma_encode_concat(label + pad, value);
}


/// The bytes of a text job: `ESC @`, `ESC a 0` (left), the text in UTF-8,
/// `ESC d 1` ending the line, one more `ESC d 1`, and `GS V A 0` (cut).
pub proof fn law_text_job_bytes(text: Seq<char>)
    ensures
        text_job(text) == seq![0x1Bu8, 0x40u8, 0x1Bu8, 0x61u8, 0x00u8] + encode_utf8(text) + seq![
            0x1Bu8,
            0x64u8,
            0x01u8,
            0x1Bu8,
            0x64u8,
            0x01u8,
            0x1Du8,
            0x56u8,
            0x41u8,
            0x00u8,
        ],
{
    assert(text_job(text) =~= seq![0x1Bu8, 0x40u8, 0x1Bu8, 0x61u8, 0x00u8] + encode_utf8(text) + seq![
        0x1Bu8,
        0x64u8,
        0x01u8,
        0x1Bu8,
        0x64u8,
        0x01u8,
        0x1Du8,
        0x56u8,
        0x41u8,
        0x00u8,
    ]);
}

/// A receipt closes with the cut (`GS V A 0`), and each item adds its padded
/// row as one more line (the row in UTF-8, then `ESC d 1`).
pub proof fn law_receipt_layout(
    width: nat,
    title: Seq<char>,
    items: Seq<(Seq<char>, Seq<char>)>,
    total: Seq<char>,
    qr: Option<Seq<u8>>,
    label: Seq<char>,
    value: Seq<char>,
)
    ensures
        ({
            let job = receipt_job(width, title, items, total, qr);
            &&& job.len() >= 4
            &&& job.subrange(job.len() - 4, job.len() as int) == seq![0x1Du8, 0x56u8, 0x41u8, 0x00u8]
        }),
        item_lines(width, items.push((label, value))) == item_lines(width, items) + encode_utf8(
            receipt_row(width, label, value),
        ) + seq![0x1Bu8, 0x64u8, 0x01u8],
{
    let job = receipt_job(width, title, items, total, qr);
    assert(job.subrange(job.len() - 4, job.len() as int) =~= seq![0x1Du8, 0x56u8, 0x41u8, 0x00u8]);
    assert(items.push((label, value)).drop_last() =~= items);
}

/// A paper cut job is `ESC @` then `GS V A 0`; a QR or barcode job also
/// opens with `ESC @` and centring (`ESC a 1`) and closes with a line feed
/// and the cut.
pub proof fn law_code_jobs(data: Seq<char>)
    ensures
        init_cmd() + cut_cmd() == seq![0x1Bu8, 0x40u8, 0x1Du8, 0x56u8, 0x41u8, 0x00u8],
        qr_job(data).subrange(0, 5) == seq![0x1Bu8, 0x40u8, 0x1Bu8, 0x61u8, 0x01u8],
        ean13_job(data).subrange(0, 5) == seq![0x1Bu8, 0x40u8, 0x1Bu8, 0x61u8, 0x01u8],
        qr_job(data).subrange(qr_job(data).len() - 7, qr_job(data).len() as int) == seq![
            0x1Bu8,
            0x64u8,
            0x01u8,
            0x1Du8,
            0x56u8,
            0x41u8,
            0x00u8,
        ],
        ean13_job(data).subrange(ean13_job(data).len() - 7, ean13_job(data).len() as int) == seq![
            0x1Bu8,
            0x64u8,
            0x01u8,
            0x1Du8,
            0x56u8,
            0x41u8,
            0x00u8,
        ],
{
    assert(init_cmd() + cut_cmd() =~= seq![0x1Bu8, 0x40u8, 0x1Du8, 0x56u8, 0x41u8, 0x00u8]);
    let q = qr_job(data);
    let e = ean13_job(data);
    assert(q.subrange(0, 5) =~= seq![0x1Bu8, 0x40u8, 0x1Bu8, 0x61u8, 0x01u8]);
    assert(e.subrange(0, 5) =~= seq![0x1Bu8, 0x40u8, 0x1Bu8, 0x61u8, 0x01u8]);
    assert(q.subrange(q.len() - 7, q.len() as int) =~= feed_cmd() + cut_cmd());
    assert(e.subrange(e.len() - 7, e.len() as int) =~= feed_cmd() + cut_cmd());
}


/// A receipt row reads: the label first, the value last, and only spaces in
/// between; a separator line is `width` dashes.
pub proof fn law_row_layout(width: nat, label: Seq<char>, value: Seq<char>)
    ensures
        ({
            let row = receipt_row(width, label, value);
            &&& row.len() >= label.len() + value.len()
            &&& row.subrange(0, label.len() as int) == label
            &&& row.subrange(row.len() - value.len(), row.len() as int) == value
            &&& forall|i: int| label.len() <= i < row.len() - value.len() ==> #[trigger] row[i] == ' '
        }),
        separator_line(width).len() == width,
        forall|i: int| 0 <= i < width ==> #[trigger] separator_line(width)[i] == '-',
{
    let row = receipt_row(width, label, value);
    assert(row.subrange(0, label.len() as int) =~= label);
    assert(row.subrange(row.len() - value.len(), row.len() as int) =~= value);
}

} // verus!
