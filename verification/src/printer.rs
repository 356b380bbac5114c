//! Decisions of the print service around its I/O: retry policy, chunking of a
//! buffer for the transport, and the closing of awaited jobs.

use vstd::prelude::*;
use vstd::arithmetic::power2::pow2;

use crate::errors::{PrinterError, Result};
use crate::session::{saturating_diff, QueueBudget};

verus! {

/// Outcome of a write: the bytes sent, or the error with the untouched
/// buffer when it could be recovered for a retry.
pub type WriteOutcome = std::result::Result<usize, (Option<Vec<u8>>, PrinterError)>;

/// Base delay before the first retry of a send, in milliseconds.
pub const SEND_RETRY_BASE_MS: u64 = 500;

/// `base_ms * 2^(attempt - 1)`: the delay before retry number `attempt`.
pub fn exponential_backoff_ms(base_ms: u64, attempt: u8) -> (r: u64)
    requires
        1 <= attempt,
        base_ms * pow2((attempt - 1) as nat) <= u64::MAX,
    ensures
        r == base_ms * pow2((attempt - 1) as nat),
{
    proof {
        vstd::arithmetic::power2::lemma2_to64();
        assert(base_ms * pow2(0) == base_ms);
    }
    let mut r: u64 = base_ms;
    let mut k: u8 = 1;
    while k < attempt
        invariant
            1 <= k <= attempt,
            r == base_ms * pow2((k - 1) as nat),
            base_ms * pow2((attempt - 1) as nat) <= u64::MAX,
        decreases attempt - k,
    {
        proof {
            vstd::arithmetic::power2::lemma_pow2_unfold(k as nat);
            vstd::arithmetic::power2::lemma_pow2_strictly_increases((k - 1) as nat, (attempt - 1) as nat);
            if k < attempt - 1 {
                vstd::arithmetic::power2::lemma_pow2_strictly_increases(k as nat, (attempt - 1) as nat);
            }
            assert(base_ms * pow2(k as nat) <= base_ms * pow2((attempt - 1) as nat)) by (nonlinear_arith)
                requires pow2(k as nat) <= pow2((attempt - 1) as nat), base_ms >= 0;
            assert(base_ms * pow2(k as nat) == 2 * (base_ms * pow2((k - 1) as nat))) by (nonlinear_arith)
                requires pow2(k as nat) == 2 * pow2((k - 1) as nat);
        }
        r = r * 2;
        k = k + 1;
    }
    r
}

/// What to do after a send attempt.
pub enum SendStep {
    /// Report this result.
    Finished(Result<usize>),
    /// Wait `backoff_ms`, reconnect if needed, and send `data` again as retry
    /// number `attempt`.
    Retry { data: Vec<u8>, attempt: u8, backoff_ms: u64 },
}

/// The retry policy: a sent buffer is reported; a lost buffer ends the job
/// with its error; a recoverable failure is retried while retries remain,
/// after `500 * 2^(attempt - 1)` ms, else its error ends the job.
pub open spec fn send_step_spec(sends_done: u8, max_retries: u8, outcome: WriteOutcome, step: SendStep) -> bool {
    match outcome {
        Ok(n) => step matches SendStep::Finished(r) && r == Ok::<usize, PrinterError>(n),
        Err((None, e)) => step matches SendStep::Finished(r) && r == Err::<usize, PrinterError>(e),
        Err((Some(buf), e)) => if sends_done <= max_retries {
            step matches SendStep::Retry { data, attempt, backoff_ms } && data == buf && attempt
                == sends_done && backoff_ms == SEND_RETRY_BASE_MS * pow2((sends_done - 1) as nat)
        } else {
            step matches SendStep::Finished(r) && r == Err::<usize, PrinterError>(e)
        },
    }
}

/// Decides what follows send attempt number `sends_done` (the first send is
/// number 1) with at most `max_retries` retries.
pub fn after_send(sends_done: u8, max_retries: u8, outcome: WriteOutcome) -> (step: SendStep)
    requires
        1 <= sends_done,
        (outcome matches Err((Some(_), _)) && sends_done <= max_retries) ==> SEND_RETRY_BASE_MS
            * pow2((sends_done - 1) as nat) <= u64::MAX,
    ensures
        send_step_spec(sends_done, max_retries, outcome, step),
{
    match outcome {
        Ok(n) => SendStep::Finished(Ok(n)),
        Err((None, e)) => SendStep::Finished(Err(e)),
        Err((Some(buf), e)) => {
            if sends_done <= max_retries {
                let backoff_ms = exponential_backoff_ms(SEND_RETRY_BASE_MS, sends_done);
                SendStep::Retry { data: buf, attempt: sends_done, backoff_ms }
            } else {
                SendStep::Finished(Err(e))
            }
        },
    }
}

/// One write of a chunked transfer: bytes `start..end`, and whether the
/// transport's inter-chunk delay follows it.
#[derive(Debug, Clone, Copy, PartialEq, Eq, Structural)]
pub struct ChunkWrite {
    pub start: usize,
    pub end: usize,
    pub pause_after: bool,
}

/// Number of chunks of `chunk_size` bytes covering `len` bytes.
pub open spec fn chunk_count(len: nat, chunk_size: nat) -> nat {
    if len <= chunk_size {
        1
    } else {
        ((len as int + chunk_size as int - 1) / (chunk_size as int)) as nat
    }
}

/// The writes of a buffer of `len` bytes: a single write when it fits in one
/// chunk, else consecutive chunks of `chunk_size` bytes (the last one
/// shorter), with a pause between chunks when the transport asks for a delay.
pub open spec fn chunk_plan_spec(len: nat, chunk_size: nat, delay: bool, plan: Seq<ChunkWrite>) -> bool {
    &&& plan.len() == chunk_count(len, chunk_size)
    &&& forall|i: int|
        #![trigger plan[i]]
        0 <= i < plan.len() ==> {
            &&& plan[i].start == i * chunk_size
            &&& plan[i].end == if (i + 1) * chunk_size < len {
                (i + 1) * chunk_size
            } else {
                len as int
            }
            &&& plan[i].pause_after == (delay && len > chunk_size && i + 1 < plan.len())
        }
}

proof fn lemma_chunk_start(len: int, cs: int, n: int, i: int)
    requires
        cs > 0,
        len > 0,
        n == (len + cs - 1) / cs,
        0 <= i < n,
    ensures
        i * cs < len,
        (i + 1) * cs < len <==> i + 1 < n,
{
    assert(n * cs <= len + cs - 1) by (nonlinear_arith)
        requires cs > 0, n == (len + cs - 1) / cs;
    assert(n * cs >= len) by (nonlinear_arith)
        requires cs > 0, n == (len + cs - 1) / cs;
    assert((n - 1) * cs == n * cs - cs) by (nonlinear_arith);
    assert((i + 1) * cs == i * cs + cs) by (nonlinear_arith);
    assert(i * cs <= (n - 1) * cs) by (nonlinear_arith)
        requires cs > 0, i <= n - 1;
    if i + 1 < n {
        assert((i + 1) * cs <= (n - 1) * cs) by (nonlinear_arith)
            requires cs > 0, i + 1 <= n - 1;
    } else {
        assert((i + 1) * cs >= n * cs) by (nonlinear_arith)
            requires cs > 0, i + 1 >= n;
    }
}

/// Plans the writes of a buffer of `len` bytes for a transport that prefers
/// chunks of `chunk_size` bytes.
pub fn plan_chunks(len: usize, chunk_size: usize, delay: bool) -> (plan: Vec<ChunkWrite>)
    requires
        chunk_size > 0,
    ensures
        chunk_plan_spec(len as nat, chunk_size as nat, delay, plan@),
{
    let mut plan: Vec<ChunkWrite> = Vec::new();
    if len <= chunk_size {
        plan.push(ChunkWrite { start: 0, end: len, pause_after: false });
        assert(plan@[0].start == 0 * chunk_size);
        assert((0int + 1) * (chunk_size as int) == chunk_size as int);
        return plan;
    }
    let extra: usize = if len % chunk_size == 0 { 0 } else { 1 };
    proof {
        if chunk_size == 1 {
            assert(len % chunk_size == 0);
        } else {
            assert((len / chunk_size) * chunk_size <= len) by (nonlinear_arith)
                requires chunk_size > 0;
            assert((len / chunk_size) * 2 <= (len / chunk_size) * chunk_size) by (nonlinear_arith)
                requires chunk_size >= 2, len / chunk_size >= 0;
        }
        assert(len / chunk_size + extra <= len);
        assert(len / chunk_size + extra == (len as int + chunk_size as int - 1) / (chunk_size as int)) by (nonlinear_arith)
            requires
                chunk_size > 0,
                extra == if len % chunk_size == 0 { 0int } else { 1int };
    }
    let num_chunks = len / chunk_size + extra;
    let mut i: usize = 0;
    while i < num_chunks
        invariant
            chunk_size > 0,
            len > chunk_size,
            num_chunks == (len as int + chunk_size as int - 1) / (chunk_size as int),
            i <= num_chunks,
            plan@.len() == i,
            forall|j: int|
                #![trigger plan@[j]]
                0 <= j < i ==> {
                    &&& plan@[j].start == j * chunk_size
                    &&& plan@[j].end == if (j + 1) * chunk_size < len {
                        (j + 1) * chunk_size
                    } else {
                        len as int
                    }
                    &&& plan@[j].pause_after == (delay && j + 1 < num_chunks)
                },
        decreases num_chunks - i,
    {
        proof {
            lemma_chunk_start(len as int, chunk_size as int, num_chunks as int, i as int);
            assert((i + 1) * chunk_size == i * chunk_size + chunk_size) by (nonlinear_arith);
        }
        let start = i * chunk_size;
        let end = if len - start > chunk_size { start + chunk_size } else { len };
        plan.push(ChunkWrite { start, end, pause_after: delay && i + 1 < num_chunks });
        i = i + 1;
    }
    plan
}

/// Closes a write command once its chunks are written or one failed: the
/// bytes sent, or the error with the untouched buffer handed back for a
/// retry; and whether the link is still taken to be up (a failed write
/// usually means it is down).
pub fn finish_write(data: Vec<u8>, sent: usize, res: Result<()>) -> (r: (WriteOutcome, bool))
    ensures
        match res {
            Ok(()) => r.0 == Ok::<usize, (Option<Vec<u8>>, PrinterError)>(sent) && r.1,
            Err(e) => r.0 == Err::<usize, (Option<Vec<u8>>, PrinterError)>((Some(data), e)) && !r.1,
        },
{
    match res {
        Ok(()) => (Ok(sent), true),
        Err(e) => (Err((Some(data), e)), false),
    }
}

/// The result of a read command: the bytes the transport put at the front
/// of `buf` (`res` is the transport's count or error, `None` when the read
/// outlasted its timeout).
pub fn finish_read(buf: Vec<u8>, res: Option<Result<usize>>) -> (r: Result<Vec<u8>>)
    ensures
        match res {
            None => r matches Err(PrinterError::Timeout),
            Some(Err(e)) => r == Err::<Vec<u8>, PrinterError>(e),
            Some(Ok(n)) => r matches Ok(v) && v@ == if n <= buf.len() {
                buf@.subrange(0, n as int)
            } else {
                buf@
            },
        },
{
    match res {
        None => Err(PrinterError::Timeout),
        Some(Err(e)) => Err(e),
        Some(Ok(n)) => {
            let mut buf = buf;
            buf.truncate(n);
            Ok(buf)
        },
    }
}

/// What comes before the next send of a retried job.
#[derive(Debug, Clone, Copy, PartialEq, Eq, Structural)]
pub enum RetryGate {
    /// The job was cancelled: it ends with `JobCancelled`.
    Cancelled,
    /// The link is down: reconnect, then send.
    Reconnect,
    /// Send.
    Send,
}

/// A cancelled job ends; a job whose link is down reconnects before it is
/// sent again.
pub open spec fn retry_gate_spec(cancelled: bool, connected: bool) -> RetryGate {
    if cancelled {
        RetryGate::Cancelled
    } else if !connected {
        RetryGate::Reconnect
    } else {
        RetryGate::Send
    }
}

/// Decides what comes before a send, given whether the job was cancelled and
/// whether the link is up.
pub fn retry_gate(cancelled: bool, connected: bool) -> (g: RetryGate)
    ensures
        g == retry_gate_spec(cancelled, connected),
{
    if cancelled {
        RetryGate::Cancelled
    } else if !connected {
        RetryGate::Reconnect
    } else {
        RetryGate::Send
    }
}

/// How an awaited job ended from the caller's side.
pub enum DispatchOutcome {
    /// The job could not be handed to the worker.
    NotSent,
    /// The worker dropped the job without answering.
    Dropped,
    /// The worker answered with this result.
    Answered(Result<usize>),
}

/// Closes an awaited job of `len` reserved bytes: the bytes of a job the
/// worker never handled are given back (the worker gives back the others);
/// a failure is reported by its message.
pub fn settle_dispatch(budget: &mut QueueBudget, len: usize, outcome: DispatchOutcome) -> (r: std::result::Result<usize, String>)
    ensures
        final(budget).max() == old(budget).max(),
        match outcome {
            DispatchOutcome::NotSent => r matches Err(m) && m@ == "Background worker not running"@
                && final(budget).used() == saturating_diff(old(budget).used(), len as nat),
            DispatchOutcome::Dropped => r matches Err(m) && m@ == "Background worker dropped"@
                && final(budget).used() == saturating_diff(old(budget).used(), len as nat),
            DispatchOutcome::Answered(Ok(n)) => r == Ok::<usize, String>(n) && final(budget).used()
                == old(budget).used(),
            DispatchOutcome::Answered(Err(e)) => final(budget).used() == old(budget).used() && (r matches Err(m)
                && (e.spec_message() matches Some(t) ==> m@ == t)),
        },
{
    match outcome {
        DispatchOutcome::NotSent => {
            budget.release(len);
            Err(String::from_str("Background worker not running"))
        },
        DispatchOutcome::Dropped => {
            budget.release(len);
            Err(String::from_str("Background worker dropped"))
        },
        DispatchOutcome::Answered(Ok(n)) => Ok(n),
        DispatchOutcome::Answered(Err(e)) => Err(e.message()),
    }
}

/// Each retry waits twice as long as the one before.
pub proof fn law_backoff_doubles(base_ms: nat, attempt: nat)
    requires
        attempt >= 1,
    ensures
        base_ms * pow2(attempt) == 2 * (base_ms * pow2((attempt - 1) as nat)),
{
    vstd::arithmetic::power2::lemma_pow2_unfold(attempt);
    assert(base_ms * pow2(attempt) == 2 * (base_ms * pow2((attempt - 1) as nat))) by (nonlinear_arith)
        requires pow2(attempt) == 2 * pow2((attempt - 1) as nat);
}

/// The retry policy, case by case: a send that went through is reported with
/// its count; a lost buffer ends the job with its error; a failed send whose
/// buffer came back is retried, whatever the error, while retries remain
/// (`sends_done <= max_retries`), with that same buffer, as retry number
/// `sends_done`, after `500 * 2^(sends_done - 1)` ms; once none remain, its
/// error ends the job.
pub proof fn law_retry_policy(sends_done: u8, max_retries: u8, outcome: WriteOutcome, step: SendStep)
    requires
        send_step_spec(sends_done, max_retries, outcome, step),
    ensures
        outcome matches Ok(n) ==> (step matches SendStep::Finished(Ok(m)) && m == n),
        outcome matches Err((None, e)) ==> (step matches SendStep::Finished(Err(f)) && f == e),
        outcome matches Err((Some(buf), e)) ==> (sends_done <= max_retries ==> (step matches SendStep::Retry {
            data,
            attempt,
            backoff_ms,
        } && data == buf && attempt == sends_done && backoff_ms == 500 * pow2((sends_done - 1) as nat))),
        outcome matches Err((Some(buf), e)) ==> (sends_done > max_retries ==> (step matches SendStep::Finished(
            Err(f),
        ) && f == e)),
{
}

/// A job is sent at most `max_retries + 1` times: a retry is only decided
/// after a send numbered at most `max_retries`, and it is numbered after it.
pub proof fn law_retries_bounded(sends_done: u8, max_retries: u8, outcome: WriteOutcome, step: SendStep)
    requires
        send_step_spec(sends_done, max_retries, outcome, step),
        step is Retry,
    ensures
        sends_done <= max_retries,
        step->attempt == sends_done,
        outcome matches Err((Some(buf), _)) && step->data == buf,
{
}

/// The writes of a plan tile the buffer: the first starts at 0, each starts
/// where the previous ended, the last ends at the end of the buffer, and no
/// write is longer than a chunk unless the whole buffer fits in one.
pub proof fn law_chunks_tile(len: nat, chunk_size: nat, delay: bool, plan: Seq<ChunkWrite>)
    requires
        chunk_size > 0,
        chunk_plan_spec(len, chunk_size, delay, plan),
    ensures
        plan.len() >= 1,
        plan[0].start == 0,
        plan[plan.len() - 1].end == len,
        forall|i: int| 0 <= i < plan.len() - 1 ==> #[trigger] plan[i].end == plan[i + 1].start,
        forall|i: int|
            0 <= i < plan.len() ==> #[trigger] plan[i].start <= plan[i].end && (len > chunk_size
                ==> plan[i].end - plan[i].start <= chunk_size),
{
    if len > chunk_size {
        let n = plan.len() as int;
        assert(n == (len + chunk_size - 1) / (chunk_size as int));
        assert(n >= 1) by (nonlinear_arith)
            requires chunk_size > 0, len > chunk_size, n == (len + chunk_size - 1) / (chunk_size as int);
        assert forall|i: int| 0 <= i < plan.len() - 1 implies #[trigger] plan[i].end == plan[i + 1].start by {
            lemma_chunk_start(len as int, chunk_size as int, n, i);
            assert((i + 1) * chunk_size == i * chunk_size + chunk_size) by (nonlinear_arith);
        }
        lemma_chunk_start(len as int, chunk_size as int, n, n - 1);
        assert forall|i: int|
            0 <= i < plan.len() implies #[trigger] plan[i].start <= plan[i].end && (len > chunk_size
                ==> plan[i].end - plan[i].start <= chunk_size) by {
            lemma_chunk_start(len as int, chunk_size as int, n, i);
            assert((i + 1) * chunk_size == i * chunk_size + chunk_size) by (nonlinear_arith);
        }
    } else {
        assert((0int + 1) * (chunk_size as int) == chunk_size as int);
    }
    assert(plan[0].start == 0 * chunk_size);
    assert(0 * chunk_size == 0);
}


/// A cancelled job never goes on, whatever the link; a job that goes on
/// reconnects first exactly when the link is down.
pub proof fn law_retry_gate(cancelled: bool, connected: bool)
    ensures
        cancelled ==> retry_gate_spec(cancelled, connected) == RetryGate::Cancelled,
        !cancelled ==> (retry_gate_spec(cancelled, connected) == RetryGate::Reconnect <==> !connected),
        !cancelled ==> retry_gate_spec(cancelled, connected) != RetryGate::Cancelled,
{
}

/// The pause between chunks: it follows a chunk exactly when the transport
/// asks for a delay, the buffer needs more than one chunk, and another chunk
/// follows; so never after the last.
pub proof fn law_chunk_pauses(len: nat, chunk_size: nat, delay: bool, plan: Seq<ChunkWrite>)
    requires
        chunk_size > 0,
        chunk_plan_spec(len, chunk_size, delay, plan),
    ensures
        forall|i: int|
            0 <= i < plan.len() ==> (#[trigger] plan[i].pause_after <==> (delay && len > chunk_size && i + 1
                < plan.len())),
        plan.len() > 0 ==> !plan[plan.len() - 1].pause_after,
        !delay ==> forall|i: int| 0 <= i < plan.len() ==> !#[trigger] plan[i].pause_after,
{
    assert(plan.len() >= 1) by {
        law_chunks_tile(len, chunk_size, delay, plan);
    }
}

} // verus!
