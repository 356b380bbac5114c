//! Commands of the background print worker and the decisions it takes.

use vstd::prelude::*;
use crate::errors::{PrinterError, Result};
use crate::session::{saturating_diff, QueueBudget};

verus! {

#[verifier::external_type_specification]
#[verifier::external_body]
#[verifier::reject_recursive_types(T)]
pub struct ExOneshotSender<T>(tokio::sync::oneshot::Sender<T>);

/// Commands supported by the background worker.
pub enum PrintCommand {
    /// Fire-and-forget print job.
    Print(Vec<u8>),
    /// Print job that reports completion to the caller.
    PrintAwait { buf: Vec<u8>, resp: tokio::sync::oneshot::Sender<Result<usize>> },
    Connect,
    Disconnect,
    ClearQueue,
}

/// State of the printer as the worker reports it.
#[derive(Debug, Clone, Copy, PartialEq, Eq, Structural)]
pub enum WorkerState {
    Disconnected,
    Connecting,
    Connected,
    Printing,
    Error,
}

/// What the worker does for a command.
#[derive(Debug, Clone, Copy, PartialEq, Eq, Structural)]
pub enum WorkerAction {
    /// Send the job's bytes (with retries) and report the outcome.
    SendJob,
    /// Connect the transport.
    Connect,
    /// Disconnect the transport.
    Disconnect,
    /// Cancel the job in flight and drop every queued job.
    ClearQueue,
}

/// The worker's plan for one command: the state it publishes before acting,
/// if any, the action, and the state it publishes once the action is done
/// when that does not depend on the action's outcome.
#[derive(Debug, Clone, Copy, PartialEq, Eq, Structural)]
pub struct WorkerStep {
    pub before: Option<WorkerState>,
    pub action: WorkerAction,
    pub after: Option<WorkerState>,
}

/// The plan for each kind of command.
pub open spec fn step_for(cmd: PrintCommand) -> WorkerStep {
    match cmd {
        PrintCommand::Print(_) => WorkerStep {
            before: Some(WorkerState::Printing),
            action: WorkerAction::SendJob,
            after: None,
        },
        PrintCommand::PrintAwait { .. } => WorkerStep {
            before: Some(WorkerState::Printing),
            action: WorkerAction::SendJob,
            after: None,
        },
        PrintCommand::Connect => WorkerStep {
            before: Some(WorkerState::Connecting),
            action: WorkerAction::Connect,
            after: None,
        },
        PrintCommand::Disconnect => WorkerStep {
            before: None,
            action: WorkerAction::Disconnect,
            after: Some(WorkerState::Disconnected),
        },
        PrintCommand::ClearQueue => WorkerStep {
            before: None,
            action: WorkerAction::ClearQueue,
            after: Some(WorkerState::Connected),
        },
    }
}

/// Decides what the worker does for `cmd`.
pub fn plan_command(cmd: &PrintCommand) -> (s: WorkerStep)
    ensures
        s == step_for(*cmd),
{
    match cmd {
        PrintCommand::Print(_) => WorkerStep {
            before: Some(WorkerState::Printing),
            action: WorkerAction::SendJob,
            after: None,
        },
        PrintCommand::PrintAwait { .. } => WorkerStep {
            before: Some(WorkerState::Printing),
            action: WorkerAction::SendJob,
            after: None,
        },
        PrintCommand::Connect => WorkerStep {
            before: Some(WorkerState::Connecting),
            action: WorkerAction::Connect,
            after: None,
        },
        PrintCommand::Disconnect => WorkerStep {
            before: None,
            action: WorkerAction::Disconnect,
            after: Some(WorkerState::Disconnected),
        },
        PrintCommand::ClearQueue => WorkerStep {
            before: None,
            action: WorkerAction::ClearQueue,
            after: Some(WorkerState::Connected),
        },
    }
}

/// The state after a print job: a sent or a cancelled job leaves the printer
/// connected, any other failure puts it in error.
pub open spec fn state_after_print_spec(result: Result<usize>) -> WorkerState {
    match result {
        Ok(_) => WorkerState::Connected,
        Err(PrinterError::JobCancelled) => WorkerState::Connected,
        Err(_) => WorkerState::Error,
    }
}

/// The state after a connection attempt.
pub open spec fn state_after_connect_spec(result: Result<()>) -> WorkerState {
    match result {
        Ok(_) => WorkerState::Connected,
        Err(_) => WorkerState::Error,
    }
}

/// Closes a print job: gives its bytes back to the queue budget and returns
/// the state to publish.
pub fn finish_print(budget: &mut QueueBudget, len: usize, result: &Result<usize>) -> (s: WorkerState)
    ensures
        final(budget).max() == old(budget).max(),
        final(budget).used() == saturating_diff(old(budget).used(), len as nat),
        s == state_after_print_spec(*result),
{
    budget.release(len);
    match result {
        Ok(_) => WorkerState::Connected,
        Err(PrinterError::JobCancelled) => WorkerState::Connected,
        Err(_) => WorkerState::Error,
    }
}

/// The state to publish after a connection attempt.
pub fn state_after_connect(result: &Result<()>) -> (s: WorkerState)
    ensures
        s == state_after_connect_spec(*result),
{
    match result {
        Ok(_) => WorkerState::Connected,
        Err(_) => WorkerState::Error,
    }
}

/// The bytes a queued command holds against the budget: a print job's
/// payload, nothing for the others.
pub fn queued_bytes(cmd: &PrintCommand) -> (n: usize)
    ensures
        n == match *cmd {
            PrintCommand::Print(buf) => buf.len(),
            PrintCommand::PrintAwait { buf, .. } => buf.len(),
            _ => 0,
        },
{
    match cmd {
        PrintCommand::Print(buf) => buf.len(),
        PrintCommand::PrintAwait { buf, .. } => buf.len(),
        _ => 0,
    }
}

/// Drops the queued commands of a cleared queue: every job's bytes are given
/// back, then the budget is reset, so nothing stays accounted.
pub fn drain_budget(budget: &mut QueueBudget, pending: &Vec<PrintCommand>)
    ensures
        final(budget).max() == old(budget).max(),
        final(budget).used() == 0,
{
    for i in 0..pending.len()
        invariant
            budget.max() == old(budget).max(),
    {
        let n = queued_bytes(&pending[i]);
        budget.release(n);
    }
    budget.reset();
}

/// After a print job the printer is published as connected exactly when the
/// job was sent or cancelled; every other failure publishes an error.
pub proof fn law_print_state(result: Result<usize>)
    ensures
        state_after_print_spec(result) == WorkerState::Connected <==> (result is Ok || result matches Err(
            PrinterError::JobCancelled,
        )),
        state_after_print_spec(result) == WorkerState::Connected || state_after_print_spec(result)
            == WorkerState::Error,
{
}

/// A connection attempt publishes a connected printer exactly when it
/// succeeded; every failed attempt publishes an error.
pub proof fn law_connect_state(result: Result<()>)
    ensures
        state_after_connect_spec(result) == WorkerState::Connected <==> result is Ok,
        result is Err ==> state_after_connect_spec(result) == WorkerState::Error,
{
}


/// What the worker publishes around each command: a print job publishes
/// `Printing` before it is sent and its outcome after; a connection publishes
/// `Connecting`, then its outcome; a disconnection publishes `Disconnected`
/// after it; clearing the queue publishes `Connected` after it.
pub proof fn law_worker_publishes(cmd: PrintCommand)
    ensures
        (cmd is Print || cmd is PrintAwait) ==> step_for(cmd).before == Some(WorkerState::Printing)
            && step_for(cmd).action == WorkerAction::SendJob && step_for(cmd).after is None,
        cmd is Connect ==> step_for(cmd).before == Some(WorkerState::Connecting) && step_for(cmd).action
            == WorkerAction::Connect && step_for(cmd).after is None,
        cmd is Disconnect ==> step_for(cmd).before is None && step_for(cmd).action == WorkerAction::Disconnect
            && step_for(cmd).after == Some(WorkerState::Disconnected),
        cmd is ClearQueue ==> step_for(cmd).before is None && step_for(cmd).action == WorkerAction::ClearQueue
            && step_for(cmd).after == Some(WorkerState::Connected),
{
}

} // verus!
