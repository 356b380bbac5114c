use thermal_printer_rs::errors::PrinterError;
use thermal_printer_rs::jobs::{
    drain_budget, finish_print, plan_command, queued_bytes, state_after_connect, PrintCommand,
    WorkerAction, WorkerState,
};
use thermal_printer_rs::session::QueueBudget;

#[test]
fn plans_for_commands() {
    let s = plan_command(&PrintCommand::Print(vec![1]));
    assert_eq!(s.before, Some(WorkerState::Printing));
    assert_eq!(s.action, WorkerAction::SendJob);
    let s = plan_command(&PrintCommand::Connect);
    assert_eq!(s.before, Some(WorkerState::Connecting));
    assert_eq!(s.action, WorkerAction::Connect);
    let s = plan_command(&PrintCommand::Disconnect);
    assert_eq!(s.before, None);
    assert_eq!(s.action, WorkerAction::Disconnect);
    assert_eq!(s.after, Some(WorkerState::Disconnected));
    let s = plan_command(&PrintCommand::ClearQueue);
    assert_eq!(s.action, WorkerAction::ClearQueue);
    assert_eq!(s.after, Some(WorkerState::Connected));
    let s = plan_command(&PrintCommand::PrintAwait {
        buf: vec![1, 2],
        resp: tokio::sync::oneshot::channel().0,
    });
    assert_eq!(s.before, Some(WorkerState::Printing));
    assert_eq!(s.after, None);
}

#[test]
fn finishing_a_print_releases_and_reports() {
    let mut b = QueueBudget::new(10);
    b.try_reserve(10).unwrap();
    assert_eq!(finish_print(&mut b, 4, &Ok(4)), WorkerState::Connected);
    assert!(b.try_reserve(4).is_ok());
    assert_eq!(
        finish_print(&mut b, 4, &Err(PrinterError::JobCancelled)),
        WorkerState::Connected
    );
    assert_eq!(
        finish_print(&mut b, 4, &Err(PrinterError::Timeout)),
        WorkerState::Error
    );
}

#[test]
fn connect_outcome_state() {
    assert_eq!(state_after_connect(&Ok(())), WorkerState::Connected);
    assert_eq!(
        state_after_connect(&Err(PrinterError::Timeout)),
        WorkerState::Error
    );
}

#[test]
fn draining_clears_the_budget() {
    let mut b = QueueBudget::new(100);
    b.try_reserve(60).unwrap();
    let pending = vec![
        PrintCommand::Print(vec![0; 10]),
        PrintCommand::Connect,
        PrintCommand::Print(vec![0; 5]),
    ];
    assert_eq!(queued_bytes(&pending[0]), 10);
    assert_eq!(queued_bytes(&pending[1]), 0);
    drain_budget(&mut b, &pending);
    assert!(b.try_reserve(100).is_ok());
}
