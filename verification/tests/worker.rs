use block_validator::error::ValidationError;
use block_validator::result::{BlockStatus, BlockValidationResult};
use block_validator::worker::{worker_step, WorkerAction, WorkerEvent, WorkerState};

fn validating() -> WorkerState {
    WorkerState::Validating("B1".into())
}

#[test]
fn a_worker_waits_until_it_is_told_to_stop() {
    let step = worker_step(WorkerState::Receiving, WorkerEvent::TimedOut, false);
    assert!(matches!(step.state, WorkerState::Receiving));
    assert!(matches!(step.action, WorkerAction::Receive));
    assert!(!step.raise_exit);
    let step = worker_step(WorkerState::Receiving, WorkerEvent::TimedOut, true);
    assert!(matches!(step.state, WorkerState::Stopped));
    assert!(matches!(step.action, WorkerAction::Stop));
}

#[test]
fn a_worker_stops_without_a_queue() {
    let step = worker_step(WorkerState::Receiving, WorkerEvent::Disconnected, false);
    assert!(matches!(step.action, WorkerAction::Stop));
    assert!(!step.raise_exit);
}

#[test]
fn a_block_that_comes_is_validated() {
    let step = worker_step(WorkerState::Receiving, WorkerEvent::Received("B1".into()), false);
    assert!(matches!(step.action, WorkerAction::Validate));
    match step.state {
        WorkerState::Validating(id) => assert_eq!(id, "B1"),
        other => panic!("not validating: {:?}", other),
    }
    let step = worker_step(WorkerState::Receiving, WorkerEvent::Received("B1".into()), true);
    assert!(matches!(step.action, WorkerAction::Stop));
}

#[test]
fn a_valid_result_is_reported() {
    let result = BlockValidationResult::new("B1".into(), vec![], 4, BlockStatus::Valid);
    let step = worker_step(validating(), WorkerEvent::Validated(Ok(result)), true);
    assert!(matches!(step.state, WorkerState::Replying));
    match step.action {
        WorkerAction::Report(result) => {
            assert_eq!(result.block_id, "B1");
            assert_eq!(result.num_transactions, 4);
            assert_eq!(result.status, BlockStatus::Valid);
        }
        other => panic!("not reported: {:?}", other),
    }
}

#[test]
fn a_failure_is_reported_as_invalid() {
    let verdict = Err(ValidationError::BlockValidationFailure("reason".into()));
    let step = worker_step(validating(), WorkerEvent::Validated(verdict), false);
    match step.action {
        WorkerAction::Report(result) => {
            assert_eq!(result.block_id, "B1");
            assert_eq!(result.num_transactions, 0);
            assert!(result.execution_results.is_empty());
            assert_eq!(result.status, BlockStatus::Invalid);
        }
        other => panic!("not reported: {:?}", other),
    }
}

#[test]
fn any_other_error_is_tried_again() {
    for error in [
        ValidationError::BlockValidationError("reason".into()),
        ValidationError::BlockStoreUpdated,
    ] {
        let step = worker_step(validating(), WorkerEvent::Validated(Err(error)), false);
        assert!(matches!(step.state, WorkerState::Replying));
        assert!(matches!(step.action, WorkerAction::Retry));
    }
}

#[test]
fn workers_stop_when_nobody_takes_what_they_send() {
    let step = worker_step(WorkerState::Replying, WorkerEvent::Delivered, false);
    assert!(matches!(step.action, WorkerAction::Receive));
    assert!(!step.raise_exit);
    let step = worker_step(WorkerState::Replying, WorkerEvent::Undeliverable, false);
    assert!(matches!(step.state, WorkerState::Receiving));
    assert!(step.raise_exit);
    let step = worker_step(step.state, WorkerEvent::Received("B2".into()), step.raise_exit);
    assert!(matches!(step.state, WorkerState::Stopped));
}

#[test]
fn each_block_gets_one_reply_in_order() {
    let valid = BlockValidationResult::new("B1".into(), vec![], 0, BlockStatus::Valid);
    let failed = ValidationError::BlockValidationFailure("reason".into());
    let events = vec![
        WorkerEvent::TimedOut,
        WorkerEvent::Received("B1".into()),
        WorkerEvent::Validated(Ok(valid)),
        WorkerEvent::Delivered,
        WorkerEvent::Received("B2".into()),
        WorkerEvent::Validated(Err(ValidationError::BlockStoreUpdated)),
        WorkerEvent::Delivered,
        WorkerEvent::Received("B3".into()),
        WorkerEvent::Validated(Err(failed)),
        WorkerEvent::Undeliverable,
        WorkerEvent::Received("B4".into()),
    ];
    let mut state = WorkerState::Receiving;
    let mut exit = false;
    let mut at_hand = String::new();
    let mut sent = vec![];
    let mut taken = 0;
    for event in events {
        let step = worker_step(state, event, exit);
        exit = exit || step.raise_exit;
        state = step.state;
        if let WorkerState::Validating(block_id) = &state {
            assert_eq!(sent.len(), taken);
            taken += 1;
            at_hand = block_id.clone();
        }
        match step.action {
            WorkerAction::Report(result) => {
                sent.push(format!("{} {:?}", result.block_id, result.status))
            }
            WorkerAction::Retry => sent.push(format!("{} again", at_hand)),
            _ => (),
        }
    }
    assert_eq!(sent, vec!["B1 Valid", "B2 again", "B3 Invalid"]);
    assert!(matches!(state, WorkerState::Stopped));
}
