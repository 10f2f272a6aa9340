use block_validator::block::{Batch, Block, Transaction};
use block_validator::error::{ServiceError, ValidationError};
use block_validator::execution::{judge_execution, BatchesInBlockValidation};
use block_validator::result::{
    BlockStatus, BlockValidationResult, ExecutionResults, TxnExecutionResult,
};
use block_validator::service::{ExecutionPlatform, Scheduler};
use block_validator::validation::BlockValidation;
use std::sync::{Arc, Mutex};

fn batch(id: &str) -> Batch {
    Batch {
        header_signature: id.into(),
        signer_public_key: "key".into(),
        transactions: vec![Transaction {
            header_signature: format!("{}-t", id),
            dependencies: vec![],
            payload: vec![1, 2],
            header_bytes: vec![3],
        }],
        header_bytes: vec![4, 5],
    }
}

fn block(batches: Vec<Batch>) -> Block {
    Block {
        header_signature: "B1".into(),
        batches,
        state_root_hash: "end".into(),
        consensus: vec![],
        batch_ids: vec![],
        signer_public_key: "key".into(),
        previous_block_id: "B0".into(),
        block_num: 7,
        header_bytes: vec![],
    }
}

fn txn(signature: &str, is_valid: bool) -> TxnExecutionResult {
    TxnExecutionResult {
        signature: signature.into(),
        is_valid,
        receipt: signature.as_bytes().to_vec(),
    }
}

fn good_results() -> ExecutionResults {
    ExecutionResults {
        ending_state_hash: Some("end".into()),
        batch_results: vec![
            ("b1".into(), Some(vec![txn("t1", true), txn("t2", true)])),
            ("b2".into(), Some(vec![txn("t3", true)])),
        ],
    }
}

fn failure(result: Result<BlockValidationResult, ValidationError>) -> String {
    match result {
        Err(ValidationError::BlockValidationFailure(reason)) => reason,
        other => panic!("not a failure: {:?}", other),
    }
}

fn error(result: Result<BlockValidationResult, ValidationError>) -> String {
    match result {
        Err(ValidationError::BlockValidationError(reason)) => reason,
        other => panic!("not an error: {:?}", other),
    }
}

#[test]
fn a_good_execution_is_judged_valid() {
    let valid = judge_execution(&block(vec![batch("b1")]), Some(good_results())).unwrap();
    assert_eq!(valid.block_id, "B1");
    assert_eq!(valid.num_transactions, 3);
    assert_eq!(valid.status, BlockStatus::Valid);
    let signatures: Vec<&str> = valid
        .execution_results
        .iter()
        .map(|r| r.signature.as_str())
        .collect();
    assert_eq!(signatures, vec!["t1", "t2", "t3"]);
    assert_eq!(valid.execution_results[2].receipt, b"t3".to_vec());
}

#[test]
fn no_outcome_is_a_failure() {
    assert_eq!(
        failure(judge_execution(&block(vec![batch("b1")]), None)),
        "Block B1 failed validation: no execution results produced"
    );
}

#[test]
fn no_ending_state_is_a_failure() {
    let mut results = good_results();
    results.ending_state_hash = None;
    assert_eq!(
        failure(judge_execution(&block(vec![batch("b1")]), Some(results))),
        "Block B1 failed validation: no ending state hash was produced"
    );
}

#[test]
fn another_ending_state_is_a_failure() {
    let mut results = good_results();
    results.ending_state_hash = Some("other".into());
    assert_eq!(
        failure(judge_execution(&block(vec![batch("b1")]), Some(results))),
        "Block B1 failed validation: expected state hash end, validation found state hash other"
    );
}

#[test]
fn the_first_defect_is_reported() {
    let mut results = good_results();
    results.batch_results[0].1 = Some(vec![txn("t1", true), txn("t2", false), txn("t9", false)]);
    results.batch_results[1].1 = None;
    assert_eq!(
        failure(judge_execution(&block(vec![batch("b1")]), Some(results))),
        "Block B1 failed validation: batch b1 was invalid due to transaction t2"
    );
    let mut results = good_results();
    results.batch_results[1].1 = None;
    assert_eq!(
        failure(judge_execution(&block(vec![batch("b1")]), Some(results))),
        "Block B1 failed validation: batch b2 did not have transaction results"
    );
}

#[derive(Clone, Copy, PartialEq)]
enum Fault {
    Nowhere,
    Open,
    Add(usize),
    Close,
    Complete,
}

type Log = Arc<Mutex<Vec<String>>>;

struct Platform {
    fault: Fault,
    log: Log,
}

struct Schedule {
    fault: Fault,
    added: usize,
    log: Log,
}

fn fault() -> ServiceError {
    ServiceError {
        detail: "Fault(1)".into(),
    }
}

impl ExecutionPlatform for Platform {
    type Scheduler = Schedule;

    fn null_state_hash(&self) -> String {
        "null".into()
    }

    fn create_scheduler(
        &self,
        state_root: &String,
        previous_block_id: &String,
    ) -> Result<Schedule, ServiceError> {
        self.log
            .lock()
            .unwrap()
            .push(format!("open {} {}", state_root, previous_block_id));
        if self.fault == Fault::Open {
            return Err(fault());
        }
        Ok(Schedule {
            fault: self.fault,
            added: 0,
            log: self.log.clone(),
        })
    }
}

impl Scheduler for Schedule {
    fn add_batch(
        mut self,
        block_num: u64,
        batch: Batch,
        expected_state_hash: Option<&String>,
        required: bool,
    ) -> (Self, Result<(), ServiceError>) {
        self.log.lock().unwrap().push(format!(
            "add {} {} {:?} {} {:?} {:?} {}",
            block_num,
            batch.header_signature,
            batch.header_bytes,
            batch.transactions[0].header_signature,
            batch.transactions[0].header_bytes,
            expected_state_hash,
            required
        ));
        let result = if self.fault == Fault::Add(self.added) {
            Err(fault())
        } else {
            Ok(())
        };
        self.added += 1;
        (self, result)
    }

    fn finalize(self, unschedule_incomplete: bool) -> (Self, Result<(), ServiceError>) {
        self.log
            .lock()
            .unwrap()
            .push(format!("close {}", unschedule_incomplete));
        let result = if self.fault == Fault::Close {
            Err(fault())
        } else {
            Ok(())
        };
        (self, result)
    }

    fn complete(self, block: bool) -> (Self, Result<Option<ExecutionResults>, ServiceError>) {
        self.log.lock().unwrap().push(format!("complete {}", block));
        let result = if self.fault == Fault::Complete {
            Err(fault())
        } else {
            Ok(Some(good_results()))
        };
        (self, result)
    }
}

fn run(
    fault: Fault,
    previous_state_root: Option<&String>,
) -> (Result<BlockValidationResult, ValidationError>, Vec<String>) {
    execute(fault, vec![batch("b1"), batch("b2")], previous_state_root)
}

fn execute(
    fault: Fault,
    batches: Vec<Batch>,
    previous_state_root: Option<&String>,
) -> (Result<BlockValidationResult, ValidationError>, Vec<String>) {
    let log: Log = Arc::new(Mutex::new(vec![]));
    let validation = BatchesInBlockValidation::new(Platform {
        fault,
        log: log.clone(),
    });
    let result = validation.validate_block(&block(batches), previous_state_root);
    let calls = log.lock().unwrap().clone();
    (result, calls)
}

#[test]
fn batches_are_scheduled_in_order() {
    let root = "start".to_string();
    let (result, calls) = run(Fault::Nowhere, Some(&root));
    assert_eq!(result.unwrap().num_transactions, 3);
    assert_eq!(
        calls,
        vec![
            "open start B0",
            "add 7 b1 [4, 5] b1-t [3] None false",
            "add 7 b2 [4, 5] b2-t [3] Some(\"end\") false",
            "close false",
            "complete true",
        ]
    );
}

#[test]
fn without_a_predecessor_execution_starts_from_nothing() {
    let (result, calls) = run(Fault::Nowhere, None);
    assert!(result.is_ok());
    assert_eq!(calls[0], "open null B0");
}

#[test]
fn a_schedule_that_cannot_be_opened_is_an_error() {
    let (result, calls) = run(Fault::Open, None);
    assert_eq!(
        error(result),
        "Error during validation of block B1 batches: Fault(1)"
    );
    assert_eq!(calls.len(), 1);
}

#[test]
fn a_batch_that_cannot_be_added_is_an_error() {
    let (result, calls) = run(Fault::Add(0), None);
    assert_eq!(
        error(result),
        "While adding a batch to the schedule: Fault(1)"
    );
    assert_eq!(calls.len(), 2);
    let (result, calls) = run(Fault::Add(1), None);
    assert_eq!(
        error(result),
        "While adding the last batch to the schedule: Fault(1)"
    );
    assert_eq!(calls.len(), 3);
}

#[test]
fn a_schedule_that_cannot_be_closed_or_completed_is_an_error() {
    let (result, calls) = run(Fault::Close, None);
    assert_eq!(error(result), "During call to scheduler.finalize: Fault(1)");
    assert_eq!(calls.len(), 4);
    let (result, calls) = run(Fault::Complete, None);
    assert_eq!(error(result), "During call to scheduler.complete: Fault(1)");
    assert_eq!(calls.len(), 5);
}

#[test]
fn an_empty_block_adds_nothing_to_its_schedule() {
    let (result, calls) = execute(Fault::Open, vec![], None);
    assert_eq!(
        error(result),
        "Error during validation of block B1 batches: Fault(1)"
    );
    assert_eq!(calls, vec!["open null B0"]);
    let (result, calls) = execute(Fault::Nowhere, vec![], None);
    assert!(result.is_ok());
    assert_eq!(calls, vec!["open null B0", "close false", "complete true"]);
}
