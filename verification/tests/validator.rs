use block_validator::block::{Batch, Block, Transaction};
use block_validator::error::{ChainCommitStateError, ServiceError, ValidationError};
use block_validator::result::{
    BlockStatus, BlockValidationResult, ExecutionResults, TxnExecutionResult,
};
use block_validator::service::{
    BlockManager, BlockScheduler, ExecutionPlatform, PermissionVerifier, ResultSender, Scheduler,
    SettingsView, StateViewFactory, WorkerQueues,
};
use block_validator::store::{BlockStatusStore, BlockValidationResultStore};
use block_validator::validator::BlockValidator;
use std::cell::RefCell;
use std::rc::Rc;
use std::sync::Arc;

fn block(id: &str, previous: &str) -> Block {
    Block {
        header_signature: id.into(),
        batches: vec![
            Batch {
                header_signature: format!("{}-b1", id),
                signer_public_key: "key".into(),
                transactions: vec![],
                header_bytes: vec![],
            },
            Batch {
                header_signature: format!("{}-b2", id),
                signer_public_key: "key".into(),
                transactions: vec![Transaction {
                    header_signature: format!("{}-t", id),
                    dependencies: vec![],
                    payload: b"payload".to_vec(),
                    header_bytes: vec![],
                }],
                header_bytes: vec![],
            },
        ],
        state_root_hash: format!("{}-state", id),
        consensus: vec![],
        batch_ids: vec![],
        signer_public_key: "key".into(),
        previous_block_id: previous.into(),
        block_num: 1,
        header_bytes: vec![],
    }
}

#[derive(Clone)]
struct Tree {
    blocks: Vec<Block>,
    changed: bool,
}

impl BlockManager for Tree {
    fn get(&self, block_ids: &[&String]) -> Vec<Option<Block>> {
        block_ids
            .iter()
            .map(|id| self.blocks.iter().find(|b| b.header_signature == **id).cloned())
            .collect()
    }

    fn validate_no_duplicate_batches(
        &self,
        _branch_head_id: &String,
        _batch_ids: &[&String],
    ) -> Result<(), ChainCommitStateError> {
        if self.changed {
            Err(ChainCommitStateError::BlockStoreUpdated)
        } else {
            Ok(())
        }
    }

    fn validate_no_duplicate_transactions(
        &self,
        _branch_head_id: &String,
        _transaction_ids: &[&String],
    ) -> Result<(), ChainCommitStateError> {
        Ok(())
    }

    fn validate_transaction_dependencies(
        &self,
        _branch_head_id: &String,
        _transactions: &Vec<Transaction>,
    ) -> Result<(), ChainCommitStateError> {
        Ok(())
    }
}

#[derive(Clone)]
struct Services;

impl PermissionVerifier for Services {
    fn is_batch_signer_authorized(&self, _batch: &Batch, state_root: &String) -> bool {
        state_root == "B0-state"
    }
}

impl StateViewFactory for Services {
    type View = Services;

    fn create_view(&self, _state_root: &String) -> Result<Services, ServiceError> {
        Ok(Services)
    }
}

impl SettingsView for Services {
    fn enforce_validation_rules(&self, _signer: &String, _batches: &Vec<Batch>) -> bool {
        true
    }
}

impl ExecutionPlatform for Services {
    type Scheduler = Schedule;

    fn null_state_hash(&self) -> String {
        "".into()
    }

    fn create_scheduler(
        &self,
        _state_root: &String,
        _previous_block_id: &String,
    ) -> Result<Schedule, ServiceError> {
        Ok(Schedule {
            ending_state_hash: None,
            batches: vec![],
        })
    }
}

/// A schedule in which all transactions are applied.
struct Schedule {
    ending_state_hash: Option<String>,
    batches: Vec<Batch>,
}

impl Scheduler for Schedule {
    fn add_batch(
        mut self,
        _block_num: u64,
        batch: Batch,
        expected_state_hash: Option<&String>,
        _required: bool,
    ) -> (Self, Result<(), ServiceError>) {
        self.batches.push(batch);
        self.ending_state_hash = expected_state_hash.cloned();
        (self, Ok(()))
    }

    fn finalize(self, _unschedule_incomplete: bool) -> (Self, Result<(), ServiceError>) {
        (self, Ok(()))
    }

    fn complete(self, _block: bool) -> (Self, Result<Option<ExecutionResults>, ServiceError>) {
        let batch_results = self
            .batches
            .iter()
            .map(|batch| {
                let results = batch
                    .transactions
                    .iter()
                    .map(|txn| TxnExecutionResult {
                        signature: txn.header_signature.clone(),
                        is_valid: true,
                        receipt: txn.payload.clone(),
                    })
                    .collect();
                (batch.header_signature.clone(), Some(results))
            })
            .collect();
        let results = ExecutionResults {
            ending_state_hash: self.ending_state_hash.clone(),
            batch_results,
        };
        (self, Ok(Some(results)))
    }
}

type Log = Rc<RefCell<Vec<String>>>;

/// A scheduler that gives back all blocks at once, and the same two for every block.
struct Order {
    log: Log,
}

impl BlockScheduler for Order {
    type ResultsSender = u8;

    fn set_results_sender(self, sender: u8) -> Self {
        self.log.borrow_mut().push(format!("sender {}", sender));
        self
    }

    fn insert_into_processing(self, block_id: String) -> Self {
        self.log.borrow_mut().push(format!("processing {}", block_id));
        self
    }

    fn contains(&self, block_id: &str) -> bool {
        block_id == "B7"
    }

    fn schedule(self, blocks: Vec<Block>) -> (Self, Vec<Block>) {
        let ids: Vec<&String> = blocks.iter().map(|b| &b.header_signature).collect();
        self.log.borrow_mut().push(format!("schedule {:?}", ids));
        (self, blocks)
    }

    fn done(self, block_id: &String, mark_descendants_invalid: bool) -> (Self, Vec<Block>) {
        self.log
            .borrow_mut()
            .push(format!("done {} {}", block_id, mark_descendants_invalid));
        (self, vec![block("C1", block_id), block("C2", block_id)])
    }
}

struct Queues {
    delivers: bool,
    log: Log,
}

impl WorkerQueues for Queues {
    type ResponseSender = Responses;

    fn send(self, worker: usize, block: Block, _response_sender: &Responses) -> (Self, bool) {
        self.log
            .borrow_mut()
            .push(format!("queue {} {}", worker, block.header_signature));
        let delivered = self.delivers;
        (self, delivered)
    }
}

struct Responses {
    delivers: bool,
    sent: usize,
    log: Log,
}

impl ResultSender for Responses {
    fn send(mut self, result: BlockValidationResult) -> (Self, bool) {
        self.log.borrow_mut().push(format!(
            "report {} {:?} {}",
            result.block_id, result.status, result.num_transactions
        ));
        self.sent += 1;
        let delivered = self.delivers;
        (self, delivered)
    }
}

type Validator = BlockValidator<Tree, Services, Services, Services, Order, Queues>;

fn validator_with(payload: &[u8], changed: bool, delivers: bool) -> (Validator, Responses, Log) {
    let log: Log = Rc::new(RefCell::new(vec![]));
    let injector_payload = {
        let gil = cpython::Python::acquire_gil();
        cpython::PyBytes::new(gil.python(), payload)
    };
    let validator = BlockValidator::new(
        Tree {
            blocks: vec![block("B0", "")],
            changed,
        },
        Services,
        Services,
        Services,
        Arc::new(injector_payload),
        Order { log: log.clone() },
        Queues {
            delivers,
            log: log.clone(),
        },
    );
    let responses = Responses {
        delivers,
        sent: 0,
        log: log.clone(),
    };
    (validator, responses, log)
}

fn validator(delivers: bool) -> (Validator, Responses, Log) {
    validator_with(b"house", false, delivers)
}

#[test]
fn a_valid_block_is_known_afterwards() {
    let (validator, _, _) = validator(true);
    let store = BlockValidationResultStore::new();
    let (mut store, result) = validator.validate_block(&block("B1", "B0"), store);
    assert_eq!(result, Ok(()));
    let result = store.get("B1").unwrap();
    assert_eq!(result.block_id, "B1");
    assert_eq!(result.status, BlockStatus::Valid);
    assert_eq!(result.num_transactions, 1);
    assert_eq!(result.execution_results.len(), 1);
    assert_eq!(result.execution_results[0].signature, "B1-t");
    assert!(result.execution_results[0].is_valid);
    assert_eq!(result.execution_results[0].receipt, b"payload".to_vec());
}

#[test]
fn a_block_that_is_not_valid_is_not_stored() {
    let (validator, _, _) = validator_with(b"payload", false, true);
    let store = BlockValidationResultStore::new();
    let (mut store, result) = validator.validate_block(&block("B1", "B0"), store);
    assert_eq!(
        result,
        Err(ValidationError::BlockValidationFailure(
            "Block invalid B1 due to unneeded housekeeping.".into()
        ))
    );
    assert_eq!(store.status("B1"), BlockStatus::Unknown);
}

#[test]
fn a_failed_validation_leaves_the_earlier_result() {
    let (validator, _, _) = validator_with(b"payload", false, true);
    let mut store = BlockValidationResultStore::new();
    store.insert(BlockValidationResult::new("B1".into(), vec![], 9, BlockStatus::Valid));
    let (mut store, result) = validator.validate_block(&block("B1", "B0"), store);
    assert!(result.is_err());
    assert_eq!(store.get("B1").unwrap().num_transactions, 9);
}

#[test]
fn an_unknown_predecessor_leaves_a_block_undecided() {
    let (validator, _, _) = validator(true);
    let store = BlockValidationResultStore::new();
    assert_eq!(
        validator.validate_block(&block("B2", "B1"), store).1,
        Err(ValidationError::BlockValidationError(
            "During check of on-chain rules for block B2, block num was 1, \
             but missing a previous state root"
                .into()
        ))
    );
}

#[test]
fn an_empty_block_is_validated_like_any_other() {
    let (validator, _, _) = validator(true);
    let store = BlockValidationResultStore::new();
    let mut empty = block("B2", "B1");
    empty.batches = vec![];
    let (store, result) = validator.validate_block(&empty, store);
    assert!(matches!(result, Err(ValidationError::BlockValidationError(_))));
    empty.previous_block_id = "B0".into();
    assert_eq!(
        validator.validate_block(&empty, store).1,
        Err(ValidationError::BlockValidationFailure(
            "Block B2 failed validation: no ending state hash was produced".into()
        ))
    );
}

#[test]
fn a_change_of_the_chain_comes_first() {
    let (validator, _, _) = validator_with(b"payload", true, true);
    let store = BlockValidationResultStore::new();
    assert_eq!(
        validator.validate_block(&block("B2", "B1"), store).1,
        Err(ValidationError::BlockStoreUpdated)
    );
}

#[test]
fn copied_services_validate_alike() {
    let (validator, _, _) = validator_with(b"payload", false, true);
    let services = validator.services.clone();
    let (_, result) = services.validate_block(&block("B1", "B0"), BlockValidationResultStore::new());
    assert_eq!(
        result,
        Err(ValidationError::BlockValidationFailure(
            "Block invalid B1 due to unneeded housekeeping.".into()
        ))
    );
    let processor = services.block_validations();
    assert!(processor.validate_block(&block("B1", "B0")).is_err());
}

#[test]
fn blocks_are_handed_to_the_workers() {
    let (validator, responses, log) = validator(true);
    assert_eq!(validator.workers, 1);
    let blocks = [block("B1", "B0"), block("B2", "B0")];
    let validator = validator.submit_blocks_for_verification(&blocks, &responses);
    assert_eq!(
        *log.borrow(),
        vec!["schedule [\"B1\", \"B2\"]", "queue 0 B1", "queue 0 B2"]
    );
    assert!(!validator.validation_thread_exit);
    assert_eq!(responses.sent, 0);
}

#[test]
fn workers_take_turns() {
    let (mut validator, responses, log) = validator(true);
    validator.workers = 2;
    let blocks = [block("B1", "B0"), block("B2", "B0"), block("B3", "B0")];
    let validator = validator.submit_blocks_for_verification(&blocks, &responses);
    let mut validator = validator.submit_blocks_for_verification(&blocks[..1], &responses);
    assert_eq!(
        *log.borrow(),
        vec![
            "schedule [\"B1\", \"B2\", \"B3\"]",
            "queue 0 B1",
            "queue 1 B2",
            "queue 0 B3",
            "schedule [\"B1\"]",
            "queue 1 B1"
        ]
    );
    assert_eq!(validator.index, 0);
    assert_eq!(validator.return_sender(), 0);
    assert_eq!(validator.return_sender(), 1);
    assert_eq!(validator.return_sender(), 0);
}

#[test]
fn a_queue_that_is_gone_stops_the_workers() {
    let (validator, responses, log) = validator(false);
    let blocks = [block("B1", "B0"), block("B2", "B0")];
    let validator = validator.submit_blocks_for_verification(&blocks, &responses);
    assert_eq!(log.borrow().len(), 3);
    assert!(validator.validation_thread_exit);
}

#[test]
fn what_waits_for_a_valid_block_is_validated() {
    let (mut validator, responses, log) = validator(true);
    validator.workers = 3;
    let (validator, responses) =
        validator.process_pending(&block("B1", "B0"), responses, false);
    assert_eq!(*log.borrow(), vec!["done B1 false", "queue 0 C1", "queue 0 C2"]);
    assert_eq!(validator.index, 1);
    assert!(!validator.validation_thread_exit);
    assert_eq!(responses.sent, 0);
}

#[test]
fn what_waits_for_an_invalid_block_is_invalid() {
    let (mut validator, responses, log) = validator(true);
    validator.workers = 3;
    let (validator, responses) = validator.process_pending(&block("B1", "B0"), responses, true);
    assert_eq!(
        *log.borrow(),
        vec!["done B1 true", "report C1 Invalid 0", "report C2 Invalid 0"]
    );
    assert_eq!(validator.index, 0);
    assert!(!validator.validation_thread_exit);
    assert_eq!(responses.sent, 2);
}

#[test]
fn reports_end_with_the_first_that_nobody_takes() {
    let (validator, responses, log) = validator(false);
    let (validator, responses) = validator.process_pending(&block("B1", "B0"), responses, true);
    assert_eq!(*log.borrow(), vec!["done B1 true", "report C1 Invalid 0"]);
    assert!(validator.validation_thread_exit);
    assert_eq!(responses.sent, 1);
}

#[test]
fn an_order_to_stop_stands() {
    let (mut validator, responses, _) = validator(true);
    validator.stop();
    let validator = validator.submit_blocks_for_verification(&[block("B1", "B0")], &responses);
    assert!(validator.validation_thread_exit);
    let (validator, _) = validator.process_pending(&block("B1", "B0"), responses, false);
    assert!(validator.validation_thread_exit);
}

#[test]
fn the_scheduler_is_asked_and_told() {
    let (validator, _, log) = validator(true);
    assert!(validator.has_block("B7"));
    assert!(!validator.has_block("B8"));
    let validator = validator.processing_insert("B9".into());
    let mut validator = validator.set_scheduler_results_sender(5);
    assert_eq!(*log.borrow(), vec!["processing B9", "sender 5"]);
    assert!(!validator.validation_thread_exit);
    validator.stop();
    assert!(validator.validation_thread_exit);
}
