use block_validator::block::{Batch, Block};
use block_validator::error::{ChainCommitStateError, ValidationError};
use block_validator::processor::{run_validations, BlockValidationProcessor};
use block_validator::result::{BlockStatus, BlockValidationResult};
use block_validator::service::BlockManager;
use block_validator::validation::{BlockValidation, OwnedValidation};
use std::sync::Mutex;

const NULL_BLOCK_IDENTIFIER: &str = "0000000000000000";

#[test]
fn test_validation_processor_genesis() {
    let block_manager = EmptyBlockManager;
    let block_a = create_block("A", NULL_BLOCK_IDENTIFIER, vec![]);

    let validation1: Box<dyn BlockValidation<ReturnValue = ()>> = Box::new(Mock1::new(Ok(())));

    let validation2: Box<dyn BlockValidation<ReturnValue = ()>> =
        Box::new(Mock2::new(Ok(()), Ok(())));
    let validations = vec![validation1, validation2];
    let state_block_validation = Mock1::new(Ok(BlockValidationResult::new(
        "".into(),
        vec![],
        0,
        BlockStatus::Valid,
    )));

    let validation_processor =
        BlockValidationProcessor::new(block_manager, validations, state_block_validation);
    assert!(validation_processor.validate_block(&block_a).is_ok());
}

#[test]
fn the_first_refusal_is_the_result() {
    let refusals = vec![
        Mock1::new(Ok(())),
        Mock1::new(Err(ValidationError::BlockStoreUpdated)),
        Mock1::new(Err(ValidationError::BlockValidationError("later".into()))),
    ];
    let state_validation = Mock1::new(Ok(BlockValidationResult::new(
        "A".into(),
        vec![],
        0,
        BlockStatus::Valid,
    )));
    let processor = BlockValidationProcessor::new(EmptyBlockManager, refusals, state_validation);
    let result = processor.validate_block(&create_block("A", NULL_BLOCK_IDENTIFIER, vec![]));
    assert_eq!(result.err(), Some(ValidationError::BlockStoreUpdated));
}

#[test]
fn the_result_is_that_of_the_state_validation() {
    let validations: Vec<Mock1<Result<(), ValidationError>>> = vec![];
    let state_validation = Mock1::new(Ok(BlockValidationResult::new(
        "A".into(),
        vec![],
        3,
        BlockStatus::Valid,
    )));
    let processor = BlockValidationProcessor::new(EmptyBlockManager, validations, state_validation);
    let result = processor
        .validate_block(&create_block("A", NULL_BLOCK_IDENTIFIER, vec![]))
        .unwrap();
    assert_eq!(result.block_id, "A");
    assert_eq!(result.num_transactions, 3);
}

/// A validation that counts how often it was asked, and for which state.
struct Counting<R> {
    result: Result<R, ValidationError>,
    asked: Vec<String>,
}

fn counting<R>(result: Result<R, ValidationError>) -> Counting<R> {
    Counting {
        result,
        asked: vec![],
    }
}

impl<R: Clone> OwnedValidation for Counting<R> {
    type ReturnValue = R;

    fn ask(
        mut self,
        block: &Block,
        previous_state_root: Option<&String>,
    ) -> (Self, Result<R, ValidationError>) {
        self.asked
            .push(format!("{} {:?}", block.header_signature, previous_state_root));
        let result = self.result.clone();
        (self, result)
    }
}

#[test]
fn each_validation_is_asked_once_up_to_the_first_refusal() {
    let block = create_block("A", NULL_BLOCK_IDENTIFIER, vec![]);
    let root = "root".to_string();
    let valid = BlockValidationResult::new("A".into(), vec![], 2, BlockStatus::Valid);
    let validations = vec![counting(Ok(())), counting(Ok(()))];
    let ((validations, state_validation), result) =
        run_validations(validations, counting(Ok(valid.clone())), &block, Some(&root));
    assert_eq!(result.unwrap().num_transactions, 2);
    for validation in &validations {
        assert_eq!(validation.asked, vec!["A Some(\"root\")"]);
    }
    assert_eq!(state_validation.asked, vec!["A Some(\"root\")"]);

    let validations = vec![
        counting(Ok(())),
        counting(Err(ValidationError::BlockStoreUpdated)),
        counting(Ok(())),
    ];
    let ((validations, state_validation), result) =
        run_validations(validations, counting(Ok(valid)), &block, None);
    assert_eq!(result.err(), Some(ValidationError::BlockStoreUpdated));
    let counts: Vec<usize> = validations.iter().map(|v| v.asked.len()).collect();
    assert_eq!(counts, vec![1, 1, 0]);
    assert!(state_validation.asked.is_empty());
}

#[test]
fn a_processor_asks_each_validation_once() {
    let validations = vec![Mock2::new(
        Ok(()),
        Err(ValidationError::BlockValidationFailure("asked again".into())),
    )];
    let state_validation = Mock1::new(Ok(BlockValidationResult::new(
        "A".into(),
        vec![],
        0,
        BlockStatus::Valid,
    )));
    let processor = BlockValidationProcessor::new(EmptyBlockManager, validations, state_validation);
    let block = create_block("A", NULL_BLOCK_IDENTIFIER, vec![]);
    assert!(processor.validate_block(&block).is_ok());
    assert_eq!(
        processor.validate_block(&block).err(),
        Some(ValidationError::BlockValidationFailure("asked again".into()))
    );
}

/// A block tree that holds nothing.
struct EmptyBlockManager;

impl BlockManager for EmptyBlockManager {
    fn get(&self, block_ids: &[&String]) -> Vec<Option<Block>> {
        block_ids.iter().map(|_| None).collect()
    }

    fn validate_no_duplicate_batches(
        &self,
        _branch_head_id: &String,
        _batch_ids: &[&String],
    ) -> Result<(), ChainCommitStateError> {
        Ok(())
    }

    fn validate_no_duplicate_transactions(
        &self,
        _branch_head_id: &String,
        _transaction_ids: &[&String],
    ) -> Result<(), ChainCommitStateError> {
        Ok(())
    }

    fn validate_transaction_dependencies(
        &self,
        _branch_head_id: &String,
        _transactions: &Vec<block_validator::block::Transaction>,
    ) -> Result<(), ChainCommitStateError> {
        Ok(())
    }
}

struct Mock1<R>
where
    R: Clone,
{
    result: R,
}

impl<R: Clone> Mock1<R> {
    fn new(result: R) -> Self {
        Mock1 { result }
    }
}

impl BlockValidation for Mock1<Result<BlockValidationResult, ValidationError>> {
    type ReturnValue = BlockValidationResult;

    fn validate_block(
        &self,
        _block: &Block,
        _previous_state_root: Option<&String>,
    ) -> Result<BlockValidationResult, ValidationError> {
        self.result.clone()
    }
}

impl BlockValidation for Mock1<Result<(), ValidationError>> {
    type ReturnValue = ();

    fn validate_block(
        &self,
        _block: &Block,
        _previous_state_root: Option<&String>,
    ) -> Result<(), ValidationError> {
        self.result.clone()
    }
}

struct Mock2<R>
where
    R: Clone,
{
    first: R,
    every_other: R,
    called: Mutex<bool>,
}

impl<R: Clone> Mock2<R> {
    fn new(first: R, every_other: R) -> Self {
        Mock2 {
            first,
            every_other,
            called: Mutex::new(false),
        }
    }
}

impl BlockValidation for Mock2<Result<(), ValidationError>> {
    type ReturnValue = ();

    fn validate_block(
        &self,
        _block: &Block,
        _previous_state_root: Option<&String>,
    ) -> Result<(), ValidationError> {
        if *self.called.lock().expect("Error acquiring Mock2 lock") {
            return self.every_other.clone();
        }
        {
            let mut called = self.called.lock().expect("Error acquiring Mock2 lock");
            *called = true;
        }
        self.first.clone()
    }
}

fn create_block(block_id: &str, previous_id: &str, batches: Vec<Batch>) -> Block {
    let batch_ids = batches.iter().map(|b| b.header_signature.clone()).collect();
    Block {
        header_signature: block_id.into(),
        batches,
        state_root_hash: "".into(),
        consensus: vec![],
        batch_ids,
        signer_public_key: "".into(),
        previous_block_id: previous_id.into(),
        block_num: 0,
        header_bytes: vec![],
    }
}
