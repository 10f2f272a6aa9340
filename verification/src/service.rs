//! The services that block validation works with.
//!
//! Nothing is assumed of what they answer. The contracts of the validations speak of an answer
//! through `call_ensures`: that the service gave this answer to these arguments.

use crate::block::{Batch, Block, Transaction};
use crate::error::{ChainCommitStateError, ServiceError};
use crate::result::{BlockValidationResult, ExecutionResults};
use vstd::prelude::*;

verus! {

/// The tree of blocks that are known, and the chains through it.
pub trait BlockManager {
    /// Looks blocks up by their identifiers: the answers come in the order of the identifiers,
    /// `None` for an unknown block.
    fn get(&self, block_ids: &[&String]) -> Vec<Option<Block>>;

    /// Checks that none of these batches occurs twice, nor in the chain that ends in the given
    /// block.
    fn validate_no_duplicate_batches(
        &self,
        branch_head_id: &String,
        batch_ids: &[&String],
    ) -> Result<(), ChainCommitStateError>;

    /// Checks that none of these transactions occurs twice, nor in the chain that ends in the
    /// given block.
    fn validate_no_duplicate_transactions(
        &self,
        branch_head_id: &String,
        transaction_ids: &[&String],
    ) -> Result<(), ChainCommitStateError>;

    /// Checks that whatever these transactions depend on comes before them, in the list or in
    /// the chain that ends in the given block.
    fn validate_transaction_dependencies(
        &self,
        branch_head_id: &String,
        transactions: &Vec<Transaction>,
    ) -> Result<(), ChainCommitStateError>;
}

/// The permissions that are kept in the state.
pub trait PermissionVerifier {
    /// Whether the signer of the batch may submit it, by the permissions in the state of the
    /// given root.
    fn is_batch_signer_authorized(&self, batch: &Batch, state_root: &String) -> bool;
}

/// The settings that are kept in the state of one root.
pub trait SettingsView {
    /// Whether a block of these batches, signed by this key, obeys the block validation rules of
    /// the settings.
    fn enforce_validation_rules(&self, signer_public_key: &String, batches: &Vec<Batch>) -> bool;
}

/// Access to the settings in the state of a given root.
pub trait StateViewFactory {
    /// The settings in one state.
    type View: SettingsView;

    /// Opens the settings in the state of the given root.
    fn create_view(&self, state_root: &String) -> Result<Self::View, ServiceError>;
}

/// A schedule of batches that are executed one after the other.
///
/// Each operation takes the schedule and hands it back, so that a contract can speak of it
/// before and after.
pub trait Scheduler: Sized {
    /// Adds a batch of the block of this number. `expected_state_hash` is the hash of the state
    /// that has to be reached after the batch; `required` asks that the batch be kept whatever
    /// happens.
    fn add_batch(
        self,
        block_num: u64,
        batch: Batch,
        expected_state_hash: Option<&String>,
        required: bool,
    ) -> (Self, Result<(), ServiceError>);

    /// Closes the schedule. `unschedule_incomplete` asks that what has not been executed be
    /// taken out.
    fn finalize(self, unschedule_incomplete: bool) -> (Self, Result<(), ServiceError>);

    /// The outcome of the execution, where there is one. `block` asks to wait for it.
    fn complete(self, block: bool) -> (Self, Result<Option<ExecutionResults>, ServiceError>);
}

/// What executes transactions.
pub trait ExecutionPlatform {
    /// The schedules that are executed here.
    type Scheduler: Scheduler;

    /// The hash that stands for the empty state, on which a first block is executed.
    fn null_state_hash(&self) -> String;

    /// Opens a schedule that starts from the state of the given root, after the given block.
    fn create_scheduler(
        &self,
        state_root: &String,
        previous_block_id: &String,
    ) -> Result<Self::Scheduler, ServiceError>;
}

/// The order in which blocks are validated: a block waits until the one before it is done.
///
/// What changes the order takes it and hands it back, as with a [`Scheduler`].
pub trait BlockScheduler: Sized {
    /// Where results are sent to.
    type ResultsSender;

    /// Sets where the results are sent to that come up in scheduling.
    fn set_results_sender(self, sender: Self::ResultsSender) -> Self;

    /// Notes that a block is being processed.
    fn insert_into_processing(self, block_id: String) -> Self;

    /// Whether the block is being processed or waits.
    fn contains(&self, block_id: &str) -> bool;

    /// Takes blocks in and gives back those that can be validated now.
    fn schedule(self, blocks: Vec<Block>) -> (Self, Vec<Block>);

    /// Notes that a block is done and gives back what waited for it: its children, or all its
    /// descendants where these are to be marked invalid.
    fn done(self, block_id: &String, mark_descendants_invalid: bool) -> (Self, Vec<Block>);
}

/// Where validation results are sent to. Sending takes the sender and hands it back.
pub trait ResultSender: Sized {
    /// Sends a result; returns whether somebody takes it.
    fn send(self, result: BlockValidationResult) -> (Self, bool);
}

/// The queues from which the workers take the blocks that they validate. Sending takes the
/// queues and hands them back.
pub trait WorkerQueues: Sized {
    /// Where the results of a block are sent to.
    type ResponseSender: ResultSender;

    /// Puts a block into the queue of a worker, with where its results are sent to; returns
    /// whether somebody takes it.
    fn send(self, worker: usize, block: Block, response_sender: &Self::ResponseSender) -> (
        Self,
        bool,
    );
}

/// What keeps the conclusions on valid blocks. Keeping takes the keeper and hands it back.
pub trait ResultKeeper: Sized {
    /// Keeps a result.
    fn keep(self, result: BlockValidationResult) -> Self;
}

} // verus!
