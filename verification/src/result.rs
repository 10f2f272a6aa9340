//! What executing a block yields, and what validating it concludes.

use crate::block::copy_bytes;
use vstd::prelude::*;

verus! {

/// What is known of a block's validity.
#[derive(Debug, Clone, Copy, PartialEq, Eq, Structural)]
pub enum BlockStatus {
    /// The block has not been validated.
    Unknown,
    /// The block was found invalid.
    Invalid,
    /// The block was found valid.
    Valid,
}

/// The outcome of executing one transaction.
#[derive(Debug)]
pub struct TxnExecutionResult {
    /// The identifier of the transaction.
    pub signature: String,
    /// Whether the transaction was applied.
    pub is_valid: bool,
    /// What else the execution left of the transaction, such as state changes, events and
    /// errors, in the encoding of the platform.
    pub receipt: Vec<u8>,
}

/// The outcome of executing all the batches of a schedule.
#[derive(Debug)]
pub struct ExecutionResults {
    /// The hash of the state after the last batch, where there is one.
    pub ending_state_hash: Option<String>,
    /// For each batch its identifier and, where it was executed, the outcomes of its
    /// transactions.
    pub batch_results: Vec<(String, Option<Vec<TxnExecutionResult>>)>,
}

/// The conclusion of validating a block.
#[derive(Debug)]
pub struct BlockValidationResult {
    /// The identifier of the block.
    pub block_id: String,
    /// The outcomes of the block's transactions.
    pub execution_results: Vec<TxnExecutionResult>,
    /// The number of transactions that were executed.
    pub num_transactions: u64,
    /// The verdict.
    pub status: BlockStatus,
}

/// What a [`TxnExecutionResult`] holds.
#[verifier::ext_equal]
pub struct TxnExecutionResultView {
    pub signature: Seq<char>,
    pub is_valid: bool,
    pub receipt: Seq<u8>,
}

/// What one entry of [`ExecutionResults::batch_results`] holds.
#[verifier::ext_equal]
pub struct BatchResultView {
    pub batch_id: Seq<char>,
    pub transaction_results: Option<Seq<TxnExecutionResultView>>,
}

/// What an [`ExecutionResults`] holds.
#[verifier::ext_equal]
pub struct ExecutionResultsView {
    pub ending_state_hash: Option<Seq<char>>,
    pub batch_results: Seq<BatchResultView>,
}

/// What a [`BlockValidationResult`] holds.
#[verifier::ext_equal]
pub struct BlockValidationResultView {
    pub block_id: Seq<char>,
    pub execution_results: Seq<TxnExecutionResultView>,
    pub num_transactions: u64,
    pub status: BlockStatus,
}

/// The views of a sequence of transaction outcomes.
pub open spec fn txn_result_views(results: Seq<TxnExecutionResult>) -> Seq<
    TxnExecutionResultView,
> {
    results.map_values(|r: TxnExecutionResult| r@)
}

/// The view of one entry of [`ExecutionResults::batch_results`].
pub open spec fn batch_result_view(
    entry: (String, Option<Vec<TxnExecutionResult>>),
) -> BatchResultView {
    BatchResultView {
        batch_id: entry.0@,
        transaction_results: match entry.1 {
            Some(results) => Some(txn_result_views(results@)),
            None => None,
        },
    }
}

/// The text of an optional string.
pub open spec fn optional_text(text: Option<String>) -> Option<Seq<char>> {
    match text {
        Some(s) => Some(s@),
        None => None,
    }
}

/// The conclusion that a block is invalid: nothing of its execution is kept.
pub open spec fn invalid_result(block_id: Seq<char>) -> BlockValidationResultView {
    BlockValidationResultView {
        block_id,
        execution_results: seq![],
        num_transactions: 0,
        status: BlockStatus::Invalid,
    }
}

impl View for TxnExecutionResult {
    type V = TxnExecutionResultView;

    open spec fn view(&self) -> TxnExecutionResultView {
        TxnExecutionResultView {
            signature: self.signature@,
            is_valid: self.is_valid,
            receipt: self.receipt@,
        }
    }
}

impl View for ExecutionResults {
    type V = ExecutionResultsView;

    open spec fn view(&self) -> ExecutionResultsView {
        ExecutionResultsView {
            ending_state_hash: optional_text(self.ending_state_hash),
            batch_results: self.batch_results@.map_values(
                |entry: (String, Option<Vec<TxnExecutionResult>>)| batch_result_view(entry),
            ),
        }
    }
}

impl View for BlockValidationResult {
    type V = BlockValidationResultView;

    open spec fn view(&self) -> BlockValidationResultView {
        BlockValidationResultView {
            block_id: self.block_id@,
            execution_results: txn_result_views(self.execution_results@),
            num_transactions: self.num_transactions,
            status: self.status,
        }
    }
}

impl Clone for TxnExecutionResult {
    fn clone(&self) -> (copy: TxnExecutionResult)
        ensures
            copy@ == self@,
    {
        TxnExecutionResult {
            signature: self.signature.clone(),
            is_valid: self.is_valid,
            receipt: copy_bytes(&self.receipt),
        }
    }
}

impl Clone for BlockValidationResult {
    fn clone(&self) -> (copy: BlockValidationResult)
        ensures
            copy@ == self@,
    {
        let mut execution_results: Vec<TxnExecutionResult> = Vec::new();
        let mut i: usize = 0;
        while i < self.execution_results.len()
            invariant
                i <= self.execution_results.len(),
                execution_results.len() == i,
                forall|j: int|
                    0 <= j < i ==> (#[trigger] execution_results@[j])@
                        == self.execution_results@[j]@,
            decreases self.execution_results.len() - i,
        {
            execution_results.push(self.execution_results[i].clone());
            i += 1;
        }
        assert(txn_result_views(execution_results@) =~= txn_result_views(self.execution_results@));
        BlockValidationResult {
            block_id: self.block_id.clone(),
            execution_results,
            num_transactions: self.num_transactions,
            status: self.status,
        }
    }
}

impl BlockValidationResult {
    /// A conclusion of the given parts.
    pub fn new(
        block_id: String,
        execution_results: Vec<TxnExecutionResult>,
        num_transactions: u64,
        status: BlockStatus,
    ) -> (result: Self)
        ensures
            result.block_id == block_id,
            result.execution_results == execution_results,
            result.num_transactions == num_transactions,
            result.status == status,
    {
        BlockValidationResult { block_id, execution_results, num_transactions, status }
    }

    /// The conclusion that the block of this identifier is invalid.
    pub fn invalid(block_id: String) -> (result: Self)
        ensures
            result@ == invalid_result(block_id@),
    {
        let result = BlockValidationResult::new(block_id, Vec::new(), 0, BlockStatus::Invalid);
        assert(txn_result_views(result.execution_results@) =~= seq![]);
        result
    }
}

/// The view of a transaction's outcome shows each of its parts as it is.
pub proof fn law_an_outcome_is_shown_as_it_is(result: &TxnExecutionResult)
    ensures
        result@.signature == result.signature@,
        result@.is_valid == result.is_valid,
        result@.receipt == result.receipt@,
{
}

/// The view of the outcome of a schedule shows the ending state, if any, and each batch by its
/// identifier, with the outcomes of all its transactions where it was executed.
pub proof fn law_an_execution_is_shown_as_it_is(results: &ExecutionResults)
    ensures
        match results.ending_state_hash {
            Some(hash) => results@.ending_state_hash == Some(hash@),
            None => results@.ending_state_hash is None,
        },
        results@.batch_results.len() == results.batch_results@.len(),
        forall|i: int|
            0 <= i < results.batch_results@.len() ==> {
                &&& (#[trigger] results@.batch_results[i]).batch_id == results.batch_results@[i].0@
                &&& match results.batch_results@[i].1 {
                    Some(outcomes) => {
                        &&& results@.batch_results[i].transaction_results matches Some(shown)
                        &&& shown.len() == outcomes@.len()
                        &&& forall|j: int|
                            0 <= j < outcomes@.len() ==> #[trigger] shown[j] == outcomes@[j]@
                    },
                    None => results@.batch_results[i].transaction_results is None,
                }
            },
{
}

/// The view of a conclusion shows each of its parts as it is, and all the outcomes.
pub proof fn law_a_conclusion_is_shown_as_it_is(result: &BlockValidationResult)
    ensures
        result@.block_id == result.block_id@,
        result@.num_transactions == result.num_transactions,
        result@.status == result.status,
        result@.execution_results.len() == result.execution_results@.len(),
        forall|i: int|
            0 <= i < result.execution_results@.len() ==> #[trigger] result@.execution_results[i]
                == result.execution_results@[i]@,
{
}

/// A copied conclusion holds the same outcomes in the same order, and the same parts besides.
pub proof fn law_a_copied_conclusion_is_the_same(
    result: &BlockValidationResult,
    copy: BlockValidationResult,
)
    requires
        call_ensures(BlockValidationResult::clone, (result,), copy),
    ensures
        copy.block_id@ == result.block_id@,
        copy.num_transactions == result.num_transactions,
        copy.status == result.status,
        copy.execution_results@.len() == result.execution_results@.len(),
        forall|i: int|
            0 <= i < result.execution_results@.len() ==> {
                &&& (#[trigger] copy.execution_results@[i]).signature@
                    == result.execution_results@[i].signature@
                &&& copy.execution_results@[i].is_valid == result.execution_results@[i].is_valid
                &&& copy.execution_results@[i].receipt@ == result.execution_results@[i].receipt@
            },
{
    law_a_conclusion_is_shown_as_it_is(result);
    law_a_conclusion_is_shown_as_it_is(&copy);
    assert forall|i: int| 0 <= i < result.execution_results@.len() implies {
        &&& (#[trigger] copy.execution_results@[i]).signature@
            == result.execution_results@[i].signature@
        &&& copy.execution_results@[i].is_valid == result.execution_results@[i].is_valid
        &&& copy.execution_results@[i].receipt@ == result.execution_results@[i].receipt@
    } by {
        assert(copy@.execution_results[i] == result@.execution_results[i]);
    }
}

/// A conclusion is made of the parts that it is given.
pub proof fn law_a_conclusion_is_made_of_its_parts(
    block_id: String,
    execution_results: Vec<TxnExecutionResult>,
    num_transactions: u64,
    status: BlockStatus,
    result: BlockValidationResult,
)
    requires
        call_ensures(
            BlockValidationResult::new,
            (block_id, execution_results, num_transactions, status),
            result,
        ),
    ensures
        result.block_id == block_id,
        result.execution_results == execution_results,
        result.num_transactions == num_transactions,
        result.status == status,
{
}

/// The conclusion that a block is invalid is about that block, and holds nothing of an execution.
pub proof fn law_what_an_invalid_conclusion_holds(result: BlockValidationResult, block_id: Seq<char>)
    requires
        result@ == invalid_result(block_id),
    ensures
        result.block_id@ == block_id,
        result.execution_results@.len() == 0,
        result.num_transactions == 0,
        result.status == BlockStatus::Invalid,
{
    law_a_conclusion_is_shown_as_it_is(&result);
}

} // verus!
