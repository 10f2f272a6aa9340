//! The validation of a block by executing its batches.

use crate::block::{Batch, Block, BlockView};
use crate::error::{lemma_unit_success, outcome, ServiceError, ValidationError, ValidationErrorView};
use crate::result::{
    batch_result_view, law_an_execution_is_shown_as_it_is, txn_result_views, BatchResultView, BlockStatus, BlockValidationResult,
    BlockValidationResultView, ExecutionResults, ExecutionResultsView, TxnExecutionResult,
    TxnExecutionResultView,
};
use crate::sequence::{lemma_flatten_last, lemma_flatten_place, lemma_flatten_room};
use crate::service::{ExecutionPlatform, Scheduler};
use crate::validation::BlockValidation;
use vstd::prelude::*;
use vstd::string::*;

verus! {

/// Something in the outcome of a batch that makes its block invalid.
#[verifier::ext_equal]
pub enum Defect {
    /// The batch of this identifier was not executed.
    NoResults(Seq<char>),
    /// In the batch of the first identifier, the transaction of the second was not applied.
    InvalidTransaction(Seq<char>, Seq<char>),
}

/// The identifier of the first transaction that was not applied.
pub open spec fn first_invalid(results: Seq<TxnExecutionResultView>) -> Option<Seq<char>>
    decreases results.len(),
{
    if results.len() == 0 {
        None
    } else if first_invalid(results.drop_last()) is Some {
        first_invalid(results.drop_last())
    } else if results.last().is_valid {
        None
    } else {
        Some(results.last().signature)
    }
}

/// The defect of one batch, if it has any.
pub open spec fn batch_defect(batch: BatchResultView) -> Option<Defect> {
    match batch.transaction_results {
        None => Some(Defect::NoResults(batch.batch_id)),
        Some(results) => match first_invalid(results) {
            Some(signature) => Some(Defect::InvalidTransaction(batch.batch_id, signature)),
            None => None,
        },
    }
}

/// The defect of the first batch that has one.
pub open spec fn first_defect(batches: Seq<BatchResultView>) -> Option<Defect>
    decreases batches.len(),
{
    if batches.len() == 0 {
        None
    } else if first_defect(batches.drop_last()) is Some {
        first_defect(batches.drop_last())
    } else {
        batch_defect(batches.last())
    }
}

/// The outcomes of all the transactions, batch after batch.
pub open spec fn all_results(batches: Seq<BatchResultView>) -> Seq<TxnExecutionResultView>
    decreases batches.len(),
{
    if batches.len() == 0 {
        seq![]
    } else {
        all_results(batches.drop_last()) + match batches.last().transaction_results {
            Some(results) => results,
            None => seq![],
        }
    }
}

/// The error for a block whose outcome has a defect.
pub open spec fn defect_found(block: BlockView, defect: Defect) -> ValidationErrorView {
    match defect {
        Defect::NoResults(batch_id) => ValidationErrorView::BlockValidationFailure(
            "Block "@ + block.header_signature + " failed validation: batch "@ + batch_id
                + " did not have transaction results"@,
        ),
        Defect::InvalidTransaction(
            batch_id,
            signature,
        ) => ValidationErrorView::BlockValidationFailure(
            "Block "@ + block.header_signature + " failed validation: batch "@ + batch_id
                + " was invalid due to transaction "@ + signature,
        ),
    }
}

/// The error for a block whose execution had no outcome.
pub open spec fn no_results(block: BlockView) -> ValidationErrorView {
    ValidationErrorView::BlockValidationFailure(
        "Block "@ + block.header_signature + " failed validation: no execution results produced"@,
    )
}

/// The error for a block whose execution ended in no state.
pub open spec fn no_ending_state(block: BlockView) -> ValidationErrorView {
    ValidationErrorView::BlockValidationFailure(
        "Block "@ + block.header_signature
            + " failed validation: no ending state hash was produced"@,
    )
}

/// The error for a block whose execution ended in another state than it states.
pub open spec fn other_ending_state(block: BlockView, found: Seq<char>) -> ValidationErrorView {
    ValidationErrorView::BlockValidationFailure(
        "Block "@ + block.header_signature + " failed validation: expected state hash "@
            + block.state_root_hash + ", validation found state hash "@ + found,
    )
}

/// What the outcome of executing a block's batches says of the block: it is valid if the
/// execution ended in the state that the block states, and every batch was executed and every
/// transaction applied.
pub open spec fn judged(block: BlockView, results: Option<ExecutionResultsView>) -> Result<
    BlockValidationResultView,
    ValidationErrorView,
> {
    match results {
        None => Err(no_results(block)),
        Some(results) => match results.ending_state_hash {
            None => Err(no_ending_state(block)),
            Some(found) => if found != block.state_root_hash {
                Err(other_ending_state(block, found))
            } else {
                match first_defect(results.batch_results) {
                    Some(defect) => Err(defect_found(block, defect)),
                    None => Ok(
                        BlockValidationResultView {
                            block_id: block.header_signature,
                            execution_results: all_results(results.batch_results),
                            num_transactions: all_results(results.batch_results).len() as u64,
                            status: BlockStatus::Valid,
                        },
                    ),
                }
            },
        },
    }
}

/// The start of a message: the block, by its identifier.
fn block_by_id(block: &Block) -> (text: String)
    ensures
        text@ == "Block "@ + block@.header_signature,
{
    "Block ".to_owned().concat(block.header_signature.as_str())
}

/// Adds the outcomes of one batch to those of the batches before it, or finds the batch's
/// defect.
fn collect_batch(
    block: &Block,
    batch: (String, Option<Vec<TxnExecutionResult>>),
    collected: &mut Vec<TxnExecutionResult>,
) -> (result: Result<(), ValidationError>)
    ensures
        match batch_defect(batch_result_view(batch)) {
            Some(defect) => outcome(result) == Err::<(), ValidationErrorView>(
                defect_found(block@, defect),
            ),
            None => {
                &&& result is Ok
                &&& txn_result_views(final(collected)@) == txn_result_views(old(collected)@)
                    + batch_result_view(batch).transaction_results->0
            },
        },
{
    let (batch_id, transaction_results) = batch;
    let mut results: Vec<TxnExecutionResult> = match transaction_results {
        Some(results) => results,
        None => {
            return Err(
                ValidationError::BlockValidationFailure(
                    block_by_id(block).concat(" failed validation: batch ").concat(
                        batch_id.as_str(),
                    ).concat(" did not have transaction results"),
                ),
            );
        },
    };
    let ghost views = txn_result_views(results@);
    let mut i: usize = 0;
    while i < results.len()
        invariant
            i <= results.len(),
            views == txn_result_views(results@),
            batch_result_view(batch).transaction_results == Some(views),
            batch_result_view(batch).batch_id == batch_id@,
            first_invalid(views.take(i as int)) is None,
        decreases results.len() - i,
    {
        proof {
            assert(views.take(i + 1).drop_last() =~= views.take(i as int));
            assert(views.take(i + 1).last() == results@[i as int]@);
        }
        if !results[i].is_valid {
            proof {
                lemma_first_invalid_stays(views, i + 1);
            }
            return Err(
                ValidationError::BlockValidationFailure(
                    block_by_id(block).concat(" failed validation: batch ").concat(
                        batch_id.as_str(),
                    ).concat(" was invalid due to transaction ").concat(
                        results[i].signature.as_str(),
                    ),
                ),
            );
        }
        i += 1;
    }
    assert(views.take(i as int) =~= views);
    collected.append(&mut results);
    assert(txn_result_views(collected@) =~= txn_result_views(old(collected)@) + views);
    Ok(())
}

/// Judges a block by the outcome of executing its batches.
pub fn judge_execution(block: &Block, results: Option<ExecutionResults>) -> (result: Result<
    BlockValidationResult,
    ValidationError,
>)
    ensures
        outcome(result) == judged(
            block@,
            match results {
                Some(results) => Some(results@),
                None => None,
            },
        ),
        result matches Ok(valid) ==> valid.num_transactions == valid.execution_results.len(),
{
    let execution_results: ExecutionResults = match results {
        Some(execution_results) => execution_results,
        None => {
            return Err(
                ValidationError::BlockValidationFailure(
                    block_by_id(block).concat(
                        " failed validation: no execution results produced",
                    ),
                ),
            );
        },
    };
    let ghost views = execution_results@.batch_results;
    match &execution_results.ending_state_hash {
        Some(actual_ending_state_hash) => {
            if block.state_root_hash != *actual_ending_state_hash {
                return Err(
                    ValidationError::BlockValidationFailure(
                        block_by_id(block).concat(
                            " failed validation: expected state hash ",
                        ).concat(block.state_root_hash.as_str()).concat(
                            ", validation found state hash ",
                        ).concat(actual_ending_state_hash.as_str()),
                    ),
                );
            }
        },
        None => {
            return Err(
                ValidationError::BlockValidationFailure(
                    block_by_id(block).concat(
                        " failed validation: no ending state hash was produced",
                    ),
                ),
            );
        },
    }
    let ghost entries = execution_results.batch_results@;
    let mut collected: Vec<TxnExecutionResult> = Vec::new();
    assert(txn_result_views(collected@) =~= all_results(views.take(0)));
    for entry in it: execution_results.batch_results
        invariant
            it.seq() == entries,
            views.len() == entries.len(),
            forall|j: int|
                0 <= j < entries.len() ==> #[trigger] views[j] == batch_result_view(entries[j]),
            judged(
                block@,
                match results {
                    Some(results) => Some(results@),
                    None => None,
                },
            ) == match first_defect(views) {
                Some(defect) => Err(defect_found(block@, defect)),
                None => Ok(
                    BlockValidationResultView {
                        block_id: block@.header_signature,
                        execution_results: all_results(views),
                        num_transactions: all_results(views).len() as u64,
                        status: BlockStatus::Valid,
                    },
                ),
            },
            first_defect(views.take(it.index() as int)) is None,
            txn_result_views(collected@) == all_results(views.take(it.index() as int)),
    {
        let ghost n = it.index() as int;
        proof {
            assert(views.take(n + 1).drop_last() =~= views.take(n));
            assert(views.take(n + 1).last() == batch_result_view(entry));
        }
        match collect_batch(block, entry, &mut collected) {
            Ok(()) => (),
            Err(error) => {
                proof {
                    lemma_first_defect_stays(views, n + 1);
                }
                return Err(error);
            },
        }
    }
    assert(views.take(views.len() as int) =~= views);
    let num_transactions: u64 = collected.len() as u64;
    Ok(
        BlockValidationResult::new(
            block.header_signature.clone(),
            collected,
            num_transactions,
            BlockStatus::Valid,
        ),
    )
}

/// The state that has to be reached after a batch: that of the block after its last batch, any
/// after the others.
pub open spec fn expected_state(block: &Block, i: int) -> Option<&String> {
    if i + 1 < block.batches@.len() {
        None
    } else {
        Some(&block.state_root_hash)
    }
}

/// Adding the batch of index `i` to the schedule `before` had this result and left `after`.
pub open spec fn added<S: Scheduler>(
    block: &Block,
    i: int,
    before: S,
    after: S,
    result: Result<(), ServiceError>,
) -> bool {
    exists|batch: Batch|
        {
            &&& batch@ == block.batches@[i]@
            &&& #[trigger] call_ensures(
                S::add_batch,
                (before, block.block_num, batch, expected_state(block, i), false),
                (after, result),
            )
        }
}

/// The error for a batch that could not be added to the schedule.
pub open spec fn not_added(block: &Block, i: int, cause: Seq<char>) -> ValidationErrorView {
    ValidationErrorView::BlockValidationError(
        if i + 1 < block.batches@.len() {
            "While adding a batch to the schedule: "@ + cause
        } else {
            "While adding the last batch to the schedule: "@ + cause
        },
    )
}

/// Through these schedules the first batches of a block were added, one after the other.
pub open spec fn all_added<S: Scheduler>(block: &Block, schedules: Seq<S>) -> bool {
    &&& 0 < schedules.len() <= block.batches@.len() + 1
    &&& forall|i: int| 0 <= i < schedules.len() - 1 ==> #[trigger] added_at(block, schedules, i)
}

/// The batch of index `i` took one of these schedules to the next.
pub open spec fn added_at<S: Scheduler>(block: &Block, schedules: Seq<S>, i: int) -> bool {
    added(block, i, schedules[i], schedules[i + 1], Ok(()))
}

/// Adding a block's batches to the schedule `start`, one after the other up to the first that
/// fails, ended in this schedule, or in the error for the one that failed.
pub open spec fn filled<S: Scheduler>(
    block: &Block,
    start: S,
    result: Result<S, ValidationErrorView>,
) -> bool {
    exists|schedules: Seq<S>|
        {
            &&& #[trigger] all_added(block, schedules)
            &&& schedules[0] == start
            &&& match result {
                Ok(schedule) => {
                    &&& schedules.len() == block.batches@.len() + 1
                    &&& schedule == schedules.last()
                },
                Err(error) => {
                    &&& schedules.len() <= block.batches@.len()
                    &&& exists|after: S, cause: ServiceError|
                        {
                            &&& #[trigger] added(
                                block,
                                schedules.len() - 1,
                                schedules.last(),
                                after,
                                Err(cause),
                            )
                            &&& error == not_added(block, schedules.len() - 1, cause@)
                        }
                },
            }
        }
}

/// Adds the batches of a block to a schedule.
fn fill_schedule<S: Scheduler>(block: &Block, start: S) -> (result: Result<S, ValidationError>)
    ensures
        filled(
            block,
            start,
            match result {
                Ok(schedule) => Ok(schedule),
                Err(error) => Err(error@),
            },
        ),
{
    let ghost mut schedules: Seq<S> = seq![start];
    let mut scheduler: S = start;
    let mut index: usize = 0;
    while index < block.batches.len()
        invariant
            index <= block.batches.len(),
            schedules.len() == index + 1,
            schedules[0] == start,
            scheduler == schedules.last(),
            all_added(block, schedules),
        decreases block.batches.len() - index,
    {
        let batch: Batch = block.batches[index].clone();
        let expected: Option<&String> = if index + 1 < block.batches.len() {
            None
        } else {
            Some(&block.state_root_hash)
        };
        let (after, added_now) = scheduler.add_batch(block.block_num, batch, expected, false);
        let ghost now = added_now;
        assert(added(block, index as int, schedules.last(), after, now));
        match added_now {
            Ok(()) => (),
            Err(cause) => {
                let text: String = if index + 1 < block.batches.len() {
                    "While adding a batch to the schedule: ".to_owned().concat(
                        cause.detail.as_str(),
                    )
                } else {
                    "While adding the last batch to the schedule: ".to_owned().concat(
                        cause.detail.as_str(),
                    )
                };
                return Err(ValidationError::BlockValidationError(text));
            },
        }
        proof {
            let longer = schedules.push(after);
            lemma_unit_success(now);
            assert forall|i: int| 0 <= i < longer.len() - 1 implies #[trigger] added_at(
                block,
                longer,
                i,
            ) by {
                if i < index {
                    assert(added_at(block, schedules, i));
                }
            }
            schedules = longer;
        }
        scheduler = after;
        index += 1;
    }
    Ok(scheduler)
}

/// The error for a block whose schedule could not be opened.
pub open spec fn not_opened(block: BlockView, cause: Seq<char>) -> ValidationErrorView {
    ValidationErrorView::BlockValidationError(
        "Error during validation of block "@ + block.header_signature + " batches: "@ + cause,
    )
}

/// The error for a schedule that could not be closed.
pub open spec fn not_closed(cause: Seq<char>) -> ValidationErrorView {
    ValidationErrorView::BlockValidationError(
        "During call to scheduler.finalize: "@ + cause,
    )
}

/// The error for a schedule that could not be completed.
pub open spec fn not_completed(cause: Seq<char>) -> ValidationErrorView {
    ValidationErrorView::BlockValidationError(
        "During call to scheduler.complete: "@ + cause,
    )
}

/// Waiting for the outcome of the closed schedule `closed` led to this result.
pub open spec fn completed<S: Scheduler>(
    block: &Block,
    closed: S,
    result: Result<BlockValidationResultView, ValidationErrorView>,
) -> bool {
    exists|after: S, completion: Result<Option<ExecutionResults>, ServiceError>|
        {
            &&& #[trigger] call_ensures(S::complete, (closed, true), (after, completion))
            &&& result == match completion {
                Err(cause) => Err(not_completed(cause@)),
                Ok(None) => judged(block@, None),
                Ok(Some(results)) => judged(block@, Some(results@)),
            }
        }
}

/// Closing the schedule `full` and waiting for its outcome led to this result.
pub open spec fn closed_and_completed<S: Scheduler>(
    block: &Block,
    full: S,
    result: Result<BlockValidationResultView, ValidationErrorView>,
) -> bool {
    exists|closed: S, closing: Result<(), ServiceError>|
        {
            &&& #[trigger] call_ensures(S::finalize, (full, false), (closed, closing))
            &&& match closing {
                Err(cause) => result == Err::<BlockValidationResultView, ValidationErrorView>(
                    not_closed(cause@),
                ),
                Ok(_) => completed(block, closed, result),
            }
        }
}

/// Executing a block on the schedule `start` led to this result.
pub open spec fn executed_on<S: Scheduler>(
    block: &Block,
    start: S,
    result: Result<BlockValidationResultView, ValidationErrorView>,
) -> bool {
    exists|filling: Result<S, ValidationErrorView>|
        {
            &&& #[trigger] filled(block, start, filling)
            &&& match filling {
                Err(error) => result == Err::<BlockValidationResultView, ValidationErrorView>(
                    error,
                ),
                Ok(full) => closed_and_completed(block, full, result),
            }
        }
}

/// The state on which a block is executed: the one that its predecessor left, or the empty one.
pub open spec fn starting_state(
    previous_state_root: Option<&String>,
    null_state_hash: String,
) -> &String {
    match previous_state_root {
        Some(root) => root,
        None => &null_state_hash,
    }
}

/// Executing a block on the platform led to this result.
pub open spec fn executed<P: ExecutionPlatform>(
    platform: &P,
    block: &Block,
    previous_state_root: Option<&String>,
    result: Result<BlockValidationResultView, ValidationErrorView>,
) -> bool {
    exists|null_state_hash: String, opening: Result<P::Scheduler, ServiceError>|
        {
            &&& call_ensures(P::null_state_hash, (platform,), null_state_hash)
            &&& #[trigger] call_ensures(
                P::create_scheduler,
                (
                    platform,
                    starting_state(previous_state_root, null_state_hash),
                    &block.previous_block_id,
                ),
                opening,
            )
            &&& match opening {
                Err(cause) => result == Err::<BlockValidationResultView, ValidationErrorView>(
                    not_opened(block@, cause@),
                ),
                Ok(start) => executed_on(block, start, result),
            }
        }
}

/// Executes a block on an open schedule and judges the outcome.
fn execute_on<S: Scheduler>(block: &Block, start: S) -> (result: Result<
    BlockValidationResult,
    ValidationError,
>)
    ensures
        executed_on(block, start, outcome(result)),
        result matches Ok(valid) ==> valid.num_transactions == valid.execution_results.len(),
{
    let full: S = match fill_schedule(block, start) {
        Ok(full) => full,
        Err(error) => {
            assert(filled(block, start, Err::<S, ValidationErrorView>(error@)));
            return Err(error);
        },
    };
    assert(filled(block, start, Ok::<S, ValidationErrorView>(full)));
    let (closed, closing) = full.finalize(false);
    match closing {
        Ok(()) => (),
        Err(cause) => {
            let result: Result<BlockValidationResult, ValidationError> = Err(
                ValidationError::BlockValidationError(
                    "During call to scheduler.finalize: ".to_owned().concat(
                        cause.detail.as_str(),
                    ),
                ),
            );
            assert(closed_and_completed(block, full, outcome(result)));
            return result;
        },
    }
    let (after, completion) = closed.complete(true);
    let result: Result<BlockValidationResult, ValidationError> = match completion {
        Ok(results) => judge_execution(block, results),
        Err(cause) => Err(
            ValidationError::BlockValidationError(
                "During call to scheduler.complete: ".to_owned().concat(cause.detail.as_str()),
            ),
        ),
    };
    assert(completed(block, closed, outcome(result))) by {
        assert(call_ensures(S::complete, (closed, true), (after, completion)));
    }
    assert(closed_and_completed(block, full, outcome(result))) by {
        assert(call_ensures(S::finalize, (full, false), (closed, closing)));
    }
    result
}

/// Validates that all the batches are valid and all the transactions produce the expected state
/// hash.
pub struct BatchesInBlockValidation<P: ExecutionPlatform> {
    /// What executes the transactions.
    pub transaction_executor: P,
}

impl<P: ExecutionPlatform> BatchesInBlockValidation<P> {
    /// A validation that executes blocks on the given platform.
    pub fn new(transaction_executor: P) -> (validation: Self)
        ensures
            validation.transaction_executor == transaction_executor,
    {
        BatchesInBlockValidation { transaction_executor }
    }
}

impl<P: ExecutionPlatform + Send> BlockValidation for BatchesInBlockValidation<P> {
    type ReturnValue = BlockValidationResult;

    fn validate_block(&self, block: &Block, previous_state_root: Option<&String>) -> (result:
        Result<BlockValidationResult, ValidationError>)
        ensures
            executed(&self.transaction_executor, block, previous_state_root, outcome(result)),
            result matches Ok(valid) ==> valid.num_transactions == valid.execution_results.len(),
    {
        let null_state_hash: String = self.transaction_executor.null_state_hash();
        let state_root: &String = match previous_state_root {
            Some(root) => root,
            None => &null_state_hash,
        };
        let opening: Result<P::Scheduler, ServiceError> =
            self.transaction_executor.create_scheduler(state_root, &block.previous_block_id);
        assert(call_ensures(
            P::create_scheduler,
            (
                &self.transaction_executor,
                starting_state(previous_state_root, null_state_hash),
                &block.previous_block_id,
            ),
            opening,
        ));
        match opening {
            Ok(scheduler) => execute_on(block, scheduler),
            Err(cause) => Err(
                ValidationError::BlockValidationError(
                    "Error during validation of block ".to_owned().concat(
                        block.header_signature.as_str(),
                    ).concat(" batches: ").concat(cause.detail.as_str()),
                ),
            ),
        }
    }
}

/// A transaction that is the first not applied stays it whatever follows.
proof fn lemma_first_invalid_stays(results: Seq<TxnExecutionResultView>, n: int)
    requires
        0 <= n <= results.len(),
        first_invalid(results.take(n)) is Some,
    ensures
        first_invalid(results) == first_invalid(results.take(n)),
    decreases results.len(),
{
    if n == results.len() {
        assert(results.take(n) =~= results);
    } else {
        assert(results.drop_last().take(n) =~= results.take(n));
        lemma_first_invalid_stays(results.drop_last(), n);
    }
}

/// A defect that is the first stays it whatever batches follow.
proof fn lemma_first_defect_stays(batches: Seq<BatchResultView>, n: int)
    requires
        0 <= n <= batches.len(),
        first_defect(batches.take(n)) is Some,
    ensures
        first_defect(batches) == first_defect(batches.take(n)),
    decreases batches.len(),
{
    if n == batches.len() {
        assert(batches.take(n) =~= batches);
    } else {
        assert(batches.drop_last().take(n) =~= batches.take(n));
        lemma_first_defect_stays(batches.drop_last(), n);
    }
}

/// Every batch was executed, and every transaction applied.
pub open spec fn all_applied(batches: Seq<BatchResultView>) -> bool {
    forall|i: int|
        0 <= i < batches.len() ==> {
            &&& (#[trigger] batches[i]).transaction_results is Some
            &&& all_valid(batches[i].transaction_results->0)
        }
}

/// All the transactions were applied.
pub open spec fn all_valid(results: Seq<TxnExecutionResultView>) -> bool {
    forall|i: int| 0 <= i < results.len() ==> (#[trigger] results[i]).is_valid
}

/// No transaction is the first not applied if, and only if, all were.
proof fn lemma_first_invalid(results: Seq<TxnExecutionResultView>)
    ensures
        first_invalid(results) is None <==> all_valid(results),
    decreases results.len(),
{
    if results.len() > 0 {
        let shorter = results.drop_last();
        lemma_first_invalid(shorter);
        assert(results =~= shorter.push(results.last()));
        assert(forall|i: int| 0 <= i < shorter.len() ==> shorter[i] == #[trigger] results[i]);
        if all_valid(results) {
            assert(results[results.len() - 1].is_valid);
        }
    }
}

/// There is no defect if, and only if, everything was executed and applied; and then all the
/// outcomes are good ones.
proof fn lemma_first_defect(batches: Seq<BatchResultView>)
    ensures
        first_defect(batches) is None <==> all_applied(batches),
        first_defect(batches) is None ==> all_valid(all_results(batches)),
    decreases batches.len(),
{
    if batches.len() > 0 {
        let shorter = batches.drop_last();
        lemma_first_defect(shorter);
        assert(forall|i: int| 0 <= i < shorter.len() ==> shorter[i] == #[trigger] batches[i]);
        if let Some(results) = batches.last().transaction_results {
            lemma_first_invalid(results);
        }
        if all_applied(batches) {
            assert(batches[batches.len() - 1].transaction_results is Some);
            assert(all_applied(shorter));
        }
    }
}

/// A block is judged valid if, and only if, the execution ended in the state that the block
/// states, every batch was executed and every transaction was applied.
pub proof fn law_when_execution_is_valid(block: BlockView, results: Option<ExecutionResultsView>)
    ensures
        judged(block, results) is Ok <==> {
            &&& results matches Some(results)
            &&& results.ending_state_hash == Some(block.state_root_hash)
            &&& all_applied(results.batch_results)
        },
{
    if let Some(results) = results {
        lemma_first_defect(results.batch_results);
    }
}

/// A judgement of validity is about the block, carries the outcomes of all the transactions in
/// their order, and all of them were applied.
pub proof fn law_what_a_valid_result_holds(
    block: BlockView,
    results: ExecutionResultsView,
    valid: BlockValidationResultView,
)
    requires
        judged(block, Some(results)) == Ok::<BlockValidationResultView, ValidationErrorView>(valid),
    ensures
        valid.block_id == block.header_signature,
        valid.status == BlockStatus::Valid,
        valid.execution_results == all_results(results.batch_results),
        all_valid(valid.execution_results),
{
    lemma_first_defect(results.batch_results);
}

/// Where executing a block led to a result, that is the judgement on the outcome of some
/// execution.
pub proof fn law_results_come_from_an_execution<P: ExecutionPlatform>(
    platform: &P,
    block: &Block,
    previous_state_root: Option<&String>,
    valid: BlockValidationResultView,
)
    requires
        executed(platform, block, previous_state_root, Ok(valid)),
    ensures
        exists|results: ExecutionResultsView| #[trigger]
            judged(block@, Some(results)) == Ok::<BlockValidationResultView, ValidationErrorView>(
                valid,
            ),
{
    let result = Ok::<BlockValidationResultView, ValidationErrorView>(valid);
    let (null_state_hash, opening) = choose|
        null_state_hash: String,
        opening: Result<P::Scheduler, ServiceError>,
    |
        {
            &&& call_ensures(P::null_state_hash, (platform,), null_state_hash)
            &&& #[trigger] call_ensures(
                P::create_scheduler,
                (
                    platform,
                    starting_state(previous_state_root, null_state_hash),
                    &block.previous_block_id,
                ),
                opening,
            )
            &&& match opening {
                Err(cause) => result == Err::<BlockValidationResultView, ValidationErrorView>(
                    not_opened(block@, cause@),
                ),
                Ok(start) => executed_on(block, start, result),
            }
        };
    assert(executed_on(block, opening->Ok_0, result));
}

/// Validation by execution is independent: it never reports that the chain was changed.
pub proof fn law_execution_is_independent<P: ExecutionPlatform>(
    platform: &P,
    block: &Block,
    previous_state_root: Option<&String>,
    result: Result<BlockValidationResultView, ValidationErrorView>,
)
    requires
        executed(platform, block, previous_state_root, result),
    ensures
        !(result matches Err(ValidationErrorView::BlockStoreUpdated)),
{
}

/// Where the first defect of an outcome is: in a batch before which all were executed and applied.
proof fn lemma_where_the_first_defect_is(batches: Seq<BatchResultView>) -> (i: int)
    requires
        first_defect(batches) is Some,
    ensures
        0 <= i < batches.len(),
        batch_defect(batches[i]) == first_defect(batches),
        forall|k: int|
            0 <= k < i ==> {
                &&& (#[trigger] batches[k]).transaction_results is Some
                &&& all_valid(batches[k].transaction_results->0)
            },
    decreases batches.len(),
{
    let shorter = batches.drop_last();
    lemma_first_defect(shorter);
    assert(forall|k: int| 0 <= k < shorter.len() ==> shorter[k] == #[trigger] batches[k]);
    if first_defect(shorter) is Some {
        lemma_where_the_first_defect_is(shorter)
    } else {
        shorter.len() as int
    }
}

/// Where the first transaction is that was not applied.
proof fn lemma_where_the_first_invalid_is(results: Seq<TxnExecutionResultView>) -> (j: int)
    requires
        first_invalid(results) is Some,
    ensures
        0 <= j < results.len(),
        !results[j].is_valid,
        first_invalid(results) == Some(results[j].signature),
        forall|k: int| 0 <= k < j ==> (#[trigger] results[k]).is_valid,
    decreases results.len(),
{
    let shorter = results.drop_last();
    lemma_first_invalid(shorter);
    assert(forall|k: int| 0 <= k < shorter.len() ==> shorter[k] == #[trigger] results[k]);
    if first_invalid(shorter) is Some {
        lemma_where_the_first_invalid_is(shorter)
    } else {
        shorter.len() as int
    }
}

/// The outcomes of some batches are collected batch after batch.
proof fn lemma_all_results(
    batches: Seq<BatchResultView>,
    parts: Seq<Seq<TxnExecutionResultView>>,
)
    requires
        parts.len() == batches.len(),
        forall|i: int|
            0 <= i < batches.len() ==> (#[trigger] batches[i]).transaction_results == Some(
                parts[i],
            ),
    ensures
        all_results(batches) == parts.flatten(),
    decreases batches.len(),
{
    if batches.len() > 0 {
        lemma_all_results(batches.drop_last(), parts.drop_last());
        lemma_flatten_last(parts);
        assert(batches[batches.len() - 1].transaction_results == Some(parts.last()));
    }
}

/// What judging an execution gives is the judgement on its outcome.
pub proof fn law_executions_are_judged(
    block: &Block,
    results: Option<ExecutionResults>,
    result: Result<BlockValidationResult, ValidationError>,
)
    requires
        call_ensures(judge_execution, (block, results), result),
    ensures
        match results {
            Some(results) => outcome(result) == judged(block@, Some(results@)),
            None => outcome(result) == judged(block@, None),
        },
        result matches Ok(valid) ==> valid.num_transactions == valid.execution_results@.len(),
{
}

/// A block is found valid if, and only if, its execution ended in the state that the block
/// states, every batch was executed and every transaction of every batch was applied.
pub proof fn law_when_a_block_is_found_valid(block: &Block, results: &ExecutionResults)
    ensures
        judged(block@, Some(results@)) is Ok <==> {
            &&& results.ending_state_hash matches Some(hash)
            &&& hash@ == block.state_root_hash@
            &&& forall|i: int|
                0 <= i < results.batch_results@.len() ==> {
                    &&& (#[trigger] results.batch_results@[i]).1 matches Some(outcomes)
                    &&& forall|j: int|
                        0 <= j < outcomes@.len() ==> (#[trigger] outcomes@[j]).is_valid
                }
        },
{
    law_when_execution_is_valid(block@, Some(results@));
    law_an_execution_is_shown_as_it_is(results);
    let shown = results@.batch_results;
    let entries = results.batch_results@;
    if judged(block@, Some(results@)) is Ok {
        assert forall|i: int| 0 <= i < entries.len() implies {
            &&& (#[trigger] entries[i]).1 matches Some(outcomes)
            &&& forall|j: int| 0 <= j < outcomes@.len() ==> (#[trigger] outcomes@[j]).is_valid
        } by {
            assert(shown[i].transaction_results is Some);
            let outcomes = entries[i].1->0@;
            assert forall|j: int| 0 <= j < outcomes.len() implies (
            #[trigger] outcomes[j]).is_valid by {
                assert(shown[i].transaction_results->0[j] == outcomes[j]@);
            }
        }
    }
    if forall|i: int|
        0 <= i < entries.len() ==> {
            &&& (#[trigger] entries[i]).1 matches Some(outcomes)
            &&& forall|j: int| 0 <= j < outcomes@.len() ==> (#[trigger] outcomes@[j]).is_valid
        } {
        assert forall|i: int| 0 <= i < shown.len() implies {
            &&& (#[trigger] shown[i]).transaction_results is Some
            &&& all_valid(shown[i].transaction_results->0)
        } by {
            assert(entries[i].1 is Some);
            let outcomes = entries[i].1->0@;
            assert forall|j: int| 0 <= j < shown[i].transaction_results->0.len() implies (
            #[trigger] shown[i].transaction_results->0[j]).is_valid by {
                assert(outcomes[j].is_valid);
            }
        }
        assert(all_applied(shown));
    }
}

/// A valid result is about the block and holds every outcome of every batch, once each: the
/// outcomes of a batch come after those of the batches before it, in their order and as they
/// are, and nothing else is held. `parts` are the outcomes of each batch.
pub proof fn law_a_valid_result_holds_every_outcome(
    block: &Block,
    results: &ExecutionResults,
    parts: Seq<Seq<TxnExecutionResult>>,
    valid: BlockValidationResultView,
)
    requires
        judged(block@, Some(results@)) == Ok::<BlockValidationResultView, ValidationErrorView>(
            valid,
        ),
        parts.len() == results.batch_results@.len(),
        forall|i: int|
            0 <= i < parts.len() ==> #[trigger] parts[i] == results.batch_results@[i].1->0@,
    ensures
        valid.block_id == block.header_signature@,
        valid.status == BlockStatus::Valid,
        valid.num_transactions == parts.flatten().len() as u64,
        valid.execution_results.len() == parts.flatten().len(),
        forall|i: int|
            0 <= i < results.batch_results@.len() ==> #[trigger] parts.take(i).flatten().len()
                + results.batch_results@[i].1->0@.len() <= valid.execution_results.len(),
        forall|i: int, j: int|
            0 <= i < results.batch_results@.len() && 0 <= j < results.batch_results@[i].1->0@.len()
                ==> valid.execution_results[parts.take(i).flatten().len() + j] == (
            #[trigger] results.batch_results@[i].1->0@[j])@,
{
    law_when_a_block_is_found_valid(block, results);
    law_an_execution_is_shown_as_it_is(results);
    let entries = results.batch_results@;
    let shown_parts = Seq::new(parts.len(), |i: int| txn_result_views(parts[i]));
    assert forall|i: int| 0 <= i < results@.batch_results.len() implies (
    #[trigger] results@.batch_results[i]).transaction_results == Some(shown_parts[i]) by {
        assert(entries[i].1 is Some);
        assert(parts[i] == entries[i].1->0@);
        assert(results@.batch_results[i].transaction_results->0 =~= shown_parts[i]);
    }
    lemma_all_results(results@.batch_results, shown_parts);
    lemma_flatten_views(parts, shown_parts);
    assert forall|i: int| 0 <= i < entries.len() implies #[trigger] parts.take(i).flatten().len()
        + entries[i].1->0@.len() <= valid.execution_results.len() by {
        assert(parts[i] == entries[i].1->0@);
        lemma_flatten_room(parts, i);
    }
    assert forall|i: int, j: int|
        0 <= i < entries.len() && 0 <= j
            < entries[i].1->0@.len() implies valid.execution_results[parts.take(i).flatten().len()
        + j] == (#[trigger] entries[i].1->0@[j])@ by {
        assert(parts[i] == entries[i].1->0@);
        lemma_flatten_place(parts, i, j);
    }
}

/// Showing each part and laying them end to end comes to the same as the other way round.
proof fn lemma_flatten_views(
    parts: Seq<Seq<TxnExecutionResult>>,
    shown: Seq<Seq<TxnExecutionResultView>>,
)
    requires
        shown.len() == parts.len(),
        forall|i: int| 0 <= i < parts.len() ==> #[trigger] shown[i] == txn_result_views(parts[i]),
    ensures
        shown.flatten() == txn_result_views(parts.flatten()),
    decreases parts.len(),
{
    if parts.len() == 0 {
        assert(shown.flatten() =~= txn_result_views(parts.flatten()));
    } else {
        lemma_flatten_views(parts.drop_last(), shown.drop_last());
        lemma_flatten_last(parts);
        lemma_flatten_last(shown);
        assert(shown.last() == txn_result_views(parts.last()));
        assert(shown.flatten() =~= txn_result_views(parts.flatten()));
    }
}

/// Why a block is found invalid that was executed: it ended in no state or in another one than
/// it states, or else there is a first batch that was not executed or has a first transaction
/// that was not applied, with all before it executed and applied. The text names it.
pub proof fn law_why_an_executed_block_is_invalid(
    block: &Block,
    results: &ExecutionResults,
    error: ValidationErrorView,
)
    requires
        judged(block@, Some(results@)) == Err::<BlockValidationResultView, ValidationErrorView>(
            error,
        ),
    ensures
        match results.ending_state_hash {
            None => error == ValidationErrorView::BlockValidationFailure(
                "Block "@ + block.header_signature@
                    + " failed validation: no ending state hash was produced"@,
            ),
            Some(hash) => if hash@ != block.state_root_hash@ {
                error == ValidationErrorView::BlockValidationFailure(
                    "Block "@ + block.header_signature@
                        + " failed validation: expected state hash "@ + block.state_root_hash@
                        + ", validation found state hash "@ + hash@,
                )
            } else {
                exists|i: int|
                    {
                        &&& 0 <= i < results.batch_results@.len()
                        &&& forall|k: int|
                            0 <= k < i ==> {
                                &&& (#[trigger] results.batch_results@[k]).1 matches Some(outcomes)
                                &&& forall|j: int|
                                    0 <= j < outcomes@.len() ==> (#[trigger] outcomes@[j]).is_valid
                            }
                        &&& match (#[trigger] results.batch_results@[i]).1 {
                            None => error == ValidationErrorView::BlockValidationFailure(
                                "Block "@ + block.header_signature@ + " failed validation: batch "@
                                    + results.batch_results@[i].0@
                                    + " did not have transaction results"@,
                            ),
                            Some(outcomes) => exists|j: int|
                                {
                                    &&& 0 <= j < outcomes@.len()
                                    &&& !(#[trigger] outcomes@[j]).is_valid
                                    &&& forall|k: int|
                                        0 <= k < j ==> (#[trigger] outcomes@[k]).is_valid
                                    &&& error == ValidationErrorView::BlockValidationFailure(
                                        "Block "@ + block.header_signature@
                                            + " failed validation: batch "@
                                            + results.batch_results@[i].0@
                                            + " was invalid due to transaction "@
                                            + outcomes@[j].signature@,
                                    )
                                },
                        }
                    }
            },
        },
{
    law_an_execution_is_shown_as_it_is(results);
    let shown = results@.batch_results;
    let entries = results.batch_results@;
    if results.ending_state_hash is Some && (results.ending_state_hash->0)@
        == block.state_root_hash@ {
        let i = lemma_where_the_first_defect_is(shown);
        let entry = entries[i];
        assert(shown[i].batch_id == entry.0@);
        assert forall|k: int| 0 <= k < i implies {
            &&& (#[trigger] entries[k]).1 matches Some(outcomes)
            &&& forall|j: int| 0 <= j < outcomes@.len() ==> (#[trigger] outcomes@[j]).is_valid
        } by {
            assert(shown[k].transaction_results is Some);
            let outcomes = entries[k].1->0@;
            assert forall|j: int| 0 <= j < outcomes.len() implies (
            #[trigger] outcomes[j]).is_valid by {
                assert(shown[k].transaction_results->0[j] == outcomes[j]@);
            }
        }
        if let Some(outcomes) = entry.1 {
            let seen = shown[i].transaction_results->0;
            let j = lemma_where_the_first_invalid_is(seen);
            assert(seen[j] == outcomes@[j]@);
            assert forall|k: int| 0 <= k < j implies (#[trigger] outcomes@[k]).is_valid by {
                assert(seen[k] == outcomes@[k]@);
            }
            assert(!outcomes@[j].is_valid);
        }
    }
}

/// A block whose execution had no outcome is found invalid, and the text says so.
pub proof fn law_a_block_without_an_outcome_is_invalid(block: &Block)
    ensures
        judged(block@, None) == Err::<BlockValidationResultView, ValidationErrorView>(
            ValidationErrorView::BlockValidationFailure(
                "Block "@ + block.header_signature@
                    + " failed validation: no execution results produced"@,
            ),
        ),
{
}

/// How a block comes to be executed: a schedule is opened on the state that the predecessor left,
/// or on the empty state where that is not known, after the predecessor. Where that fails the
/// block is left undecided, with the cause. Returns the hash of the empty state and what came of
/// opening the schedule.
pub proof fn law_how_a_schedule_is_opened<P: ExecutionPlatform + Send>(
    validation: &BatchesInBlockValidation<P>,
    block: &Block,
    previous_state_root: Option<&String>,
    result: Result<BlockValidationResult, ValidationError>,
) -> (opened: (String, Result<P::Scheduler, ServiceError>))
    requires
        call_ensures(
            <BatchesInBlockValidation<P> as BlockValidation>::validate_block,
            (validation, block, previous_state_root),
            result,
        ),
    ensures
        match previous_state_root {
            Some(state_root) => call_ensures(
                P::create_scheduler,
                (&validation.transaction_executor, state_root, &block.previous_block_id),
                opened.1,
            ),
            None => call_ensures(
                P::null_state_hash,
                (&validation.transaction_executor,),
                opened.0,
            ) && call_ensures(
                P::create_scheduler,
                (&validation.transaction_executor, &opened.0, &block.previous_block_id),
                opened.1,
            ),
        },
        match opened.1 {
            Err(cause) => {
                &&& result matches Err(ValidationError::BlockValidationError(text))
                &&& text@ == "Error during validation of block "@ + block.header_signature@
                    + " batches: "@ + cause.detail@
            },
            Ok(start) => executed_on(block, start, outcome(result)),
        },
        result matches Ok(valid) ==> valid.num_transactions == valid.execution_results@.len(),
{
    let seen = outcome(result);
    let (null_state_hash, opening) = choose|
        null_state_hash: String,
        opening: Result<P::Scheduler, ServiceError>,
    |
        {
            &&& call_ensures(
                P::null_state_hash,
                (&validation.transaction_executor,),
                null_state_hash,
            )
            &&& #[trigger] call_ensures(
                P::create_scheduler,
                (
                    &validation.transaction_executor,
                    starting_state(previous_state_root, null_state_hash),
                    &block.previous_block_id,
                ),
                opening,
            )
            &&& match opening {
                Err(cause) => seen == Err::<BlockValidationResultView, ValidationErrorView>(
                    not_opened(block@, cause@),
                ),
                Ok(start) => executed_on(block, start, seen),
            }
        };
    assert(executed(&validation.transaction_executor, block, previous_state_root, seen));
    (null_state_hash, opening)
}

/// The copy of a batch that was added to a schedule.
proof fn lemma_what_was_added<S: Scheduler>(
    block: &Block,
    i: int,
    before: S,
    after: S,
    result: Result<(), ServiceError>,
) -> (batch: Batch)
    requires
        added(block, i, before, after, result),
    ensures
        batch@ == block.batches@[i]@,
        call_ensures(
            S::add_batch,
            (before, block.block_num, batch, expected_state(block, i), false),
            (after, result),
        ),
{
    choose|batch: Batch|
        {
            &&& batch@ == block.batches@[i]@
            &&& #[trigger] call_ensures(
                S::add_batch,
                (before, block.block_num, batch, expected_state(block, i), false),
                (after, result),
            )
        }
}

/// The copies of the batches that were added, up to one of them.
proof fn lemma_what_all_was_added<S: Scheduler>(
    block: &Block,
    schedules: Seq<S>,
    n: int,
) -> (batches: Seq<Batch>)
    requires
        all_added(block, schedules),
        0 <= n < schedules.len(),
    ensures
        batches.len() == n,
        forall|i: int|
            0 <= i < n ==> {
                &&& (#[trigger] batches[i])@ == block.batches@[i]@
                &&& call_ensures(
                    S::add_batch,
                    (schedules[i], block.block_num, batches[i], expected_state(block, i), false),
                    (schedules[i + 1], Ok::<(), ServiceError>(())),
                )
            },
    decreases n,
{
    if n == 0 {
        Seq::empty()
    } else {
        let batches = lemma_what_all_was_added(block, schedules, n - 1);
        assert(added_at(block, schedules, n - 1));
        let batch = lemma_what_was_added(
            block,
            n - 1,
            schedules[n - 1],
            schedules[n - 1 + 1],
            Ok(()),
        );
        batches.push(batch)
    }
}

/// How a schedule is filled: every batch of the block is added to it, whole, once and in order,
/// each to the schedule that the one before it left; the last one with the state that the block
/// states, and only that one with a state; and none is required. It ends with the first that
/// cannot be added, which leaves the block undecided, with the cause. Returns the schedules in
/// between, the copies of the batches that were added and, where one could not be, its copy, the
/// schedule that was left and the cause.
pub proof fn law_how_a_schedule_is_filled<S: Scheduler>(
    block: &Block,
    start: S,
    result: Result<S, ValidationErrorView>,
) -> (seen: (Seq<S>, Seq<Batch>, (Batch, S, ServiceError)))
    requires
        filled(block, start, result),
    ensures
        seen.0.len() == seen.1.len() + 1,
        seen.0[0] == start,
        forall|i: int|
            0 <= i < seen.1.len() ==> {
                &&& (#[trigger] seen.1[i])@ == block.batches@[i]@
                &&& call_ensures(
                    S::add_batch,
                    (
                        seen.0[i],
                        block.block_num,
                        seen.1[i],
                        if i == block.batches@.len() - 1 {
                            Some(&block.state_root_hash)
                        } else {
                            None
                        },
                        false,
                    ),
                    (seen.0[i + 1], Ok::<(), ServiceError>(())),
                )
            },
        match result {
            Ok(full) => {
                &&& seen.1.len() == block.batches@.len()
                &&& full == seen.0[block.batches@.len() as int]
            },
            Err(error) => {
                &&& seen.1.len() < block.batches@.len()
                &&& seen.2.0@ == block.batches@[seen.1.len() as int]@
                &&& call_ensures(
                    S::add_batch,
                    (
                        seen.0[seen.1.len() as int],
                        block.block_num,
                        seen.2.0,
                        if seen.1.len() == block.batches@.len() - 1 {
                            Some(&block.state_root_hash)
                        } else {
                            None
                        },
                        false,
                    ),
                    (seen.2.1, Err::<(), ServiceError>(seen.2.2)),
                )
                &&& error == ValidationErrorView::BlockValidationError(
                    if seen.1.len() == block.batches@.len() - 1 {
                        "While adding the last batch to the schedule: "@ + seen.2.2.detail@
                    } else {
                        "While adding a batch to the schedule: "@ + seen.2.2.detail@
                    },
                )
            },
        },
{
    let schedules = choose|schedules: Seq<S>|
        {
            &&& #[trigger] all_added(block, schedules)
            &&& schedules[0] == start
            &&& match result {
                Ok(schedule) => {
                    &&& schedules.len() == block.batches@.len() + 1
                    &&& schedule == schedules.last()
                },
                Err(error) => {
                    &&& schedules.len() <= block.batches@.len()
                    &&& exists|after: S, cause: ServiceError|
                        {
                            &&& #[trigger] added(
                                block,
                                schedules.len() - 1,
                                schedules.last(),
                                after,
                                Err(cause),
                            )
                            &&& error == not_added(block, schedules.len() - 1, cause@)
                        }
                },
            }
        };
    let n = schedules.len() - 1;
    let batches = lemma_what_all_was_added(block, schedules, n);
    if result is Err {
        let (after, cause) = choose|after: S, cause: ServiceError|
            {
                &&& #[trigger] added(block, n, schedules.last(), after, Err(cause))
                &&& result->Err_0 == not_added(block, n, cause@)
            };
        let batch = lemma_what_was_added(block, n, schedules.last(), after, Err(cause));
        (schedules, batches, (batch, after, cause))
    } else {
        (schedules, batches, arbitrary())
    }
}

/// What follows a schedule that was filled: it is closed, keeping what has not been executed, and
/// its outcome is waited for and judged. What fails on the way leaves the block undecided, with
/// the cause. Returns what came of filling, closing and completing the schedule, with the schedule
/// after each of the last two.
pub proof fn law_how_a_block_is_executed<S: Scheduler>(
    block: &Block,
    start: S,
    result: Result<BlockValidationResultView, ValidationErrorView>,
) -> (seen: (
    Result<S, ValidationErrorView>,
    (S, Result<(), ServiceError>),
    (S, Result<Option<ExecutionResults>, ServiceError>),
))
    requires
        executed_on(block, start, result),
    ensures
        filled(block, start, seen.0),
        match seen.0 {
            Err(error) => result == Err::<BlockValidationResultView, ValidationErrorView>(error),
            Ok(full) => {
                &&& call_ensures(S::finalize, (full, false), seen.1)
                &&& match seen.1.1 {
                    Err(cause) => result == Err::<BlockValidationResultView, ValidationErrorView>(
                        ValidationErrorView::BlockValidationError(
                            "During call to scheduler.finalize: "@ + cause.detail@,
                        ),
                    ),
                    Ok(_) => {
                        &&& call_ensures(S::complete, (seen.1.0, true), seen.2)
                        &&& match seen.2.1 {
                            Err(cause) => result == Err::<
                                BlockValidationResultView,
                                ValidationErrorView,
                            >(
                                ValidationErrorView::BlockValidationError(
                                    "During call to scheduler.complete: "@ + cause.detail@,
                                ),
                            ),
                            Ok(None) => result == judged(block@, None),
                            Ok(Some(results)) => result == judged(block@, Some(results@)),
                        }
                    },
                }
            },
        },
{
    let filling = choose|filling: Result<S, ValidationErrorView>|
        {
            &&& #[trigger] filled(block, start, filling)
            &&& match filling {
                Err(error) => result == Err::<BlockValidationResultView, ValidationErrorView>(
                    error,
                ),
                Ok(full) => closed_and_completed(block, full, result),
            }
        };
    let (closed, closing) = choose|closed: S, closing: Result<(), ServiceError>|
        {
            &&& #[trigger] call_ensures(S::finalize, (filling->Ok_0, false), (closed, closing))
            &&& match closing {
                Err(cause) => result == Err::<BlockValidationResultView, ValidationErrorView>(
                    not_closed(cause@),
                ),
                Ok(_) => completed(block, closed, result),
            }
        };
    let (after, completion) = choose|
        after: S,
        completion: Result<Option<ExecutionResults>, ServiceError>,
    |
        {
            &&& #[trigger] call_ensures(S::complete, (closed, true), (after, completion))
            &&& result == match completion {
                Err(cause) => Err(not_completed(cause@)),
                Ok(None) => judged(block@, None),
                Ok(Some(results)) => judged(block@, Some(results@)),
            }
        };
    if filling is Ok {
        assert(closed_and_completed(block, filling->Ok_0, result));
        if closing is Ok {
            assert(completed(block, closed, result));
        }
    }
    (filling, (closed, closing), (after, completion))
}

} // verus!
