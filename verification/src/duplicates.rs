//! The validation of a block against the chain of its predecessors.

use crate::block::{
    batch_views, transaction_views, Batch, BatchView, Block, Transaction, TransactionView,
};
use crate::error::{
    chain_finding, lemma_unit_success, outcome, ChainCommitStateError, ValidationError,
    ValidationErrorView,
};
use crate::sequence::{lemma_flatten_last, lemma_flatten_place, lemma_flatten_room};
use crate::service::BlockManager;
use crate::validation::BlockValidation;
use vstd::prelude::*;

verus! {

/// The texts of listed identifiers.
pub open spec fn id_texts(ids: Seq<&String>) -> Seq<Seq<char>> {
    ids.map_values(|id: &String| id@)
}

/// The identifiers of batches.
pub open spec fn batch_ids(batches: Seq<BatchView>) -> Seq<Seq<char>> {
    batches.map_values(|b: BatchView| b.header_signature)
}

/// All the transactions, batch after batch.
pub open spec fn all_transactions(batches: Seq<BatchView>) -> Seq<TransactionView>
    decreases batches.len(),
{
    if batches.len() == 0 {
        seq![]
    } else {
        all_transactions(batches.drop_last()) + batches.last().transactions
    }
}

/// The identifiers of all the transactions, batch after batch.
pub open spec fn transaction_ids(batches: Seq<BatchView>) -> Seq<Seq<char>> {
    all_transactions(batches).map_values(|t: TransactionView| t.header_signature)
}

/// The search for duplicates of the block's batches had this result.
pub open spec fn batches_searched<M: BlockManager>(
    manager: &M,
    block: &Block,
    result: Result<(), ChainCommitStateError>,
) -> bool {
    exists|ids: &[&String]|
        {
            &&& id_texts(ids@) == batch_ids(block@.batches)
            &&& #[trigger] call_ensures(
                M::validate_no_duplicate_batches,
                (manager, &block.previous_block_id, ids),
                result,
            )
        }
}

/// The search for duplicates of the block's transactions had this result.
pub open spec fn transactions_searched<M: BlockManager>(
    manager: &M,
    block: &Block,
    result: Result<(), ChainCommitStateError>,
) -> bool {
    exists|ids: &[&String]|
        {
            &&& id_texts(ids@) == transaction_ids(block@.batches)
            &&& #[trigger] call_ensures(
                M::validate_no_duplicate_transactions,
                (manager, &block.previous_block_id, ids),
                result,
            )
        }
}

/// The search for what the block's transactions depend on had this result.
pub open spec fn dependencies_searched<M: BlockManager>(
    manager: &M,
    block: &Block,
    result: Result<(), ChainCommitStateError>,
) -> bool {
    exists|transactions: Vec<Transaction>|
        {
            &&& transaction_views(transactions@) == all_transactions(block@.batches)
            &&& #[trigger] call_ensures(
                M::validate_transaction_dependencies,
                (manager, &block.previous_block_id, &transactions),
                result,
            )
        }
}

/// The three searches, one after the other up to the first that finds something, led to this
/// result.
pub open spec fn checked_against_chain<M: BlockManager>(
    manager: &M,
    block: &Block,
    result: Result<(), ValidationErrorView>,
) -> bool {
    ||| exists|error: ChainCommitStateError|
        {
            &&& #[trigger] batches_searched(manager, block, Err(error))
            &&& result == Err::<(), ValidationErrorView>(chain_finding(error@))
        }
    ||| batches_searched(manager, block, Ok(())) && exists|error: ChainCommitStateError|
        {
            &&& #[trigger] transactions_searched(manager, block, Err(error))
            &&& result == Err::<(), ValidationErrorView>(chain_finding(error@))
        }
    ||| batches_searched(manager, block, Ok(())) && transactions_searched(manager, block, Ok(()))
        && exists|error: ChainCommitStateError|
        {
            &&& #[trigger] dependencies_searched(manager, block, Err(error))
            &&& result == Err::<(), ValidationErrorView>(chain_finding(error@))
        }
    ||| {
        &&& batches_searched(manager, block, Ok(()))
        &&& transactions_searched(manager, block, Ok(()))
        &&& dependencies_searched(manager, block, Ok(()))
        &&& result is Ok
    }
}

/// Lists the identifiers of batches.
fn list_batch_ids(batches: &Vec<Batch>) -> (ids: Vec<&String>)
    ensures
        id_texts(ids@) == batch_ids(batch_views(batches@)),
{
    let mut ids: Vec<&String> = Vec::new();
    let mut i: usize = 0;
    while i < batches.len()
        invariant
            i <= batches.len(),
            ids.len() == i,
            forall|k: int| 0 <= k < i ==> (#[trigger] ids@[k])@ == batches@[k].header_signature@,
        decreases batches.len() - i,
    {
        ids.push(&batches[i].header_signature);
        i += 1;
    }
    assert(id_texts(ids@) =~= batch_ids(batch_views(batches@)));
    ids
}

/// Lists the identifiers of all the transactions of some batches.
fn list_transaction_ids(batches: &Vec<Batch>) -> (ids: Vec<&String>)
    ensures
        id_texts(ids@) == transaction_ids(batch_views(batches@)),
{
    let ghost views = batch_views(batches@);
    let mut ids: Vec<&String> = Vec::new();
    assert(id_texts(ids@) =~= transaction_ids(views.take(0)));
    let mut i: usize = 0;
    while i < batches.len()
        invariant
            i <= batches.len(),
            views == batch_views(batches@),
            id_texts(ids@) == transaction_ids(views.take(i as int)),
        decreases batches.len() - i,
    {
        let transactions: &Vec<Transaction> = &batches[i].transactions;
        let ghost before = id_texts(ids@);
        let mut j: usize = 0;
        while j < transactions.len()
            invariant
                j <= transactions.len(),
                ids.len() == before.len() + j,
                forall|k: int| 0 <= k < before.len() ==> (#[trigger] ids@[k])@ == before[k],
                forall|k: int|
                    before.len() <= k < ids.len() ==> (#[trigger] ids@[k])@ == transactions@[k
                        - before.len()].header_signature@,
            decreases transactions.len() - j,
        {
            ids.push(&transactions[j].header_signature);
            j += 1;
        }
        proof {
            let n = i as int;
            assert(views.take(n + 1).drop_last() =~= views.take(n));
            assert(all_transactions(views.take(n + 1)) == all_transactions(views.take(n))
                + views[n].transactions);
            assert(id_texts(ids@) =~= transaction_ids(views.take(n + 1)));
        }
        i += 1;
    }
    assert(views.take(i as int) =~= views);
    ids
}

/// Copies all the transactions of some batches into one list.
fn list_transactions(batches: &Vec<Batch>) -> (listed: Vec<Transaction>)
    ensures
        transaction_views(listed@) == all_transactions(batch_views(batches@)),
{
    let ghost views = batch_views(batches@);
    let mut listed: Vec<Transaction> = Vec::new();
    assert(transaction_views(listed@) =~= all_transactions(views.take(0)));
    let mut i: usize = 0;
    while i < batches.len()
        invariant
            i <= batches.len(),
            views == batch_views(batches@),
            transaction_views(listed@) == all_transactions(views.take(i as int)),
        decreases batches.len() - i,
    {
        let transactions: &Vec<Transaction> = &batches[i].transactions;
        let ghost before = transaction_views(listed@);
        let mut j: usize = 0;
        while j < transactions.len()
            invariant
                j <= transactions.len(),
                listed.len() == before.len() + j,
                forall|k: int| 0 <= k < before.len() ==> (#[trigger] listed@[k])@ == before[k],
                forall|k: int|
                    before.len() <= k < listed.len() ==> (#[trigger] listed@[k])@
                        == transactions@[k - before.len()]@,
            decreases transactions.len() - j,
        {
            listed.push(transactions[j].clone());
            j += 1;
        }
        proof {
            let n = i as int;
            assert(views.take(n + 1).drop_last() =~= views.take(n));
            assert(transaction_views(listed@) =~= before + views[n].transactions);
        }
        i += 1;
    }
    assert(views.take(i as int) =~= views);
    listed
}

/// Validates that nothing in a block is already in its chain, or twice in the block, and that
/// what its transactions depend on is there.
pub struct DuplicatesAndDependenciesValidation<M: BlockManager> {
    /// The blocks that are known.
    pub block_manager: M,
}

impl<M: BlockManager> DuplicatesAndDependenciesValidation<M> {
    /// A validation against the chains of the given block tree.
    pub fn new(block_manager: M) -> (validation: Self)
        ensures
            validation.block_manager == block_manager,
    {
        DuplicatesAndDependenciesValidation { block_manager }
    }
}

impl<M: BlockManager + Send> BlockValidation for DuplicatesAndDependenciesValidation<M> {
    type ReturnValue = ();

    fn validate_block(&self, block: &Block, previous_state_root: Option<&String>) -> (result:
        Result<(), ValidationError>)
        ensures
            checked_against_chain(&self.block_manager, block, outcome(result)),
    {
        let batch_ids: Vec<&String> = list_batch_ids(&block.batches);
        let searched: Result<(), ChainCommitStateError> =
            self.block_manager.validate_no_duplicate_batches(
            &block.previous_block_id,
            batch_ids.as_slice(),
        );
        assert(batches_searched(&self.block_manager, block, searched));
        match searched {
            Ok(()) => (),
            Err(error) => {
                return Err(ValidationError::from(error));
            },
        }
        proof {
            lemma_unit_success(searched);
        }
        let txn_ids: Vec<&String> = list_transaction_ids(&block.batches);
        let searched: Result<(), ChainCommitStateError> =
            self.block_manager.validate_no_duplicate_transactions(
            &block.previous_block_id,
            txn_ids.as_slice(),
        );
        assert(transactions_searched(&self.block_manager, block, searched));
        match searched {
            Ok(()) => (),
            Err(error) => {
                return Err(ValidationError::from(error));
            },
        }
        proof {
            lemma_unit_success(searched);
        }
        let transactions: Vec<Transaction> = list_transactions(&block.batches);
        let searched: Result<(), ChainCommitStateError> =
            self.block_manager.validate_transaction_dependencies(
            &block.previous_block_id,
            &transactions,
        );
        assert(dependencies_searched(&self.block_manager, block, searched));
        match searched {
            Ok(()) => (),
            Err(error) => {
                return Err(ValidationError::from(error));
            },
        }
        proof {
            lemma_unit_success(searched);
        }
        Ok(())
    }
}

/// Validation against the chain is dependent: it reports that the chain was changed, but only if
/// one of the searches found just that.
pub proof fn law_chain_check_is_dependent<M: BlockManager>(manager: &M, block: &Block)
    requires
        checked_against_chain(manager, block, Err(ValidationErrorView::BlockStoreUpdated)),
    ensures
        batches_searched(manager, block, Err(ChainCommitStateError::BlockStoreUpdated))
            || transactions_searched(manager, block, Err(ChainCommitStateError::BlockStoreUpdated))
            || dependencies_searched(manager, block, Err(ChainCommitStateError::BlockStoreUpdated)),
{
}

/// The identifiers that are searched for are those of the transactions whose dependencies are
/// searched for, in the same order.
pub proof fn law_same_transactions_are_searched(batches: Seq<BatchView>)
    ensures
        transaction_ids(batches).len() == all_transactions(batches).len(),
        forall|i: int|
            0 <= i < transaction_ids(batches).len() ==> #[trigger] transaction_ids(batches)[i]
                == all_transactions(batches)[i].header_signature,
{
}

/// Every batch of a block is searched for, by its identifier and in the order of the batches, in
/// the chain that ends in the block's predecessor.
pub proof fn law_every_batch_is_searched_for<M: BlockManager>(
    manager: &M,
    block: &Block,
    result: Result<(), ChainCommitStateError>,
)
    requires
        batches_searched(manager, block, result),
    ensures
        exists|ids: &[&String]|
            {
                &&& #[trigger] call_ensures(
                    M::validate_no_duplicate_batches,
                    (manager, &block.previous_block_id, ids),
                    result,
                )
                &&& ids@.len() == block.batches@.len()
                &&& forall|i: int|
                    0 <= i < block.batches@.len() ==> ids@[i]@ == (
                    #[trigger] block.batches@[i]).header_signature@
            },
{
    let ids = choose|ids: &[&String]|
        {
            &&& id_texts(ids@) == batch_ids(block@.batches)
            &&& #[trigger] call_ensures(
                M::validate_no_duplicate_batches,
                (manager, &block.previous_block_id, ids),
                result,
            )
        };
    assert(id_texts(ids@).len() == block.batches@.len());
    assert forall|i: int| 0 <= i < block.batches@.len() implies ids@[i]@ == (
    #[trigger] block.batches@[i]).header_signature@ by {
        assert(id_texts(ids@)[i] == batch_ids(block@.batches)[i]);
    }
}

/// The transactions of some batches are listed batch after batch.
proof fn lemma_all_transactions(batches: Seq<Batch>, parts: Seq<Seq<Transaction>>)
    requires
        parts.len() == batches.len(),
        forall|i: int|
            0 <= i < batches.len() ==> #[trigger] parts[i] == batches[i].transactions@,
    ensures
        all_transactions(batch_views(batches)) == transaction_views(parts.flatten()),
    decreases batches.len(),
{
    if batches.len() == 0 {
        assert(all_transactions(batch_views(batches)) =~= transaction_views(parts.flatten()));
    } else {
        let n = batches.len() - 1;
        lemma_all_transactions(batches.drop_last(), parts.drop_last());
        lemma_flatten_last(parts);
        assert(batch_views(batches).drop_last() =~= batch_views(batches.drop_last()));
        assert(batch_views(batches).last() == batches[n]@);
        assert(parts.last() == batches[n].transactions@);
        assert(all_transactions(batch_views(batches)) =~= transaction_views(parts.flatten()));
    }
}

/// Every transaction of every batch of a block is searched for once, by its identifier, in the
/// chain that ends in the block's predecessor: the transactions of a batch come after those of
/// the batches before it, in their order, and nothing else is searched for. `parts` are the
/// transactions of each batch.
pub proof fn law_every_transaction_is_searched_for<M: BlockManager>(
    manager: &M,
    block: &Block,
    parts: Seq<Seq<Transaction>>,
    result: Result<(), ChainCommitStateError>,
)
    requires
        transactions_searched(manager, block, result),
        parts.len() == block.batches@.len(),
        forall|i: int|
            0 <= i < parts.len() ==> #[trigger] parts[i] == block.batches@[i].transactions@,
    ensures
        exists|ids: &[&String]|
            {
                &&& #[trigger] call_ensures(
                    M::validate_no_duplicate_transactions,
                    (manager, &block.previous_block_id, ids),
                    result,
                )
                &&& ids@.len() == parts.flatten().len()
                &&& forall|i: int|
                    0 <= i < block.batches@.len() ==> #[trigger] parts.take(i).flatten().len()
                        + block.batches@[i].transactions@.len() <= ids@.len()
                &&& forall|i: int, j: int|
                    0 <= i < block.batches@.len() && 0 <= j
                        < block.batches@[i].transactions@.len() ==> ids@[parts.take(
                        i,
                    ).flatten().len() + j]@ == (#[trigger] block.batches@[i].transactions@[j]).header_signature@
            },
{
    let ids = choose|ids: &[&String]|
        {
            &&& id_texts(ids@) == transaction_ids(block@.batches)
            &&& #[trigger] call_ensures(
                M::validate_no_duplicate_transactions,
                (manager, &block.previous_block_id, ids),
                result,
            )
        };
    lemma_all_transactions(block.batches@, parts);
    assert(id_texts(ids@).len() == parts.flatten().len());
    assert forall|i: int| 0 <= i < block.batches@.len() implies #[trigger] parts.take(
        i,
    ).flatten().len() + block.batches@[i].transactions@.len() <= ids@.len() by {
        assert(parts[i] == block.batches@[i].transactions@);
        lemma_flatten_room(parts, i);
    }
    assert forall|i: int, j: int|
        0 <= i < block.batches@.len() && 0 <= j
            < block.batches@[i].transactions@.len() implies ids@[parts.take(i).flatten().len() + j]@
        == (#[trigger] block.batches@[i].transactions@[j]).header_signature@ by {
        assert(parts[i] == block.batches@[i].transactions@);
        lemma_flatten_place(parts, i, j);
        let place = parts.take(i).flatten().len() + j;
        assert(id_texts(ids@)[place] == transaction_ids(block@.batches)[place]);
    }
}

/// What every transaction of every batch of a block depends on is searched for, in the chain that
/// ends in the block's predecessor: each transaction is handed on once and whole, those of a
/// batch after those of the batches before it, in their order, and nothing else is. `parts` are
/// the transactions of each batch.
pub proof fn law_every_dependency_is_searched_for<M: BlockManager>(
    manager: &M,
    block: &Block,
    parts: Seq<Seq<Transaction>>,
    result: Result<(), ChainCommitStateError>,
)
    requires
        dependencies_searched(manager, block, result),
        parts.len() == block.batches@.len(),
        forall|i: int|
            0 <= i < parts.len() ==> #[trigger] parts[i] == block.batches@[i].transactions@,
    ensures
        exists|transactions: Vec<Transaction>|
            {
                &&& #[trigger] call_ensures(
                    M::validate_transaction_dependencies,
                    (manager, &block.previous_block_id, &transactions),
                    result,
                )
                &&& transactions@.len() == parts.flatten().len()
                &&& forall|i: int|
                    0 <= i < block.batches@.len() ==> #[trigger] parts.take(i).flatten().len()
                        + block.batches@[i].transactions@.len() <= transactions@.len()
                &&& forall|i: int, j: int|
                    0 <= i < block.batches@.len() && 0 <= j
                        < block.batches@[i].transactions@.len() ==> transactions@[parts.take(
                        i,
                    ).flatten().len() + j]@ == (#[trigger] block.batches@[i].transactions@[j])@
            },
{
    let transactions = choose|transactions: Vec<Transaction>|
        {
            &&& transaction_views(transactions@) == all_transactions(block@.batches)
            &&& #[trigger] call_ensures(
                M::validate_transaction_dependencies,
                (manager, &block.previous_block_id, &transactions),
                result,
            )
        };
    lemma_all_transactions(block.batches@, parts);
    assert(transaction_views(transactions@).len() == parts.flatten().len());
    assert forall|i: int| 0 <= i < block.batches@.len() implies #[trigger] parts.take(
        i,
    ).flatten().len() + block.batches@[i].transactions@.len() <= transactions@.len() by {
        assert(parts[i] == block.batches@[i].transactions@);
        lemma_flatten_room(parts, i);
    }
    assert forall|i: int, j: int|
        0 <= i < block.batches@.len() && 0 <= j
            < block.batches@[i].transactions@.len() implies transactions@[parts.take(i).flatten().len() + j]@
        == (#[trigger] block.batches@[i].transactions@[j])@ by {
        assert(parts[i] == block.batches@[i].transactions@);
        lemma_flatten_place(parts, i, j);
        let place = parts.take(i).flatten().len() + j;
        assert(transaction_views(transactions@)[place] == transaction_views(parts.flatten())[place]);
    }
}

/// A block passes the checks against the chain only if none of the three searches found anything,
/// and otherwise ends in what the first that found something found: no search comes after it.
pub proof fn law_chain_check_ends_with_the_first_finding<M: BlockManager + Send>(
    validation: &DuplicatesAndDependenciesValidation<M>,
    block: &Block,
    previous_state_root: Option<&String>,
    result: Result<(), ValidationError>,
)
    requires
        call_ensures(
            <DuplicatesAndDependenciesValidation<M> as BlockValidation>::validate_block,
            (validation, block, previous_state_root),
            result,
        ),
    ensures
        match result {
            Ok(_) => {
                &&& batches_searched(&validation.block_manager, block, Ok(()))
                &&& transactions_searched(&validation.block_manager, block, Ok(()))
                &&& dependencies_searched(&validation.block_manager, block, Ok(()))
            },
            Err(error) => {
                ||| exists|finding: ChainCommitStateError|
                    {
                        &&& #[trigger] batches_searched(
                            &validation.block_manager,
                            block,
                            Err(finding),
                        )
                        &&& error@ == chain_finding(finding@)
                    }
                ||| exists|finding: ChainCommitStateError|
                    {
                        &&& batches_searched(&validation.block_manager, block, Ok(()))
                        &&& #[trigger] transactions_searched(
                            &validation.block_manager,
                            block,
                            Err(finding),
                        )
                        &&& error@ == chain_finding(finding@)
                    }
                ||| exists|finding: ChainCommitStateError|
                    {
                        &&& batches_searched(&validation.block_manager, block, Ok(()))
                        &&& transactions_searched(&validation.block_manager, block, Ok(()))
                        &&& #[trigger] dependencies_searched(
                            &validation.block_manager,
                            block,
                            Err(finding),
                        )
                        &&& error@ == chain_finding(finding@)
                    }
            },
        },
{
    assert(checked_against_chain(&validation.block_manager, block, outcome(result)));
}

} // verus!
