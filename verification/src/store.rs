//! The store of the latest validation results.

use crate::result::{BlockStatus, BlockValidationResult, BlockValidationResultView};
use crate::service::ResultKeeper;
use vstd::prelude::*;

verus! {

/// The number of results that are kept.
pub const BLOCK_VALIDATION_RESULT_CACHE_SIZE: usize = 512;

/// `uluru::LRUCache`: a cache of at most `N` items that forgets the one least recently used.
#[verifier::external_type_specification]
#[verifier::external_body]
#[verifier::reject_recursive_types(T)]
pub struct ExLRUCache<T, const N: usize>(uluru::LRUCache<T, N>);

/// What a cache of validation results holds, the most recently used first.
pub uninterp spec fn cached(
    cache: uluru::LRUCache<BlockValidationResult, BLOCK_VALIDATION_RESULT_CACHE_SIZE>,
) -> Seq<BlockValidationResultView>;

/// What is held after a result was inserted: the result comes first, and the last one goes where
/// there is no room for all.
pub open spec fn inserted(
    results: Seq<BlockValidationResultView>,
    result: BlockValidationResultView,
) -> Seq<BlockValidationResultView> {
    let all = seq![result] + results;
    if all.len() <= BLOCK_VALIDATION_RESULT_CACHE_SIZE {
        all
    } else {
        all.take(BLOCK_VALIDATION_RESULT_CACHE_SIZE as int)
    }
}

/// The index of the first result of a block.
pub open spec fn position(
    results: Seq<BlockValidationResultView>,
    block_id: Seq<char>,
) -> Option<int>
    decreases results.len(),
{
    if results.len() == 0 {
        None
    } else if position(results.drop_last(), block_id) is Some {
        position(results.drop_last(), block_id)
    } else if results.last().block_id == block_id {
        Some(results.len() - 1)
    } else {
        None
    }
}

/// The first result of a block: the one that a lookup finds.
pub open spec fn found(
    results: Seq<BlockValidationResultView>,
    block_id: Seq<char>,
) -> Option<BlockValidationResultView> {
    match position(results, block_id) {
        Some(i) => Some(results[i]),
        None => None,
    }
}

/// What is held after a lookup: the result that was found comes first.
pub open spec fn looked_up(
    results: Seq<BlockValidationResultView>,
    block_id: Seq<char>,
) -> Seq<BlockValidationResultView> {
    match position(results, block_id) {
        Some(i) => seq![results[i]] + results.remove(i),
        None => results,
    }
}

/// The status that goes with a lookup's answer.
pub open spec fn status_of(answer: Option<BlockValidationResultView>) -> BlockStatus {
    match answer {
        Some(result) => result.status,
        None => BlockStatus::Unknown,
    }
}

/// Calls the `Default` of `uluru::LRUCache`: the new cache holds nothing.
#[verifier::external_body]
fn new_cache() -> (cache: uluru::LRUCache<
    BlockValidationResult,
    BLOCK_VALIDATION_RESULT_CACHE_SIZE,
>)
    ensures
        cached(cache) == Seq::<BlockValidationResultView>::empty(),
{
    uluru::LRUCache::default()
}

/// Calls `uluru::LRUCache::insert`: the result becomes the most recently used, and where the
/// cache is full the least recently used goes.
#[verifier::external_body]
fn insert_into_cache(
    cache: &mut uluru::LRUCache<BlockValidationResult, BLOCK_VALIDATION_RESULT_CACHE_SIZE>,
    result: BlockValidationResult,
)
    ensures
        cached(*final(cache)) == inserted(cached(*old(cache)), result@),
{
    cache.insert(result)
}

/// Calls `uluru::LRUCache::find` for a block's identifier: the items are tried from the most to
/// the least recently used, and the first that matches is returned and becomes the most recently
/// used.
#[verifier::external_body]
fn find_in_cache<'a>(
    cache: &'a mut uluru::LRUCache<BlockValidationResult, BLOCK_VALIDATION_RESULT_CACHE_SIZE>,
    block_id: &String,
) -> (result: Option<&'a BlockValidationResult>)
    ensures
        cached(*final(cache)) == looked_up(cached(*old(cache)), block_id@),
        match result {
            Some(result) => found(cached(*old(cache)), block_id@) == Some(result@),
            None => found(cached(*old(cache)), block_id@) is None,
        },
{
    match cache.find(|result| concerns(result, block_id)) {
        Some(result) => Some(result),
        None => None,
    }
}

/// Whether a result is about the block of this identifier.
fn concerns(result: &BlockValidationResult, block_id: &String) -> (same: bool)
    ensures
        same == (result@.block_id == block_id@),
{
    result.block_id == *block_id
}

/// Something that knows the status of blocks. Asking may change what is remembered for how long,
/// hence the exclusive access.
pub trait BlockStatusStore: Send + Sync {
    /// The status of the block of this identifier.
    fn status(&mut self, block_id: &str) -> BlockStatus;
}

/// A store of the latest validation results.
pub struct BlockValidationResultStore {
    validation_result_cache: uluru::LRUCache<
        BlockValidationResult,
        BLOCK_VALIDATION_RESULT_CACHE_SIZE,
    >,
}

impl View for BlockValidationResultStore {
    type V = Seq<BlockValidationResultView>;

    /// The results that are held, the most recently used first.
    closed spec fn view(&self) -> Seq<BlockValidationResultView> {
        cached(self.validation_result_cache)
    }
}

impl Default for BlockValidationResultStore {
    fn default() -> (store: Self)
        ensures
            store@ == Seq::<BlockValidationResultView>::empty(),
            store.well_formed(),
    {
        BlockValidationResultStore { validation_result_cache: new_cache() }
    }
}

impl BlockValidationResultStore {
    /// No more results are held than there is room for.
    pub open spec fn well_formed(&self) -> bool {
        self@.len() <= BLOCK_VALIDATION_RESULT_CACHE_SIZE
    }

    /// A store that holds nothing.
    pub fn new() -> (store: Self)
        ensures
            store@ == Seq::<BlockValidationResultView>::empty(),
            store.well_formed(),
    {
        Self::default()
    }

    /// Stores a result. Where there is no room, the result that was least recently stored or
    /// asked for is forgotten.
    pub fn insert(&mut self, result: BlockValidationResult)
        ensures
            final(self)@ == inserted(old(self)@, result@),
            final(self).well_formed(),
    {
        insert_into_cache(&mut self.validation_result_cache, result);
    }

    /// The result that was stored last for the block of this identifier, if it has not been
    /// forgotten.
    pub fn get(&mut self, block_id: &str) -> (result: Option<BlockValidationResult>)
        ensures
            match result {
                Some(result) => found(old(self)@, block_id@) == Some(result@),
                None => found(old(self)@, block_id@) is None,
            },
            final(self)@ == looked_up(old(self)@, block_id@),
            old(self).well_formed() ==> final(self).well_formed(),
    {
        proof {
            lemma_position(old(self)@, block_id@);
        }
        let id: String = block_id.to_owned();
        match find_in_cache(&mut self.validation_result_cache, &id) {
            Some(result) => Some(result.clone()),
            None => None,
        }
    }
}

impl ResultKeeper for BlockValidationResultStore {
    fn keep(self, result: BlockValidationResult) -> (kept: Self)
        ensures
            kept@ == inserted(self@, result@),
            kept.well_formed(),
    {
        let mut store: Self = self;
        store.insert(result);
        store
    }
}

impl BlockStatusStore for BlockValidationResultStore {
    fn status(&mut self, block_id: &str) -> (status: BlockStatus)
        ensures
            status == status_of(found(old(self)@, block_id@)),
            final(self)@ == looked_up(old(self)@, block_id@),
            old(self).well_formed() ==> final(self).well_formed(),
    {
        proof {
            lemma_position(old(self)@, block_id@);
        }
        let id: String = block_id.to_owned();
        match find_in_cache(&mut self.validation_result_cache, &id) {
            Some(result) => result.status,
            None => BlockStatus::Unknown,
        }
    }
}

/// `position` gives the first index of a block's results, if there is one.
pub proof fn lemma_position(results: Seq<BlockValidationResultView>, block_id: Seq<char>)
    ensures
        match position(results, block_id) {
            Some(i) => {
                &&& 0 <= i < results.len()
                &&& results[i].block_id == block_id
                &&& forall|j: int| 0 <= j < i ==> (#[trigger] results[j]).block_id != block_id
            },
            None => forall|j: int|
                0 <= j < results.len() ==> (#[trigger] results[j]).block_id != block_id,
        },
    decreases results.len(),
{
    if results.len() > 0 {
        let shorter = results.drop_last();
        lemma_position(shorter, block_id);
        assert forall|j: int| 0 <= j < shorter.len() implies shorter[j] == #[trigger] results[
            j
        ] by {}
    }
}

/// An index before which nothing matches is the position.
proof fn lemma_position_is(
    results: Seq<BlockValidationResultView>,
    block_id: Seq<char>,
    i: int,
)
    requires
        0 <= i < results.len(),
        results[i].block_id == block_id,
        forall|j: int| 0 <= j < i ==> (#[trigger] results[j]).block_id != block_id,
    ensures
        position(results, block_id) == Some(i),
{
    lemma_position(results, block_id);
}

/// What was stored is what a lookup then finds, whatever was stored for the block before.
pub proof fn law_insert_then_get(
    results: Seq<BlockValidationResultView>,
    result: BlockValidationResultView,
)
    ensures
        found(inserted(results, result), result.block_id) == Some(result),
{
    lemma_position_is(inserted(results, result), result.block_id, 0);
}

/// Storing a result leaves the lookup of any other block as it was, unless its result was the
/// last of a full store: that one is forgotten.
pub proof fn law_insert_keeps_others(
    results: Seq<BlockValidationResultView>,
    result: BlockValidationResultView,
    block_id: Seq<char>,
)
    requires
        results.len() <= BLOCK_VALIDATION_RESULT_CACHE_SIZE,
        block_id != result.block_id,
    ensures
        found(inserted(results, result), block_id) == if position(results, block_id) == Some(
            BLOCK_VALIDATION_RESULT_CACHE_SIZE - 1,
        ) {
            None
        } else {
            found(results, block_id)
        },
{
    lemma_position(results, block_id);
    lemma_position_after_insert(results, result, block_id);
}

/// A lookup changes the answer of no later lookup.
pub proof fn law_get_changes_no_answer(
    results: Seq<BlockValidationResultView>,
    asked: Seq<char>,
    block_id: Seq<char>,
)
    ensures
        found(looked_up(results, asked), block_id) == found(results, block_id),
{
    lemma_position(results, asked);
    lemma_position(results, block_id);
    let after = looked_up(results, asked);
    match position(results, asked) {
        Some(i) => {
            if asked == block_id {
                lemma_position_is(after, block_id, 0);
            } else {
                assert forall|j: int| 0 < j <= i implies after[j] == results[j - 1] by {}
                assert forall|j: int| i < j < results.len() implies after[j] == results[j] by {}
                match position(results, block_id) {
                    Some(k) => {
                        lemma_position_is(after, block_id, if k < i { k + 1 } else { k });
                    },
                    None => {
                        lemma_position(after, block_id);
                    },
                }
            }
        },
        None => {},
    }
}

/// A lookup neither adds nor forgets anything: what is held afterwards is the same, in another
/// order.
pub proof fn law_get_keeps_results(results: Seq<BlockValidationResultView>, block_id: Seq<char>)
    ensures
        looked_up(results, block_id).to_multiset() == results.to_multiset(),
{
    broadcast use vstd::seq_lib::group_to_multiset_ensures;

    lemma_position(results, block_id);
    match position(results, block_id) {
        Some(i) => {
            let first = seq![results[i]];
            let rest = results.remove(i);
            vstd::seq_lib::lemma_multiset_commutative(first, rest);
            assert(first =~= Seq::empty().push(results[i]));
            assert(looked_up(results, block_id).to_multiset() =~= results.to_multiset());
        },
        None => {},
    }
}

/// A use of the store.
pub enum StoreUse {
    /// A result is stored.
    Insert(BlockValidationResultView),
    /// The block of this identifier is asked for.
    Lookup(Seq<char>),
}

/// What is held after some uses, one after the other.
pub open spec fn used(
    results: Seq<BlockValidationResultView>,
    uses: Seq<StoreUse>,
) -> Seq<BlockValidationResultView>
    decreases uses.len(),
{
    if uses.len() == 0 {
        results
    } else {
        match uses.last() {
            StoreUse::Insert(result) => inserted(used(results, uses.drop_last()), result),
            StoreUse::Lookup(block_id) => looked_up(used(results, uses.drop_last()), block_id),
        }
    }
}

/// This use stores a result of the block or asks for the block.
pub open spec fn is_use_of(store_use: StoreUse, block_id: Seq<char>) -> bool {
    match store_use {
        StoreUse::Insert(result) => result.block_id == block_id,
        StoreUse::Lookup(asked) => asked == block_id,
    }
}

/// The result of the block that was stored last among these uses, `result` if none was.
pub open spec fn latest(
    result: BlockValidationResultView,
    uses: Seq<StoreUse>,
) -> BlockValidationResultView
    decreases uses.len(),
{
    if uses.len() == 0 {
        result
    } else {
        match uses.last() {
            StoreUse::Insert(stored) if stored.block_id == result.block_id => stored,
            _ => latest(result, uses.drop_last()),
        }
    }
}

/// The number of uses that brought a result of another block to the front since a result of the
/// block was last stored or asked for: the results that were stored and the lookups that found
/// something. A lookup that finds nothing does not count.
pub open spec fn brought_forward(
    results: Seq<BlockValidationResultView>,
    uses: Seq<StoreUse>,
    block_id: Seq<char>,
) -> nat
    decreases uses.len(),
{
    if uses.len() == 0 || is_use_of(uses.last(), block_id) {
        0
    } else {
        let before = brought_forward(results, uses.drop_last(), block_id);
        match uses.last() {
            StoreUse::Insert(_) => before + 1,
            StoreUse::Lookup(asked) => if found(used(results, uses.drop_last()), asked) is Some {
                before + 1
            } else {
                before
            },
        }
    }
}

/// The number of results of other blocks that were stored since a result of the block was last
/// stored or asked for.
pub open spec fn others_stored(uses: Seq<StoreUse>, block_id: Seq<char>) -> nat
    decreases uses.len(),
{
    if uses.len() == 0 || is_use_of(uses.last(), block_id) {
        0
    } else if uses.last() is Insert {
        others_stored(uses.drop_last(), block_id) + 1
    } else {
        others_stored(uses.drop_last(), block_id)
    }
}

/// Once a result was stored, its block's latest result is found, whatever else is stored and
/// looked up, as long as there are never as many uses that bring results of other blocks to the
/// front as there is room for results, from one use of the block to the next.
pub proof fn law_results_are_kept(
    results: Seq<BlockValidationResultView>,
    result: BlockValidationResultView,
    uses: Seq<StoreUse>,
)
    requires
        results.len() <= BLOCK_VALIDATION_RESULT_CACHE_SIZE,
        forall|n: int|
            0 <= n <= uses.len() ==> #[trigger] brought_forward(
                inserted(results, result),
                uses.take(n),
                result.block_id,
            ) < BLOCK_VALIDATION_RESULT_CACHE_SIZE,
    ensures
        found(used(inserted(results, result), uses), result.block_id) == Some(
            latest(result, uses),
        ),
{
    lemma_kept(results, result, uses);
}

/// The results of a block are forgotten, if they are not already, when as many results of other
/// blocks have been stored as there is room for since the block was last stored or asked for.
pub proof fn law_results_are_forgotten(
    results: Seq<BlockValidationResultView>,
    block_id: Seq<char>,
    uses: Seq<StoreUse>,
)
    requires
        results.len() <= BLOCK_VALIDATION_RESULT_CACHE_SIZE,
        others_stored(uses, block_id) >= BLOCK_VALIDATION_RESULT_CACHE_SIZE,
    ensures
        found(used(results, uses), block_id) is None,
{
    lemma_pushed_back(results, block_id, uses);
    lemma_position(used(results, uses), block_id);
}

/// Where a lookup leaves the results of another block.
proof fn lemma_position_after_lookup(
    results: Seq<BlockValidationResultView>,
    asked: Seq<char>,
    block_id: Seq<char>,
)
    requires
        asked != block_id,
    ensures
        looked_up(results, asked).len() == results.len(),
        position(results, asked) is None ==> looked_up(results, asked) == results,
        match position(results, block_id) {
            Some(i) => {
                ||| position(looked_up(results, asked), block_id) == Some(i)
                ||| position(looked_up(results, asked), block_id) == Some(i + 1)
            },
            None => position(looked_up(results, asked), block_id) is None,
        },
{
    lemma_position(results, asked);
    lemma_position(results, block_id);
    let after = looked_up(results, asked);
    match position(results, asked) {
        Some(i) => {
            assert forall|j: int| 0 < j <= i implies after[j] == results[j - 1] by {}
            assert forall|j: int| i < j < results.len() implies after[j] == results[j] by {}
            match position(results, block_id) {
                Some(k) => {
                    lemma_position_is(after, block_id, if k < i { k + 1 } else { k });
                },
                None => {
                    lemma_position(after, block_id);
                },
            }
        },
        None => {},
    }
}

/// Where storing a result leaves those of another block.
proof fn lemma_position_after_insert(
    results: Seq<BlockValidationResultView>,
    result: BlockValidationResultView,
    block_id: Seq<char>,
)
    requires
        results.len() <= BLOCK_VALIDATION_RESULT_CACHE_SIZE,
        block_id != result.block_id,
    ensures
        inserted(results, result).len() <= BLOCK_VALIDATION_RESULT_CACHE_SIZE,
        position(inserted(results, result), block_id) == match position(results, block_id) {
            Some(i) => if i + 1 < BLOCK_VALIDATION_RESULT_CACHE_SIZE {
                Some(i + 1)
            } else {
                None
            },
            None => None,
        },
{
    let after = inserted(results, result);
    lemma_position(results, block_id);
    lemma_position(after, block_id);
    assert forall|j: int| 0 < j < after.len() implies after[j] == results[j - 1] by {}
    if let Some(i) = position(results, block_id) {
        if i + 1 < BLOCK_VALIDATION_RESULT_CACHE_SIZE {
            lemma_position_is(after, block_id, i + 1);
        }
    }
}

/// A block that is kept in use has no more results before its latest than were brought to the
/// front since.
proof fn lemma_kept(
    results: Seq<BlockValidationResultView>,
    result: BlockValidationResultView,
    uses: Seq<StoreUse>,
)
    requires
        results.len() <= BLOCK_VALIDATION_RESULT_CACHE_SIZE,
        forall|n: int|
            0 <= n <= uses.len() ==> #[trigger] brought_forward(
                inserted(results, result),
                uses.take(n),
                result.block_id,
            ) < BLOCK_VALIDATION_RESULT_CACHE_SIZE,
    ensures
        used(inserted(results, result), uses).len() <= BLOCK_VALIDATION_RESULT_CACHE_SIZE,
        position(used(inserted(results, result), uses), result.block_id) matches Some(i)
            && i <= brought_forward(inserted(results, result), uses, result.block_id),
        found(used(inserted(results, result), uses), result.block_id) == Some(
            latest(result, uses),
        ),
    decreases uses.len(),
{
    let block_id = result.block_id;
    let start = inserted(results, result);
    if uses.len() == 0 {
        lemma_position_is(start, block_id, 0);
    } else {
        let fewer = uses.drop_last();
        assert forall|n: int| 0 <= n <= fewer.len() implies #[trigger] brought_forward(
            start,
            fewer.take(n),
            block_id,
        ) < BLOCK_VALIDATION_RESULT_CACHE_SIZE by {
            assert(fewer.take(n) =~= uses.take(n));
        }
        lemma_kept(results, result, fewer);
        assert(uses.take(uses.len() as int) =~= uses);
        assert(brought_forward(start, uses.take(uses.len() as int), block_id)
            < BLOCK_VALIDATION_RESULT_CACHE_SIZE);
        let before = used(start, fewer);
        lemma_position(before, block_id);
        match uses.last() {
            StoreUse::Insert(stored) => {
                if stored.block_id == block_id {
                    lemma_position_is(inserted(before, stored), block_id, 0);
                } else {
                    lemma_position_after_insert(before, stored, block_id);
                    law_insert_keeps_others(before, stored, block_id);
                }
            },
            StoreUse::Lookup(asked) => {
                law_get_changes_no_answer(before, asked, block_id);
                if asked == block_id {
                    lemma_position_is(looked_up(before, asked), block_id, 0);
                } else {
                    lemma_position_after_lookup(before, asked, block_id);
                }
            },
        }
    }
}

/// Whatever results a block has come after those of other blocks that were stored since it was
/// last stored or asked for.
proof fn lemma_pushed_back(
    results: Seq<BlockValidationResultView>,
    block_id: Seq<char>,
    uses: Seq<StoreUse>,
)
    requires
        results.len() <= BLOCK_VALIDATION_RESULT_CACHE_SIZE,
    ensures
        used(results, uses).len() <= BLOCK_VALIDATION_RESULT_CACHE_SIZE,
        position(used(results, uses), block_id) matches Some(i) ==> i >= others_stored(
            uses,
            block_id,
        ),
    decreases uses.len(),
{
    lemma_position(used(results, uses), block_id);
    if uses.len() > 0 {
        let fewer = uses.drop_last();
        lemma_pushed_back(results, block_id, fewer);
        let before = used(results, fewer);
        match uses.last() {
            StoreUse::Insert(stored) => {
                if stored.block_id != block_id {
                    lemma_position_after_insert(before, stored, block_id);
                }
            },
            StoreUse::Lookup(asked) => {
                lemma_position(before, asked);
                if asked != block_id {
                    lemma_position_after_lookup(before, asked, block_id);
                }
            },
        }
    }
}

/// The status of a block is the status of the result of it that comes first, whatever else the
/// result holds; it is unknown where no result of the block is held.
pub proof fn law_the_status_is_that_of_the_result(
    results: Seq<BlockValidationResultView>,
    block_id: Seq<char>,
)
    ensures
        forall|i: int|
            0 <= i < results.len() && (#[trigger] results[i]).block_id == block_id && (forall|j: int|
                0 <= j < i ==> (#[trigger] results[j]).block_id != block_id) ==> status_of(
                found(results, block_id),
            ) == results[i].status,
        (forall|i: int| 0 <= i < results.len() ==> (#[trigger] results[i]).block_id != block_id)
            ==> status_of(found(results, block_id)) == BlockStatus::Unknown,
{
    lemma_position(results, block_id);
}

/// Once a result was stored, the status of its block is the result's own, whatever was held
/// before and whatever else the result holds.
pub proof fn law_insert_then_status(
    results: Seq<BlockValidationResultView>,
    result: BlockValidationResultView,
)
    ensures
        status_of(found(inserted(results, result), result.block_id)) == result.status,
{
    law_insert_then_get(results, result);
    law_the_status_is_that_of_the_result(inserted(results, result), result.block_id);
    assert(inserted(results, result)[0] == result);
}

/// What a lookup finds: the first of the results of the block, as it is held, and nothing only
/// where there is none.
pub proof fn law_what_a_lookup_finds(
    results: Seq<BlockValidationResultView>,
    block_id: Seq<char>,
)
    ensures
        match found(results, block_id) {
            Some(result) => exists|i: int|
                {
                    &&& 0 <= i < results.len()
                    &&& #[trigger] results[i] == result
                    &&& result.block_id == block_id
                    &&& forall|j: int| 0 <= j < i ==> (#[trigger] results[j]).block_id != block_id
                },
            None => forall|i: int|
                0 <= i < results.len() ==> (#[trigger] results[i]).block_id != block_id,
        },
{
    lemma_position(results, block_id);
    if let Some(i) = position(results, block_id) {
        let first = results[i];
    }
}

/// What is held after a result was stored: it comes first, the others follow as they were, and
/// the last of them goes only where there were already 512.
pub proof fn law_what_an_insert_keeps(
    results: Seq<BlockValidationResultView>,
    result: BlockValidationResultView,
)
    requires
        results.len() <= 512,
    ensures
        inserted(results, result).len() == if results.len() < 512 {
            results.len() + 1
        } else {
            512
        },
        inserted(results, result)[0] == result,
        forall|i: int|
            0 <= i < inserted(results, result).len() - 1 ==> inserted(results, result)[i + 1]
                == #[trigger] results[i],
{
}

/// What is held after a lookup: the result that was found comes first, those that were before it
/// follow, and those after it stay where they were; where none was found all stay.
pub proof fn law_what_a_lookup_moves(
    results: Seq<BlockValidationResultView>,
    block_id: Seq<char>,
)
    ensures
        looked_up(results, block_id).len() == results.len(),
        forall|i: int|
            #![trigger results[i]]
            0 <= i < results.len() && results[i].block_id == block_id && (forall|j: int|
                0 <= j < i ==> (#[trigger] results[j]).block_id != block_id) ==> {
                &&& looked_up(results, block_id)[0] == results[i]
                &&& forall|j: int|
                    0 <= j < i ==> looked_up(results, block_id)[j + 1] == #[trigger] results[j]
                &&& forall|j: int|
                    i < j < results.len() ==> looked_up(results, block_id)[j]
                        == #[trigger] results[j]
            },
        (forall|i: int| 0 <= i < results.len() ==> (#[trigger] results[i]).block_id != block_id)
            ==> looked_up(results, block_id) == results,
{
    lemma_position(results, block_id);
    assert forall|i: int|
        #![trigger results[i]]
        0 <= i < results.len() && results[i].block_id == block_id && (forall|j: int|
            0 <= j < i ==> (#[trigger] results[j]).block_id != block_id) implies {
        &&& looked_up(results, block_id)[0] == results[i]
        &&& forall|j: int|
            0 <= j < i ==> looked_up(results, block_id)[j + 1] == #[trigger] results[j]
        &&& forall|j: int|
            i < j < results.len() ==> looked_up(results, block_id)[j] == #[trigger] results[j]
    } by {
        lemma_position_is(results, block_id, i);
    }
}

/// Keeping a result in the store puts it before all that was held.
pub proof fn law_a_kept_result_comes_first(
    store: BlockValidationResultStore,
    result: BlockValidationResult,
    kept: BlockValidationResultStore,
)
    requires
        call_ensures(
            <BlockValidationResultStore as ResultKeeper>::keep,
            (store, result),
            kept,
        ),
        store@.len() <= 512,
    ensures
        kept@.len() == if store@.len() < 512 {
            store@.len() + 1
        } else {
            512
        },
        kept@[0] == result@,
        forall|i: int| 0 <= i < kept@.len() - 1 ==> kept@[i + 1] == #[trigger] store@[i],
{
    law_what_an_insert_keeps(store@, result@);
}

/// Storing a result puts it before all that was held; what was held stays behind it, but for the
/// last of 512.
pub proof fn law_what_storing_does(
    store: &mut BlockValidationResultStore,
    result: BlockValidationResult,
)
    requires
        call_ensures(BlockValidationResultStore::insert, (store, result), ()),
        old(store)@.len() <= 512,
    ensures
        final(store)@.len() == if old(store)@.len() < 512 {
            old(store)@.len() + 1
        } else {
            512
        },
        final(store)@[0] == result@,
        forall|i: int|
            0 <= i < final(store)@.len() - 1 ==> final(store)@[i + 1] == #[trigger] old(store)@[i],
{
    law_what_an_insert_keeps(old(store)@, result@);
}

/// Looking a block up gives the first of its results, with all its parts as they were stored, and
/// nothing only where none is held; no result is lost by it.
pub proof fn law_what_looking_up_gives(
    store: &mut BlockValidationResultStore,
    block_id: &str,
    result: Option<BlockValidationResult>,
)
    requires
        call_ensures(BlockValidationResultStore::get, (store, block_id), result),
    ensures
        match result {
            Some(result) => {
                &&& result.block_id@ == block_id@
                &&& exists|i: int|
                    {
                        &&& 0 <= i < old(store)@.len()
                        &&& #[trigger] old(store)@[i] == result@
                        &&& forall|j: int|
                            0 <= j < i ==> (#[trigger] old(store)@[j]).block_id != block_id@
                    }
            },
            None => forall|i: int|
                0 <= i < old(store)@.len() ==> (#[trigger] old(store)@[i]).block_id != block_id@,
        },
        final(store)@.to_multiset() == old(store)@.to_multiset(),
{
    law_what_a_lookup_finds(old(store)@, block_id@);
    law_get_keeps_results(old(store)@, block_id@);
}

/// The status that is told of a block is that of the first of its results, whatever else the
/// result holds; it is unknown where no result of the block is held. No result is lost by asking.
pub proof fn law_what_status_is_told(
    store: &mut BlockValidationResultStore,
    block_id: &str,
    status: BlockStatus,
)
    requires
        call_ensures(
            <BlockValidationResultStore as BlockStatusStore>::status,
            (store, block_id),
            status,
        ),
    ensures
        forall|i: int|
            0 <= i < old(store)@.len() && (#[trigger] old(store)@[i]).block_id == block_id@ && (
            forall|j: int| 0 <= j < i ==> (#[trigger] old(store)@[j]).block_id != block_id@)
                ==> status == old(store)@[i].status,
        (forall|i: int|
            0 <= i < old(store)@.len() ==> (#[trigger] old(store)@[i]).block_id != block_id@)
            ==> status == BlockStatus::Unknown,
        final(store)@.to_multiset() == old(store)@.to_multiset(),
{
    law_the_status_is_that_of_the_result(old(store)@, block_id@);
    law_get_keeps_results(old(store)@, block_id@);
}

/// A new store holds nothing, and there is room for 512 results in a store.
pub proof fn law_a_new_store_holds_nothing(store: BlockValidationResultStore)
    requires
        call_ensures(BlockValidationResultStore::new, (), store),
    ensures
        store@.len() == 0,
{
}

/// A store is well formed where it holds no more than 512 results.
pub proof fn law_how_much_a_store_holds(store: BlockValidationResultStore)
    ensures
        store.well_formed() <==> store@.len() <= 512,
{
}

} // verus!
