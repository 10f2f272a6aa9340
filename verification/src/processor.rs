//! Running several validations on a block.

use crate::block::Block;
use crate::error::{lemma_unit_success, ValidationError};
use crate::result::BlockValidationResult;
use crate::service::BlockManager;
use crate::validation::{answered, asked_once, BlockValidation, OwnedValidation};
use vstd::prelude::*;

verus! {

/// Asking the block manager for the block of this identifier alone had this answer.
pub open spec fn fetched<M: BlockManager>(
    manager: &M,
    block_id: &String,
    answer: Vec<Option<Block>>,
) -> bool {
    exists|ids: &[&String]|
        {
            &&& ids@ == seq![block_id]
            &&& #[trigger] call_ensures(M::get, (manager, ids), answer)
        }
}

/// The state root of the first block in an answer of the block manager, if a block comes first.
pub open spec fn first_state_root(answer: &Vec<Option<Block>>) -> Option<&String> {
    if answer@.len() == 0 {
        None
    } else {
        match answer@[0] {
            Some(block) => Some(&block.state_root_hash),
            None => None,
        }
    }
}

/// The first `n` validations were asked once each and passed the block.
pub open spec fn passed_in_turn<V: OwnedValidation<ReturnValue = ()>>(
    validations: Seq<V>,
    block: &Block,
    previous_state_root: Option<&String>,
    after: Seq<V>,
    n: int,
) -> bool {
    forall|i: int|
        0 <= i < n ==> asked_once(
            validations[i],
            block,
            previous_state_root,
            #[trigger] after[i],
            Ok::<(), ValidationError>(()),
        )
}

/// The validation of index `i` was asked once and refused the block with this error; those before
/// it were asked once each and passed the block, and those after it were not asked.
pub open spec fn refused_in_turn<V: OwnedValidation<ReturnValue = ()>>(
    validations: Seq<V>,
    block: &Block,
    previous_state_root: Option<&String>,
    after: Seq<V>,
    i: int,
    error: ValidationError,
) -> bool {
    &&& 0 <= i < validations.len()
    &&& passed_in_turn(validations, block, previous_state_root, after, i)
    &&& asked_once(
        validations[i],
        block,
        previous_state_root,
        after[i],
        Err::<(), ValidationError>(error),
    )
    &&& forall|j: int| i < j < validations.len() ==> #[trigger] after[j] == validations[j]
}

/// Running the validations, and then the last one, took them to these states and led to this
/// result: each was asked once up to the first that refused the block, whose error is the result,
/// and the last one only where none did.
pub open spec fn run_once<
    V: OwnedValidation<ReturnValue = ()>,
    S: OwnedValidation<ReturnValue = BlockValidationResult>,
>(
    before: (Seq<V>, S),
    block: &Block,
    previous_state_root: Option<&String>,
    after: (Seq<V>, S),
    result: Result<BlockValidationResult, ValidationError>,
) -> bool {
    &&& after.0.len() == before.0.len()
    &&& {
        ||| {
            &&& result matches Err(error) && exists|i: int|
                #[trigger] refused_in_turn(
                    before.0,
                    block,
                    previous_state_root,
                    after.0,
                    i,
                    error,
                )
            &&& after.1 == before.1
        }
        ||| {
            &&& passed_in_turn(
                before.0,
                block,
                previous_state_root,
                after.0,
                before.0.len() as int,
            )
            &&& asked_once(before.1, block, previous_state_root, after.1, result)
        }
    }
}

/// Runs validations on a block one after the other, and then the last one, up to the first that
/// refuses the block.
pub fn run_validations<
    V: OwnedValidation<ReturnValue = ()>,
    S: OwnedValidation<ReturnValue = BlockValidationResult>,
>(
    validations: Vec<V>,
    state_validation: S,
    block: &Block,
    previous_state_root: Option<&String>,
) -> (ended: ((Vec<V>, S), Result<BlockValidationResult, ValidationError>))
    ensures
        run_once(
            (validations@, state_validation),
            block,
            previous_state_root,
            (ended.0.0@, ended.0.1),
            ended.1,
        ),
{
    let mut after: Vec<V> = Vec::new();
    let mut refusal: Option<ValidationError> = None;
    let ghost mut refused_at: int = 0;
    for validation in it: validations
        invariant
            it.seq() == validations@,
            after.len() == it.index(),
            match refusal {
                None => passed_in_turn(
                    validations@,
                    block,
                    previous_state_root,
                    after@,
                    it.index() as int,
                ),
                Some(error) => {
                    &&& 0 <= refused_at < it.index()
                    &&& passed_in_turn(
                        validations@,
                        block,
                        previous_state_root,
                        after@,
                        refused_at,
                    )
                    &&& asked_once(
                        validations@[refused_at],
                        block,
                        previous_state_root,
                        after@[refused_at],
                        Err::<(), ValidationError>(error),
                    )
                    &&& forall|j: int|
                        refused_at < j < it.index() ==> #[trigger] after@[j] == validations@[j]
                },
            },
    {
        if refusal.is_some() {
            after.push(validation);
        } else {
            let (asked, verdict) = validation.ask(block, previous_state_root);
            after.push(asked);
            match verdict {
                Ok(()) => {
                    proof {
                        lemma_unit_success(verdict);
                    }
                },
                Err(error) => {
                    proof {
                        refused_at = it.index() as int;
                    }
                    refusal = Some(error);
                },
            }
        }
    }
    match refusal {
        Some(error) => {
            assert(refused_in_turn(
                validations@,
                block,
                previous_state_root,
                after@,
                refused_at,
                error,
            ));
            ((after, state_validation), Err(error))
        },
        None => {
            let (asked, result) = state_validation.ask(block, previous_state_root);
            ((after, asked), result)
        },
    }
}

/// Validates blocks by a list of validations, and then by executing them.
pub struct BlockValidationProcessor<M, V, S> {
    /// The blocks that are known.
    pub block_manager: M,
    /// The validations that come before the execution, in their order.
    pub validations: Vec<V>,
    /// The validation by execution, which gives the result.
    pub state_validation: S,
}

impl<
    M: BlockManager,
    V: BlockValidation<ReturnValue = ()>,
    S: BlockValidation<ReturnValue = BlockValidationResult>,
> BlockValidationProcessor<M, V, S> {
    /// A processor that runs the given validations, in their order, and then the last one.
    pub fn new(block_manager: M, validations: Vec<V>, state_validation: S) -> (processor: Self)
        ensures
            processor.block_manager == block_manager,
            processor.validations == validations,
            processor.state_validation == state_validation,
    {
        BlockValidationProcessor { block_manager, validations, state_validation }
    }

    /// The first `n` validations passed the block.
    pub open spec fn passed(
        &self,
        block: &Block,
        previous_state_root: Option<&String>,
        n: int,
    ) -> bool {
        forall|i: int|
            0 <= i < n ==> answered(
                &#[trigger] self.validations@[i],
                block,
                previous_state_root,
                Ok(()),
            )
    }

    /// The validation of index `i` refused the block with this error, and those before it passed
    /// the block.
    pub open spec fn refused_by(
        &self,
        block: &Block,
        previous_state_root: Option<&String>,
        i: int,
        error: ValidationError,
    ) -> bool {
        &&& 0 <= i < self.validations@.len()
        &&& self.passed(block, previous_state_root, i)
        &&& answered(&self.validations@[i], block, previous_state_root, Err(error))
    }

    /// Running the validations led to this result: the error of the first that refused the
    /// block, or else the answer of the validation by execution.
    pub open spec fn concluded(
        &self,
        block: &Block,
        previous_state_root: Option<&String>,
        result: Result<BlockValidationResult, ValidationError>,
    ) -> bool {
        ||| result matches Err(error) && exists|i: int|
            #[trigger] self.refused_by(block, previous_state_root, i, error)
        ||| {
            &&& self.passed(block, previous_state_root, self.validations@.len() as int)
            &&& answered(&self.state_validation, block, previous_state_root, result)
        }
    }

    /// Looking up the predecessor and running the validations led to this result.
    pub open spec fn processed(
        &self,
        block: &Block,
        result: Result<BlockValidationResult, ValidationError>,
    ) -> bool {
        exists|answer: Vec<Option<Block>>|
            {
                &&& #[trigger] fetched(&self.block_manager, &block.previous_block_id, answer)
                &&& self.concluded(block, first_state_root(&answer), result)
            }
    }

    /// Validates a block on the state that its predecessor left. [`run_validations`] runs the
    /// validations and asks each of them once at most; how often one was asked does not show in a
    /// validation that is only referred to.
    pub fn validate_block(&self, block: &Block) -> (result: Result<
        BlockValidationResult,
        ValidationError,
    >)
        ensures
            self.processed(block, result),
    {
        let mut ids: Vec<&String> = Vec::new();
        ids.push(&block.previous_block_id);
        let answer: Vec<Option<Block>> = self.block_manager.get(ids.as_slice());
        assert(ids@ =~= seq![&block.previous_block_id]);
        assert(fetched(&self.block_manager, &block.previous_block_id, answer));
        let previous_blocks_state_hash: Option<&String> = if answer.len() == 0 {
            None
        } else {
            match &answer[0] {
                Some(previous) => Some(&previous.state_root_hash),
                None => None,
            }
        };
        assert(previous_blocks_state_hash == first_state_root(&answer));
        let mut validations: Vec<&V> = Vec::new();
        while validations.len() < self.validations.len()
            invariant
                validations.len() <= self.validations.len(),
                forall|i: int|
                    0 <= i < validations.len() ==> #[trigger] validations@[i]
                        == &self.validations@[i],
            decreases self.validations.len() - validations.len(),
        {
            validations.push(&self.validations[validations.len()]);
        }
        let ghost taken = validations@;
        let (ended, result) = run_validations(
            validations,
            &self.state_validation,
            block,
            previous_blocks_state_hash,
        );
        proof {
            self.lemma_concluded(
                taken,
                block,
                previous_blocks_state_hash,
                (ended.0@, ended.1),
                result,
            );
        }
        result
    }

    /// What a run on references to the validations says of the validations.
    proof fn lemma_concluded(
        &self,
        validations: Seq<&V>,
        block: &Block,
        previous_state_root: Option<&String>,
        after: (Seq<&V>, &S),
        result: Result<BlockValidationResult, ValidationError>,
    )
        requires
            validations.len() == self.validations@.len(),
            forall|i: int|
                0 <= i < validations.len() ==> #[trigger] validations[i] == &self.validations@[i],
            run_once(
                (validations, &self.state_validation),
                block,
                previous_state_root,
                after,
                result,
            ),
        ensures
            self.concluded(block, previous_state_root, result),
    {
        let n = self.validations@.len() as int;
        let refused = result matches Err(error) && exists|i: int|
            #[trigger] refused_in_turn(validations, block, previous_state_root, after.0, i, error);
        let passing = if refused {
            choose|i: int|
                #[trigger] refused_in_turn(
                    validations,
                    block,
                    previous_state_root,
                    after.0,
                    i,
                    result->Err_0,
                )
        } else {
            n
        };
        assert forall|j: int| 0 <= j < passing implies answered(
            &#[trigger] self.validations@[j],
            block,
            previous_state_root,
            Ok(()),
        ) by {
            assert(validations[j] == &self.validations@[j]);
            assert(asked_once(
                validations[j],
                block,
                previous_state_root,
                after.0[j],
                Ok::<(), ValidationError>(()),
            ));
        }
        if refused {
            assert(validations[passing] == &self.validations@[passing]);
            assert(self.refused_by(block, previous_state_root, passing, result->Err_0));
        }
    }
}

/// A block is found valid only if every validation passed it, and then the result is that of the
/// validation by execution.
pub proof fn law_success_needs_every_validation<
    M: BlockManager,
    V: BlockValidation<ReturnValue = ()>,
    S: BlockValidation<ReturnValue = BlockValidationResult>,
>(
    processor: &BlockValidationProcessor<M, V, S>,
    block: &Block,
    previous_state_root: Option<&String>,
    result: BlockValidationResult,
)
    requires
        processor.concluded(block, previous_state_root, Ok(result)),
    ensures
        processor.passed(block, previous_state_root, processor.validations@.len() as int),
        answered(&processor.state_validation, block, previous_state_root, Ok(result)),
{
}

/// Every validation is asked with the state that the block's predecessor left: where the block
/// manager's answer to the predecessor's identifier starts with a block, that is the state root
/// hash of this block, whatever else the block holds, and only where it starts with none is there
/// no state root. The result is the error of the first validation that refuses the block, and
/// where all of them pass it, the answer of the validation by execution. Returns the answer of
/// the block manager and the state root.
pub proof fn law_validations_are_asked_with_the_predecessors_state<
    'a,
    M: BlockManager,
    V: BlockValidation<ReturnValue = ()>,
    S: BlockValidation<ReturnValue = BlockValidationResult>,
>(
    processor: &'a BlockValidationProcessor<M, V, S>,
    block: &'a Block,
    result: Result<BlockValidationResult, ValidationError>,
) -> (found: (Vec<Option<Block>>, Option<&'a String>))
    requires
        call_ensures(BlockValidationProcessor::<M, V, S>::validate_block, (processor, block), result),
    ensures
        exists|ids: &[&String]|
            {
                &&& ids@.len() == 1
                &&& ids@[0] == &block.previous_block_id
                &&& #[trigger] call_ensures(M::get, (&processor.block_manager, ids), found.0)
            },
        found.0@.len() > 0 && found.0@[0] is Some ==> found.1 == Some(
            &(found.0@[0]->0).state_root_hash,
        ),
        found.0@.len() == 0 || found.0@[0] is None ==> found.1 is None,
        (exists|i: int|
                {
                    &&& 0 <= i < processor.validations@.len()
                    &&& result is Err
                    &&& call_ensures(
                        V::validate_block,
                        (&#[trigger] processor.validations@[i], block, found.1),
                        Err::<(), ValidationError>(result->Err_0),
                    )
                    &&& forall|j: int|
                        0 <= j < i ==> call_ensures(
                            V::validate_block,
                            (&#[trigger] processor.validations@[j], block, found.1),
                            Ok::<(), ValidationError>(()),
                        )
                }) || (call_ensures(
            S::validate_block,
            (&processor.state_validation, block, found.1),
            result,
        ) && (forall|j: int|
            0 <= j < processor.validations@.len() ==> call_ensures(
                V::validate_block,
                (&#[trigger] processor.validations@[j], block, found.1),
                Ok::<(), ValidationError>(()),
            ))),
{
    let answer = choose|answer: Vec<Option<Block>>|
        {
            &&& #[trigger] fetched(&processor.block_manager, &block.previous_block_id, answer)
            &&& processor.concluded(block, first_state_root(&answer), result)
        };
    let root = first_state_root(&answer);
    assert(processor.concluded(block, root, result));
    if result is Err && exists|i: int|
        #[trigger] processor.refused_by(block, root, i, result->Err_0) {
        let i = choose|i: int| #[trigger] processor.refused_by(block, root, i, result->Err_0);
        let refusing = processor.validations@[i];
        assert forall|j: int| 0 <= j < i implies call_ensures(
            V::validate_block,
            (&#[trigger] processor.validations@[j], block, root),
            Ok::<(), ValidationError>(()),
        ) by {
            assert(answered(&processor.validations@[j], block, root, Ok::<(), ValidationError>(())));
        }
    }
    (answer, root)
}

/// Validations that are handed over are asked once each, in their order, up to the first that
/// refuses the block: that one's error is the result, those after it come back as they were, and
/// so does the last one. Where none refuses, the last one is asked once and its answer is the
/// result.
pub proof fn law_validations_are_asked_once<
    V: OwnedValidation<ReturnValue = ()>,
    S: OwnedValidation<ReturnValue = BlockValidationResult>,
>(
    validations: Vec<V>,
    state_validation: S,
    block: &Block,
    previous_state_root: Option<&String>,
    ended: ((Vec<V>, S), Result<BlockValidationResult, ValidationError>),
)
    requires
        call_ensures(
            run_validations::<V, S>,
            (validations, state_validation, block, previous_state_root),
            ended,
        ),
    ensures
        ended.0.0@.len() == validations@.len(),
        (exists|i: int|
                {
                    &&& 0 <= i < validations@.len()
                    &&& ended.1 is Err
                    &&& call_ensures(
                        V::ask,
                        (#[trigger] validations@[i], block, previous_state_root),
                        (ended.0.0@[i], Err::<(), ValidationError>(ended.1->Err_0)),
                    )
                    &&& forall|j: int|
                        0 <= j < i ==> call_ensures(
                            V::ask,
                            (#[trigger] validations@[j], block, previous_state_root),
                            (ended.0.0@[j], Ok::<(), ValidationError>(())),
                        )
                    &&& forall|j: int|
                        i < j < validations@.len() ==> ended.0.0@[j] == #[trigger] validations@[j]
                    &&& ended.0.1 == state_validation
                }) || (call_ensures(
            S::ask,
            (state_validation, block, previous_state_root),
            (ended.0.1, ended.1),
        ) && (forall|j: int|
            0 <= j < validations@.len() ==> call_ensures(
                V::ask,
                (#[trigger] validations@[j], block, previous_state_root),
                (ended.0.0@[j], Ok::<(), ValidationError>(())),
            ))),
{
    let before = validations@;
    let after = ended.0.0@;
    let result = ended.1;
    assert(run_once(
        (before, state_validation),
        block,
        previous_state_root,
        (after, ended.0.1),
        result,
    ));
    assert forall|n: int, j: int|
        #![trigger passed_in_turn(before, block, previous_state_root, after, n), before[j]]
        passed_in_turn(before, block, previous_state_root, after, n) && 0 <= j
            < n implies call_ensures(
        V::ask,
        (before[j], block, previous_state_root),
        (after[j], Ok::<(), ValidationError>(())),
    ) by {
        assert(asked_once(
            before[j],
            block,
            previous_state_root,
            after[j],
            Ok::<(), ValidationError>(()),
        ));
    }
    if result is Err && exists|i: int|
        #[trigger] refused_in_turn(
            before,
            block,
            previous_state_root,
            after,
            i,
            result->Err_0,
        ) && ended.0.1 == state_validation {
        let i = choose|i: int|
            #[trigger] refused_in_turn(
                before,
                block,
                previous_state_root,
                after,
                i,
                result->Err_0,
            );
        let refusing = before[i];
        assert forall|j: int| i < j < before.len() implies after[j] == #[trigger] before[j] by {
            let left = after[j];
        }
    }
}

/// A processor is made of what it is given.
pub proof fn law_a_processor_is_made_of_its_parts<
    M: BlockManager,
    V: BlockValidation<ReturnValue = ()>,
    S: BlockValidation<ReturnValue = BlockValidationResult>,
>(
    block_manager: M,
    validations: Vec<V>,
    state_validation: S,
    processor: BlockValidationProcessor<M, V, S>,
)
    requires
        call_ensures(
            BlockValidationProcessor::<M, V, S>::new,
            (block_manager, validations, state_validation),
            processor,
        ),
    ensures
        processor.block_manager == block_manager,
        processor.validations == validations,
        processor.state_validation == state_validation,
{
}

} // verus!
