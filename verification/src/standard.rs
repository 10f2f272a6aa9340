//! The validations that a block goes through, and the services that they need.

use crate::block::{Block, BlockView};
use crate::duplicates::{checked_against_chain, DuplicatesAndDependenciesValidation};
use crate::error::{outcome, ValidationError, ValidationErrorView};
use crate::execution::{
    all_results, all_valid, executed, judged, law_execution_is_independent,
    law_results_come_from_an_execution, law_what_a_valid_result_holds, BatchesInBlockValidation,
};
use crate::permission::{
    law_permissions_are_independent, permissions_checked, PermissionValidation,
};
use crate::processor::{
    fetched, first_state_root, law_success_needs_every_validation,
    law_validations_are_asked_with_the_predecessors_state, BlockValidationProcessor,
};
use crate::python::{python_bytes, share_bytes};
use crate::result::{
    BlockStatus, BlockValidationResult, BlockValidationResultView, ExecutionResultsView,
};
use crate::rules::{law_rules_are_independent, rules_checked, OnChainRulesValidation};
use crate::service::{
    BlockManager, ExecutionPlatform, PermissionVerifier, ResultKeeper, StateViewFactory,
};
use crate::store::{found, inserted, law_insert_then_get, BlockValidationResultStore};
use crate::validation::{answered, BlockValidation};
use std::sync::Arc;
use vstd::prelude::*;

verus! {

/// One of the validations that come before the execution of a block.
pub enum StandardValidation<M: BlockManager, F: StateViewFactory, V: PermissionVerifier> {
    /// Against the chain.
    DuplicatesAndDependencies(DuplicatesAndDependenciesValidation<M>),
    /// By the rules on the chain.
    OnChainRules(OnChainRulesValidation<F>),
    /// By the permissions of the signers.
    Permission(PermissionValidation<V>),
}

impl<
    M: BlockManager + Send,
    F: StateViewFactory + Send,
    V: PermissionVerifier + Send,
> BlockValidation for StandardValidation<M, F, V> {
    type ReturnValue = ();

    fn validate_block(&self, block: &Block, previous_state_root: Option<&String>) -> (result:
        Result<(), ValidationError>)
        ensures
            match self {
                StandardValidation::DuplicatesAndDependencies(validation) => answered(
                    validation,
                    block,
                    previous_state_root,
                    result,
                ),
                StandardValidation::OnChainRules(validation) => answered(
                    validation,
                    block,
                    previous_state_root,
                    result,
                ),
                StandardValidation::Permission(validation) => answered(
                    validation,
                    block,
                    previous_state_root,
                    result,
                ),
            },
    {
        match self {
            StandardValidation::DuplicatesAndDependencies(validation) => validation.validate_block(
                block,
                previous_state_root,
            ),
            StandardValidation::OnChainRules(validation) => validation.validate_block(
                block,
                previous_state_root,
            ),
            StandardValidation::Permission(validation) => validation.validate_block(
                block,
                previous_state_root,
            ),
        }
    }
}

/// The processor that runs the standard validations.
pub type StandardProcessor<M, P, F, V> = BlockValidationProcessor<
    M,
    StandardValidation<M, F, V>,
    BatchesInBlockValidation<P>,
>;

/// What the standard validations need.
pub struct ValidationServices<M, P, F, V> {
    /// The blocks that are known.
    pub block_manager: M,
    /// What executes transactions.
    pub transaction_executor: P,
    /// Access to the settings.
    pub view_factory: F,
    /// The permissions in the state.
    pub permission_verifier: V,
    /// The payload by which a housekeeping transaction is known.
    pub injector_payload: Arc<cpython::PyBytes>,
}

impl<M: Clone, P: Clone, F: Clone, V: Clone> Clone for ValidationServices<M, P, F, V> {
    fn clone(&self) -> (copy: Self)
        ensures
            cloned(self.block_manager, copy.block_manager),
            cloned(self.transaction_executor, copy.transaction_executor),
            cloned(self.view_factory, copy.view_factory),
            cloned(self.permission_verifier, copy.permission_verifier),
            copy.injector_payload == self.injector_payload,
    {
        ValidationServices {
            block_manager: self.block_manager.clone(),
            transaction_executor: self.transaction_executor.clone(),
            view_factory: self.view_factory.clone(),
            permission_verifier: self.permission_verifier.clone(),
            injector_payload: share_bytes(&self.injector_payload),
        }
    }
}

impl<
    M: BlockManager + Clone + Send,
    P: ExecutionPlatform + Clone + Send,
    F: StateViewFactory + Clone + Send,
    V: PermissionVerifier + Clone + Send,
> ValidationServices<M, P, F, V> {
    /// The processor is built of copies of the services: it validates against the chain, by the
    /// rules on the chain, by the permissions and then by execution.
    pub open spec fn assembled(&self, processor: &StandardProcessor<M, P, F, V>) -> bool {
        &&& cloned(self.block_manager, processor.block_manager)
        &&& processor.validations@.len() == 3
        &&& processor.validations@[0] matches StandardValidation::DuplicatesAndDependencies(
            validation,
        ) && cloned(self.block_manager, validation.block_manager)
        &&& processor.validations@[1] matches StandardValidation::OnChainRules(validation)
            && cloned(self.view_factory, validation.view_factory) && validation.injector_payload
            == self.injector_payload
        &&& processor.validations@[2] matches StandardValidation::Permission(validation) && cloned(
            self.permission_verifier,
            validation.permission_verifier,
        )
        &&& cloned(
            self.transaction_executor,
            processor.state_validation.transaction_executor,
        )
    }

    /// Builds what validates blocks.
    pub fn block_validations(&self) -> (processor: StandardProcessor<M, P, F, V>)
        ensures
            self.assembled(&processor),
    {
        let mut validations: Vec<StandardValidation<M, F, V>> = Vec::new();
        validations.push(
            StandardValidation::DuplicatesAndDependencies(
                DuplicatesAndDependenciesValidation::new(self.block_manager.clone()),
            ),
        );
        validations.push(
            StandardValidation::OnChainRules(
                OnChainRulesValidation::new(
                    self.view_factory.clone(),
                    share_bytes(&self.injector_payload),
                ),
            ),
        );
        validations.push(
            StandardValidation::Permission(
                PermissionValidation::new(self.permission_verifier.clone()),
            ),
        );
        let state_validation: BatchesInBlockValidation<P> = BatchesInBlockValidation::new(
            self.transaction_executor.clone(),
        );
        BlockValidationProcessor::new(self.block_manager.clone(), validations, state_validation)
    }

    /// Validating a block ended in this result and took the keeper of results from `before` to
    /// `after`: the conclusion on a valid block is kept, and nothing else.
    pub open spec fn validated<K: ResultKeeper>(
        &self,
        block: &Block,
        before: K,
        result: Result<(), ValidationError>,
        after: K,
    ) -> bool {
        exists|
            processor: StandardProcessor<M, P, F, V>,
            conclusion: Result<BlockValidationResult, ValidationError>,
        |
            {
                &&& self.assembled(&processor)
                &&& #[trigger] processor.processed(block, conclusion)
                &&& match conclusion {
                    Ok(valid) => result is Ok && call_ensures(K::keep, (before, valid), after),
                    Err(error) => result == Err::<(), ValidationError>(error) && after == before,
                }
            }
    }

    /// Validates a block and keeps the conclusion, if it is valid.
    pub fn validate_block<K: ResultKeeper>(&self, block: &Block, keeper: K) -> (ended: (
        K,
        Result<(), ValidationError>,
    ))
        ensures
            self.validated(block, keeper, ended.1, ended.0),
    {
        let processor: StandardProcessor<M, P, F, V> = self.block_validations();
        let conclusion: Result<BlockValidationResult, ValidationError> = processor.validate_block(
            block,
        );
        assert(processor.processed(block, conclusion));
        match conclusion {
            Ok(results) => (keeper.keep(results), Ok(())),
            Err(error) => (keeper, Err(error)),
        }
    }
}

/// A result that an execution of the block leads to if the block is valid: it is about the
/// block, and holds the outcomes of all the transactions that were executed, all of which were
/// applied.
pub open spec fn executed_validly(block: BlockView, valid: BlockValidationResultView) -> bool {
    &&& valid.block_id == block.header_signature
    &&& valid.status == BlockStatus::Valid
    &&& valid.num_transactions == valid.execution_results.len()
    &&& all_valid(valid.execution_results)
    &&& exists|results: ExecutionResultsView|
        {
            &&& #[trigger] judged(block, Some(results)) == Ok::<
                BlockValidationResultView,
                ValidationErrorView,
            >(valid)
            &&& results.ending_state_hash == Some(block.state_root_hash)
            &&& valid.execution_results == all_results(results.batch_results)
        }
}

/// What a block that was found valid went through: it passed the checks against the chain, by
/// the rules and by the permissions, in that order, and executing it led to the result.
pub proof fn law_what_a_valid_block_passed<
    M: BlockManager + Clone + Send,
    P: ExecutionPlatform + Clone + Send,
    F: StateViewFactory + Clone + Send,
    V: PermissionVerifier + Clone + Send,
>(
    services: &ValidationServices<M, P, F, V>,
    processor: &StandardProcessor<M, P, F, V>,
    block: &Block,
    previous_state_root: Option<&String>,
    valid: BlockValidationResult,
)
    requires
        services.assembled(processor),
        processor.concluded(block, previous_state_root, Ok(valid)),
    ensures
        checked_against_chain(
            &processor.validations@[0]->DuplicatesAndDependencies_0.block_manager,
            block,
            Ok(()),
        ),
        rules_checked(
            &processor.validations@[1]->OnChainRules_0.view_factory,
            python_bytes(*services.injector_payload),
            block,
            previous_state_root,
            Ok(()),
        ),
        permissions_checked(
            &processor.validations@[2]->Permission_0.permission_verifier,
            block,
            previous_state_root,
            Ok(()),
        ),
        executed(
            &processor.state_validation.transaction_executor,
            block,
            previous_state_root,
            Ok(valid@),
        ),
        executed_validly(block@, valid@),
{
    law_success_needs_every_validation(processor, block, previous_state_root, valid);
    let chain = processor.validations@[0];
    let rules = processor.validations@[1];
    let permission = processor.validations@[2];
    assert(answered(
        &chain->DuplicatesAndDependencies_0,
        block,
        previous_state_root,
        Ok::<(), ValidationError>(()),
    ));
    assert(answered(
        &rules->OnChainRules_0,
        block,
        previous_state_root,
        Ok::<(), ValidationError>(()),
    ));
    assert(answered(
        &permission->Permission_0,
        block,
        previous_state_root,
        Ok::<(), ValidationError>(()),
    ));
    law_results_come_from_an_execution(
        &processor.state_validation.transaction_executor,
        block,
        previous_state_root,
        valid@,
    );
    let results = choose|results: ExecutionResultsView| #[trigger]
        judged(block@, Some(results)) == Ok::<BlockValidationResultView, ValidationErrorView>(
            valid@,
        );
    law_what_a_valid_result_holds(block@, results, valid@);
    assert(valid@.num_transactions == valid@.execution_results.len());
}

/// After a validation with success the result is found in the store, whatever was stored for the
/// block before: a valid one, that an execution of the block led to. A validation without
/// success leaves what is stored as it was.
pub proof fn law_valid_block_is_stored<
    M: BlockManager + Clone + Send,
    P: ExecutionPlatform + Clone + Send,
    F: StateViewFactory + Clone + Send,
    V: PermissionVerifier + Clone + Send,
>(
    services: &ValidationServices<M, P, F, V>,
    block: &Block,
    before: BlockValidationResultStore,
    result: Result<(), ValidationError>,
    after: BlockValidationResultStore,
)
    requires
        services.validated(block, before, result, after),
    ensures
        result is Ok ==> {
            &&& found(after@, block@.header_signature) matches Some(valid)
            &&& after@ == inserted(before@, valid)
            &&& executed_validly(block@, valid)
        },
        result is Err ==> after == before,
{
    if result is Ok {
        let (processor, conclusion) = choose|
            processor: StandardProcessor<M, P, F, V>,
            conclusion: Result<BlockValidationResult, ValidationError>,
        |
            {
                &&& services.assembled(&processor)
                &&& #[trigger] processor.processed(block, conclusion)
                &&& match conclusion {
                    Ok(valid) => result is Ok && call_ensures(
                        BlockValidationResultStore::keep,
                        (before, valid),
                        after,
                    ),
                    Err(error) => result == Err::<(), ValidationError>(error) && after == before,
                }
            };
        let valid = conclusion->Ok_0;
        let answer = choose|answer: Vec<Option<Block>>|
            {
                &&& #[trigger] fetched(&processor.block_manager, &block.previous_block_id, answer)
                &&& processor.concluded(block, first_state_root(&answer), conclusion)
            };
        law_what_a_valid_block_passed(
            services,
            &processor,
            block,
            first_state_root(&answer),
            valid,
        );
        law_insert_then_get(before@, valid@);
    }
}

/// Only the validation against the chain is dependent: that the chain was changed is reported
/// only if one of the searches of the chain found just that.
pub proof fn law_only_the_chain_check_is_dependent<
    M: BlockManager + Clone + Send,
    P: ExecutionPlatform + Clone + Send,
    F: StateViewFactory + Clone + Send,
    V: PermissionVerifier + Clone + Send,
>(
    services: &ValidationServices<M, P, F, V>,
    processor: &StandardProcessor<M, P, F, V>,
    block: &Block,
    previous_state_root: Option<&String>,
)
    requires
        services.assembled(processor),
        processor.concluded(
            block,
            previous_state_root,
            Err(ValidationError::BlockStoreUpdated),
        ),
    ensures
        checked_against_chain(
            &processor.validations@[0]->DuplicatesAndDependencies_0.block_manager,
            block,
            Err(ValidationErrorView::BlockStoreUpdated),
        ),
{
    let changed = ValidationError::BlockStoreUpdated;
    let outcome = Err::<(), ValidationErrorView>(ValidationErrorView::BlockStoreUpdated);
    let execution = &processor.state_validation;
    if answered(execution, block, previous_state_root, Err(changed)) {
        law_execution_is_independent(
            &execution.transaction_executor,
            block,
            previous_state_root,
            Err(ValidationErrorView::BlockStoreUpdated),
        );
    }
    let i = choose|i: int| #[trigger]
        processor.refused_by(block, previous_state_root, i, changed);
    if i == 1 {
        let rules = processor.validations@[1]->OnChainRules_0;
        assert(answered(&rules, block, previous_state_root, Err::<(), ValidationError>(changed)));
        law_rules_are_independent(
            &rules.view_factory,
            rules.housekeeping_payload(),
            block,
            previous_state_root,
            outcome,
        );
    } else if i == 2 {
        let permission = processor.validations@[2]->Permission_0;
        assert(answered(
            &permission,
            block,
            previous_state_root,
            Err::<(), ValidationError>(changed),
        ));
        law_permissions_are_independent(
            &permission.permission_verifier,
            block,
            previous_state_root,
            outcome,
        );
    } else {
        let chain = processor.validations@[0]->DuplicatesAndDependencies_0;
        assert(answered(&chain, block, previous_state_root, Err::<(), ValidationError>(changed)));
    }
}

/// What the standard validations are: against the chain, by the rules on the chain and by the
/// permissions, in this order, and then by execution; each works with a copy of the service that
/// was given for it, and the rules with the housekeeping payload that was given.
pub proof fn law_what_the_standard_validations_are<
    M: BlockManager + Clone + Send,
    P: ExecutionPlatform + Clone + Send,
    F: StateViewFactory + Clone + Send,
    V: PermissionVerifier + Clone + Send,
>(
    services: &ValidationServices<M, P, F, V>,
    processor: StandardProcessor<M, P, F, V>,
)
    requires
        call_ensures(ValidationServices::<M, P, F, V>::block_validations, (services,), processor),
    ensures
        cloned(services.block_manager, processor.block_manager),
        processor.validations@.len() == 3,
        processor.validations@[0] is DuplicatesAndDependencies,
        cloned(
            services.block_manager,
            processor.validations@[0]->DuplicatesAndDependencies_0.block_manager,
        ),
        processor.validations@[1] is OnChainRules,
        cloned(services.view_factory, processor.validations@[1]->OnChainRules_0.view_factory),
        processor.validations@[1]->OnChainRules_0.injector_payload == services.injector_payload,
        processor.validations@[2] is Permission,
        cloned(
            services.permission_verifier,
            processor.validations@[2]->Permission_0.permission_verifier,
        ),
        cloned(
            services.transaction_executor,
            processor.state_validation.transaction_executor,
        ),
{
    assert(services.assembled(&processor));
}

/// What validating a block does: a processor of the standard validations concludes on it. The
/// conclusion on a valid block is handed once to the keeper; on any other the keeper is left as
/// it was, and the error is the one that was concluded on. Returns the processor and its
/// conclusion.
pub proof fn law_what_validating_a_block_does<
    M: BlockManager + Clone + Send,
    P: ExecutionPlatform + Clone + Send,
    F: StateViewFactory + Clone + Send,
    V: PermissionVerifier + Clone + Send,
    K: ResultKeeper,
>(
    services: &ValidationServices<M, P, F, V>,
    block: &Block,
    keeper: K,
    ended: (K, Result<(), ValidationError>),
) -> (seen: (StandardProcessor<M, P, F, V>, Result<BlockValidationResult, ValidationError>))
    requires
        call_ensures(
            ValidationServices::<M, P, F, V>::validate_block::<K>,
            (services, block, keeper),
            ended,
        ),
    ensures
        services.assembled(&seen.0),
        seen.0.processed(block, seen.1),
        match seen.1 {
            Ok(valid) => ended.1 is Ok && call_ensures(K::keep, (keeper, valid), ended.0),
            Err(error) => {
                &&& ended.1 matches Err(told)
                &&& told == error
                &&& ended.0 == keeper
            },
        },
{
    assert(services.validated(block, keeper, ended.1, ended.0));
    let (processor, conclusion) = choose|
        processor: StandardProcessor<M, P, F, V>,
        conclusion: Result<BlockValidationResult, ValidationError>,
    |
        {
            &&& services.assembled(&processor)
            &&& #[trigger] processor.processed(block, conclusion)
            &&& match conclusion {
                Ok(valid) => ended.1 is Ok && call_ensures(K::keep, (keeper, valid), ended.0),
                Err(error) => ended.1 == Err::<(), ValidationError>(error) && ended.0 == keeper,
            }
        };
    (processor, conclusion)
}

/// A standard validation answers as the validation that it stands for.
pub proof fn law_a_standard_validation_answers_for_another<
    M: BlockManager + Send,
    F: StateViewFactory + Send,
    V: PermissionVerifier + Send,
>(
    validation: &StandardValidation<M, F, V>,
    block: &Block,
    previous_state_root: Option<&String>,
    result: Result<(), ValidationError>,
)
    requires
        call_ensures(
            <StandardValidation<M, F, V> as BlockValidation>::validate_block,
            (validation, block, previous_state_root),
            result,
        ),
    ensures
        match validation {
            StandardValidation::DuplicatesAndDependencies(chain) => call_ensures(
                <DuplicatesAndDependenciesValidation<M> as BlockValidation>::validate_block,
                (chain, block, previous_state_root),
                result,
            ),
            StandardValidation::OnChainRules(rules) => call_ensures(
                <OnChainRulesValidation<F> as BlockValidation>::validate_block,
                (rules, block, previous_state_root),
                result,
            ),
            StandardValidation::Permission(permission) => call_ensures(
                <PermissionValidation<V> as BlockValidation>::validate_block,
                (permission, block, previous_state_root),
                result,
            ),
        },
{
}

/// Copied services are copies of each of them, with the same housekeeping payload.
pub proof fn law_copied_services_are_copies<M: Clone, P: Clone, F: Clone, V: Clone>(
    services: &ValidationServices<M, P, F, V>,
    copy: ValidationServices<M, P, F, V>,
)
    requires
        call_ensures(ValidationServices::<M, P, F, V>::clone, (services,), copy),
    ensures
        cloned(services.block_manager, copy.block_manager),
        cloned(services.transaction_executor, copy.transaction_executor),
        cloned(services.view_factory, copy.view_factory),
        cloned(services.permission_verifier, copy.permission_verifier),
        copy.injector_payload == services.injector_payload,
{
}

/// What was asked of the validations is a conclusion of the processor.
proof fn lemma_concluded_of<
    M: BlockManager,
    V: BlockValidation<ReturnValue = ()>,
    S: BlockValidation<ReturnValue = BlockValidationResult>,
>(
    processor: &BlockValidationProcessor<M, V, S>,
    block: &Block,
    root: Option<&String>,
    result: Result<BlockValidationResult, ValidationError>,
)
    requires
        (exists|i: int|
            {
                &&& 0 <= i < processor.validations@.len()
                &&& result is Err
                &&& call_ensures(
                    V::validate_block,
                    (&#[trigger] processor.validations@[i], block, root),
                    Err::<(), ValidationError>(result->Err_0),
                )
                &&& forall|j: int|
                    0 <= j < i ==> call_ensures(
                        V::validate_block,
                        (&#[trigger] processor.validations@[j], block, root),
                        Ok::<(), ValidationError>(()),
                    )
            }) || (call_ensures(
            S::validate_block,
            (&processor.state_validation, block, root),
            result,
        ) && (forall|j: int|
            0 <= j < processor.validations@.len() ==> call_ensures(
                V::validate_block,
                (&#[trigger] processor.validations@[j], block, root),
                Ok::<(), ValidationError>(()),
            ))),
    ensures
        processor.concluded(block, root, result),
{
    if exists|i: int|
        {
            &&& 0 <= i < processor.validations@.len()
            &&& result is Err
            &&& call_ensures(
                V::validate_block,
                (&#[trigger] processor.validations@[i], block, root),
                Err::<(), ValidationError>(result->Err_0),
            )
            &&& forall|j: int|
                0 <= j < i ==> call_ensures(
                    V::validate_block,
                    (&#[trigger] processor.validations@[j], block, root),
                    Ok::<(), ValidationError>(()),
                )
        } {
        let i = choose|i: int|
            {
                &&& 0 <= i < processor.validations@.len()
                &&& result is Err
                &&& call_ensures(
                    V::validate_block,
                    (&#[trigger] processor.validations@[i], block, root),
                    Err::<(), ValidationError>(result->Err_0),
                )
                &&& forall|j: int|
                    0 <= j < i ==> call_ensures(
                        V::validate_block,
                        (&#[trigger] processor.validations@[j], block, root),
                        Ok::<(), ValidationError>(()),
                    )
            };
        assert(processor.refused_by(block, root, i, result->Err_0));
    }
}

/// What the processor of the standard validations concludes of a block, end to end: on the state
/// root of the predecessor, if the block manager's answer starts with one, the block is found
/// valid only where the checks against the chain, by the rules and by the permissions passed it
/// and its execution did; otherwise the error is that of the first of these that refused it.
/// Returns the answer of the block manager and the state root.
pub proof fn law_what_the_standard_validations_conclude<
    'a,
    M: BlockManager + Clone + Send,
    P: ExecutionPlatform + Clone + Send,
    F: StateViewFactory + Clone + Send,
    V: PermissionVerifier + Clone + Send,
>(
    services: &ValidationServices<M, P, F, V>,
    processor: &'a StandardProcessor<M, P, F, V>,
    block: &'a Block,
    result: Result<BlockValidationResult, ValidationError>,
) -> (found: (Vec<Option<Block>>, Option<&'a String>))
    requires
        call_ensures(
            ValidationServices::<M, P, F, V>::block_validations,
            (services,),
            *processor,
        ),
        call_ensures(StandardProcessor::<M, P, F, V>::validate_block, (processor, block), result),
    ensures
        found.0@.len() > 0 && found.0@[0] is Some ==> found.1 == Some(
            &(found.0@[0]->0).state_root_hash,
        ),
        found.0@.len() == 0 || found.0@[0] is None ==> found.1 is None,
        exists|chain: Result<(), ValidationErrorView>|
            {
                &&& #[trigger] checked_against_chain(
                    &processor.validations@[0]->DuplicatesAndDependencies_0.block_manager,
                    block,
                    chain,
                )
                &&& chain is Err ==> result is Err && (result->Err_0)@ == chain->Err_0
                &&& chain is Ok ==> exists|rules: Result<(), ValidationErrorView>|
                    {
                        &&& #[trigger] rules_checked(
                            &processor.validations@[1]->OnChainRules_0.view_factory,
                            python_bytes(*services.injector_payload),
                            block,
                            found.1,
                            rules,
                        )
                        &&& rules is Err ==> result is Err && (result->Err_0)@ == rules->Err_0
                        &&& rules is Ok ==> exists|permission: Result<(), ValidationErrorView>|
                            {
                                &&& #[trigger] permissions_checked(
                                    &processor.validations@[2]->Permission_0.permission_verifier,
                                    block,
                                    found.1,
                                    permission,
                                )
                                &&& permission is Err ==> result is Err && (result->Err_0)@
                                    == permission->Err_0
                                &&& permission is Ok ==> executed(
                                    &processor.state_validation.transaction_executor,
                                    block,
                                    found.1,
                                    outcome(result),
                                )
                            }
                    }
            },
{
    law_what_the_standard_validations_are(services, *processor);
    let found = law_validations_are_asked_with_the_predecessors_state(processor, block, result);
    let root = found.1;
    lemma_concluded_of(processor, block, root, result);
    let ok = Ok::<(), ValidationError>(());
    let refusal = Err::<(), ValidationError>(result->Err_0);
    assert(outcome(ok) == Ok::<(), ValidationErrorView>(()));
    let chain = processor.validations@[0];
    let rules = processor.validations@[1];
    let permission = processor.validations@[2];
    let at = if result is Err && exists|i: int|
        #[trigger] processor.refused_by(block, root, i, result->Err_0) {
        choose|i: int| #[trigger] processor.refused_by(block, root, i, result->Err_0)
    } else {
        3
    };
    if at > 0 {
        law_a_standard_validation_answers_for_another(&chain, block, root, ok);
        assert(checked_against_chain(
            &chain->DuplicatesAndDependencies_0.block_manager,
            block,
            outcome(ok),
        ));
    } else {
        law_a_standard_validation_answers_for_another(&chain, block, root, refusal);
        assert(checked_against_chain(
            &chain->DuplicatesAndDependencies_0.block_manager,
            block,
            outcome(refusal),
        ));
    }
    if at > 1 {
        law_a_standard_validation_answers_for_another(&rules, block, root, ok);
        assert(rules_checked(
            &rules->OnChainRules_0.view_factory,
            python_bytes(*services.injector_payload),
            block,
            root,
            outcome(ok),
        ));
    } else if at == 1 {
        law_a_standard_validation_answers_for_another(&rules, block, root, refusal);
        assert(rules_checked(
            &rules->OnChainRules_0.view_factory,
            python_bytes(*services.injector_payload),
            block,
            root,
            outcome(refusal),
        ));
    }
    if at > 2 {
        law_a_standard_validation_answers_for_another(&permission, block, root, ok);
        assert(permissions_checked(
            &permission->Permission_0.permission_verifier,
            block,
            root,
            outcome(ok),
        ));
    } else if at == 2 {
        law_a_standard_validation_answers_for_another(&permission, block, root, refusal);
        assert(permissions_checked(
            &permission->Permission_0.permission_verifier,
            block,
            root,
            outcome(refusal),
        ));
    }
    found
}

} // verus!
