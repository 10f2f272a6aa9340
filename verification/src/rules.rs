//! The validation of a block by the rules that are kept on the chain.

use crate::block::{BatchView, Block, BlockView, Transaction};
use crate::error::{outcome, ServiceError, ValidationError, ValidationErrorView};
use crate::python::{python_bytes, read_bytes};
use crate::service::{SettingsView, StateViewFactory};
use crate::text::{decimal, render_decimal};
use crate::validation::BlockValidation;
use std::sync::Arc;
use vstd::prelude::*;
use vstd::string::*;

verus! {

/// Whether a transaction of this payload occurs after the first batch.
pub open spec fn occurs_after_first_batch(batches: Seq<BatchView>, payload: Seq<u8>) -> bool {
    exists|i: int, j: int|
        1 <= i < batches.len() && 0 <= j < batches[i].transactions.len()
            && #[trigger] batches[i].transactions[j].payload == payload
}

/// The error for a block whose predecessor's state is not known.
pub open spec fn no_state_for_rules(block: BlockView) -> ValidationErrorView {
    ValidationErrorView::BlockValidationError(
        "During check of on-chain rules for block "@ + block.header_signature
            + ", block num was "@ + decimal(block.block_num as nat)
            + ", but missing a previous state root"@,
    )
}

/// The error for settings that could not be opened.
pub open spec fn no_settings(cause: Seq<char>) -> ValidationErrorView {
    ValidationErrorView::BlockValidationError(
        "During validate_on_chain_rules, error creating settings view: "@ + cause,
    )
}

/// The error for a block with housekeeping after its first batch.
pub open spec fn unneeded_housekeeping(block: BlockView) -> ValidationErrorView {
    ValidationErrorView::BlockValidationFailure(
        "Block invalid "@ + block.header_signature + " due to unneeded housekeeping."@,
    )
}

/// The error for a block that breaks the rules of the settings.
pub open spec fn rules_broken(block: BlockView) -> ValidationErrorView {
    ValidationErrorView::BlockValidationFailure(
        "Block "@ + block.header_signature + " failed validation rules"@,
    )
}

/// What the payload of housekeeping transactions says of a block: housekeeping belongs into the
/// first batch alone.
pub open spec fn kept_house(block: BlockView, injector_payload: Seq<u8>) -> Result<
    (),
    ValidationErrorView,
> {
    if occurs_after_first_batch(block.batches, injector_payload) {
        Err(unneeded_housekeeping(block))
    } else {
        Ok(())
    }
}

/// Holding a block against the settings `view` led to this result.
pub open spec fn rules_enforced<S: SettingsView>(
    view: &S,
    block: &Block,
    result: Result<(), ValidationErrorView>,
) -> bool {
    exists|obeyed: bool|
        {
            &&& #[trigger] call_ensures(
                S::enforce_validation_rules,
                (view, &block.signer_public_key, &block.batches),
                obeyed,
            )
            &&& result == if obeyed {
                Ok::<(), ValidationErrorView>(())
            } else {
                Err(rules_broken(block@))
            }
        }
}

/// Opening the settings in the state of the given root, looking for housekeeping of this
/// payload and enforcing the rules, one after the other up to the first that fails, led to this
/// result.
pub open spec fn held_to_rules<F: StateViewFactory>(
    factory: &F,
    injector_payload: Seq<u8>,
    block: &Block,
    state_root: &String,
    result: Result<(), ValidationErrorView>,
) -> bool {
    exists|opening: Result<F::View, ServiceError>|
        {
            &&& #[trigger] call_ensures(F::create_view, (factory, state_root), opening)
            &&& match opening {
                Err(cause) => result == Err::<(), ValidationErrorView>(no_settings(cause@)),
                Ok(view) => match kept_house(block@, injector_payload) {
                    Err(error) => result == Err::<(), ValidationErrorView>(error),
                    Ok(_) => rules_enforced(&view, block, result),
                },
            }
        }
}

/// Checking a block against the rules on the chain led to this result. The first block is not
/// held to any rule.
pub open spec fn rules_checked<F: StateViewFactory>(
    factory: &F,
    injector_payload: Seq<u8>,
    block: &Block,
    previous_state_root: Option<&String>,
    result: Result<(), ValidationErrorView>,
) -> bool {
    if block.block_num == 0 {
        result is Ok
    } else {
        match previous_state_root {
            None => result == Err::<(), ValidationErrorView>(no_state_for_rules(block@)),
            Some(state_root) => held_to_rules(
                factory,
                injector_payload,
                block,
                state_root,
                result,
            ),
        }
    }
}

/// Whether two byte strings are the same.
fn same_bytes(a: &Vec<u8>, b: &Vec<u8>) -> (same: bool)
    ensures
        same == (a@ == b@),
{
    if a.len() != b.len() {
        return false;
    }
    let mut i: usize = 0;
    while i < a.len()
        invariant
            i <= a.len() == b.len(),
            forall|k: int| 0 <= k < i ==> a@[k] == b@[k],
        decreases a.len() - i,
    {
        if a[i] != b[i] {
            return false;
        }
        i += 1;
    }
    assert(a@ =~= b@);
    true
}

/// Whether a transaction of this payload is among the given ones.
fn has_payload(transactions: &Vec<Transaction>, payload: &Vec<u8>) -> (found: bool)
    ensures
        found == exists|j: int|
            0 <= j < transactions.len() && (#[trigger] transactions@[j]).payload@ == payload@,
{
    let mut j: usize = 0;
    while j < transactions.len()
        invariant
            j <= transactions.len(),
            forall|k: int| 0 <= k < j ==> (#[trigger] transactions@[k]).payload@ != payload@,
        decreases transactions.len() - j,
    {
        if same_bytes(&transactions[j].payload, payload) {
            return true;
        }
        j += 1;
    }
    false
}

/// Looks for housekeeping of the given payload where it does not belong: after the first batch.
pub fn check_housekeeping(block: &Block, injector_payload: &Vec<u8>) -> (result: Result<
    (),
    ValidationError,
>)
    ensures
        outcome(result) == kept_house(block@, injector_payload@),
{
    let mut i: usize = 1;
    while i < block.batches.len()
        invariant
            1 <= i,
            forall|k: int, j: int|
                1 <= k < i && 0 <= j < block@.batches[k].transactions.len()
                    ==> #[trigger] block@.batches[k].transactions[j].payload != injector_payload@,
        decreases block.batches.len() - i,
    {
        if has_payload(&block.batches[i].transactions, injector_payload) {
            proof {
                let j = choose|j: int|
                    0 <= j < block.batches@[i as int].transactions@.len()
                        && (#[trigger] block.batches@[i as int].transactions@[j]).payload@
                        == injector_payload@;
                assert(block@.batches[i as int].transactions[j].payload == injector_payload@);
            }
            return Err(
                ValidationError::BlockValidationFailure(
                    "Block invalid ".to_owned().concat(block.header_signature.as_str()).concat(
                        " due to unneeded housekeeping.",
                    ),
                ),
            );
        }
        i += 1;
    }
    Ok(())
}

/// Validates a block by the rules in the settings of the state that it builds on, and that it
/// holds no housekeeping but in its first batch.
pub struct OnChainRulesValidation<F: StateViewFactory> {
    /// Access to the settings.
    pub view_factory: F,
    /// The payload by which a housekeeping transaction is known.
    pub injector_payload: Arc<cpython::PyBytes>,
}

impl<F: StateViewFactory> OnChainRulesValidation<F> {
    /// The payload by which a housekeeping transaction is known.
    pub open spec fn housekeeping_payload(&self) -> Seq<u8> {
        python_bytes(*self.injector_payload)
    }

    /// A validation by the settings that the given factory opens, with the payload by which a
    /// housekeeping transaction is known.
    pub fn new(view_factory: F, injector_payload: Arc<cpython::PyBytes>) -> (validation: Self)
        ensures
            validation.view_factory == view_factory,
            validation.injector_payload == injector_payload,
    {
        OnChainRulesValidation { view_factory, injector_payload }
    }
}

impl<F: StateViewFactory + Send> BlockValidation for OnChainRulesValidation<F> {
    type ReturnValue = ();

    fn validate_block(&self, block: &Block, previous_state_root: Option<&String>) -> (result:
        Result<(), ValidationError>)
        ensures
            rules_checked(
                &self.view_factory,
                self.housekeeping_payload(),
                block,
                previous_state_root,
                outcome(result),
            ),
    {
        if block.block_num != 0 {
            let state_root: &String = match previous_state_root {
                Some(state_root) => state_root,
                None => {
                    return Err(
                        ValidationError::BlockValidationError(
                            "During check of on-chain rules for block ".to_owned().concat(
                                block.header_signature.as_str(),
                            ).concat(", block num was ").concat(
                                render_decimal(block.block_num).as_str(),
                            ).concat(", but missing a previous state root"),
                        ),
                    );
                },
            };
            let settings_view: F::View = match self.view_factory.create_view(state_root) {
                Ok(settings_view) => settings_view,
                Err(cause) => {
                    return Err(
                        ValidationError::BlockValidationError(
                            "During validate_on_chain_rules, error creating settings view: "
                                .to_owned().concat(cause.detail.as_str()),
                        ),
                    );
                },
            };
            let injector_payload: Vec<u8> = read_bytes(&self.injector_payload);
            match check_housekeeping(block, &injector_payload) {
                Ok(()) => (),
                Err(error) => {
                    return Err(error);
                },
            }
            if !settings_view.enforce_validation_rules(&block.signer_public_key, &block.batches) {
                return Err(
                    ValidationError::BlockValidationFailure(
                        "Block ".to_owned().concat(block.header_signature.as_str()).concat(
                            " failed validation rules",
                        ),
                    ),
                );
            }
        }
        Ok(())
    }
}

/// A block that is not the first passes only if its predecessor's state is known, settings could
/// be opened in it whose rules the block obeys, and it holds no housekeeping after its first
/// batch.
pub proof fn law_rules_are_obeyed<F: StateViewFactory>(
    factory: &F,
    injector_payload: Seq<u8>,
    block: &Block,
    previous_state_root: Option<&String>,
)
    requires
        rules_checked(factory, injector_payload, block, previous_state_root, Ok(())),
        block.block_num != 0,
    ensures
        previous_state_root is Some,
        !occurs_after_first_batch(block@.batches, injector_payload),
        exists|view: F::View|
            {
                &&& call_ensures(F::create_view, (factory, previous_state_root->0), Ok(view))
                &&& #[trigger] call_ensures(
                    <F::View as SettingsView>::enforce_validation_rules,
                    (&view, &block.signer_public_key, &block.batches),
                    true,
                )
            },
{
}

/// When a block is left undecided, rather than found to fail: never the first, always another
/// whose predecessor's state is not known, and where that is known if, and only if, the settings
/// in it could not be opened. A block that fails holds housekeeping where none belongs, or broke
/// the rules of settings that were opened.
pub proof fn law_when_rules_leave_a_block_undecided<F: StateViewFactory>(
    factory: &F,
    injector_payload: Seq<u8>,
    block: &Block,
    previous_state_root: Option<&String>,
    result: Result<(), ValidationErrorView>,
)
    requires
        rules_checked(factory, injector_payload, block, previous_state_root, result),
    ensures
        block.block_num == 0 ==> !(result matches Err(
            ValidationErrorView::BlockValidationError(_),
        )),
        block.block_num != 0 ==> match previous_state_root {
            None => result matches Err(ValidationErrorView::BlockValidationError(_)),
            Some(state_root) => exists|opening: Result<F::View, ServiceError>|
                {
                    &&& #[trigger] call_ensures(F::create_view, (factory, state_root), opening)
                    &&& (result matches Err(ValidationErrorView::BlockValidationError(_)))
                        <==> opening is Err
                },
        },
        (result matches Err(ValidationErrorView::BlockValidationFailure(_)))
            ==> occurs_after_first_batch(block@.batches, injector_payload) || exists|view: F::View|
            {
                &&& call_ensures(F::create_view, (factory, previous_state_root->0), Ok(view))
                &&& #[trigger] call_ensures(
                    <F::View as SettingsView>::enforce_validation_rules,
                    (&view, &block.signer_public_key, &block.batches),
                    false,
                )
            },
{
}

/// Validation by the rules is independent: it never reports that the chain was changed.
pub proof fn law_rules_are_independent<F: StateViewFactory>(
    factory: &F,
    injector_payload: Seq<u8>,
    block: &Block,
    previous_state_root: Option<&String>,
    result: Result<(), ValidationErrorView>,
)
    requires
        rules_checked(factory, injector_payload, block, previous_state_root, result),
    ensures
        !(result matches Err(ValidationErrorView::BlockStoreUpdated)),
{
}

/// How a block is held to the rules on the chain: the first block passes, and another one needs
/// its predecessor's state and settings that can be opened in it. With these, a transaction of the
/// housekeeping payload in any batch but the first makes it fail; without one the settings decide,
/// which are handed the key of the block's own signer and the block's batches. Returns what came
/// of opening the settings and whether these were obeyed.
pub proof fn law_how_rules_are_checked<F: StateViewFactory + Send>(
    validation: &OnChainRulesValidation<F>,
    block: &Block,
    previous_state_root: Option<&String>,
    result: Result<(), ValidationError>,
) -> (seen: (Result<F::View, ServiceError>, bool))
    requires
        call_ensures(
            <OnChainRulesValidation<F> as BlockValidation>::validate_block,
            (validation, block, previous_state_root),
            result,
        ),
    ensures
        block.block_num == 0 ==> result is Ok,
        block.block_num != 0 && previous_state_root is None ==> {
            &&& result matches Err(ValidationError::BlockValidationError(text))
            &&& text@ == "During check of on-chain rules for block "@ + block.header_signature@
                + ", block num was "@ + decimal(block.block_num as nat)
                + ", but missing a previous state root"@
        },
        block.block_num != 0 && previous_state_root is Some ==> {
            &&& call_ensures(
                F::create_view,
                (&validation.view_factory, previous_state_root->0),
                seen.0,
            )
            &&& match seen.0 {
                Err(cause) => {
                    &&& result matches Err(ValidationError::BlockValidationError(text))
                    &&& text@
                        == "During validate_on_chain_rules, error creating settings view: "@
                        + cause.detail@
                },
                Ok(view) => if exists|i: int, j: int|
                    {
                        &&& 1 <= i < block.batches@.len()
                        &&& 0 <= j < block.batches@[i].transactions@.len()
                        &&& (#[trigger] block.batches@[i].transactions@[j]).payload@
                            == python_bytes(*validation.injector_payload)
                    } {
                    &&& result matches Err(ValidationError::BlockValidationFailure(text))
                    &&& text@ == "Block invalid "@ + block.header_signature@
                        + " due to unneeded housekeeping."@
                } else {
                    &&& call_ensures(
                        <F::View as SettingsView>::enforce_validation_rules,
                        (&view, &block.signer_public_key, &block.batches),
                        seen.1,
                    )
                    &&& seen.1 ==> result is Ok
                    &&& !seen.1 ==> {
                        &&& result matches Err(ValidationError::BlockValidationFailure(text))
                        &&& text@ == "Block "@ + block.header_signature@
                            + " failed validation rules"@
                    }
                },
            }
        },
{
    let factory = &validation.view_factory;
    let payload = validation.housekeeping_payload();
    let seen = outcome(result);
    assert(rules_checked(factory, payload, block, previous_state_root, seen));
    if block.block_num != 0 && previous_state_root is Some {
        let state_root = previous_state_root->0;
        assert(held_to_rules(factory, payload, block, state_root, seen));
        let opening = choose|opening: Result<F::View, ServiceError>|
            {
                &&& #[trigger] call_ensures(F::create_view, (factory, state_root), opening)
                &&& match opening {
                    Err(cause) => seen == Err::<(), ValidationErrorView>(no_settings(cause@)),
                    Ok(view) => match kept_house(block@, payload) {
                        Err(error) => seen == Err::<(), ValidationErrorView>(error),
                        Ok(_) => rules_enforced(&view, block, seen),
                    },
                }
            };
        lemma_housekeeping_shown(block, payload);
        if opening is Ok && kept_house(block@, payload) is Ok {
            let view = opening->Ok_0;
            assert(rules_enforced(&view, block, seen));
            let obeyed = choose|obeyed: bool|
                {
                    &&& #[trigger] call_ensures(
                        <F::View as SettingsView>::enforce_validation_rules,
                        (&view, &block.signer_public_key, &block.batches),
                        obeyed,
                    )
                    &&& seen == if obeyed {
                        Ok::<(), ValidationErrorView>(())
                    } else {
                        Err(rules_broken(block@))
                    }
                };
            (opening, obeyed)
        } else {
            (opening, true)
        }
    } else {
        (arbitrary(), true)
    }
}

/// Housekeeping shows in the view of a block where it is in the block.
proof fn lemma_housekeeping_shown(block: &Block, payload: Seq<u8>)
    ensures
        occurs_after_first_batch(block@.batches, payload) <==> exists|i: int, j: int|
            {
                &&& 1 <= i < block.batches@.len()
                &&& 0 <= j < block.batches@[i].transactions@.len()
                &&& (#[trigger] block.batches@[i].transactions@[j]).payload@ == payload
            },
{
    if occurs_after_first_batch(block@.batches, payload) {
        let (i, j) = choose|i: int, j: int|
            1 <= i < block@.batches.len() && 0 <= j < block@.batches[i].transactions.len()
                && #[trigger] block@.batches[i].transactions[j].payload == payload;
        assert(block.batches@[i].transactions@[j].payload@ == payload);
    }
    if exists|i: int, j: int|
        {
            &&& 1 <= i < block.batches@.len()
            &&& 0 <= j < block.batches@[i].transactions@.len()
            &&& (#[trigger] block.batches@[i].transactions@[j]).payload@ == payload
        } {
        let (i, j) = choose|i: int, j: int|
            {
                &&& 1 <= i < block.batches@.len()
                &&& 0 <= j < block.batches@[i].transactions@.len()
                &&& (#[trigger] block.batches@[i].transactions@[j]).payload@ == payload
            };
        assert(block@.batches[i].transactions[j].payload == payload);
    }
}

/// Housekeeping makes a block fail if, and only if, a transaction of its payload is in any batch
/// but the first.
pub proof fn law_where_housekeeping_belongs(
    block: &Block,
    injector_payload: &Vec<u8>,
    result: Result<(), ValidationError>,
)
    requires
        call_ensures(check_housekeeping, (block, injector_payload), result),
    ensures
        result is Err <==> exists|i: int, j: int|
            {
                &&& 1 <= i < block.batches@.len()
                &&& 0 <= j < block.batches@[i].transactions@.len()
                &&& (#[trigger] block.batches@[i].transactions@[j]).payload@ == injector_payload@
            },
        result matches Err(error) ==> {
            &&& error matches ValidationError::BlockValidationFailure(text)
            &&& text@ == "Block invalid "@ + block.header_signature@
                + " due to unneeded housekeeping."@
        },
{
    let seen = outcome(result);
    assert(seen == kept_house(block@, injector_payload@));
    lemma_housekeeping_shown(block, injector_payload@);
}

} // verus!
