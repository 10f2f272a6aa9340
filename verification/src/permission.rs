//! The validation of a block by the permissions of its batches' signers.

use crate::block::{Block, BlockView};
use crate::error::{outcome, ValidationError, ValidationErrorView};
use crate::service::PermissionVerifier;
use crate::text::{decimal, render_decimal};
use crate::validation::BlockValidation;
use vstd::prelude::*;
use vstd::string::*;

verus! {

/// The index of the first batch whose signer was refused.
pub open spec fn first_refused(answers: Seq<bool>) -> Option<int>
    decreases answers.len(),
{
    if answers.len() == 0 {
        None
    } else if first_refused(answers.drop_last()) is Some {
        first_refused(answers.drop_last())
    } else if answers.last() {
        None
    } else {
        Some(answers.len() - 1)
    }
}

/// The error for a block whose predecessor's state is not known.
pub open spec fn no_state_for_permissions(block: BlockView) -> ValidationErrorView {
    ValidationErrorView::BlockValidationError(
        "During permission check of block "@ + block.header_signature + " block_num is "@
            + decimal(block.block_num as nat) + " but missing a previous state root"@,
    )
}

/// The error for a block with a batch whose signer was refused.
pub open spec fn signer_refused(block: BlockView, i: int) -> ValidationErrorView {
    ValidationErrorView::BlockValidationFailure(
        "Block "@ + block.header_signature + " failed permission verification: batch "@
            + block.batches[i].header_signature + " signer is not authorized"@,
    )
}

/// What the answers on the signers of a block's batches, in the order of the batches, say of the
/// block. The first block is not held to any permission.
pub open spec fn permitted(block: BlockView, state_known: bool, answers: Seq<bool>) -> Result<
    (),
    ValidationErrorView,
> {
    if block.block_num == 0 {
        Ok(())
    } else if !state_known {
        Err(no_state_for_permissions(block))
    } else {
        match first_refused(answers) {
            Some(i) => Err(signer_refused(block, i)),
            None => Ok(()),
        }
    }
}

/// These are the answers on the signers of a block's batches: asked for in the order of the
/// batches up to the first that is refused, and not at all for the first block, nor where the
/// predecessor's state is not known.
pub open spec fn asked<V: PermissionVerifier>(
    verifier: &V,
    block: &Block,
    previous_state_root: Option<&String>,
    answers: Seq<bool>,
) -> bool {
    &&& answers.len() <= block.batches@.len()
    &&& previous_state_root is None || block.block_num == 0 ==> answers.len() == 0
    &&& forall|i: int|
        0 <= i < answers.len() ==> call_ensures(
            V::is_batch_signer_authorized,
            (verifier, &block.batches@[i], previous_state_root->0),
            #[trigger] answers[i],
        )
    &&& forall|i: int| 0 <= i < answers.len() - 1 ==> #[trigger] answers[i]
    &&& previous_state_root is Some && block.block_num != 0 ==> {
        ||| answers.len() == block.batches@.len()
        ||| answers.len() > 0 && !answers.last()
    }
}

/// Asking for the permissions led to this result.
pub open spec fn permissions_checked<V: PermissionVerifier>(
    verifier: &V,
    block: &Block,
    previous_state_root: Option<&String>,
    result: Result<(), ValidationErrorView>,
) -> bool {
    exists|answers: Seq<bool>|
        {
            &&& #[trigger] asked(verifier, block, previous_state_root, answers)
            &&& result == permitted(block@, previous_state_root is Some, answers)
        }
}

/// Judges a block by the answers on the signers of its batches.
pub fn judge_permissions(block: &Block, state_known: bool, answers: &Vec<bool>) -> (result: Result<
    (),
    ValidationError,
>)
    requires
        answers.len() <= block.batches.len(),
    ensures
        outcome(result) == permitted(block@, state_known, answers@),
{
    if block.block_num == 0 {
        return Ok(());
    }
    if !state_known {
        return Err(
            ValidationError::BlockValidationError(
                "During permission check of block ".to_owned().concat(
                    block.header_signature.as_str(),
                ).concat(" block_num is ").concat(render_decimal(block.block_num).as_str()).concat(
                    " but missing a previous state root",
                ),
            ),
        );
    }
    let mut i: usize = 0;
    while i < answers.len()
        invariant
            i <= answers.len() <= block.batches.len(),
            block.block_num != 0,
            state_known,
            first_refused(answers@.take(i as int)) is None,
        decreases answers.len() - i,
    {
        assert(answers@.take(i + 1).drop_last() =~= answers@.take(i as int));
        if !answers[i] {
            proof {
                lemma_first_refused_stays(answers@, i + 1);
            }
            return Err(
                ValidationError::BlockValidationFailure(
                    "Block ".to_owned().concat(block.header_signature.as_str()).concat(
                        " failed permission verification: batch ",
                    ).concat(block.batches[i].header_signature.as_str()).concat(
                        " signer is not authorized",
                    ),
                ),
            );
        }
        i += 1;
    }
    assert(answers@.take(i as int) =~= answers@);
    Ok(())
}

/// The first refusal stays the first whatever answers follow.
proof fn lemma_first_refused_stays(answers: Seq<bool>, n: int)
    requires
        0 <= n <= answers.len(),
        first_refused(answers.take(n)) is Some,
    ensures
        first_refused(answers) == first_refused(answers.take(n)),
    decreases answers.len(),
{
    if n == answers.len() {
        assert(answers.take(n) =~= answers);
    } else {
        assert(answers.drop_last().take(n) =~= answers.take(n));
        lemma_first_refused_stays(answers.drop_last(), n);
    }
}

/// Validates that the signers of all the batches of a block are authorized by the state that
/// the block builds on.
pub struct PermissionValidation<V: PermissionVerifier> {
    /// The permissions in the state.
    pub permission_verifier: V,
}

impl<V: PermissionVerifier> PermissionValidation<V> {
    /// A validation by the permissions of the given verifier.
    pub fn new(permission_verifier: V) -> (validation: Self)
        ensures
            validation.permission_verifier == permission_verifier,
    {
        PermissionValidation { permission_verifier }
    }
}

impl<V: PermissionVerifier + Send> BlockValidation for PermissionValidation<V> {
    type ReturnValue = ();

    fn validate_block(&self, block: &Block, previous_state_root: Option<&String>) -> (result:
        Result<(), ValidationError>)
        ensures
            permissions_checked(
                &self.permission_verifier,
                block,
                previous_state_root,
                outcome(result),
            ),
    {
        let mut answers: Vec<bool> = Vec::new();
        if block.block_num != 0 {
            if let Some(state_root) = previous_state_root {
                let mut refused: bool = false;
                while answers.len() < block.batches.len() && !refused
                    invariant
                        answers.len() <= block.batches.len(),
                        forall|i: int|
                            0 <= i < answers.len() ==> call_ensures(
                                V::is_batch_signer_authorized,
                                (&self.permission_verifier, &block.batches@[i], state_root),
                                #[trigger] answers@[i],
                            ),
                        forall|i: int| 0 <= i < answers.len() - 1 ==> #[trigger] answers@[i],
                        refused == (answers.len() > 0 && !answers@.last()),
                    decreases block.batches.len() - answers.len(),
                {
                    let authorized: bool = self.permission_verifier.is_batch_signer_authorized(
                        &block.batches[answers.len()],
                        state_root,
                    );
                    answers.push(authorized);
                    refused = !authorized;
                }
            }
        }
        assert(asked(&self.permission_verifier, block, previous_state_root, answers@));
        judge_permissions(block, previous_state_root.is_some(), &answers)
    }
}

/// No batch is the first refused if, and only if, none was refused.
proof fn lemma_first_refused(answers: Seq<bool>)
    ensures
        match first_refused(answers) {
            Some(i) => 0 <= i < answers.len() && !answers[i],
            None => forall|i: int| 0 <= i < answers.len() ==> #[trigger] answers[i],
        },
    decreases answers.len(),
{
    if answers.len() > 0 {
        let shorter = answers.drop_last();
        lemma_first_refused(shorter);
        assert(forall|i: int| 0 <= i < shorter.len() ==> shorter[i] == #[trigger] answers[i]);
    }
}

/// A block that is not the first passes only if its predecessor's state is known and the signer
/// of each of its batches was authorized by that state.
pub proof fn law_signers_are_authorized<V: PermissionVerifier>(
    verifier: &V,
    block: &Block,
    previous_state_root: Option<&String>,
)
    requires
        permissions_checked(verifier, block, previous_state_root, Ok(())),
        block.block_num != 0,
    ensures
        previous_state_root is Some,
        forall|i: int|
            0 <= i < block.batches@.len() ==> call_ensures(
                V::is_batch_signer_authorized,
                (verifier, &#[trigger] block.batches@[i], previous_state_root->0),
                true,
            ),
{
    let answers = choose|answers: Seq<bool>|
        {
            &&& #[trigger] asked(verifier, block, previous_state_root, answers)
            &&& Ok::<(), ValidationErrorView>(()) == permitted(
                block@,
                previous_state_root is Some,
                answers,
            )
        };
    lemma_first_refused(answers);
    assert(answers.len() == block.batches@.len());
    assert forall|i: int| 0 <= i < block.batches@.len() implies call_ensures(
        V::is_batch_signer_authorized,
        (verifier, &#[trigger] block.batches@[i], previous_state_root->0),
        true,
    ) by {
        assert(answers[i]);
    }
}

/// The first block passes whatever the permissions are.
pub proof fn law_first_block_needs_no_permission<V: PermissionVerifier>(
    verifier: &V,
    block: &Block,
    previous_state_root: Option<&String>,
    result: Result<(), ValidationErrorView>,
)
    requires
        permissions_checked(verifier, block, previous_state_root, result),
        block.block_num == 0,
    ensures
        result is Ok,
{
}

/// A block is left undecided, rather than found to fail, if, and only if, it is not the first and
/// its predecessor's state is not known. A refused signer makes it fail.
pub proof fn law_when_permissions_leave_a_block_undecided<V: PermissionVerifier>(
    verifier: &V,
    block: &Block,
    previous_state_root: Option<&String>,
    result: Result<(), ValidationErrorView>,
)
    requires
        permissions_checked(verifier, block, previous_state_root, result),
    ensures
        (result matches Err(ValidationErrorView::BlockValidationError(_))) <==> block.block_num
            != 0 && previous_state_root is None,
        (result matches Err(ValidationErrorView::BlockValidationFailure(_))) ==> exists|i: int|
            0 <= i < block.batches@.len() && call_ensures(
                V::is_batch_signer_authorized,
                (verifier, &#[trigger] block.batches@[i], previous_state_root->0),
                false,
            ),
{
    let answers = choose|answers: Seq<bool>|
        {
            &&& #[trigger] asked(verifier, block, previous_state_root, answers)
            &&& result == permitted(block@, previous_state_root is Some, answers)
        };
    lemma_first_refused(answers);
    if let Err(ValidationErrorView::BlockValidationFailure(_)) = result {
        let i = first_refused(answers)->0;
        assert(!answers[i]);
        assert(call_ensures(
            V::is_batch_signer_authorized,
            (verifier, &block.batches@[i], previous_state_root->0),
            answers[i],
        ));
    }
}

/// Validation by permissions is independent: it never reports that the chain was changed.
pub proof fn law_permissions_are_independent<V: PermissionVerifier>(
    verifier: &V,
    block: &Block,
    previous_state_root: Option<&String>,
    result: Result<(), ValidationErrorView>,
)
    requires
        permissions_checked(verifier, block, previous_state_root, result),
    ensures
        !(result matches Err(ValidationErrorView::BlockStoreUpdated)),
{
}

/// How the permissions of a block's signers are checked: the first block passes, and another one
/// needs its predecessor's state. With that, it passes where the verifier authorized the signer
/// of every batch by that state; otherwise there is a first batch whose signer the verifier
/// refused, and the block fails with a text that names it.
pub proof fn law_how_permissions_are_checked<V: PermissionVerifier + Send>(
    validation: &PermissionValidation<V>,
    block: &Block,
    previous_state_root: Option<&String>,
    result: Result<(), ValidationError>,
)
    requires
        call_ensures(
            <PermissionValidation<V> as BlockValidation>::validate_block,
            (validation, block, previous_state_root),
            result,
        ),
    ensures
        block.block_num == 0 ==> result is Ok,
        block.block_num != 0 && previous_state_root is None ==> {
            &&& result matches Err(ValidationError::BlockValidationError(text))
            &&& text@ == "During permission check of block "@ + block.header_signature@
                + " block_num is "@ + decimal(block.block_num as nat)
                + " but missing a previous state root"@
        },
        block.block_num != 0 && previous_state_root is Some ==> match result {
            Ok(_) => forall|i: int|
                0 <= i < block.batches@.len() ==> call_ensures(
                    V::is_batch_signer_authorized,
                    (
                        &validation.permission_verifier,
                        &#[trigger] block.batches@[i],
                        previous_state_root->0,
                    ),
                    true,
                ),
            Err(error) => exists|i: int|
                {
                    &&& 0 <= i < block.batches@.len()
                    &&& call_ensures(
                        V::is_batch_signer_authorized,
                        (
                            &validation.permission_verifier,
                            &#[trigger] block.batches@[i],
                            previous_state_root->0,
                        ),
                        false,
                    )
                    &&& forall|j: int|
                        0 <= j < i ==> call_ensures(
                            V::is_batch_signer_authorized,
                            (
                                &validation.permission_verifier,
                                &#[trigger] block.batches@[j],
                                previous_state_root->0,
                            ),
                            true,
                        )
                    &&& error matches ValidationError::BlockValidationFailure(text)
                    &&& text@ == "Block "@ + block.header_signature@
                        + " failed permission verification: batch "@
                        + block.batches@[i].header_signature@ + " signer is not authorized"@
                },
        },
{
    let seen = outcome(result);
    let verifier = &validation.permission_verifier;
    assert(permissions_checked(verifier, block, previous_state_root, seen));
    let answers = choose|answers: Seq<bool>|
        {
            &&& #[trigger] asked(verifier, block, previous_state_root, answers)
            &&& seen == permitted(block@, previous_state_root is Some, answers)
        };
    lemma_first_refused(answers);
    if block.block_num != 0 && previous_state_root is Some {
        assert forall|j: int| 0 <= j < answers.len() implies call_ensures(
            V::is_batch_signer_authorized,
            (verifier, &#[trigger] block.batches@[j], previous_state_root->0),
            answers[j],
        ) by {
            let answer = answers[j];
        }
        if result is Ok {
            assert(answers.len() == block.batches@.len());
            assert forall|j: int| 0 <= j < block.batches@.len() implies call_ensures(
                V::is_batch_signer_authorized,
                (verifier, &#[trigger] block.batches@[j], previous_state_root->0),
                true,
            ) by {
                assert(answers[j]);
            }
        } else {
            let i = first_refused(answers)->0;
            assert(!answers[i]);
            assert(i == answers.len() - 1);
            let batch = block.batches@[i];
            assert(block@.batches[i].header_signature == batch.header_signature@);
            assert forall|j: int| 0 <= j < i implies call_ensures(
                V::is_batch_signer_authorized,
                (verifier, &#[trigger] block.batches@[j], previous_state_root->0),
                true,
            ) by {
                assert(answers[j]);
            }
            assert(seen == Err::<(), ValidationErrorView>(signer_refused(block@, i)));
        }
    }
}

/// How the answers on the signers of a block's batches are judged: the first block passes, and
/// another one needs a known state. With that, it passes where no signer was refused; otherwise
/// the text of its failure names the first batch whose signer was.
pub proof fn law_how_answers_are_judged(
    block: &Block,
    state_known: bool,
    answers: &Vec<bool>,
    result: Result<(), ValidationError>,
)
    requires
        answers@.len() <= block.batches@.len(),
        call_ensures(judge_permissions, (block, state_known, answers), result),
    ensures
        result is Ok <==> block.block_num == 0 || state_known && forall|i: int|
            0 <= i < answers@.len() ==> #[trigger] answers@[i],
        block.block_num != 0 && !state_known ==> {
            &&& result matches Err(ValidationError::BlockValidationError(text))
            &&& text@ == "During permission check of block "@ + block.header_signature@
                + " block_num is "@ + decimal(block.block_num as nat)
                + " but missing a previous state root"@
        },
        forall|i: int|
            0 <= i < answers@.len() && !(#[trigger] answers@[i]) && (forall|j: int|
                0 <= j < i ==> #[trigger] answers@[j]) && block.block_num != 0 && state_known ==> {
                &&& result matches Err(ValidationError::BlockValidationFailure(text))
                &&& text@ == "Block "@ + block.header_signature@
                    + " failed permission verification: batch "@
                    + block.batches@[i].header_signature@ + " signer is not authorized"@
            },
{
    let seen = outcome(result);
    assert(seen == permitted(block@, state_known, answers@));
    lemma_first_refused(answers@);
    lemma_none_refused_before(answers@);
    if let Some(k) = first_refused(answers@) {
        assert(!answers@[k]);
        let batch = block.batches@[k];
        assert(block@.batches[k].header_signature == batch.header_signature@);
    }
}

/// No answer before the first refusal is one.
proof fn lemma_none_refused_before(answers: Seq<bool>)
    ensures
        first_refused(answers) matches Some(i) ==> forall|j: int|
            0 <= j < i ==> #[trigger] answers[j],
    decreases answers.len(),
{
    if answers.len() > 0 {
        let shorter = answers.drop_last();
        lemma_none_refused_before(shorter);
        lemma_first_refused(shorter);
        assert(forall|i: int| 0 <= i < shorter.len() ==> shorter[i] == #[trigger] answers[i]);
    }
}

} // verus!
