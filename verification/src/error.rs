//! The ways in which a validation can end without a verdict of validity.

use vstd::prelude::*;
use vstd::std_specs::convert::FromSpecImpl;
use vstd::string::*;

verus! {

/// An error of one of the services that a validation works with, held by its rendering for
/// diagnosis.
#[derive(Debug, PartialEq)]
pub struct ServiceError {
    /// The rendering of the service's own error.
    pub detail: String,
}

/// What the checks of a block against the chain of its predecessors may find.
#[derive(Debug, PartialEq)]
pub enum ChainCommitStateError {
    /// The batch of this identifier is already in the chain, or twice in the block.
    DuplicateBatch(String),
    /// The transaction of this identifier is already in the chain, or twice in the block.
    DuplicateTransaction(String),
    /// The transaction of this identifier is depended on, and not in the chain.
    MissingDependency(String),
    /// The chain was changed while it was looked at.
    BlockStoreUpdated,
    /// The checks could not be made.
    Error(String),
}

/// Why a block was not found valid.
#[derive(Debug, PartialEq)]
pub enum ValidationError {
    /// The block is invalid.
    BlockValidationFailure(String),
    /// The validation could not be completed.
    BlockValidationError(String),
    /// The chain was changed while the block was validated.
    BlockStoreUpdated,
}

/// What a [`ChainCommitStateError`] holds.
#[verifier::ext_equal]
pub enum ChainCommitStateErrorView {
    DuplicateBatch(Seq<char>),
    DuplicateTransaction(Seq<char>),
    MissingDependency(Seq<char>),
    BlockStoreUpdated,
    Error(Seq<char>),
}

/// What a [`ValidationError`] holds.
#[verifier::ext_equal]
pub enum ValidationErrorView {
    BlockValidationFailure(Seq<char>),
    BlockValidationError(Seq<char>),
    BlockStoreUpdated,
}

impl View for ServiceError {
    type V = Seq<char>;

    open spec fn view(&self) -> Seq<char> {
        self.detail@
    }
}

impl View for ChainCommitStateError {
    type V = ChainCommitStateErrorView;

    open spec fn view(&self) -> ChainCommitStateErrorView {
        match self {
            ChainCommitStateError::DuplicateBatch(id) =>
                ChainCommitStateErrorView::DuplicateBatch(id@),
            ChainCommitStateError::DuplicateTransaction(id) =>
                ChainCommitStateErrorView::DuplicateTransaction(id@),
            ChainCommitStateError::MissingDependency(id) =>
                ChainCommitStateErrorView::MissingDependency(id@),
            ChainCommitStateError::BlockStoreUpdated => ChainCommitStateErrorView::BlockStoreUpdated,
            ChainCommitStateError::Error(reason) => ChainCommitStateErrorView::Error(reason@),
        }
    }
}

impl View for ValidationError {
    type V = ValidationErrorView;

    open spec fn view(&self) -> ValidationErrorView {
        match self {
            ValidationError::BlockValidationFailure(reason) =>
                ValidationErrorView::BlockValidationFailure(reason@),
            ValidationError::BlockValidationError(reason) =>
                ValidationErrorView::BlockValidationError(reason@),
            ValidationError::BlockStoreUpdated => ValidationErrorView::BlockStoreUpdated,
        }
    }
}

impl Clone for ValidationError {
    fn clone(&self) -> (copy: ValidationError)
        ensures
            copy == *self,
    {
        match self {
            ValidationError::BlockValidationFailure(reason) =>
                ValidationError::BlockValidationFailure(reason.clone()),
            ValidationError::BlockValidationError(reason) =>
                ValidationError::BlockValidationError(reason.clone()),
            ValidationError::BlockStoreUpdated => ValidationError::BlockStoreUpdated,
        }
    }
}

/// The outcome of a validation, over what its parts hold.
pub open spec fn outcome<T: View>(result: Result<T, ValidationError>) -> Result<
    T::V,
    ValidationErrorView,
> {
    match result {
        Ok(value) => Ok(value@),
        Err(error) => Err(error@),
    }
}

/// The validation error that a finding of the checks against the chain amounts to: duplicates
/// and missing dependencies make the block invalid, the others leave it undecided.
pub open spec fn chain_finding(error: ChainCommitStateErrorView) -> ValidationErrorView {
    match error {
        ChainCommitStateErrorView::DuplicateBatch(id) =>
            ValidationErrorView::BlockValidationFailure(
                "Validation failure, duplicate batch "@ + id,
            ),
        ChainCommitStateErrorView::DuplicateTransaction(id) =>
            ValidationErrorView::BlockValidationFailure(
                "Validation failure, duplicate transaction "@ + id,
            ),
        ChainCommitStateErrorView::MissingDependency(id) =>
            ValidationErrorView::BlockValidationFailure(
                "Validation failure, missing dependency "@ + id,
            ),
        ChainCommitStateErrorView::Error(reason) => ValidationErrorView::BlockValidationError(
            reason,
        ),
        ChainCommitStateErrorView::BlockStoreUpdated => ValidationErrorView::BlockStoreUpdated,
    }
}

impl FromSpecImpl<ChainCommitStateError> for ValidationError {
    // Strings are told apart by their texts: `from` has a contract of its own over these.
    open spec fn obeys_from_spec() -> bool {
        false
    }

    open spec fn from_spec(error: ChainCommitStateError) -> ValidationError {
        ValidationError::BlockStoreUpdated
    }
}

impl From<ChainCommitStateError> for ValidationError {
    fn from(other: ChainCommitStateError) -> (error: Self)
        ensures
            error@ == chain_finding(other@),
    {
        match other {
            ChainCommitStateError::DuplicateBatch(batch_id) =>
                ValidationError::BlockValidationFailure(
                    "Validation failure, duplicate batch ".to_owned().concat(batch_id.as_str()),
                ),
            ChainCommitStateError::DuplicateTransaction(txn_id) =>
                ValidationError::BlockValidationFailure(
                    "Validation failure, duplicate transaction ".to_owned().concat(
                        txn_id.as_str(),
                    ),
                ),
            ChainCommitStateError::MissingDependency(txn_id) =>
                ValidationError::BlockValidationFailure(
                    "Validation failure, missing dependency ".to_owned().concat(txn_id.as_str()),
                ),
            ChainCommitStateError::Error(reason) => ValidationError::BlockValidationError(reason),
            ChainCommitStateError::BlockStoreUpdated => ValidationError::BlockStoreUpdated,
        }
    }
}

/// A success without a value is the one success there is.
pub proof fn lemma_unit_success<E>(result: Result<(), E>)
    requires
        result is Ok,
    ensures
        result == Ok::<(), E>(()),
{
    let unit: () = result->Ok_0;
    assert(unit == ());
}

/// The chain being changed during a validation is reported if, and only if, the checks against
/// the chain found just that.
pub proof fn law_store_update_passes_through(error: ChainCommitStateErrorView)
    ensures
        chain_finding(error) is BlockStoreUpdated <==> error is BlockStoreUpdated,
{
}

/// Two findings that give the same validation error are the same finding: no two findings are
/// confused.
pub proof fn law_findings_are_told_apart(
    a: ChainCommitStateErrorView,
    b: ChainCommitStateErrorView,
)
    requires
        chain_finding(a) == chain_finding(b),
    ensures
        a == b,
{
    reveal_strlit("Validation failure, duplicate batch ");
    reveal_strlit("Validation failure, duplicate transaction ");
    reveal_strlit("Validation failure, missing dependency ");
    match (a, b) {
        (
            ChainCommitStateErrorView::DuplicateBatch(x),
            ChainCommitStateErrorView::DuplicateBatch(y),
        ) => {
            lemma_same_prefix("Validation failure, duplicate batch "@, x, y);
        },
        (
            ChainCommitStateErrorView::DuplicateTransaction(x),
            ChainCommitStateErrorView::DuplicateTransaction(y),
        ) => {
            lemma_same_prefix("Validation failure, duplicate transaction "@, x, y);
        },
        (
            ChainCommitStateErrorView::MissingDependency(x),
            ChainCommitStateErrorView::MissingDependency(y),
        ) => {
            lemma_same_prefix("Validation failure, missing dependency "@, x, y);
        },
        _ => {
            // The prefixes differ at one of these places.
            let s = chain_finding(a)->BlockValidationFailure_0;
            let t = chain_finding(b)->BlockValidationFailure_0;
            assert(s[20] == t[20] && s[30] == t[30]);
        },
    }
}

/// What follows a common prefix is determined by the whole.
proof fn lemma_same_prefix(prefix: Seq<char>, x: Seq<char>, y: Seq<char>)
    requires
        prefix + x == prefix + y,
    ensures
        x == y,
{
    assert(x =~= (prefix + x).skip(prefix.len() as int));
    assert(y =~= (prefix + y).skip(prefix.len() as int));
}

/// An outcome shows whether a validation passed and, where it did not, the kind of the error and
/// its text.
pub proof fn law_an_outcome_shows_the_result<T: View>(result: Result<T, ValidationError>)
    ensures
        match result {
            Ok(value) => outcome(result) == Ok::<T::V, ValidationErrorView>(value@),
            Err(ValidationError::BlockValidationFailure(reason)) => outcome(result) == Err::<
                T::V,
                ValidationErrorView,
            >(ValidationErrorView::BlockValidationFailure(reason@)),
            Err(ValidationError::BlockValidationError(reason)) => outcome(result) == Err::<
                T::V,
                ValidationErrorView,
            >(ValidationErrorView::BlockValidationError(reason@)),
            Err(ValidationError::BlockStoreUpdated) => outcome(result) == Err::<
                T::V,
                ValidationErrorView,
            >(ValidationErrorView::BlockStoreUpdated),
        },
{
}

/// What a finding of the checks against the chain becomes: a duplicate or a missing dependency is
/// a failure that names the batch or the transaction, an error stays an error with its text, and
/// a change of the chain stays that.
pub proof fn law_what_a_finding_becomes(finding: ChainCommitStateError, error: ValidationError)
    requires
        call_ensures(<ValidationError as From<ChainCommitStateError>>::from, (finding,), error),
    ensures
        match finding {
            ChainCommitStateError::DuplicateBatch(id) => {
                &&& error matches ValidationError::BlockValidationFailure(text)
                &&& text@ == "Validation failure, duplicate batch "@ + id@
            },
            ChainCommitStateError::DuplicateTransaction(id) => {
                &&& error matches ValidationError::BlockValidationFailure(text)
                &&& text@ == "Validation failure, duplicate transaction "@ + id@
            },
            ChainCommitStateError::MissingDependency(id) => {
                &&& error matches ValidationError::BlockValidationFailure(text)
                &&& text@ == "Validation failure, missing dependency "@ + id@
            },
            ChainCommitStateError::Error(reason) => {
                &&& error matches ValidationError::BlockValidationError(text)
                &&& text@ == reason@
            },
            ChainCommitStateError::BlockStoreUpdated => error is BlockStoreUpdated,
        },
{
}

/// What a finding that a validation ends with is shown as.
pub proof fn law_how_a_finding_is_shown(finding: ChainCommitStateError)
    ensures
        chain_finding(finding@) == match finding {
            ChainCommitStateError::DuplicateBatch(id) =>
                ValidationErrorView::BlockValidationFailure(
                    "Validation failure, duplicate batch "@ + id@,
                ),
            ChainCommitStateError::DuplicateTransaction(id) =>
                ValidationErrorView::BlockValidationFailure(
                    "Validation failure, duplicate transaction "@ + id@,
                ),
            ChainCommitStateError::MissingDependency(id) =>
                ValidationErrorView::BlockValidationFailure(
                    "Validation failure, missing dependency "@ + id@,
                ),
            ChainCommitStateError::Error(reason) => ValidationErrorView::BlockValidationError(
                reason@,
            ),
            ChainCommitStateError::BlockStoreUpdated => ValidationErrorView::BlockStoreUpdated,
        },
{
}

/// A copied error is the same error.
pub proof fn law_a_copied_error_is_the_same(error: &ValidationError, copy: ValidationError)
    requires
        call_ensures(ValidationError::clone, (error,), copy),
    ensures
        copy == *error,
{
}

/// A service's error is shown by its rendering.
pub proof fn law_a_service_error_is_shown_as_it_is(error: ServiceError)
    ensures
        error@ == error.detail@,
{
}

/// The view of an error shows its kind and its text.
pub proof fn law_an_error_is_shown_as_it_is(error: ValidationError)
    ensures
        error@ == match error {
            ValidationError::BlockValidationFailure(reason) =>
                ValidationErrorView::BlockValidationFailure(reason@),
            ValidationError::BlockValidationError(reason) =>
                ValidationErrorView::BlockValidationError(reason@),
            ValidationError::BlockStoreUpdated => ValidationErrorView::BlockStoreUpdated,
        },
{
}

} // verus!
