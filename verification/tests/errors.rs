use block_validator::error::{ChainCommitStateError, ValidationError};
use block_validator::text::render_decimal;

#[test]
fn duplicates_and_missing_dependencies_make_a_block_invalid() {
    assert_eq!(
        ValidationError::from(ChainCommitStateError::DuplicateBatch("b1".into())),
        ValidationError::BlockValidationFailure("Validation failure, duplicate batch b1".into())
    );
    assert_eq!(
        ValidationError::from(ChainCommitStateError::DuplicateTransaction("t1".into())),
        ValidationError::BlockValidationFailure(
            "Validation failure, duplicate transaction t1".into()
        )
    );
    assert_eq!(
        ValidationError::from(ChainCommitStateError::MissingDependency("t2".into())),
        ValidationError::BlockValidationFailure("Validation failure, missing dependency t2".into())
    );
}

#[test]
fn other_findings_leave_a_block_undecided() {
    assert_eq!(
        ValidationError::from(ChainCommitStateError::Error("no chain".into())),
        ValidationError::BlockValidationError("no chain".into())
    );
    assert_eq!(
        ValidationError::from(ChainCommitStateError::BlockStoreUpdated),
        ValidationError::BlockStoreUpdated
    );
}

#[test]
fn a_copied_error_is_the_same() {
    let error = ValidationError::BlockValidationFailure("reason".into());
    assert_eq!(error.clone(), error);
    assert_ne!(error, ValidationError::BlockStoreUpdated);
}

#[test]
fn numbers_are_rendered_in_decimal() {
    for n in [0, 7, 9, 10, 42, 100, 1_234_567_890, u64::MAX] {
        assert_eq!(render_decimal(n), n.to_string());
    }
}
