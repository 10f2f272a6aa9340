//! The shape that all block validations share.

use crate::block::Block;
use crate::error::ValidationError;
use vstd::prelude::*;

verus! {

/// A generic block validation. Returns a [`ValidationError::BlockValidationFailure`] on
/// validation failure. It is a dependent validation if it can return
/// [`ValidationError::BlockStoreUpdated`] and is an independent validation otherwise.
pub trait BlockValidation: Send {
    /// What is returned for a block that passes.
    type ReturnValue;

    /// Validates a block whose predecessor left the state of the given root; `None` where the
    /// predecessor is not known.
    fn validate_block(&self, block: &Block, previous_state_root: Option<&String>) -> (result:
        Result<Self::ReturnValue, ValidationError>);
}

/// `validation` answered the block with `result`.
pub open spec fn answered<V: BlockValidation + ?Sized>(
    validation: &V,
    block: &Block,
    previous_state_root: Option<&String>,
    result: Result<V::ReturnValue, ValidationError>,
) -> bool {
    call_ensures(V::validate_block, (validation, block, previous_state_root), result)
}

/// A validation that is taken to be asked and handed back, so that a contract can say how often it
/// was asked.
pub trait OwnedValidation: Sized {
    /// What is returned for a block that passes.
    type ReturnValue;

    /// Validates a block, as [`BlockValidation::validate_block`] does.
    fn ask(self, block: &Block, previous_state_root: Option<&String>) -> (Self, Result<
        Self::ReturnValue,
        ValidationError,
    >);
}

/// Asking the validation `before` about the block once led to `after`, with this result.
pub open spec fn asked_once<V: OwnedValidation>(
    before: V,
    block: &Block,
    previous_state_root: Option<&String>,
    after: V,
    result: Result<V::ReturnValue, ValidationError>,
) -> bool {
    call_ensures(V::ask, (before, block, previous_state_root), (after, result))
}

/// A reference to a validation is handed back as it is, with the answer of the validation.
impl<V: BlockValidation> OwnedValidation for &V {
    type ReturnValue = V::ReturnValue;

    fn ask(self, block: &Block, previous_state_root: Option<&String>) -> (ended: (
        Self,
        Result<Self::ReturnValue, ValidationError>,
    ))
        ensures
            ended.0 == self,
            answered(self, block, previous_state_root, ended.1),
    {
        let result: Result<V::ReturnValue, ValidationError> = self.validate_block(
            block,
            previous_state_root,
        );
        (self, result)
    }
}

/// A boxed validation answers as the one in the box.
impl<V: BlockValidation + ?Sized> BlockValidation for Box<V> {
    type ReturnValue = V::ReturnValue;

    fn validate_block(&self, block: &Block, previous_state_root: Option<&String>) -> (result:
        Result<Self::ReturnValue, ValidationError>)
        ensures
            answered(&**self, block, previous_state_root, result),
    {
        (**self).validate_block(block, previous_state_root)
    }
}

} // verus!
