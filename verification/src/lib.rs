//! Validation of the blocks of a blockchain.
//!
//! A block is validated against the chain of its predecessors ([`duplicates`]), by the rules
//! that are kept on the chain ([`rules`]), by the permissions of its batches' signers
//! ([`permission`]) and by executing it ([`execution`]). The [`processor`] runs validations one
//! after the other, and [`standard`] puts these four together. The [`worker`] decides what becomes
//! of a block that was validated, and the [`validator`] hands blocks to its workers. The latest
//! results are kept in the [`store`].
//!
//! The services that all this works with are behind the traits of [`service`], of which nothing
//! is assumed.

pub mod block;
pub mod duplicates;
pub mod error;
pub mod execution;
pub mod permission;
pub mod processor;
pub mod python;
pub mod result;
pub mod rules;
pub mod sequence;
pub mod service;
pub mod standard;
pub mod store;
pub mod text;
pub mod validation;
pub mod validator;
pub mod worker;
