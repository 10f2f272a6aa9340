//! Byte strings of the Python runtime.

use std::sync::Arc;
use vstd::prelude::*;

verus! {

/// `cpython::PyBytes`: a handle on a byte string of the Python runtime.
#[verifier::external_type_specification]
#[verifier::external_body]
pub struct ExPyBytes(cpython::PyBytes);

/// The bytes that a Python byte string holds. Python byte strings do not change.
pub uninterp spec fn python_bytes(bytes: cpython::PyBytes) -> Seq<u8>;

/// Calls `cpython::PyBytes::data` under the interpreter lock, which
/// `cpython::Python::acquire_gil` takes (it starts the runtime where none is running), and
/// copies the bytes out: the result is what the byte string holds. `acquire_gil` panics where
/// something else has started the runtime without support for threads.
#[verifier::external_body]
pub(crate) fn read_bytes(bytes: &cpython::PyBytes) -> (data: Vec<u8>)
    ensures
        data@ == python_bytes(*bytes),
{
    let gil = cpython::Python::acquire_gil();
    bytes.data(gil.python()).to_vec()
}

/// Calls `Arc::clone` of std: a second handle on the same byte string.
#[verifier::external_body]
pub(crate) fn share_bytes(bytes: &Arc<cpython::PyBytes>) -> (shared: Arc<cpython::PyBytes>)
    ensures
        shared == *bytes,
{
    Arc::clone(bytes)
}

} // verus!
