use vstd::prelude::*;

verus! {

/// `std::io::Error`, carried through the library as an opaque value.
#[verifier::external_type_specification]
#[verifier::external_body]
pub struct ExIoError(std::io::Error);

/// Whether an I/O error is of the kind `ErrorKind::WouldBlock`.
pub uninterp spec fn is_would_block_kind(e: std::io::Error) -> bool;

/// Calls `std::io::Error::kind` and tells whether the kind is
/// `ErrorKind::WouldBlock`; the contract only ties the answer to the error.
#[verifier::external_body]
pub(crate) fn kind_is_would_block(e: &std::io::Error) -> (b: bool)
    ensures
        b == is_would_block_kind(*e),
{
    matches!(e.kind(), std::io::ErrorKind::WouldBlock)
}

} // verus!
