//! The inline buffer that holds short text without touching the heap.
use tinyvec::ArrayVec;
use vstd::prelude::*;

verus! {

#[verifier::external_type_specification]
#[verifier::external_body]
#[verifier::reject_recursive_types(A)]
pub struct ExArrayVec<A>(ArrayVec<A>);

/// The bytes an inline buffer holds, in order.
pub uninterp spec fn stack_bytes(v: ArrayVec<[u8; 20]>) -> Seq<u8>;

/// Relies on `tinyvec::ArrayVec::new`: a new buffer holds no bytes.
#[verifier::external_body]
pub(crate) fn stack_new() -> (r: ArrayVec<[u8; 20]>)
    ensures
        stack_bytes(r) == Seq::<u8>::empty(),
{
    ArrayVec::new()
}

/// Relies on `tinyvec::ArrayVec::len`: the number of bytes held.
#[verifier::external_body]
pub(crate) fn stack_len(v: &ArrayVec<[u8; 20]>) -> (r: usize)
    ensures
        r == stack_bytes(*v).len(),
{
    v.len()
}

/// Relies on `tinyvec::ArrayVec::extend_from_slice`: appends the bytes in order,
/// and panics when the total would pass the capacity of 20.
#[verifier::external_body]
pub(crate) fn stack_extend(v: &mut ArrayVec<[u8; 20]>, b: &[u8])
    requires
        stack_bytes(*old(v)).len() + b@.len() <= 20,
    ensures
        stack_bytes(*final(v)) == stack_bytes(*old(v)) + b@,
{
    v.extend_from_slice(b)
}

/// Relies on `tinyvec::ArrayVec::as_slice`: the held bytes as a slice.
#[verifier::external_body]
pub(crate) fn stack_slice(v: &ArrayVec<[u8; 20]>) -> (r: &[u8])
    ensures
        r@ == stack_bytes(*v),
{
    v.as_slice()
}

} // verus!
