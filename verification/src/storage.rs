//! Fixed-capacity storage for the quantized amplitudes, backed by
//! `arrayvec::ArrayVec`.
//!
//! The store keeps up to 64 amplitudes inline, with no heap allocation on the
//! per-frame path. What it holds is named by `amp_store_elems`, and each
//! operation the descrambler uses carries a contract over that name.

use vstd::prelude::*;

verus! {

#[verifier::external_type_specification]
#[verifier::external_body]
#[verifier::reject_recursive_types(T)]
pub struct ExArrayVec<T, const CAP: usize>(arrayvec::ArrayVec<T, CAP>);

/// The elements an amplitude store holds, in order.
pub uninterp spec fn amp_store_elems(v: arrayvec::ArrayVec<u32, 64>) -> Seq<u32>;

/// Relies on arrayvec's `ArrayVec::new`: a freshly created vector is empty.
#[verifier::external_body]
pub fn amp_store_new() -> (r: arrayvec::ArrayVec<u32, 64>)
    ensures
        amp_store_elems(r) == Seq::<u32>::empty(),
{
    arrayvec::ArrayVec::new()
}

/// Relies on arrayvec's `ArrayVec::push`, which appends the element at the
/// back; it panics only on a full vector, which the precondition rules out.
#[verifier::external_body]
pub fn amp_store_push(v: &mut arrayvec::ArrayVec<u32, 64>, x: u32)
    requires
        amp_store_elems(*old(v)).len() < 64,
    ensures
        amp_store_elems(*final(v)) == amp_store_elems(*old(v)).push(x),
{
    v.push(x)
}

/// Relies on arrayvec's `ArrayVec::len`: the number of elements held.
#[verifier::external_body]
pub fn amp_store_len(v: &arrayvec::ArrayVec<u32, 64>) -> (r: usize)
    ensures
        r == amp_store_elems(*v).len(),
{
    v.len()
}

/// Relies on arrayvec's `Deref` to a slice: reads the element at index i.
#[verifier::external_body]
pub fn amp_store_get(v: &arrayvec::ArrayVec<u32, 64>, i: usize) -> (r: u32)
    requires
        i < amp_store_elems(*v).len(),
    ensures
        r == amp_store_elems(*v)[i as int],
{
    v[i]
}

/// Relies on arrayvec's `DerefMut` to a slice: overwrites the element at
/// index i.
#[verifier::external_body]
pub fn amp_store_set(v: &mut arrayvec::ArrayVec<u32, 64>, i: usize, x: u32)
    requires
        i < amp_store_elems(*old(v)).len(),
    ensures
        amp_store_elems(*final(v)) == amp_store_elems(*old(v)).update(i as int, x),
{
    v[i] = x;
}

} // verus!
