use vstd::prelude::*;
use rand::seq::IndexedRandom;
use rand::seq::SliceRandom;
use rand::RngExt;

verus! {

/// Relies on `rand::rng` and `RngExt::random_range` over `0..n`: the value lies
/// in the half-open range, which is not empty.
#[verifier::external_body]
pub(crate) fn random_below(n: usize) -> (r: usize)
    requires
        n > 0,
    ensures
        r < n,
{
    rand::rng().random_range(0..n)
}

/// Relies on `IndexedRandom::choose`: `None` exactly on an empty slice, else a
/// reference to one of its elements, which is cloned here.
#[verifier::external_body]
pub(crate) fn choose_color(colors: &Vec<String>) -> (r: Option<String>)
    ensures
        r.is_none() <==> colors@.len() == 0,
        r matches Some(c) ==> colors@.contains(c),
{
    colors.as_slice().choose(&mut rand::rng()).cloned()
}

/// Relies on `SliceRandom::shuffle`: the elements are permuted in place.
#[verifier::external_body]
pub(crate) fn shuffle_indices(v: &mut Vec<usize>)
    ensures
        final(v)@.len() == old(v)@.len(),
        final(v)@.to_multiset() == old(v)@.to_multiset(),
{
    v.as_mut_slice().shuffle(&mut rand::rng())
}

/// Relies on `String::push`: the character is appended at the end.
#[verifier::external_body]
pub(crate) fn push_char(s: &mut String, c: char)
    ensures
        final(s)@ == old(s)@.push(c),
{
    s.push(c)
}

} // verus!
