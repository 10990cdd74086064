//! The board's rows live in an `arrayvec::ArrayVec` of fixed capacity. This
//! module declares that type to Verus and gives each method the board uses a
//! contract over `stored_rows`, the sequence of rows the vector holds.
use arrayvec::ArrayVec;
use vstd::prelude::*;

use crate::cells::Row;

verus! {

#[verifier::external_type_specification]
#[verifier::external_body]
#[verifier::reject_recursive_types(T)]
pub struct ExArrayVec<T, const CAP: usize>(ArrayVec<T, CAP>);

/// The rows held by the vector, first (bottom) row first.
pub uninterp spec fn stored_rows(v: ArrayVec<Row, 40>) -> Seq<Row>;

/// Relies on `ArrayVec::new`: the new vector holds nothing.
#[verifier::external_body]
pub(crate) fn rows_new() -> (r: ArrayVec<Row, 40>)
    ensures
        stored_rows(r).len() == 0,
{
    ArrayVec::new()
}

/// Relies on `ArrayVec::len`: the number of rows held, never above the
/// capacity.
#[verifier::external_body]
pub(crate) fn rows_len(v: &ArrayVec<Row, 40>) -> (r: usize)
    ensures
        r == stored_rows(*v).len(),
        r <= 40,
{
    v.len()
}

/// Relies on `ArrayVec::is_full`: true exactly when the length equals the
/// capacity.
#[verifier::external_body]
pub(crate) fn rows_is_full(v: &ArrayVec<Row, 40>) -> (r: bool)
    ensures
        r == (stored_rows(*v).len() == 40),
{
    v.is_full()
}

/// Relies on indexing the slice that `ArrayVec` dereferences to: a copy of
/// the row at `i`.
#[verifier::external_body]
pub(crate) fn rows_get(v: &ArrayVec<Row, 40>, i: usize) -> (r: Row)
    requires
        i < stored_rows(*v).len(),
    ensures
        r == stored_rows(*v)[i as int],
{
    v[i]
}

/// Relies on mutable indexing of the slice that `ArrayVec` dereferences to:
/// the row at `i` is replaced, the others stay.
#[verifier::external_body]
pub(crate) fn rows_put(v: &mut ArrayVec<Row, 40>, i: usize, row: Row)
    requires
        i < stored_rows(*old(v)).len(),
    ensures
        stored_rows(*final(v)) == stored_rows(*old(v)).update(i as int, row),
{
    v[i] = row;
}

/// Relies on `ArrayVec::push`, which panics on a full vector: `row` is
/// appended after the others.
#[verifier::external_body]
pub(crate) fn rows_push(v: &mut ArrayVec<Row, 40>, row: Row)
    requires
        stored_rows(*old(v)).len() < 40,
    ensures
        stored_rows(*final(v)) == stored_rows(*old(v)).push(row),
{
    v.push(row)
}

/// Relies on `ArrayVec::truncate`: keeps the first `n` rows; no effect when
/// `n` is at least the length.
#[verifier::external_body]
pub(crate) fn rows_truncate(v: &mut ArrayVec<Row, 40>, n: usize)
    ensures
        stored_rows(*final(v)) == if n < stored_rows(*old(v)).len() {
            stored_rows(*old(v)).subrange(0, n as int)
        } else {
            stored_rows(*old(v))
        },
{
    v.truncate(n)
}

/// Relies on `ArrayVec::insert`, which panics on a full vector or an index
/// past the length: `row` goes in at `i` and the rows from `i` on move up one.
#[verifier::external_body]
pub(crate) fn rows_insert(v: &mut ArrayVec<Row, 40>, i: usize, row: Row)
    requires
        i <= stored_rows(*old(v)).len(),
        stored_rows(*old(v)).len() < 40,
    ensures
        stored_rows(*final(v)) == stored_rows(*old(v)).insert(i as int, row),
{
    v.insert(i, row)
}

/// Relies on `ArrayVec::retain`, which keeps, in their order, the rows for
/// which the predicate holds; the predicate is `Row::has_empty_cell`.
#[verifier::external_body]
pub(crate) fn rows_retain_non_full(v: &mut ArrayVec<Row, 40>)
    ensures
        stored_rows(*final(v)) == stored_rows(*old(v)).filter(|r: Row| !crate::cells::full(r@)),
{
    v.retain(|row| row.has_empty_cell())
}

} // verus!
