//! The offset table: the ordered list of cumulative end positions that
//! delimits the records inside the backing buffer. It is held in a
//! `tinyvec::TinyVec` so that short tables live inline without their own
//! heap allocation, and behaves like a plain vector otherwise.

use vstd::prelude::*;

verus! {

/// The offset table. The `tinyvec` collection inside is reachable only
/// through the trusted functions below, which describe it as the sequence
/// [`ends_view`] of its elements.
#[derive(Debug)]
#[verifier::external_body]
pub struct EndsTable {
    table: tinyvec::TinyVec<[usize; 3]>,
}

/// The offsets held by the table, oldest first.
pub uninterp spec fn ends_view(t: EndsTable) -> Seq<usize>;

impl Clone for EndsTable {
    /// Relies on `TinyVec`'s `Clone`: the copy holds the same elements.
    #[verifier::external_body]
    fn clone(&self) -> (r: Self)
        ensures
            ends_view(r) == ends_view(*self),
    {
        EndsTable { table: self.table.clone() }
    }
}

/// Relies on `TinyVec::new`: the new table is empty.
#[verifier::external_body]
pub(crate) fn ends_new() -> (t: EndsTable)
    ensures
        ends_view(t) == Seq::<usize>::empty(),
{
    EndsTable { table: tinyvec::TinyVec::new() }
}

/// Relies on `TinyVec::len`: the number of stored elements.
#[verifier::external_body]
pub(crate) fn ends_len(t: &EndsTable) -> (n: usize)
    ensures
        n == ends_view(*t).len(),
{
    t.table.len()
}

/// Relies on `TinyVec::push`: appends one element, keeping the rest.
#[verifier::external_body]
pub(crate) fn ends_push(t: &mut EndsTable, v: usize)
    requires
        ends_view(*old(t)).len() < usize::MAX,
    ensures
        ends_view(*final(t)) == ends_view(*old(t)).push(v),
{
    t.table.push(v);
}

/// Relies on `TinyVec`'s `Index<usize>`: the element at the given position.
#[verifier::external_body]
pub(crate) fn ends_get(t: &EndsTable, i: usize) -> (v: usize)
    requires
        i < ends_view(*t).len(),
    ensures
        v == ends_view(*t)[i as int],
{
    t.table[i]
}

/// Relies on `TinyVec`'s `IndexMut<usize>`: replaces the element at the
/// given position, keeping the rest.
#[verifier::external_body]
pub(crate) fn ends_set(t: &mut EndsTable, i: usize, v: usize)
    requires
        i < ends_view(*old(t)).len(),
    ensures
        ends_view(*final(t)) == ends_view(*old(t)).update(i as int, v),
{
    t.table[i] = v;
}

/// Relies on `TinyVec::remove`: takes out the element at the given position,
/// shifting every later element one place left.
#[verifier::external_body]
pub(crate) fn ends_remove(t: &mut EndsTable, i: usize)
    requires
        i < ends_view(*old(t)).len(),
    ensures
        ends_view(*final(t)) == ends_view(*old(t)).remove(i as int),
{
    t.table.remove(i);
}

/// Relies on `TinyVec::clear`: removes every element.
#[verifier::external_body]
pub(crate) fn ends_clear(t: &mut EndsTable)
    ensures
        ends_view(*final(t)) == Seq::<usize>::empty(),
{
    t.table.clear();
}

} // verus!
