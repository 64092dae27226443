//! The container: owns the backing buffer and the offset table, and
//! enforces the offset-table invariant under insertion and removal.

use crate::ends::EndsTable;
use crate::ends::ends_clear;
use crate::ends::ends_get;
use crate::ends::ends_len;
use crate::ends::ends_new;
use crate::ends::ends_push;
use crate::ends::ends_remove;
use crate::ends::ends_set;
use crate::ends::ends_view;
use crate::flat::FromFlat;
use crate::flat::IntoFlat;
use crate::storage::Storage;
use vstd::prelude::*;

verus! {

/// Where record `i` starts: the previous record's end, or zero.
pub open spec fn spec_record_start(ends: Seq<usize>, i: int) -> int {
    if i == 0 {
        0
    } else {
        ends[i - 1] as int
    }
}

/// The records that an offset table delimits inside a data buffer: entry
/// `i` is the byte range from the previous offset (or zero) to offset `i`.
pub open spec fn spec_records(ends: Seq<usize>, data: Seq<u8>) -> Seq<Seq<u8>> {
    Seq::new(ends.len(), |i: int| data.subrange(spec_record_start(ends, i), ends[i] as int))
}

/// An indirection-collapsing vector: a sequence of variable-length records
/// stored inside one contiguous byte buffer plus one table of end offsets,
/// instead of one heap allocation per record.
///
/// The type parameter is the record-kind tag. It only selects which
/// [`IntoFlat`]/[`FromFlat`] implementations apply; no value of it is ever
/// stored, so unrelated encodings can share one container type.
#[derive(Debug)]
#[verifier::reject_recursive_types(T)]
pub struct FlatVec<T> {
    store: Storage,
    ends: EndsTable,
    marker: core::marker::PhantomData<T>,
}

impl<T> View for FlatVec<T> {
    type V = Seq<Seq<u8>>;

    /// Abstractly, the records' byte strings, in insertion order.
    closed spec fn view(&self) -> Seq<Seq<u8>> {
        spec_records(ends_view(self.ends), self.store@)
    }
}

impl<T> Clone for FlatVec<T> {
    /// The copy holds the same records in a buffer of the same size.
    fn clone(&self) -> (r: Self)
        ensures
            r@ == self@,
            self.wf() ==> r.wf(),
            r.spec_data_len() == self.spec_data_len(),
            r.spec_data_capacity() == self.spec_data_capacity(),
    {
        let r = FlatVec {
            store: self.store.clone(),
            ends: self.ends.clone(),
            marker: core::marker::PhantomData,
        };
        proof {
            assert(r@ =~= self@);
        }
        r
    }
}

impl<T> Default for FlatVec<T> {
    /// An empty container with no data allocation at all.
    fn default() -> (v: Self)
        ensures
            v.wf(),
            v@ == Seq::<Seq<u8>>::empty(),
            v.spec_data_len() == 0,
            v.spec_data_capacity() == 0,
    {
        let v = FlatVec {
            store: Storage::new(),
            ends: ends_new(),
            marker: core::marker::PhantomData,
        };
        proof {
            assert(v@ =~= Seq::<Seq<u8>>::empty());
        }
        v
    }
}

impl<T> FlatVec<T> {
    /// The offset-table invariant: offsets never decrease, each lies within
    /// the committed data, and the last one is exactly the fill length.
    pub closed spec fn wf(&self) -> bool {
        let ends = ends_view(self.ends);
        &&& self.store.wf()
        &&& forall|i: int, j: int|
            0 <= i <= j < ends.len() ==> #[trigger] ends[i] <= #[trigger] ends[j]
        &&& forall|i: int| 0 <= i < ends.len() ==> #[trigger] ends[i] <= self.store@.len()
        &&& ends.len() > 0 ==> ends[ends.len() - 1] == self.store@.len()
        &&& ends.len() == 0 ==> self.store@.len() == 0
    }

    /// Bytes used to store the records' data.
    pub closed spec fn spec_data_len(&self) -> int {
        self.store@.len() as int
    }

    /// Bytes allocated for the records' data.
    pub closed spec fn spec_data_capacity(&self) -> int {
        self.store.spec_capacity()
    }

    /// Creates an empty container; an alias for the `Default` implementation.
    pub fn new() -> (v: FlatVec<T>)
        ensures
            v.wf(),
            v@ == Seq::<Seq<u8>>::empty(),
            v.spec_data_len() == 0,
            v.spec_data_capacity() == 0,
    {
        Self::default()
    }

    /// Returns the number of records.
    pub fn len(&self) -> (n: usize)
        ensures
            n == self@.len(),
    {
        ends_len(&self.ends)
    }

    /// Returns the number of bytes used to store the records. This does not
    /// count storage used for the offset table.
    pub fn data_len(&self) -> (n: usize)
        requires
            self.wf(),
        ensures
            n == self.spec_data_len(),
    {
        self.store.data_len()
    }

    /// Returns the number of bytes allocated for record data.
    pub fn data_capacity(&self) -> (n: usize)
        ensures
            n == self.spec_data_capacity(),
    {
        self.store.data_capacity()
    }

    /// Returns true if the container holds no record.
    pub fn is_empty(&self) -> (b: bool)
        ensures
            b <==> self@.len() == 0,
    {
        self.len() == 0
    }

    /// Removes every record in constant time. The data buffer's capacity is
    /// retained, not returned to the allocator.
    pub fn clear(&mut self)
        requires
            old(self).wf(),
        ensures
            final(self).wf(),
            final(self)@ == Seq::<Seq<u8>>::empty(),
            final(self).spec_data_len() == 0,
            final(self).spec_data_capacity() == old(self).spec_data_capacity(),
    {
        ends_clear(&mut self.ends);
        self.store.truncate_to(0);
        proof {
            assert(final(self)@ =~= Seq::<Seq<u8>>::empty());
        }
    }

    /// Appends a record to the back of the collection: the source writes its
    /// canonical bytes through a storage handle, then the new fill length is
    /// recorded as the record's end offset. May reallocate the data buffer.
    pub fn push<Source: IntoFlat<T>>(&mut self, input: Source)
        requires
            old(self).wf(),
            old(self)@.len() < usize::MAX,
            old(self).spec_data_len() + input.flat().len() <= usize::MAX,
        ensures
            final(self).wf(),
            final(self)@ == old(self)@.push(input.flat()),
            final(self).spec_data_len() == old(self).spec_data_len() + input.flat().len(),
    {
        input.into_flat(&mut self.store);
        let end: usize = self.store.data_len();
        ends_push(&mut self.ends, end);
        proof {
            let pre = ends_view(old(self).ends);
            let post = ends_view(final(self).ends);
            assert forall|i: int| 0 <= i < post.len() implies final(self)@[i] == old(self)@.push(
                input.flat(),
            )[i] by {
                if i < pre.len() {
                    assert(final(self)@[i] =~= old(self)@[i]);
                } else {
                    assert(final(self)@[i] =~= input.flat());
                }
            }
            assert(final(self)@ =~= old(self)@.push(input.flat()));
        }
    }

    /// Constructs a `Dest` from the `index`th record's stored bytes, or
    /// returns nothing when the index is out of range.
    pub fn get<'a, Dest: FromFlat<'a, T>>(&'a self, index: usize) -> (r: Option<Dest>)
        requires
            self.wf(),
            index < self@.len() ==> Dest::can_erect(self@[index as int]),
        ensures
            r is Some <==> index < self@.len(),
            index < self@.len() ==> Dest::erects_to(self@[index as int], r->0),
    {
        let n: usize = ends_len(&self.ends);
        if index >= n {
            None
        } else {
            let end: usize = ends_get(&self.ends, index);
            let start: usize = if index == 0 {
                0
            } else {
                ends_get(&self.ends, index - 1)
            };
            let data: &'a [u8] = self.store.read_range(start, end);
            proof {
                assert(data@ =~= self@[index as int]);
            }
            Some(Dest::from_flat(data))
        }
    }

    /// Constructs a `Dest` from every record's stored bytes, in insertion
    /// order as currently stored. Reading does not mutate the container, so
    /// the walk can be repeated at will.
    pub fn iter<'a, Dest: FromFlat<'a, T>>(&'a self) -> (out: Vec<Dest>)
        requires
            self.wf(),
            forall|i: int| 0 <= i < self@.len() ==> Dest::can_erect(#[trigger] self@[i]),
        ensures
            out@.len() == self@.len(),
            forall|i: int| 0 <= i < self@.len() ==> Dest::erects_to(self@[i], #[trigger] out@[i]),
    {
        let n: usize = self.len();
        let mut out: Vec<Dest> = Vec::new();
        let mut i: usize = 0;
        while i < n
            invariant
                self.wf(),
                i <= n,
                n == self@.len(),
                out@.len() == i,
                forall|j: int| 0 <= j < self@.len() ==> Dest::can_erect(#[trigger] self@[j]),
                forall|j: int| 0 <= j < i ==> Dest::erects_to(self@[j], #[trigger] out@[j]),
            decreases n - i,
        {
            let d: Option<Dest> = self.get(i);
            out.push(d.unwrap());
            i = i + 1;
        }
        out
    }

    /// Materializes the last record as a `Dest` that owns its data, removes
    /// the record, and truncates the data buffer to the new tail; returns
    /// nothing when the container is empty. Capacity is retained.
    pub fn pop<Dest>(&mut self) -> (r: Option<Dest>) where for<'any> Dest: FromFlat<'any, T>
        requires
            old(self).wf(),
            old(self)@.len() > 0 ==> <Dest as FromFlat<'static, T>>::can_erect(
                old(self)@.last(),
            ),
        ensures
            final(self).wf(),
            r is Some <==> old(self)@.len() > 0,
            old(self)@.len() > 0 ==> {
                &&& final(self)@ == old(self)@.drop_last()
                &&& <Dest as FromFlat<'static, T>>::erects_to(old(self)@.last(), r->0)
                &&& final(self).spec_data_len() == old(self).spec_data_len() - old(
                    self,
                )@.last().len()
            },
            old(self)@.len() == 0 ==> final(self)@ == old(self)@,
            final(self).spec_data_capacity() == old(self).spec_data_capacity(),
    {
        let n: usize = ends_len(&self.ends);
        if n == 0 {
            None
        } else {
            let end: usize = ends_get(&self.ends, n - 1);
            let start: usize = if n == 1 {
                0
            } else {
                ends_get(&self.ends, n - 2)
            };
            let d: Dest = {
                let data: &[u8] = self.store.read_range(start, end);
                proof {
                    assert(data@ =~= old(self)@.last());
                }
                Dest::from_flat(data)
            };
            ends_remove(&mut self.ends, n - 1);
            self.store.truncate_to(start);
            proof {
                assert forall|i: int| 0 <= i < final(self)@.len() implies final(self)@[i] == old(
                    self,
                )@.drop_last()[i] by {
                    assert(final(self)@[i] =~= old(self)@[i]);
                }
                assert(final(self)@ =~= old(self)@.drop_last());
            }
            Some(d)
        }
    }

    /// Removes the `index`th record, in time linear in what is stored
    /// behind it: every later byte moves left by the removed record's
    /// length, and every later offset decreases by it. Records before
    /// `index` are untouched; callers must check `len()` first.
    pub fn remove(&mut self, index: usize)
        requires
            old(self).wf(),
            index < old(self)@.len(),
        ensures
            final(self).wf(),
            final(self)@ == old(self)@.remove(index as int),
            final(self).spec_data_len() == old(self).spec_data_len() - old(self)@[
                index as int
            ].len(),
            final(self).spec_data_capacity() == old(self).spec_data_capacity(),
    {
        let end: usize = ends_get(&self.ends, index);
        let start: usize = if index == 0 {
            0
        } else {
            ends_get(&self.ends, index - 1)
        };
        self.store.remove_range(start, end);
        ends_remove(&mut self.ends, index);
        let removed: usize = end - start;
        let n: usize = ends_len(&self.ends);
        let ghost st = self.store;
        let mut i: usize = index;
        while i < n
            invariant
                index <= i <= n,
                removed == end - start,
                start <= end,
                self.store == st,
                n == ends_view(self.ends).len(),
                n + 1 == ends_view(old(self).ends).len(),
                old(self).wf(),
                index < n + 1,
                end == ends_view(old(self).ends)[index as int],
                index > 0 ==> start == ends_view(old(self).ends)[index - 1],
                index == 0 ==> start == 0,
                forall|j: int|
                    0 <= j < index ==> ends_view(self.ends)[j] == ends_view(old(self).ends)[j],
                forall|j: int|
                    index <= j < i ==> ends_view(self.ends)[j] as int == ends_view(
                        old(self).ends,
                    )[j + 1] - removed,
                forall|j: int|
                    i <= j < n ==> ends_view(self.ends)[j] == ends_view(old(self).ends)[j + 1],
            decreases n - i,
        {
            let e: usize = ends_get(&self.ends, i);
            proof {
                let pre = ends_view(old(self).ends);
                assert(e == pre[i + 1]);
                assert(pre[index as int] <= pre[i + 1]);
            }
            ends_set(&mut self.ends, i, e - removed);
            i = i + 1;
        }
        proof {
            let pre = ends_view(old(self).ends);
            let post = ends_view(final(self).ends);
            let target = old(self)@.remove(index as int);
            assert forall|k: int| 0 <= k < post.len() implies final(self)@[k] == target[k] by {
                if k < index {
                    assert(final(self)@[k] =~= old(self)@[k]);
                } else {
                    assert(post[k] as int == pre[k + 1] - removed);
                    assert forall|p: int|
                        spec_record_start(post, k) <= p < post[k] implies final(self).store@[p]
                        == old(self).store@[p + removed] by {
                        assert(pre[index as int] <= pre[k + 1]);
                    }
                    assert(final(self)@[k] =~= old(self)@[k + 1]);
                }
            }
            assert(final(self)@ =~= target);
        }
    }
}

/// Sum of the byte lengths of a sequence of records.
pub open spec fn spec_byte_sum(records: Seq<Seq<u8>>) -> int
    decreases records.len(),
{
    if records.len() == 0 {
        0
    } else {
        spec_byte_sum(records.drop_last()) + records.last().len()
    }
}

/// The sum of the first `i` records' byte lengths telescopes to the end
/// offset of record `i - 1`.
proof fn lemma_prefix_byte_sum<T>(v: &FlatVec<T>, i: int)
    requires
        v.wf(),
        0 <= i <= v@.len(),
    ensures
        spec_byte_sum(v@.take(i)) == spec_record_start(ends_view(v.ends), i),
    decreases i,
{
    if i == 0 {
        assert(v@.take(0) =~= Seq::<Seq<u8>>::empty());
    } else {
        lemma_prefix_byte_sum(v, i - 1);
        assert(v@.take(i).drop_last() =~= v@.take(i - 1));
        assert(v@.take(i).last() == v@[i - 1]);
    }
}

/// Length invariant: at every observation point, whatever sequence of
/// mutations produced the container, the bytes in use are exactly the sum
/// of the current records' byte lengths. (The record count equals the
/// offset table's length by the definition of the view.)
pub proof fn lemma_data_len_is_byte_sum<T>(v: &FlatVec<T>)
    requires
        v.wf(),
    ensures
        v.spec_data_len() == spec_byte_sum(v@),
{
    lemma_prefix_byte_sum(v, v@.len() as int);
    assert(v@.take(v@.len() as int) =~= v@);
}

} // verus!
