//! The growth/allocate engine: a growable buffer of bytes whose prefix holds
//! the data of committed records. All public mutators append at the tail, so
//! code that writes a new record through a [`Storage`] can never disturb the
//! bytes of records that are already committed.

use vstd::prelude::*;
use vstd::std_specs::iter::IteratorSpec;

verus! {

/// The capacity that [`Storage::reserve`] leaves behind: unchanged when the
/// spare room already suffices, otherwise the larger of the immediate need
/// and double the old capacity (saturated at `usize::MAX`), so that repeated
/// reservations reallocate only O(log n) times.
pub open spec fn spec_grown_capacity(fill: int, requested: int, cap: int) -> int {
    let doubled = if 2 * cap <= usize::MAX as int {
        2 * cap
    } else {
        usize::MAX as int
    };
    if fill + requested <= cap {
        cap
    } else if fill + requested >= doubled {
        fill + requested
    } else {
        doubled
    }
}

/// The backing store of a container: one contiguous buffer, of which the
/// first `fill` bytes belong to committed records. The buffer beyond `fill`
/// is spare capacity; it is never readable through this interface, and
/// [`Storage::allocate`] hands out freshly zeroed regions only.
#[derive(Debug)]
pub struct Storage {
    buf: Vec<u8>,
    fill: usize,
}

impl View for Storage {
    type V = Seq<u8>;

    /// A `Storage` is abstractly the sequence of committed bytes.
    closed spec fn view(&self) -> Seq<u8> {
        self.buf@.subrange(0, self.fill as int)
    }
}

impl Clone for Storage {
    /// The copy holds the same committed bytes and the same capacity.
    fn clone(&self) -> (r: Self)
        ensures
            r@ == self@,
            r.spec_capacity() == self.spec_capacity(),
            self.wf() ==> r.wf(),
    {
        let r = Storage { buf: self.buf.clone(), fill: self.fill };
        proof {
            assert forall|i: int| 0 <= i < self.buf@.len() implies r.buf@[i] == self.buf@[i] by {
                assert(cloned::<u8>(self.buf@[i], r.buf@[i]));
            }
            assert(r.buf@ =~= self.buf@);
        }
        r
    }
}

impl Storage {
    /// The committed prefix never extends past the allocated buffer.
    pub closed spec fn wf(&self) -> bool {
        self.fill <= self.buf.len()
    }

    /// Number of bytes the buffer has room for without reallocating.
    pub closed spec fn spec_capacity(&self) -> int {
        self.buf@.len() as int
    }

    /// An empty store with no buffer at all.
    pub fn new() -> (s: Storage)
        ensures
            s.wf(),
            s@ == Seq::<u8>::empty(),
            s.spec_capacity() == 0,
    {
        let s = Storage { buf: Vec::new(), fill: 0 };
        proof {
            assert(s@ =~= Seq::<u8>::empty());
        }
        s
    }

    /// Number of committed bytes.
    pub fn data_len(&self) -> (n: usize)
        requires
            self.wf(),
        ensures
            n == self@.len(),
    {
        self.fill
    }

    /// Number of bytes the buffer has room for without reallocating.
    pub fn data_capacity(&self) -> (n: usize)
        ensures
            n == self.spec_capacity(),
    {
        self.buf.len()
    }

    /// Grows the buffer so that at least `requested` spare bytes exist,
    /// following the doubling policy. Newly added capacity is zero-filled.
    fn allocate_slow_path(&mut self, requested: usize)
        requires
            old(self).wf(),
            old(self)@.len() + requested <= usize::MAX,
            old(self)@.len() + requested > old(self).spec_capacity(),
        ensures
            final(self).wf(),
            final(self)@ == old(self)@,
            final(self).spec_capacity() == spec_grown_capacity(
                old(self)@.len() as int,
                requested as int,
                old(self).spec_capacity(),
            ),
    {
        let cap: usize = self.buf.len();
        let doubled: usize = if cap <= usize::MAX / 2 {
            2 * cap
        } else {
            usize::MAX
        };
        let needed: usize = self.fill + requested;
        let target: usize = if needed >= doubled {
            needed
        } else {
            doubled
        };
        let ghost pre = self.buf@;
        self.buf.resize(target, 0u8);
        proof {
            assert(forall|i: int|
                pre.len() <= i < self.buf@.len() ==> self.buf@[i] == 0u8) by {
                assert(forall|b: u8| cloned::<u8>(0u8, b) ==> b == 0u8);
            }
            assert(final(self)@ =~= old(self)@);
        }
    }

    /// Ensures that at least `requested` more bytes can be committed without
    /// another reallocation. Does not change the committed bytes.
    pub fn reserve(&mut self, requested: usize)
        requires
            old(self).wf(),
            old(self)@.len() + requested <= usize::MAX,
        ensures
            final(self).wf(),
            final(self)@ == old(self)@,
            final(self).spec_capacity() == spec_grown_capacity(
                old(self)@.len() as int,
                requested as int,
                old(self).spec_capacity(),
            ),
            old(self)@.len() + requested <= final(self).spec_capacity(),
    {
        if self.buf.len() < self.fill + requested {
            self.allocate_slow_path(requested);
        }
    }

    /// Commits `requested` fresh zero bytes at the tail, as one region that
    /// will be considered part of the record under construction. The region
    /// is default-initialized no matter what the spare capacity held before.
    pub fn allocate(&mut self, requested: usize)
        requires
            old(self).wf(),
            old(self)@.len() + requested <= usize::MAX,
        ensures
            final(self).wf(),
            final(self)@ == old(self)@ + Seq::new(requested as nat, |i: int| 0u8),
            final(self).spec_capacity() == spec_grown_capacity(
                old(self)@.len() as int,
                requested as int,
                old(self).spec_capacity(),
            ),
    {
        self.reserve(requested);
        let start: usize = self.fill;
        let ghost pre = self.buf@;
        let mut k: usize = 0;
        assert(start + requested <= self.buf.len());
        while k < requested
            invariant
                k <= requested,
                start + requested <= usize::MAX,
                start + requested <= self.buf@.len(),
                self.buf@.len() == pre.len(),
                forall|j: int| 0 <= j < start ==> self.buf@[j] == pre[j],
                forall|j: int| start <= j < start + k ==> self.buf@[j] == 0u8,
            decreases requested - k,
        {
            self.buf[start + k] = 0u8;
            k = k + 1;
        }
        self.fill = start + requested;
        proof {
            assert(final(self)@ =~= old(self)@ + Seq::new(requested as nat, |i: int| 0u8));
        }
    }

    /// Commits a copy of `bytes` at the tail, in one reservation.
    pub fn extend_from_slice(&mut self, bytes: &[u8])
        requires
            old(self).wf(),
            old(self)@.len() + bytes@.len() <= usize::MAX,
        ensures
            final(self).wf(),
            final(self)@ == old(self)@ + bytes@,
            final(self).spec_capacity() == spec_grown_capacity(
                old(self)@.len() as int,
                bytes@.len() as int,
                old(self).spec_capacity(),
            ),
    {
        let requested: usize = bytes.len();
        self.reserve(requested);
        let start: usize = self.fill;
        let ghost pre = self.buf@;
        let mut k: usize = 0;
        assert(start + requested <= self.buf.len());
        while k < requested
            invariant
                k <= requested,
                requested == bytes@.len(),
                start + requested <= usize::MAX,
                start + requested <= self.buf@.len(),
                self.buf@.len() == pre.len(),
                forall|j: int| 0 <= j < start ==> self.buf@[j] == pre[j],
                forall|j: int| start <= j < start + k ==> self.buf@[j] == bytes@[j - start],
            decreases requested - k,
        {
            self.buf[start + k] = bytes[k];
            k = k + 1;
        }
        self.fill = start + requested;
        proof {
            assert(final(self)@ =~= old(self)@ + bytes@);
        }
    }

    /// Commits the bytes yielded by `iter` at the tail, one at a time: first
    /// into spare capacity, then growing by the doubling policy whenever the
    /// buffer is full. Whatever prefix the source has yielded is committed,
    /// so the store is never left inconsistent with what was written.
    pub fn extend<I: Iterator<Item = u8>>(&mut self, iter: I)
        requires
            old(self).wf(),
            iter.obeys_prophetic_iter_laws(),
            iter.decrease() is Some,
        ensures
            final(self).wf(),
            final(self)@.len() >= old(self)@.len(),
            final(self)@.subrange(0, old(self)@.len() as int) == old(self)@,
            old(self)@.len() + iter.remaining().len() <= usize::MAX ==> final(self)@ == old(self)@
                + iter.remaining(),
    {
        let mut it = iter;
        let ghost mut k: int = 0;
        loop
            invariant
                self.wf(),
                it.obeys_prophetic_iter_laws(),
                it.decrease() is Some,
                0 <= k <= iter.remaining().len(),
                it.remaining() == iter.remaining().skip(k),
                self@ == old(self)@ + iter.remaining().take(k),
                self@.len() == old(self)@.len() + k,
            ensures
                self.wf(),
                0 <= k <= iter.remaining().len(),
                self@ == old(self)@ + iter.remaining().take(k),
                self@.len() == old(self)@.len() + k,
                k == iter.remaining().len() || old(self)@.len() + k == usize::MAX,
            decreases it.decrease()->0,
        {
            if self.fill == usize::MAX {
                break;
            }
            let next_item: Option<u8> = it.next();
            match next_item {
                None => {
                    proof {
                        assert(iter.remaining().skip(k).len() == 0);
                    }
                    break;
                },
                Some(v) => {
                    if self.fill == self.buf.len() {
                        self.reserve(1);
                    }
                    let pos: usize = self.fill;
                    self.buf[pos] = v;
                    self.fill = pos + 1;
                    proof {
                        let ghost r = iter.remaining();
                        assert(v == r[k]);
                        k = k + 1;
                        assert(it.remaining() =~= r.skip(k));
                        assert(r.take(k) =~= r.take(k - 1).push(r[k - 1]));
                        assert(self@ =~= (old(self)@ + r.take(k - 1)).push(v));
                        assert(self@ =~= old(self)@ + r.take(k));
                    }
                },
            }
        }
        proof {
            if old(self)@.len() + iter.remaining().len() <= usize::MAX {
                assert(k == iter.remaining().len());
                assert(iter.remaining().take(k) =~= iter.remaining());
            }
            assert(final(self)@.subrange(0, old(self)@.len() as int) =~= old(self)@);
        }
    }

    /// The checked variant of [`Storage::extend`] for sources whose exact
    /// length is declared up front: commits the yielded bytes and reports
    /// whether the declared length matched the count actually yielded.
    pub fn extend_exact<I: Iterator<Item = u8>>(&mut self, iter: I, declared: usize) -> (ok: bool)
        requires
            old(self).wf(),
            iter.obeys_prophetic_iter_laws(),
            iter.decrease() is Some,
        ensures
            final(self).wf(),
            final(self)@.len() >= old(self)@.len(),
            final(self)@.subrange(0, old(self)@.len() as int) == old(self)@,
            old(self)@.len() + iter.remaining().len() <= usize::MAX ==> {
                &&& final(self)@ == old(self)@ + iter.remaining()
                &&& (ok <==> iter.remaining().len() == declared)
            },
    {
        let before: usize = self.data_len();
        self.extend(iter);
        let after: usize = self.data_len();
        after - before == declared
    }

    /// Reads the committed bytes of the half-open range `start..end`.
    pub fn read_range(&self, start: usize, end: usize) -> (r: &[u8])
        requires
            self.wf(),
            start <= end <= self@.len(),
        ensures
            r@ == self@.subrange(start as int, end as int),
    {
        let r: &[u8] = &self.buf[start..end];
        proof {
            assert(r@ =~= self@.subrange(start as int, end as int));
        }
        r
    }

    /// Discards the committed bytes of `start..end`, shifting every later
    /// committed byte left by the length of the range. Capacity is kept.
    pub(crate) fn remove_range(&mut self, start: usize, end: usize)
        requires
            old(self).wf(),
            start <= end <= old(self)@.len(),
        ensures
            final(self).wf(),
            final(self)@ == old(self)@.subrange(0, start as int) + old(self)@.subrange(
                end as int,
                old(self)@.len() as int,
            ),
            final(self).spec_capacity() == old(self).spec_capacity(),
    {
        let tail: usize = self.fill - end;
        let ghost pre = self.buf@;
        let mut k: usize = 0;
        while k < tail
            invariant
                k <= tail,
                start <= end,
                end + tail <= self.buf@.len(),
                end + tail <= usize::MAX,
                self.buf@.len() == pre.len(),
                forall|j: int| 0 <= j < start ==> self.buf@[j] == pre[j],
                forall|j: int| start <= j < start + k ==> self.buf@[j] == pre[j + end - start],
                forall|j: int| end + k <= j < end + tail ==> self.buf@[j] == pre[j],
            decreases tail - k,
        {
            let moved: u8 = self.buf[end + k];
            self.buf[start + k] = moved;
            k = k + 1;
        }
        self.fill = start + tail;
        proof {
            assert(final(self)@ =~= old(self)@.subrange(0, start as int) + old(self)@.subrange(
                end as int,
                old(self)@.len() as int,
            ));
        }
    }

    /// Forgets every committed byte from position `keep` on. Capacity is kept.
    pub(crate) fn truncate_to(&mut self, keep: usize)
        requires
            old(self).wf(),
            keep <= old(self)@.len(),
        ensures
            final(self).wf(),
            final(self)@ == old(self)@.subrange(0, keep as int),
            final(self).spec_capacity() == old(self).spec_capacity(),
    {
        self.fill = keep;
        proof {
            assert(final(self)@ =~= old(self)@.subrange(0, keep as int));
        }
    }
}

} // verus!
