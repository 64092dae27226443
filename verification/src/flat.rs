//! The flatten/erect protocol: the two extension points through which
//! record types are written into and read back out of a container.
//!
//! A source type implements [`IntoFlat`] to write its canonical bytes into a
//! [`Storage`] handle; a destination type implements [`FromFlat`] to be
//! reconstructed from one record's byte range, either by copying or as a
//! zero-copy view borrowing the backing buffer. Both are parameterized by a
//! record-kind tag type, so that unrelated encodings can share one container
//! type without interfering in capability resolution.

use crate::storage::Storage;
use vstd::prelude::*;
use vstd::std_specs::iter::IteratorSpec;
use vstd::std_specs::iter::StepSpec;
use vstd::string::StringSliceAdditionalSpecFns;
use vstd::utf8::valid_utf8;

verus! {

/// Capability of being written into a container whose record kind is
/// `Flattened`: the value commits exactly its canonical bytes, [`flat`],
/// at the tail of the store, and touches nothing before them.
///
/// [`flat`]: IntoFlat::flat
pub trait IntoFlat<Flattened>: Sized {
    /// The canonical bytes of this value: exactly what flattening commits.
    spec fn flat(&self) -> Seq<u8>;

    /// Writes this value's bytes through the storage handle.
    fn into_flat(self, store: &mut Storage)
        requires
            old(store).wf(),
            old(store)@.len() + self.flat().len() <= usize::MAX,
        ensures
            final(store).wf(),
            final(store)@ == old(store)@ + self.flat(),
    ;
}

/// Capability of being reconstructed from a stored record of kind
/// `Flattened`. The lifetime ties a borrowing destination (a zero-copy
/// view) to the container's own borrow.
pub trait FromFlat<'a, Flattened>: Sized {
    /// Whether a record holding these bytes can be erected at all.
    spec fn can_erect(data: Seq<u8>) -> bool;

    /// Whether `r` is a faithful reconstruction of these bytes.
    spec fn erects_to(data: Seq<u8>, r: Self) -> bool;

    /// Reconstructs a value from one record's stored bytes.
    fn from_flat(data: &'a [u8]) -> (r: Self)
        requires
            Self::can_erect(data@),
        ensures
            Self::erects_to(data@, r),
    ;
}

/// `core::str::Utf8Error` is declared so that `core::str::from_utf8` can be
/// given a specification; no method of it is relied on.
#[verifier::external_type_specification]
#[verifier::external_body]
pub struct ExUtf8Error(core::str::Utf8Error);

/// Relies on `core::str::from_utf8`: it succeeds exactly on valid UTF-8,
/// and the returned view is of the whole input, so its bytes are the input.
pub assume_specification<'a>[ core::str::from_utf8 ](v: &'a [u8]) -> (r: Result<
    &'a str,
    core::str::Utf8Error,
>)
    ensures
        r is Ok <==> valid_utf8(v@),
        r is Ok ==> r->Ok_0.spec_bytes() == v@,
;

/// A text value flattens as its UTF-8 bytes.
impl IntoFlat<String> for &str {
    open spec fn flat(&self) -> Seq<u8> {
        self.spec_bytes()
    }

    fn into_flat(self, store: &mut Storage) {
        store.extend_from_slice(self.as_bytes());
    }
}

/// A text view erects by validating UTF-8; a record that does not hold
/// valid UTF-8 cannot be erected as text.
impl<'a> FromFlat<'a, String> for &'a str {
    open spec fn can_erect(data: Seq<u8>) -> bool {
        valid_utf8(data)
    }

    open spec fn erects_to(data: Seq<u8>, r: Self) -> bool {
        r.spec_bytes() == data
    }

    fn from_flat(data: &'a [u8]) -> (r: Self) {
        let res: Result<&'a str, core::str::Utf8Error> = core::str::from_utf8(data);
        res.unwrap()
    }
}

/// A raw byte sequence flattens as itself.
impl IntoFlat<Vec<u8>> for &[u8] {
    open spec fn flat(&self) -> Seq<u8> {
        self@
    }

    fn into_flat(self, store: &mut Storage) {
        store.extend_from_slice(self);
    }
}

/// An owned byte sequence flattens as itself.
impl IntoFlat<Vec<u8>> for Vec<u8> {
    open spec fn flat(&self) -> Seq<u8> {
        self@
    }

    fn into_flat(self, store: &mut Storage) {
        store.extend_from_slice(self.as_slice());
    }
}

/// A range of bytes flattens as the bytes it counts through, in order;
/// an empty or inverted range flattens as nothing.
impl IntoFlat<Vec<u8>> for core::ops::Range<u8> {
    open spec fn flat(&self) -> Seq<u8> {
        if self.start <= self.end {
            Seq::new((self.end - self.start) as nat, |i: int| (self.start + i) as u8)
        } else {
            Seq::<u8>::empty()
        }
    }

    fn into_flat(self, store: &mut Storage) {
        if self.start <= self.end {
            proof {
                let r = IteratorSpec::remaining(&self);
                assert(r.len() == self.flat().len());
                assert forall|i: int| 0 <= i < r.len() implies r[i] == self.flat()[i] by {
                    assert(self.start.spec_forward_checked_int(i) is Some);
                }
                assert(r =~= self.flat());
            }
            store.extend(self);
        } else {
            proof {
                assert(final(store)@ =~= old(store)@ + self.flat());
            }
        }
    }
}

/// An owned text value erects by validating UTF-8 and copying out of the
/// record; it can therefore outlive the container's borrow.
impl<'a> FromFlat<'a, String> for String {
    open spec fn can_erect(data: Seq<u8>) -> bool {
        valid_utf8(data)
    }

    open spec fn erects_to(data: Seq<u8>, r: Self) -> bool {
        vstd::utf8::encode_utf8(r@) == data
    }

    fn from_flat(data: &'a [u8]) -> (r: Self) {
        let res: Result<&'a str, core::str::Utf8Error> = core::str::from_utf8(data);
        res.unwrap().to_owned()
    }
}

/// An owned byte sequence erects as a copy of the record's bytes; it can
/// therefore outlive the container's borrow.
impl<'a> FromFlat<'a, Vec<u8>> for Vec<u8> {
    open spec fn can_erect(data: Seq<u8>) -> bool {
        true
    }

    open spec fn erects_to(data: Seq<u8>, r: Self) -> bool {
        r@ == data
    }

    fn from_flat(data: &'a [u8]) -> (r: Self) {
        vstd::slice::slice_to_vec(data)
    }
}

/// A raw byte view erects as the record's bytes themselves, zero-copy.
impl<'a> FromFlat<'a, Vec<u8>> for &'a [u8] {
    open spec fn can_erect(data: Seq<u8>) -> bool {
        true
    }

    open spec fn erects_to(data: Seq<u8>, r: Self) -> bool {
        r@ == data
    }

    fn from_flat(data: &'a [u8]) -> (r: Self) {
        data
    }
}

/// Round-trip law for text records, first half: the canonical bytes of a
/// string are always erectable as text, so reading a just-pushed string
/// back is owed a value.
pub proof fn lemma_str_flat_erectable<'a, 'b>(s: &'b str)
    ensures
        <&'a str as FromFlat<'a, String>>::can_erect(<&'b str as IntoFlat<String>>::flat(&s)),
{
    broadcast use vstd::utf8::encode_utf8_valid_utf8;

}

/// Round-trip law for text records, second half: any text view erected
/// from the canonical bytes of a string is character-for-character the
/// string that was flattened.
pub proof fn lemma_str_round_trip<'a, 'b>(s: &'b str, r: &'a str)
    requires
        <&'a str as FromFlat<'a, String>>::erects_to(
            <&'b str as IntoFlat<String>>::flat(&s),
            r,
        ),
    ensures
        r@ == s@,
{
    vstd::utf8::encode_utf8_decode_utf8(r@);
    vstd::utf8::encode_utf8_decode_utf8(s@);
}

/// Round-trip law for text records erected as owned strings: the same law
/// as for borrowed views, with the copy outliving the container.
pub proof fn lemma_string_round_trip<'a, 'b>(s: &'b str, r: String)
    requires
        <String as FromFlat<'a, String>>::erects_to(
            <&'b str as IntoFlat<String>>::flat(&s),
            r,
        ),
    ensures
        r@ == s@,
{
    vstd::utf8::encode_utf8_decode_utf8(r@);
    vstd::utf8::encode_utf8_decode_utf8(s@);
}

/// Round-trip law for raw byte records: both directions are the identity
/// on the record's bytes.
pub proof fn lemma_bytes_round_trip<'a, 'b>(s: &'b [u8], r: &'a [u8])
    requires
        <&'a [u8] as FromFlat<'a, Vec<u8>>>::erects_to(
            <&'b [u8] as IntoFlat<Vec<u8>>>::flat(&s),
            r,
        ),
    ensures
        r@ == s@,
{
}

} // verus!
