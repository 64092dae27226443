//! An indirection-collapsing container with minimal allocation.
//!
//! A [`FlatVec`] can be used like a vector of strings or of byte vectors,
//! but it stores every record inside one contiguous byte buffer plus one
//! table of end offsets, instead of one heap allocation per record.
//!
//! Insertion into and retrieval from a [`FlatVec`] is mediated by the two
//! protocol traits [`IntoFlat`] and [`FromFlat`]: a source value flattens
//! its canonical bytes into a [`Storage`] handle borrowed from the
//! container, and a destination value is erected from a stored byte range,
//! either by copying or as a zero-copy view borrowing the backing buffer.
//! The traits are parameterized by a record-kind tag type, so unrelated
//! encodings can share one container type without interfering.
//!
//! Every operation carries a contract over the container's abstract view,
//! the sequence of records' byte strings: pushing appends exactly the
//! source's canonical bytes as one record, removal shifts the later records
//! left unchanged, and a handle writing a new record can never disturb the
//! records already stored.

mod container;
mod ends;
mod flat;
mod storage;

pub use container::FlatVec;
pub use container::lemma_data_len_is_byte_sum;
pub use container::spec_byte_sum;
pub use container::spec_record_start;
pub use container::spec_records;
pub use flat::FromFlat;
pub use flat::IntoFlat;
pub use flat::lemma_bytes_round_trip;
pub use flat::lemma_str_flat_erectable;
pub use flat::lemma_str_round_trip;
pub use flat::lemma_string_round_trip;
pub use storage::Storage;
pub use storage::spec_grown_capacity;
