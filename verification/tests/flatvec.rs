use flatvec::FlatVec;
use flatvec::IntoFlat;
use flatvec::Storage;

#[test]
fn push_get() {
    let mut names: FlatVec<String> = FlatVec::new();
    assert!(names.is_empty());
    assert_eq!(names.len(), 0);
    assert_eq!(names.data_len(), 0);

    names.push("Cerryl");
    assert_eq!(names.len(), 1);
    assert!(!names.is_empty());
    assert_eq!(names.data_len(), 6);

    names.push("Jeslek");
    assert_eq!(names.len(), 2);
    assert_eq!(names.data_len(), 12);

    assert_eq!(names.get(0), Some("Cerryl"));
    assert_eq!(names.get(1), Some("Jeslek"));
    assert_eq!(names.get::<&str>(2), None);

    assert_eq!(names.get(0), Some("Cerryl"));
    assert_eq!(names.get(1), Some("Jeslek"));
    assert_eq!(names.get::<&str>(2), None);

    names.clear();
    assert_eq!(names.len(), 0);
    assert!(names.is_empty());
    assert_eq!(names.data_len(), 0);
}

#[test]
fn iter() {
    let mut names: FlatVec<String> = FlatVec::new();
    names.push("Cerryl");
    names.push("Jeslek");
    let as_vec = names.iter::<&str>();
    assert_eq!(as_vec, vec!["Cerryl".to_string(), "Jeslek".to_string()]);
}

#[test]
fn remove() {
    let mut places: FlatVec<String> = FlatVec::new();
    places.push("Cyador");
    places.push("Recluce");
    places.push("Hamor");

    assert_eq!(places.get(1), Some("Recluce"));
    assert_eq!(places.get(2), Some("Hamor"));
    places.remove(1);
    assert_eq!(places.get(1), Some("Hamor"));
    assert_eq!(places.get::<&str>(2), None);

    places.clear();
    places.push("Cyador");
    places.push("Recluce");
    places.push("Hamor");

    assert_eq!(places.get(0), Some("Cyador"));
    assert_eq!(places.get(1), Some("Recluce"));
    places.remove(0);
    assert_eq!(places.get(0), Some("Recluce"));
    assert_eq!(places.get(1), Some("Hamor"));
}

struct Expander(u8);

impl IntoFlat<Vec<u8>> for Expander {
    fn flat(&self) -> vstd::seq::Seq<u8> {
        unreachable!()
    }

    fn into_flat(self, storage: &mut Storage) {
        storage.extend(0..self.0);
    }
}

#[test]
fn storage_extend() {
    let mut data: FlatVec<Vec<u8>> = FlatVec::new();
    data.push(Expander(10));
    assert_eq!(data.data_len(), 10);
    assert_eq!(data.get(0), Some(&[0, 1, 2, 3, 4, 5, 6, 7, 8, 9][..]));
    data.push(0..2);
    assert_eq!(data.data_len(), 12);
    assert_eq!(data.get(1), Some(&[0, 1][..]));
}

#[test]
fn clear_retains_capacity() {
    let mut names: FlatVec<String> = FlatVec::new();
    names.push("Cerryl");
    names.push("Jeslek");
    let cap = names.data_capacity();
    assert_eq!(cap, 12);
    names.clear();
    assert_eq!(names.len(), 0);
    assert_eq!(names.data_len(), 0);
    assert_eq!(names.data_capacity(), cap);
}

#[test]
fn push_growth_is_amortized_doubling() {
    let mut names: FlatVec<String> = FlatVec::new();
    names.push("Cerryl");
    // Empty buffer: grows to exactly the record's size.
    assert_eq!(names.data_capacity(), 6);
    names.push("Jeslek");
    // 6 + 6 meets double the capacity: grows to 12.
    assert_eq!(names.data_capacity(), 12);
    names.push("ab");
    // 12 + 2 is below double the capacity: doubles to 24.
    assert_eq!(names.data_capacity(), 24);
    assert_eq!(names.data_len(), 14);
}

#[test]
fn pop_returns_owned_last_record() {
    let mut names: FlatVec<String> = FlatVec::new();
    names.push("Cerryl");
    names.push("Jeslek");
    let cap = names.data_capacity();
    assert_eq!(names.pop::<String>(), Some("Jeslek".to_string()));
    assert_eq!(names.len(), 1);
    assert_eq!(names.data_len(), 6);
    assert_eq!(names.get(0), Some("Cerryl"));
    assert_eq!(names.pop::<String>(), Some("Cerryl".to_string()));
    assert_eq!(names.pop::<String>(), None);
    assert_eq!(names.len(), 0);
    assert_eq!(names.data_len(), 0);
    assert_eq!(names.data_capacity(), cap);
}

#[test]
fn byte_records_erect_borrowed_or_owned() {
    let mut data: FlatVec<Vec<u8>> = FlatVec::new();
    data.push(&[1u8, 2, 3][..]);
    data.push(vec![9u8, 8]);
    assert_eq!(data.get(0), Some(&[1u8, 2, 3][..]));
    assert_eq!(data.get::<Vec<u8>>(1), Some(vec![9u8, 8]));
    assert_eq!(data.pop::<Vec<u8>>(), Some(vec![9u8, 8]));
    assert_eq!(data.data_len(), 3);
}

#[test]
fn remove_shifts_bytes_and_offsets() {
    let mut data: FlatVec<Vec<u8>> = FlatVec::new();
    data.push(&[1u8, 2][..]);
    data.push(&[3u8, 4, 5][..]);
    data.push(&[6u8][..]);
    data.remove(1);
    assert_eq!(data.len(), 2);
    assert_eq!(data.get(0), Some(&[1u8, 2][..]));
    assert_eq!(data.get(1), Some(&[6u8][..]));
    assert_eq!(data.data_len(), 3);
}

#[test]
fn empty_and_inverted_ranges_push_empty_records() {
    let mut data: FlatVec<Vec<u8>> = FlatVec::new();
    data.push(5u8..5);
    data.push(5u8..3);
    assert_eq!(data.len(), 2);
    assert_eq!(data.data_len(), 0);
    assert_eq!(data.get(0), Some(&[][..] as &[u8]));
    assert_eq!(data.get(1), Some(&[][..] as &[u8]));
}

#[test]
fn clone_copies_all_records() {
    let mut names: FlatVec<String> = FlatVec::new();
    names.push("Cerryl");
    names.push("Jeslek");
    let copy = names.clone();
    names.clear();
    assert_eq!(copy.len(), 2);
    assert_eq!(copy.get(0), Some("Cerryl"));
    assert_eq!(copy.get(1), Some("Jeslek"));
    assert_eq!(copy.data_len(), 12);
}
