//! Behaviour of the guest header collection: append order, comma
//! joining, case folding, and the pull-based entries iterator.

use edge_worker::headers::{HeaderError, Headers};

#[test]
fn append_order_kept_and_duplicates_joined() {
    let mut h = Headers::new();
    h.append(&b"X-A".to_vec(), &b"1".to_vec()).unwrap();
    h.append(&b"x-b".to_vec(), &b"2".to_vec()).unwrap();
    h.append(&b"x-a".to_vec(), &b"3".to_vec()).unwrap();
    let mut it = h.entries();
    assert_eq!(it.next(), Some((b"x-a".to_vec(), b"1, 3".to_vec())));
    assert_eq!(it.next(), Some((b"x-b".to_vec(), b"2".to_vec())));
    assert_eq!(it.next(), None);
    assert_eq!(it.next(), None);
}

#[test]
fn get_is_case_insensitive() {
    let mut h = Headers::new();
    h.set(&b"Content-Type".to_vec(), &b"text/plain".to_vec()).unwrap();
    assert_eq!(h.get(&b"content-type".to_vec()), Some(b"text/plain".to_vec()));
    assert_eq!(h.get(&b"Content-Type".to_vec()), Some(b"text/plain".to_vec()));
    assert_eq!(h.get(&b"CONTENT-TYPE".to_vec()), Some(b"text/plain".to_vec()));

    let mut h2 = Headers::new();
    h2.append(&b"content-type".to_vec(), &b"text/html".to_vec()).unwrap();
    assert_eq!(h2.get(&b"Content-Type".to_vec()), Some(b"text/html".to_vec()));
    assert_eq!(h2.get(&b"content-type".to_vec()), Some(b"text/html".to_vec()));
}

#[test]
fn names_fold_to_lowercase_on_insert() {
    let mut h = Headers::new();
    h.append(&b"X-Custom-Header".to_vec(), &b"v".to_vec()).unwrap();
    assert_eq!(h.keys(), vec![b"x-custom-header".to_vec()]);
}

#[test]
fn invalid_name_is_refused() {
    let mut h = Headers::new();
    assert_eq!(h.append(&b"bad name".to_vec(), &b"v".to_vec()), Err(HeaderError::InvalidName));
    assert_eq!(h.append(&b"".to_vec(), &b"v".to_vec()), Err(HeaderError::InvalidName));
    assert_eq!(h.set(&b"semi;colon".to_vec(), &b"v".to_vec()), Err(HeaderError::InvalidName));
    assert!(!h.has(&b"bad name".to_vec()));
    assert_eq!(h.keys().len(), 0);
}

#[test]
fn set_replaces_in_place() {
    let mut h = Headers::new();
    h.append(&b"x-a".to_vec(), &b"1".to_vec()).unwrap();
    h.append(&b"x-b".to_vec(), &b"2".to_vec()).unwrap();
    h.set(&b"X-A".to_vec(), &b"9".to_vec()).unwrap();
    let mut it = h.entries();
    assert_eq!(it.next(), Some((b"x-a".to_vec(), b"9".to_vec())));
    assert_eq!(it.next(), Some((b"x-b".to_vec(), b"2".to_vec())));
    assert_eq!(it.next(), None);
}

#[test]
fn delete_removes_through_either_spelling() {
    let mut h = Headers::new();
    h.append(&b"x-a".to_vec(), &b"1".to_vec()).unwrap();
    h.append(&b"x-b".to_vec(), &b"2".to_vec()).unwrap();
    h.delete(&b"X-A".to_vec());
    assert!(!h.has(&b"x-a".to_vec()));
    assert!(h.has(&b"x-b".to_vec()));
    assert_eq!(h.keys(), vec![b"x-b".to_vec()]);
    h.delete(&b"never-there".to_vec());
    assert_eq!(h.keys(), vec![b"x-b".to_vec()]);
}

#[test]
fn keys_and_values_in_insertion_order() {
    let mut h = Headers::new();
    h.append(&b"b".to_vec(), &b"2".to_vec()).unwrap();
    h.append(&b"a".to_vec(), &b"1".to_vec()).unwrap();
    assert_eq!(h.keys(), vec![b"b".to_vec(), b"a".to_vec()]);
    assert_eq!(h.values(), vec![b"2".to_vec(), b"1".to_vec()]);
}

#[test]
fn from_init_appends_each_pair() {
    let init = vec![
        (b"X-A".to_vec(), b"1".to_vec()),
        (b"x-a".to_vec(), b"2".to_vec()),
        (b"x-b".to_vec(), b"3".to_vec()),
    ];
    let h = Headers::from_init(&init).unwrap();
    let mut it = h.entries();
    assert_eq!(it.next(), Some((b"x-a".to_vec(), b"1, 2".to_vec())));
    assert_eq!(it.next(), Some((b"x-b".to_vec(), b"3".to_vec())));
    assert_eq!(it.next(), None);

    let bad = vec![(b"ok".to_vec(), b"1".to_vec()), (b"not ok".to_vec(), b"2".to_vec())];
    assert!(Headers::from_init(&bad).is_err());
}

#[test]
fn token_safe_punctuation_is_accepted() {
    let mut h = Headers::new();
    h.append(&b"x#$%&'*+.^_`|~!-".to_vec(), &b"v".to_vec()).unwrap();
    assert!(h.has(&b"X#$%&'*+.^_`|~!-".to_vec()));
}
