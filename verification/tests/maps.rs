use maybe_borrow::lookup::{bytes_eq, get_first_available, AssocMap};
use maybe_borrow::ptr_impls::Handle;

fn sample_map() -> AssocMap<u64> {
    let mut map = AssocMap::new();
    map.insert(b"b".to_vec(), 42u64);
    map
}

#[test]
fn test_first_available_found() {
    let keys = vec![b"a".to_vec(), b"b".to_vec(), b"c".to_vec()];
    let (r, h) = get_first_available(Handle(sample_map()), &keys);
    // the hit is on the second candidate and carries the value 42
    assert_eq!(r, Some((1, 42)));
    // the map came back intact
    assert_eq!(h.0.get(&b"b".to_vec()), Some(42));
    assert_eq!(h.0.keys.len(), 1);
}

#[test]
fn test_first_available_not_found() {
    let keys = vec![b"x".to_vec(), b"y".to_vec()];
    let (r, h) = get_first_available(Handle(sample_map()), &keys);
    assert_eq!(r, None);
    assert_eq!(h.0.get(&b"b".to_vec()), Some(42));
}

#[test]
fn test_first_available_prefers_earliest_key() {
    let mut map = AssocMap::new();
    map.insert(b"b".to_vec(), 42u64);
    map.insert(b"c".to_vec(), 7u64);
    let keys = vec![b"a".to_vec(), b"b".to_vec(), b"c".to_vec()];
    let (r, _h) = get_first_available(Handle(map), &keys);
    // "c" is present too, but the probe stops at "b"
    assert_eq!(r, Some((1, 42)));
}

#[test]
fn test_assoc_map_first_binding_wins() {
    let mut map = AssocMap::new();
    map.insert(b"k".to_vec(), 1u64);
    map.insert(b"k".to_vec(), 2u64);
    assert_eq!(map.get(&b"k".to_vec()), Some(1));
    assert_eq!(map.get(&b"missing".to_vec()), None);
}

#[test]
fn test_bytes_eq() {
    assert!(bytes_eq(&b"abc".to_vec(), &b"abc".to_vec()));
    assert!(!bytes_eq(&b"abc".to_vec(), &b"abd".to_vec()));
    assert!(!bytes_eq(&b"abc".to_vec(), &b"ab".to_vec()));
    assert!(bytes_eq(&Vec::new(), &Vec::new()));
}
