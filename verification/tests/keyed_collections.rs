use libre_pvz::animation::Meta;
use libre_pvz::cached::{key_less, Cached, ContainerWithKey, SortedSlice};

fn meta(name: &str, start: u16) -> Meta {
    Meta { name: name.to_string(), start_frame: start, end_frame: start + 1 }
}

#[test]
fn sorted_slice_sorts_by_key() {
    let s = SortedSlice::from(vec![meta("walk", 0), meta("idle", 1), meta("attack", 2), meta("idle2", 3)]);
    let names: Vec<&str> = s.as_slice().iter().map(|m| m.name.as_str()).collect();
    assert_eq!(names, vec!["attack", "idle", "idle2", "walk"]);
    assert_eq!(s.len(), 4);
}

#[test]
fn sorted_slice_keeps_duplicates() {
    let s = SortedSlice::from(vec![meta("b", 0), meta("a", 1), meta("b", 2)]);
    let names: Vec<&str> = s.as_slice().iter().map(|m| m.name.as_str()).collect();
    assert_eq!(names, vec!["a", "b", "b"]);
    let mut starts: Vec<u16> = s.as_slice().iter().filter(|m| m.name == "b").map(|m| m.start_frame).collect();
    starts.sort();
    assert_eq!(starts, vec![0, 2]);
}

#[test]
fn binary_search_finds_keys() {
    let s = SortedSlice::from(vec![meta("c", 0), meta("a", 1), meta("b", 2)]);
    assert_eq!(s.binary_search_by_key(Some("a")), Some(0));
    assert_eq!(s.binary_search_by_key(Some("b")), Some(1));
    assert_eq!(s.binary_search_by_key(Some("c")), Some(2));
    assert_eq!(s.binary_search_by_key(Some("d")), None);
    assert_eq!(s.binary_search_by_key(None), None);
    assert_eq!(s.get_by_key(Some("b")), Some(1));
    assert_eq!(s.get_by_handle(2).name, "c");
    let empty: SortedSlice<Meta> = SortedSlice::from(vec![]);
    assert_eq!(empty.binary_search_by_key(Some("a")), None);
}

#[test]
fn key_order_is_lexicographic_with_absent_first() {
    assert!(key_less(None, Some("")));
    assert!(!key_less(None, None));
    assert!(!key_less(Some("a"), None));
    assert!(key_less(Some("a"), Some("b")));
    assert!(key_less(Some("ab"), Some("b")));
    assert!(key_less(Some("a"), Some("ab")));
    assert!(!key_less(Some("ab"), Some("ab")));
    assert!(key_less(Some("Z"), Some("a")));
    assert!(key_less(Some("z"), Some("é")));
}

#[test]
fn cached_lookup_fills_cache_once() {
    let s = SortedSlice::from(vec![meta("x", 7), meta("y", 8)]);
    let mut c: Cached<String, usize> = Cached::from("y".to_string());
    assert_eq!(c.cached, None);
    assert_eq!(c.handle_in(&s), Some(1));
    assert_eq!(c.cached, None);
    let v = c.get_or_init(&s).unwrap();
    assert_eq!(v.start_frame, 8);
    assert_eq!(c.cached, Some(1));
    let mut missing: Cached<String, usize> = Cached::from("z".to_string());
    assert!(missing.get_or_init(&s).is_none());
    assert_eq!(missing.cached, None);
}
