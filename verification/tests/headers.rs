use filter_engine::headers::HeaderMap;

fn map_of(pairs: &[(&[u8], &[u8])]) -> HeaderMap {
    let mut map = HeaderMap::new();
    for (key, value) in pairs {
        map.append(key, value);
    }
    map
}

fn entries(map: &HeaderMap) -> Vec<(Vec<u8>, Vec<u8>)> {
    let mut all = Vec::new();
    let mut i = 0;
    while let Some((key, value)) = map.entry(i) {
        all.push((key.to_vec(), value.to_vec()));
        i += 1;
    }
    assert_eq!(i, map.len());
    all
}

fn owned(pairs: &[(&[u8], &[u8])]) -> Vec<(Vec<u8>, Vec<u8>)> {
    pairs.iter().map(|(k, v)| (k.to_vec(), v.to_vec())).collect()
}

#[test]
fn new_map_has_no_entries() {
    let map = HeaderMap::new();
    assert_eq!(map.len(), 0);
    assert!(map.get_first(b"a").is_none());
    assert!(map.get_all(b"a").is_empty());
    assert!(map.entry(0).is_none());
}

#[test]
fn append_keeps_duplicates_in_order() {
    let map = map_of(&[(b"a", b"1"), (b"b", b"2"), (b"a", b"3")]);
    assert_eq!(map.len(), 3);
    assert_eq!(map.get_all(b"a"), vec![&b"1"[..], &b"3"[..]]);
    assert_eq!(entries(&map), owned(&[(b"a", b"1"), (b"b", b"2"), (b"a", b"3")]));
}

#[test]
fn get_first_returns_the_first_occurrence() {
    let map = map_of(&[(b"x", b"0"), (b"a", b"1"), (b"a", b"2")]);
    assert_eq!(map.get_first(b"a"), Some(&b"1"[..]));
    assert_eq!(map.get_first(b"x"), Some(&b"0"[..]));
    assert_eq!(map.get_first(b"missing"), None);
}

#[test]
fn get_all_of_absent_key_is_empty() {
    let map = map_of(&[(b"a", b"1")]);
    assert!(map.get_all(b"b").is_empty());
}

#[test]
fn keys_are_case_sensitive() {
    let map = map_of(&[(b"Key", b"upper"), (b"key", b"lower")]);
    assert_eq!(map.get_first(b"key"), Some(&b"lower"[..]));
    assert_eq!(map.get_first(b"Key"), Some(&b"upper"[..]));
    assert_eq!(map.get_first(b"KEY"), None);
}

#[test]
fn set_then_get_all_is_the_one_value() {
    let mut map = map_of(&[(b"a", b"1"), (b"b", b"2"), (b"a", b"3"), (b"a", b"4")]);
    map.set(b"a", b"new");
    assert_eq!(map.get_all(b"a"), vec![&b"new"[..]]);
}

#[test]
fn set_keeps_the_place_of_the_first_occurrence() {
    let mut map = map_of(&[(b"x", b"0"), (b"a", b"1"), (b"b", b"2"), (b"a", b"3"), (b"c", b"4")]);
    map.set(b"a", b"new");
    assert_eq!(entries(&map), owned(&[(b"x", b"0"), (b"a", b"new"), (b"b", b"2"), (b"c", b"4")]));
}

#[test]
fn set_of_absent_key_adds_at_the_end() {
    let mut map = map_of(&[(b"x", b"0"), (b"y", b"1")]);
    map.set(b"a", b"new");
    assert_eq!(entries(&map), owned(&[(b"x", b"0"), (b"y", b"1"), (b"a", b"new")]));
}

#[test]
fn set_on_empty_map_adds_one_entry() {
    let mut map = HeaderMap::new();
    map.set(b"a", b"v");
    assert_eq!(entries(&map), owned(&[(b"a", b"v")]));
}

#[test]
fn set_leaves_other_keys_alone() {
    let mut map = map_of(&[(b"b", b"1"), (b"a", b"2"), (b"b", b"3")]);
    map.set(b"a", b"new");
    assert_eq!(map.get_all(b"b"), vec![&b"1"[..], &b"3"[..]]);
}

#[test]
fn set_twice_keeps_the_last_value() {
    let mut map = HeaderMap::new();
    map.set(b"a", b"1");
    map.set(b"a", b"2");
    assert_eq!(entries(&map), owned(&[(b"a", b"2")]));
}

#[test]
fn remove_then_get_all_is_empty() {
    let mut map = map_of(&[(b"a", b"1"), (b"b", b"2"), (b"a", b"3")]);
    map.remove(b"a");
    assert!(map.get_all(b"a").is_empty());
    assert!(map.get_first(b"a").is_none());
    assert_eq!(entries(&map), owned(&[(b"b", b"2")]));
}

#[test]
fn remove_of_absent_key_changes_nothing() {
    let mut map = map_of(&[(b"a", b"1"), (b"b", b"2")]);
    map.remove(b"c");
    assert_eq!(entries(&map), owned(&[(b"a", b"1"), (b"b", b"2")]));
}

#[test]
fn remove_takes_out_adjacent_duplicates() {
    let mut map = map_of(&[(b"a", b"1"), (b"a", b"2"), (b"a", b"3"), (b"b", b"4")]);
    map.remove(b"a");
    assert_eq!(entries(&map), owned(&[(b"b", b"4")]));
}

#[test]
fn values_need_not_be_text() {
    let mut map = HeaderMap::new();
    map.set(&[0xff, 0x00], &[0xc3, 0x28]);
    assert_eq!(map.get_first(&[0xff, 0x00]), Some(&[0xc3u8, 0x28][..]));
}

#[test]
fn empty_key_and_value_are_entries_like_any_other() {
    let mut map = HeaderMap::new();
    map.append(b"", b"");
    map.append(b"", b"x");
    assert_eq!(map.get_all(b""), vec![&b""[..], &b"x"[..]]);
    map.set(b"", b"y");
    assert_eq!(entries(&map), owned(&[(b"", b"y")]));
}
