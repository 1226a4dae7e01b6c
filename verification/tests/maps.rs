use flexbuffers::{Builder, Reader};
use selectfb::value::{FbMap, FbValue};

/// `{"zeta": 1, "alpha": "two", "mid": [3]}`
fn object() -> Vec<u8> {
    let mut builder = Builder::default();
    let mut m = builder.start_map();
    m.push("zeta", 1u8);
    m.push("alpha", "two");
    {
        let mut v = m.start_vector("mid");
        v.push(3u8);
        v.end_vector();
    }
    m.end_map();
    builder.take_buffer()
}

fn map_of(buffer: &[u8]) -> FbMap<'_> {
    FbMap::new(Reader::get_root(buffer).unwrap().as_map())
}

#[test]
fn contains_key_finds_each_key() {
    let buffer = object();
    let map = map_of(&buffer);
    assert!(map.contains_key("zeta"));
    assert!(map.contains_key("alpha"));
    assert!(map.contains_key("mid"));
}

#[test]
fn contains_key_misses_what_is_not_a_key() {
    let buffer = object();
    let map = map_of(&buffer);
    assert!(!map.contains_key("beta"));
    assert!(!map.contains_key(""));
    assert!(!map.contains_key("zet"));
    assert!(!map.contains_key("zetaa"));
    assert!(!map.contains_key("two"));
}

#[test]
fn get_yields_the_view_of_the_value() {
    let buffer = object();
    let map = map_of(&buffer);
    let reader = Reader::get_root(&buffer[..]).unwrap().as_map();
    assert_eq!(map.get("zeta").unwrap().reader().as_u64(), 1);
    assert_eq!(map.get("alpha").unwrap().reader().as_str(), "two");
    assert_eq!(map.get("mid"), Some(FbValue::new(reader.idx("mid"))));
    assert!(map.get("mid").unwrap().is_array());
}

#[test]
fn get_of_a_missing_key_is_none() {
    let buffer = object();
    let map = map_of(&buffer);
    assert_eq!(map.get("beta"), None);
    assert_eq!(map.get(""), None);
}

#[test]
fn get_is_some_only_where_contains_key_holds() {
    let buffer = object();
    let map = map_of(&buffer);
    for key in ["zeta", "alpha", "mid", "beta", "", "z"] {
        assert_eq!(map.get(key).is_some(), map.contains_key(key), "{}", key);
    }
}

#[test]
fn pairs_come_once_each_in_the_order_of_the_encoding() {
    let buffer = object();
    let map = map_of(&buffer);
    let pairs = map.pairs();
    let keys: Vec<&str> = pairs.iter().map(|p| p.0).collect();
    assert_eq!(keys, vec!["alpha", "mid", "zeta"]);
    for (key, value) in &pairs {
        assert_eq!(map.get(key).as_ref(), Some(value));
    }
    assert_eq!(pairs[0].1.reader().as_str(), "two");
    assert_eq!(pairs[2].1.reader().as_u64(), 1);
}

#[test]
fn pairs_of_an_empty_map() {
    let mut builder = Builder::default();
    let m = builder.start_map();
    m.end_map();
    let buffer = builder.take_buffer();
    let map = map_of(&buffer);
    assert!(map.pairs().is_empty());
    assert!(!map.contains_key("a"));
    assert_eq!(map.get("a"), None);
}

#[test]
fn clone_of_a_map_answers_alike() {
    let buffer = object();
    let map = map_of(&buffer);
    let copy = map.clone();
    assert_eq!(copy.pairs(), map.pairs());
    assert!(copy.contains_key("mid"));
    assert_eq!(copy.get("zeta"), map.get("zeta"));
}

#[test]
fn keys_that_only_share_a_prefix_are_told_apart() {
    let mut builder = Builder::default();
    let mut m = builder.start_map();
    m.push("ab", 1u8);
    m.push("abc", 2u8);
    m.push("a", 3u8);
    m.end_map();
    let buffer = builder.take_buffer();
    let map = map_of(&buffer);
    assert_eq!(map.get("a").unwrap().reader().as_u64(), 3);
    assert_eq!(map.get("ab").unwrap().reader().as_u64(), 1);
    assert_eq!(map.get("abc").unwrap().reader().as_u64(), 2);
    assert_eq!(map.get("abcd"), None);
}
