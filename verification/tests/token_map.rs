use async_rdma::token_map::TokenMap;
use async_rdma::MemoryRegionToken;

fn token(addr: usize) -> MemoryRegionToken {
    MemoryRegionToken {
        addr,
        len: 8,
        rkey: 1,
    }
}

#[test]
fn a_token_goes_to_what_was_inserted_last() {
    let mut map: TokenMap<&str> = TokenMap::new();
    assert_eq!(map.len(), 0);
    map.insert(token(1), "a");
    map.insert(token(2), "b");
    map.insert(token(1), "c");
    assert_eq!(map.len(), 2);
    assert_eq!(map.get(token(1)), Some(&"c"));
    assert_eq!(map.get(token(2)), Some(&"b"));
    assert_eq!(map.get(token(3)), None);
    assert!(map.contains_key(token(2)));
    assert!(!map.contains_key(token(3)));
}

#[test]
fn tokens_differ_in_any_field() {
    let mut map: TokenMap<u8> = TokenMap::new();
    let base = token(1);
    map.insert(base, 0);
    map.insert(MemoryRegionToken { len: 9, ..base }, 1);
    map.insert(MemoryRegionToken { rkey: 2, ..base }, 2);
    assert_eq!(map.len(), 3);
    assert_eq!(map.get(base), Some(&0));
    assert_eq!(map.get(MemoryRegionToken { len: 9, ..base }), Some(&1));
    assert_eq!(map.get(MemoryRegionToken { rkey: 2, ..base }), Some(&2));
}

#[test]
fn a_removed_token_is_gone() {
    let mut map: TokenMap<u8> = TokenMap::new();
    for i in 0..5 {
        map.insert(token(i), i as u8);
    }
    assert_eq!(map.remove(token(2)), Some(2));
    assert_eq!(map.remove(token(2)), None);
    assert_eq!(map.len(), 4);
    for i in [0usize, 1, 3, 4] {
        assert_eq!(map.get(token(i)), Some(&(i as u8)));
    }
    assert_eq!(map.remove(token(9)), None);
    assert_eq!(map.len(), 4);
}
