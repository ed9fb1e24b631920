use async_rdma::{
    Local, LocalRemoteMR, MemoryRegion, MemoryRegionError, MemoryRegionToken, RdmaLocalMemory,
    RdmaMemory, RdmaRemoteMemory, Remote,
};
use std::alloc::Layout;

fn root(len: usize) -> MemoryRegion<Local> {
    MemoryRegion::new(0x1000, len, Local::new(7, 9))
}

#[test]
fn sub_allocation_scenario() {
    let mut parent = root(128);
    let first = parent.allocate_bytes(64).unwrap();
    assert_eq!(first.as_ptr(), 0x1000);
    assert_eq!(first.length(), 64);
    assert_eq!(
        parent.allocate_bytes(128).err(),
        Some(MemoryRegionError::NoEnoughMemory)
    );
    assert_eq!(parent.release(first), Ok(()));
    let second = parent.allocate_bytes(128).unwrap();
    assert_eq!(second.as_ptr(), 0x1000);
    assert_eq!(second.length(), 128);
}

#[test]
fn sub_allocation_scenario_with_layouts() {
    let mut parent = root(128);
    let half = Layout::from_size_align(64, 8).unwrap();
    let whole = Layout::from_size_align(128, 8).unwrap();
    let first = parent.allocate(half).unwrap();
    assert_eq!(first.length(), 64);
    assert_eq!(
        parent.allocate(whole).err(),
        Some(MemoryRegionError::NoEnoughMemory)
    );
    assert_eq!(parent.release(first), Ok(()));
    assert_eq!(parent.allocate(whole).unwrap().length(), 128);
}

#[test]
fn a_new_root_has_what_it_was_made_with() {
    let region = root(128);
    assert_eq!(region.as_ptr(), 0x1000);
    assert_eq!(region.length(), 128);
    assert_eq!(region.rkey(), 9);
    assert_eq!(region.lkey(), 7);
    assert!(region.is_root());
    assert!(region.is_leaf());
    assert!(region.reserved().is_empty());
    assert_eq!(
        region.token(),
        MemoryRegionToken {
            addr: 0x1000,
            len: 128,
            rkey: 9
        }
    );
    assert_eq!(region.root(), Local::new(7, 9));
}

#[test]
fn slice_gives_a_node_inside_the_parent() {
    let mut parent = root(128);
    let sub = parent.slice(16..48).unwrap();
    assert_eq!(sub.as_ptr(), 0x1010);
    assert_eq!(sub.length(), 32);
    assert_eq!(sub.rkey(), 9);
    assert_eq!(sub.lkey(), 7);
    assert!(!sub.is_root());
    assert!(sub.is_leaf());
    assert_eq!(
        sub.token(),
        MemoryRegionToken {
            addr: 0x1010,
            len: 32,
            rkey: 9
        }
    );
    assert_eq!(parent.reserved(), vec![16..48]);
    assert!(!parent.is_leaf());
}

#[test]
fn slice_refuses_ranges_that_are_not_inside() {
    let mut parent = root(128);
    assert_eq!(
        parent.slice(8..8).err(),
        Some(MemoryRegionError::InvalidRange)
    );
    assert_eq!(
        parent.slice(9..8).err(),
        Some(MemoryRegionError::InvalidRange)
    );
    assert_eq!(
        parent.slice(0..129).err(),
        Some(MemoryRegionError::InvalidRange)
    );
    assert_eq!(
        parent.slice(128..129).err(),
        Some(MemoryRegionError::InvalidRange)
    );
    assert!(parent.reserved().is_empty());
    assert!(parent.slice(0..128).is_ok());
}

#[test]
fn slice_refuses_ranges_that_meet_a_reserved_one() {
    let mut parent = root(128);
    let _held = parent.slice(32..64).unwrap();
    for range in [32..64, 31..33, 63..65, 0..128, 40..41] {
        assert_eq!(
            parent.slice(range).err(),
            Some(MemoryRegionError::Overlap)
        );
    }
    assert_eq!(parent.reserved(), vec![32..64]);
    assert!(parent.slice(0..32).is_ok());
    assert!(parent.slice(64..128).is_ok());
    assert_eq!(parent.reserved(), vec![0..32, 32..64, 64..128]);
}

#[test]
fn reserved_ranges_stay_ordered_and_apart() {
    let mut parent = root(100);
    for range in [50..60, 10..20, 90..100, 0..5, 20..50] {
        parent.slice(range).unwrap();
    }
    let reserved = parent.reserved();
    assert_eq!(reserved, vec![0..5, 10..20, 20..50, 50..60, 90..100]);
    for pair in reserved.windows(2) {
        assert!(pair[0].end <= pair[1].start);
    }
    for range in &reserved {
        assert!(range.start < range.end && range.end <= 100);
    }
}

#[test]
fn allocate_takes_the_lowest_gap_that_is_long_enough() {
    let mut parent = root(100);
    parent.slice(10..20).unwrap();
    parent.slice(30..60).unwrap();
    let a = parent.allocate_bytes(10).unwrap();
    assert_eq!(a.as_ptr(), 0x1000);
    let b = parent.allocate_bytes(10).unwrap();
    assert_eq!(b.as_ptr(), 0x1000 + 20);
    let c = parent.allocate_bytes(11).unwrap();
    assert_eq!(c.as_ptr(), 0x1000 + 60);
    assert_eq!(parent.reserved(), vec![0..10, 10..20, 20..30, 30..60, 60..71]);
    assert_eq!(
        parent.allocate_bytes(30).err(),
        Some(MemoryRegionError::NoEnoughMemory)
    );
    assert_eq!(parent.allocate_bytes(29).unwrap().as_ptr(), 0x1000 + 71);
}

#[test]
fn allocate_refuses_no_bytes() {
    let mut parent = root(100);
    assert_eq!(
        parent.allocate_bytes(0).err(),
        Some(MemoryRegionError::InvalidRange)
    );
    assert_eq!(
        parent
            .allocate(Layout::from_size_align(0, 1).unwrap())
            .err(),
        Some(MemoryRegionError::InvalidRange)
    );
    assert!(parent.reserved().is_empty());
}

#[test]
fn allocate_from_an_empty_region_fails() {
    let mut parent = root(0);
    assert_eq!(
        parent.allocate_bytes(1).err(),
        Some(MemoryRegionError::NoEnoughMemory)
    );
}

#[test]
fn release_gives_the_range_back() {
    let mut parent = root(128);
    let a = parent.slice(0..32).unwrap();
    let b = parent.slice(32..64).unwrap();
    assert_eq!(parent.release(a), Ok(()));
    assert_eq!(parent.reserved(), vec![32..64]);
    assert_eq!(parent.release(b), Ok(()));
    assert!(parent.is_leaf());
}

#[test]
fn release_refuses_what_was_not_reserved_here() {
    let mut parent = root(128);
    let mut other = MemoryRegion::new(0x9000, 128, Local::new(1, 2));
    let stranger = other.slice(0..32).unwrap();
    assert_eq!(
        parent.release(stranger),
        Err(MemoryRegionError::NotReserved)
    );
    let another_root = root(128);
    assert_eq!(
        parent.release(another_root),
        Err(MemoryRegionError::NotReserved)
    );
    let mut twin = root(128);
    let from_twin = twin.slice(0..32).unwrap();
    assert_eq!(
        parent.release(from_twin),
        Err(MemoryRegionError::NotReserved)
    );
}

#[test]
fn release_refuses_a_node_that_is_no_leaf() {
    let mut parent = root(128);
    let mut child = parent.slice(0..64).unwrap();
    let grandchild = child.slice(8..16).unwrap();
    assert_eq!(grandchild.as_ptr(), 0x1008);
    assert_eq!(grandchild.rkey(), 9);
    assert_eq!(parent.release(child), Err(MemoryRegionError::NotLeaf));
    assert_eq!(parent.reserved(), vec![0..64]);
}

#[test]
fn a_root_is_deregistered_only_as_a_leaf() {
    let mut parent = root(128);
    let child = parent.slice(0..64).unwrap();
    let parent = match parent.deregister() {
        Ok(_) => panic!("a root with a live node was deregistered"),
        Err(parent) => parent,
    };
    let mut parent = parent;
    assert_eq!(parent.release(child), Ok(()));
    assert_eq!(parent.deregister().ok(), Some(Local::new(7, 9)));
}

#[test]
fn a_node_is_never_deregistered() {
    let mut parent = root(128);
    let child = parent.slice(0..64).unwrap();
    assert!(child.deregister().is_err());
}

#[test]
fn token_round_trip() {
    let mut local = root(128);
    let sub = local.slice(64..96).unwrap();
    for token in [local.token(), sub.token()] {
        let remote = MemoryRegion::new_from_token(token);
        assert_eq!(remote.as_ptr(), token.addr);
        assert_eq!(remote.length(), token.len);
        assert_eq!(remote.rkey(), token.rkey);
        assert_eq!(remote.token(), token);
        assert!(remote.is_root());
        assert!(remote.is_leaf());
        assert_eq!(remote.root().token(), token);
    }
}

#[test]
fn a_remote_region_is_sliced_like_a_local_one() {
    let mut remote = MemoryRegion::new_from_token(MemoryRegionToken {
        addr: 0x4000,
        len: 4096,
        rkey: 33,
    });
    let mut subs = Vec::new();
    for i in 0..16usize {
        subs.push(remote.slice(i * 256..(i + 1) * 256).unwrap());
    }
    for (i, sub) in subs.iter().enumerate() {
        assert_eq!(sub.as_ptr(), 0x4000 + i * 256);
        assert_eq!(sub.length(), 256);
        assert_eq!(sub.rkey(), 33);
    }
    assert_eq!(
        remote.allocate_bytes(1).err(),
        Some(MemoryRegionError::NoEnoughMemory)
    );
}

#[test]
fn the_memory_traits_read_the_region() {
    let local = root(128);
    assert_eq!(RdmaMemory::addr(&local), 0x1000);
    assert_eq!(RdmaMemory::length(&local), 128);
    assert!(RdmaMemory::is_leaf(&local));
    assert_eq!(RdmaLocalMemory::lkey(&local), 7);
    let remote = MemoryRegion::new_from_token(MemoryRegionToken {
        addr: 5,
        len: 6,
        rkey: 7,
    });
    assert_eq!(RdmaMemory::addr(&remote), 5);
    assert_eq!(RdmaMemory::length(&remote), 6);
    assert_eq!(RdmaRemoteMemory::rkey(&remote), 7);
    assert_eq!(LocalRemoteMR::rkey(&Local::new(1, 2)), 2);
    let sent: Remote = remote.root();
    assert_eq!(LocalRemoteMR::rkey(&sent), 7);
}

#[test]
fn every_error_has_its_text() {
    assert_eq!(MemoryRegionError::InvalidRange.message(), "Invalid Range");
    assert_eq!(MemoryRegionError::Overlap.message(), "Overlap");
    assert_eq!(
        MemoryRegionError::NoEnoughMemory.message(),
        "No Enough Memory"
    );
    assert_eq!(MemoryRegionError::NotLeaf.message(), "Not A Leaf");
    assert_eq!(MemoryRegionError::NotReserved.message(), "Not Reserved");
}

#[test]
fn release_refuses_a_node_of_another_parent_with_the_same_range() {
    let mut parent = root(128);
    let mut child = parent.slice(0..128).unwrap();
    let grandchild = child.slice(0..128).unwrap();
    assert_eq!(
        parent.release(grandchild),
        Err(MemoryRegionError::NotReserved)
    );
    assert_eq!(parent.reserved(), vec![0..128]);
    let parent = match parent.deregister() {
        Ok(_) => panic!("a root with a live node was deregistered"),
        Err(parent) => parent,
    };
    assert!(!parent.is_leaf());
}

#[test]
fn a_node_goes_back_to_its_own_parent_only() {
    let mut parent = root(128);
    let mut left = parent.slice(0..64).unwrap();
    let mut right = parent.slice(64..128).unwrap();
    let in_left = left.slice(0..16).unwrap();
    let in_right = right.slice(0..16).unwrap();
    assert_eq!(left.release(in_right), Err(MemoryRegionError::NotReserved));
    assert_eq!(left.reserved(), vec![0..16]);
    assert_eq!(left.release(in_left), Ok(()));
    assert_eq!(parent.release(left), Ok(()));
    assert_eq!(parent.release(right), Err(MemoryRegionError::NotLeaf));
    assert_eq!(parent.reserved(), vec![64..128]);
}

#[test]
fn nodes_of_look_alike_roots_are_told_apart() {
    let mut one = root(128);
    let mut other = root(128);
    let of_one = one.slice(0..64).unwrap();
    let of_other = other.slice(0..64).unwrap();
    assert_eq!(one.release(of_other), Err(MemoryRegionError::NotReserved));
    assert_eq!(one.reserved(), vec![0..64]);
    assert!(one.deregister().is_err());
    assert_eq!(other.release(of_one), Err(MemoryRegionError::NotReserved));
    assert_eq!(other.reserved(), vec![0..64]);
}

#[test]
fn two_remote_roots_of_one_token_are_told_apart() {
    let token = MemoryRegionToken {
        addr: 0x4000,
        len: 64,
        rkey: 33,
    };
    let mut one = MemoryRegion::new_from_token(token);
    let mut other = MemoryRegion::new_from_token(token);
    assert_eq!(one.token(), other.token());
    let of_one = one.slice(0..8).unwrap();
    let of_other = other.slice(0..8).unwrap();
    assert_eq!(one.release(of_other), Err(MemoryRegionError::NotReserved));
    assert_eq!(one.release(of_one), Ok(()));
    assert!(one.is_leaf());
    assert!(!other.is_leaf());
}

#[test]
fn a_tree_is_known_by_its_number() {
    let mut one = MemoryRegion::new_in(5, 0x1000, 128, Local::new(7, 9));
    let mut other = MemoryRegion::new_in(6, 0x1000, 128, Local::new(7, 9));
    let of_one = one.slice(0..64).unwrap();
    let of_other = other.slice(0..64).unwrap();
    assert_eq!(one.release(of_other), Err(MemoryRegionError::NotReserved));
    assert_eq!(one.release(of_one), Ok(()));
    assert_eq!(one.deregister().ok(), Some(Local::new(7, 9)));
    let remote = MemoryRegion::new_from_token_in(
        5,
        MemoryRegionToken {
            addr: 0x1000,
            len: 128,
            rkey: 9,
        },
    );
    assert_eq!(remote.as_ptr(), 0x1000);
    assert_eq!(remote.length(), 128);
    assert_eq!(remote.rkey(), 9);
}

#[test]
fn a_node_with_another_key_is_refused() {
    let mut one = MemoryRegion::new_in(5, 0x1000, 128, Local::new(7, 9));
    let mut other = MemoryRegion::new_in(5, 0x1000, 128, Local::new(7, 10));
    let _of_one = one.slice(0..64).unwrap();
    let of_other = other.slice(0..64).unwrap();
    assert_eq!(one.release(of_other), Err(MemoryRegionError::NotReserved));
    assert_eq!(one.reserved(), vec![0..64]);
}

#[test]
fn a_region_with_a_reserved_range_is_no_leaf() {
    let mut parent = root(128);
    let child = parent.slice(0..64).unwrap();
    assert!(!RdmaMemory::is_leaf(&parent));
    assert!(RdmaMemory::is_leaf(&child));
    assert_eq!(parent.release(child), Ok(()));
    assert!(RdmaMemory::is_leaf(&parent));
    assert_eq!(RdmaMemory::addr(&parent), 0x1000);
    assert_eq!(RdmaMemory::length(&parent), 128);
}
