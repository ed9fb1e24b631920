use async_rdma::{
    Local, MemoryRegion, RdmaLocalBox, RdmaLocalMemory, RdmaMemory, RdmaRemoteBox,
    RdmaRemoteMemory, SizedLayout,
};
use std::alloc::Layout;

fn boxed() -> RdmaLocalBox<[u32; 4]> {
    RdmaLocalBox::from_region(MemoryRegion::new(0x7000, 16, Local::new(5, 6)))
}

#[test]
fn a_box_reads_its_region() {
    let local = boxed();
    assert_eq!(local.ptr(), 0x7000);
    assert_eq!(local.len(), 16);
    assert_eq!(local.lkey(), 5);
    assert_eq!(RdmaMemory::addr(&local), 0x7000);
    assert_eq!(RdmaMemory::length(&local), 16);
    assert!(RdmaMemory::is_leaf(&local));
    assert_eq!(RdmaLocalMemory::lkey(&local), 5);
}

#[test]
fn the_remote_box_names_the_local_one() {
    let local = boxed();
    let remote = local.remote_box();
    assert_eq!(
        remote,
        RdmaRemoteBox {
            ptr: 0x7000,
            len: 16,
            rkey: 6
        }
    );
    assert_eq!(RdmaMemory::addr(&remote), 0x7000);
    assert_eq!(RdmaMemory::length(&remote), 16);
    assert!(RdmaMemory::is_leaf(&remote));
    assert_eq!(RdmaRemoteMemory::rkey(&remote), 6);
}

#[test]
fn a_box_gives_its_region_back() {
    let region = boxed().into_region();
    assert_eq!(region.as_ptr(), 0x7000);
    assert_eq!(region.length(), 16);
    assert_eq!(region.deregister().ok(), Some(Local::new(5, 6)));
}

#[test]
fn the_layout_of_a_box_is_that_of_its_value() {
    assert_eq!(
        <RdmaLocalBox<[u32; 4]> as SizedLayout>::layout(),
        Layout::new::<[u32; 4]>()
    );
    assert_eq!(
        <RdmaLocalBox<u8> as SizedLayout>::layout(),
        Layout::new::<u8>()
    );
}
