use async_rdma::Gid;

#[test]
fn the_two_halves_are_read_most_significant_byte_first() {
    let gid = Gid::new([
        0xfe, 0x80, 0, 0, 0, 0, 0, 0, 0x02, 0x42, 0xac, 0xff, 0xfe, 0x11, 0x00, 0x02,
    ]);
    assert_eq!(gid.subnet_prefix(), 0xfe80_0000_0000_0000);
    assert_eq!(gid.interface_id(), 0x0242_acff_fe11_0002);
}

#[test]
fn the_halves_agree_with_std() {
    let raw = [
        1, 2, 3, 4, 5, 6, 7, 8, 0xff, 0xfe, 0xfd, 0xfc, 0xfb, 0xfa, 0xf9, 0xf8,
    ];
    let gid = Gid::new(raw);
    let mut prefix = [0u8; 8];
    prefix.copy_from_slice(&raw[..8]);
    let mut id = [0u8; 8];
    id.copy_from_slice(&raw[8..]);
    assert_eq!(gid.subnet_prefix(), u64::from_be_bytes(prefix));
    assert_eq!(gid.interface_id(), u64::from_be_bytes(id));
    assert_eq!(gid.raw(), raw);
}

#[test]
fn the_largest_halves_do_not_overflow() {
    let gid = Gid::new([0xff; 16]);
    assert_eq!(gid.subnet_prefix(), u64::MAX);
    assert_eq!(gid.interface_id(), u64::MAX);
}

#[test]
fn the_default_identifier_is_all_zero() {
    let gid = Gid::default();
    assert_eq!(gid.raw(), [0u8; 16]);
    assert_eq!(gid.subnet_prefix(), 0);
    assert_eq!(gid.interface_id(), 0);
    assert_eq!(gid, Gid::new([0u8; 16]));
}
