use bitoku_agent::bitset::{addel, delel, isel};
use bitoku_agent::error::BitokuError;
use bitoku_agent::state::BookKeeper;

#[test]
fn bitset_set_test_clear() {
    let mut s = [0u8; 32];
    addel(&mut s, 0);
    addel(&mut s, 9);
    addel(&mut s, 255);
    assert_eq!(s[0], 1);
    assert_eq!(s[1], 2);
    assert_eq!(s[31], 128);
    assert!(isel(s, 9));
    assert!(!isel(s, 8));
    delel(&mut s, 9);
    assert!(!isel(s, 9));
    assert!(isel(s, 0) && isel(s, 255));
    delel(&mut s, 100);
    assert_eq!(s[12], 0);
}

#[test]
fn allocate_in_order_until_full() {
    let mut b = BookKeeper::new();
    for n in 0..255u8 {
        assert_eq!(b.allocate(), Ok(n));
        assert_eq!(b.next_id, n + 1);
    }
    for n in 0..255u8 {
        assert!(b.contains(n));
    }
    assert!(!b.contains(255));
    let before = b;
    assert_eq!(b.allocate(), Err(BitokuError::NoAvailableClients));
    assert_eq!(b, before);
    assert_eq!(b.next_id, 255);
    assert!(!b.contains(255));
}

#[test]
fn released_identity_is_not_reused() {
    let mut b = BookKeeper::new();
    assert_eq!(b.allocate(), Ok(0));
    assert_eq!(b.allocate(), Ok(1));
    b.release(0);
    assert!(!b.contains(0));
    assert_eq!(b.allocate(), Ok(2));
    assert_eq!(b.allocate(), Ok(3));
    assert!(!b.contains(0));
    b.release(7);
    assert_eq!(b.next_id, 4);
}

#[test]
fn bookkeeper_bytes() {
    let mut b = BookKeeper::new();
    b.allocate().unwrap();
    b.allocate().unwrap();
    let mut dst = [0xaau8; 33];
    assert_eq!(b.pack(&mut dst), Ok(()));
    assert_eq!(dst[0], 3);
    assert!(dst[1..32].iter().all(|&x| x == 0));
    assert_eq!(dst[32], 2);
    assert_eq!(BookKeeper::unpack(&dst), Ok(b));
    let mut wrong = [0u8; 34];
    assert!(b.pack(&mut wrong).is_err());
    assert!(BookKeeper::unpack(&dst[..32]).is_err());
}

#[test]
fn bookkeeper_slice_helpers_accept_longer_buffers() {
    let mut b = BookKeeper::new();
    b.allocate().unwrap();
    let mut dst = [0xaau8; 34];
    b.pack_into_slice(&mut dst);
    assert_eq!(dst[0], 1);
    assert!(dst[1..32].iter().all(|&x| x == 0));
    assert_eq!(dst[32], 1);
    assert_eq!(dst[33], 0xaa);
    assert_eq!(BookKeeper::unpack_from_slice(&dst), Ok(b));
    assert!(BookKeeper::unpack(&dst).is_err());
    assert!(BookKeeper::unpack_from_slice(&dst[..32]).is_err());
}
