use ckb_fuzz_harness::peer_store_input::{
    add_basic_addr, basic_addr, basic_addr_count, decode_peer_store_input, new_multi_addr, FuzzIp,
};
use tentacle_multiaddr::Multiaddr;
use tentacle_secio::PeerId;

fn expected_id(digest: &[u8]) -> String {
    let mut bytes = vec![0x12u8, 0x20];
    bytes.extend_from_slice(digest);
    PeerId::from_bytes(bytes).unwrap().to_base58()
}

#[test]
fn multi_addr_ipv4() {
    let mut data = vec![7u8, 1, 1, 2, 3, 4, 0x2a, 0];
    data.extend(vec![5u8; 32]);
    let mut offset = 0usize;
    let (addr, flags) = new_multi_addr(&data, &mut offset);
    assert_eq!(flags, 7);
    assert_eq!(addr.ip, FuzzIp::V4(u32::from_le_bytes([1, 2, 3, 4])));
    assert_eq!(addr.port, 42);
    assert_eq!(addr.peer_id, expected_id(&[5u8; 32]));
    assert_eq!(offset, 40);
}

#[test]
fn multi_addr_ipv6_on_even_flag() {
    let mut data = vec![0xffu8, 2];
    let ip: Vec<u8> = (1..=16).collect();
    data.extend(&ip);
    data.extend([0x10u8, 0x27]);
    data.extend(vec![9u8; 32]);
    let mut offset = 0usize;
    let (addr, flags) = new_multi_addr(&data, &mut offset);
    assert_eq!(flags, 255);
    let mut ip16 = [0u8; 16];
    ip16.copy_from_slice(&ip);
    assert_eq!(addr.ip, FuzzIp::V6(u128::from_le_bytes(ip16)));
    assert_eq!(addr.port, 10000);
    assert_eq!(addr.peer_id, expected_id(&[9u8; 32]));
    assert_eq!(offset, data.len());
}

#[test]
fn multi_addr_short_input_is_padded() {
    let data = vec![3u8];
    let mut offset = 0usize;
    let (addr, flags) = new_multi_addr(&data, &mut offset);
    assert_eq!(flags, 3);
    assert_eq!(addr.ip, FuzzIp::V6(0));
    assert_eq!(addr.port, 0);
    assert_eq!(addr.peer_id, expected_id(&[0u8; 32]));
    assert_eq!(offset, 1);
}

#[test]
fn basic_count_range() {
    let data = [0x11u8, 0, 0, 0];
    let mut offset = 0usize;
    assert_eq!(basic_addr_count(&data, &mut offset), 16384 + 1);
    assert_eq!(offset, 4);
    let data = [0xffu8, 0xff, 0xff, 0xff];
    let mut offset = 0usize;
    assert_eq!(basic_addr_count(&data, &mut offset), 16384 + 15);
    let mut offset = 0usize;
    assert_eq!(basic_addr_count(&[], &mut offset), 16384);
    assert_eq!(offset, 0);
}

#[test]
fn basic_addrs_are_numbered() {
    let now_ms = 1_700_000_000_000u64;
    let addrs = add_basic_addr(3, now_ms);
    assert_eq!(addrs.len(), 3);
    for (i, a) in addrs.iter().enumerate() {
        assert_eq!(a.ip, i as u32);
        assert!(a.last_connected_time <= now_ms);
        assert!(now_ms - a.last_connected_time <= u32::MAX as u64);
        let id: PeerId = a.peer_id.parse().unwrap();
        assert_eq!(id.as_bytes().len(), 34);
        assert_eq!(id.as_bytes()[0], 0x12);
        assert_eq!(id.as_bytes()[1], 0x20);
        let want: Multiaddr = format!("/ip4/0.0.0.{}/tcp/43/p2p/{}", i, a.peer_id)
            .parse()
            .unwrap();
        assert_eq!(a.multiaddr, want.to_vec());
    }
}

#[test]
fn peer_store_input_records() {
    let mut data = vec![2u8, 0, 0, 0];
    // first record: IPv4, port 43, digest of ones, 5 ms later, 6 attempts
    data.extend([1u8, 1, 127, 0, 0, 1, 43, 0]);
    data.extend(vec![1u8; 32]);
    data.extend([5u8, 0, 6, 0, 0, 0]);
    // second record cut short: only its flags byte and part of the IP
    data.extend([4u8, 1, 10]);
    let now_ms = 1000u64;
    let (count, records) = decode_peer_store_input(&data, now_ms);
    assert_eq!(count, 16386);
    assert_eq!(records.len(), 2);
    assert_eq!(records[0].flags, 1);
    assert_eq!(records[0].addr.ip, FuzzIp::V4(u32::from_le_bytes([127, 0, 0, 1])));
    assert_eq!(records[0].addr.port, 43);
    assert_eq!(records[0].addr.peer_id, expected_id(&[1u8; 32]));
    assert_eq!(records[0].last_connected_time, 1005);
    assert_eq!(records[0].attempts_count, 6);
    // little-endian bytes 127, 0, 0, 1 number the address 1.0.0.127
    let want: Multiaddr = format!("/ip4/1.0.0.127/tcp/43/p2p/{}", expected_id(&[1u8; 32]))
        .parse()
        .unwrap();
    assert_eq!(records[0].multiaddr, want.to_vec());
    assert_eq!(records[1].flags, 4);
    assert_eq!(records[1].addr.ip, FuzzIp::V4(10));
    assert_eq!(records[1].addr.port, 0);
    assert_eq!(records[1].last_connected_time, 1000);
    assert_eq!(records[1].attempts_count, 0);
}

#[test]
fn peer_store_input_only_count() {
    let (count, records) = decode_peer_store_input(&[3u8, 0], 0);
    assert_eq!(count, 16387);
    assert!(records.is_empty());
    let (count, records) = decode_peer_store_input(&[], 0);
    assert_eq!(count, 16384);
    assert!(records.is_empty());
}

#[test]
fn records_never_exceed_remaining_bytes() {
    for len in 0..60usize {
        let data: Vec<u8> = (0..len).map(|i| (i * 37 % 256) as u8).collect();
        let (_, records) = decode_peer_store_input(&data, 0);
        let left = len.saturating_sub(4);
        assert!(records.len() <= left);
        assert_eq!(records.is_empty(), left == 0);
    }
}

#[test]
fn basic_addr_from_draws() {
    let id = expected_id(&[8u8; 32]);
    let a = basic_addr(9, id.clone(), 250, 4, 1000);
    assert_eq!(a.ip, 9);
    assert_eq!(a.peer_id, id);
    let want: Multiaddr = format!("/ip4/0.0.0.9/tcp/43/p2p/{}", id).parse().unwrap();
    assert_eq!(a.multiaddr, want.to_vec());
    assert_eq!(a.last_connected_time, 750);
    assert_eq!(a.attempts_count, 4);
    let b = basic_addr(0, id, u32::MAX, u32::MAX, u32::MAX as u64);
    assert_eq!(b.last_connected_time, 0);
}

#[test]
fn peer_id_overlong_hash_code_is_accepted() {
    // the hash code 0x12 written as a ten-byte varint whose top bit is dropped
    let mut bytes = vec![0x92u8, 0x80, 0x80, 0x80, 0x80, 0x80, 0x80, 0x80, 0x80, 0x02, 0x20];
    bytes.extend([5u8; 32]);
    assert!(PeerId::from_bytes(bytes).is_ok());
}
