use ckb_fuzz_harness::fuzz_export::{
    fuzz_address_count, fuzz_peer_registry, new_addr, new_addr_ip, new_multiaddr, peer_registry_digests,
    RANDOM_REMOVE_ADDRS,
};
use tentacle_multiaddr::Multiaddr;
use tentacle_secio::PeerId;

#[test]
fn address_count_from_first_bytes() {
    assert_eq!(fuzz_address_count(&[]), 500);
    assert_eq!(fuzz_address_count(&[1]), 501);
    assert_eq!(fuzz_address_count(&[0xf4, 0x01]), 500);
    assert_eq!(fuzz_address_count(&[0xff; 8]), (u64::MAX % 500 + 500) as usize);
    // bytes past the eighth are not read
    assert_eq!(fuzz_address_count(&[7, 0, 0, 0, 0, 0, 0, 0, 9, 9]), 507);
}

#[test]
fn address_count_covers_removals() {
    for seed in 0..2000u64 {
        let c = fuzz_address_count(&seed.to_le_bytes());
        assert!(c >= RANDOM_REMOVE_ADDRS && c < 2 * RANDOM_REMOVE_ADDRS);
    }
}

#[test]
fn address_ip_numbers() {
    assert_eq!(new_addr_ip(1), (225u32 << 24) + 1);
    assert_eq!(new_addr_ip(999).to_be_bytes(), [225, 0, 3, 231]);
}

#[test]
fn registry_digests() {
    let (remote, addrs) = peer_registry_digests(&[1, 2, 3]);
    let mut want = vec![0u8; 32];
    want[..3].copy_from_slice(&[1, 2, 3]);
    assert_eq!(remote, want);
    assert_eq!(addrs, vec![vec![0u8; 32]]);
    let (remote, addrs) = peer_registry_digests(&[4u8; 32]);
    assert_eq!(remote, vec![4u8; 32]);
    assert_eq!(addrs, vec![vec![0u8; 32]]);
}

#[test]
fn registry_digests_per_chunk() {
    let data: Vec<u8> = (0..100u8).collect();
    let (remote, addrs) = peer_registry_digests(&data);
    assert_eq!(remote, data[..32].to_vec());
    assert_eq!(addrs.len(), 3);
    for (k, a) in addrs.iter().enumerate() {
        assert_eq!(a, &data[32 * k..32 * k + 32].to_vec());
    }
    let (_, addrs) = peer_registry_digests(&[1u8; 33]);
    assert_eq!(addrs, vec![vec![1u8; 32]]);
    let (_, addrs) = peer_registry_digests(&[2u8; 64]);
    assert_eq!(addrs, vec![vec![2u8; 32], vec![2u8; 32]]);
}

#[test]
fn registry_multiaddr_matches_text_form() {
    let digest = [3u8; 32];
    let got = new_multiaddr(&digest);
    let mut id = vec![0x12u8, 0x20];
    id.extend_from_slice(&digest);
    let id = PeerId::from_bytes(id).unwrap();
    let want: Multiaddr = format!("/ip4/127.0.0.1/tcp/43/p2p/{}", id.to_base58())
        .parse()
        .unwrap();
    assert_eq!(got, want.to_vec());
    // the binary form starts with the ip4 code and the loopback address
    assert_eq!(&got[..5], &[0x04, 127, 0, 0, 1]);
}

#[test]
fn registry_run_completes() {
    fuzz_peer_registry(&[]);
    fuzz_peer_registry(&[0xab; 32]);
    fuzz_peer_registry(&[0u8; 33]);
    fuzz_peer_registry(&[7u8; 200]);
}

#[test]
fn address_manager_addr() {
    let bytes = new_addr(5);
    let addr = Multiaddr::try_from(bytes.clone()).unwrap();
    let text = addr.to_string();
    assert!(text.starts_with("/ip4/225.0.0.5/tcp/42/p2p/"));
    let id: PeerId = text.rsplit('/').next().unwrap().parse().unwrap();
    assert_eq!(&id.as_bytes()[..2], &[0x12, 0x20]);
    assert_ne!(new_addr(5), bytes);
}
