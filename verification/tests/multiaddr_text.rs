use ckb_fuzz_harness::multiaddr_text::{
    dec_string, fuzz_addr_multiaddr, fuzz_addr_string, hex_string, ipv4_string, ipv6_string,
};
use ckb_fuzz_harness::peer_store_input::{FuzzAddr, FuzzIp};
use tentacle_multiaddr::Multiaddr;
use tentacle_secio::PeerId;

fn id_text(digest: u8) -> String {
    let mut bytes = vec![0x12u8, 0x20];
    bytes.extend([digest; 32]);
    PeerId::from_bytes(bytes).unwrap().to_base58()
}

#[test]
fn decimal_and_hex_text() {
    assert_eq!(dec_string(0), "0");
    assert_eq!(dec_string(7), "7");
    assert_eq!(dec_string(65535), "65535");
    assert_eq!(dec_string(u64::MAX), u64::MAX.to_string());
    assert_eq!(hex_string(0), "0");
    assert_eq!(hex_string(0xabc), "abc");
    assert_eq!(hex_string(0xffff), "ffff");
}

#[test]
fn ip_text() {
    assert_eq!(ipv4_string(0x7F00_0001), "127.0.0.1");
    assert_eq!(ipv4_string(0), "0.0.0.0");
    assert_eq!(ipv4_string(u32::MAX), "255.255.255.255");
    assert_eq!(ipv6_string(0), "0:0:0:0:0:0:0:0");
    assert_eq!(ipv6_string(1), "0:0:0:0:0:0:0:1");
    assert_eq!(
        ipv6_string(0x2001_0db8_0000_0000_0000_ff00_0042_8329),
        "2001:db8:0:0:0:ff00:42:8329"
    );
}

#[test]
fn addr_text_and_binary_form() {
    let id = id_text(4);
    let v4 = FuzzAddr { ip: FuzzIp::V4(0x0A00_0001), port: 8114, peer_id: id.clone() };
    assert_eq!(fuzz_addr_string(&v4), format!("/ip4/10.0.0.1/tcp/8114/p2p/{}", id));
    let want: Multiaddr = format!("/ip4/10.0.0.1/tcp/8114/p2p/{}", id).parse().unwrap();
    assert_eq!(fuzz_addr_multiaddr(&v4), want.to_vec());

    let v6 = FuzzAddr { ip: FuzzIp::V6(1), port: 0, peer_id: id.clone() };
    let want: Multiaddr = format!("/ip6/::1/tcp/0/p2p/{}", id).parse().unwrap();
    assert_eq!(fuzz_addr_multiaddr(&v6), want.to_vec());
}
