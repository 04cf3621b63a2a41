//! The network fuzz entry points: the address-manager input and the peer
//! registry input.
use vstd::prelude::*;
use vstd::slice::{slice_subrange, slice_to_vec};
use crate::byte_stream::{get_buf, le_u64, le_value, padded_window};
use crate::multiaddr_text::{fuzz_addr_multiaddr, fuzz_addr_text, peer_addr_text, spec_parse_multiaddr};
use crate::peer_id::{digest_peer_id, is_sha256_peer_id, peer_id_bytes, random_peer_id, spec_base58};
use crate::peer_store_input::{FuzzAddr, FuzzIp};

verus! {

/// How many addresses the address-manager fuzz run removes at random and
/// adds back.
pub const RANDOM_REMOVE_ADDRS: usize = 500;

/// The number of addresses that the address-manager fuzz run adds: the
/// input's first eight bytes (zero-padded) read little-endian, reduced
/// modulo 500 and added to 500.
pub open spec fn spec_fuzz_address_count(data: Seq<u8>) -> nat {
    le_value(padded_window(data, 0, 8)) % 500 + 500
}

/// Reads the number of addresses that the address-manager fuzz run adds
/// (between 500 and 999, so never fewer than it removes).
pub fn fuzz_address_count(data: &[u8]) -> (r: usize)
    requires
        data@.len() + 8 <= usize::MAX,
    ensures
        r == spec_fuzz_address_count(data@),
        RANDOM_REMOVE_ADDRS <= r < 2 * RANDOM_REMOVE_ADDRS,
{
    let mut offset: usize = 0;
    let d2 = get_buf(8, data, &mut offset);
    let count = le_u64(&d2);
    (count % 500 + 500) as usize
}

/// The IPv4 address number of the `id`-th address of the address-manager
/// fuzz run: `225 << 24` plus `id`, cut to 32 bits.
pub fn new_addr_ip(id: usize) -> (r: u32)
    requires
        id + 0xE100_0000 <= usize::MAX,
    ensures
        r == (0xE100_0000 + id) % 0x1_0000_0000,
{
    let v: u64 = 0xE100_0000u64 + id as u64;
    (v % 0x1_0000_0000) as u32
}

/// The text of the loopback address `/ip4/127.0.0.1/tcp/43/p2p/<id>` that
/// the peer-registry fuzz run gives a peer with digest `digest`.
pub open spec fn registry_addr_text(digest: Seq<u8>) -> Seq<char> {
    peer_addr_text(FuzzIp::V4(0x7F00_0001), 43, peer_id_bytes(digest))
}

/// Builds the multiaddress `/ip4/127.0.0.1/tcp/43/p2p/<id>` of the peer
/// whose id is the SHA-256 digest `d`, in binary form. It always parses.
pub fn new_multiaddr(d: &[u8]) -> (r: Vec<u8>)
    requires
        d@.len() == 32,
    ensures
        spec_parse_multiaddr(registry_addr_text(d@)) == Some(r@),
{
    let peer_id = digest_peer_id(d);
    proof {
        assert(is_sha256_peer_id(peer_id_bytes(d@)));
    }
    let addr = FuzzAddr { ip: FuzzIp::V4(0x7F00_0001), port: 43, peer_id };
    fuzz_addr_multiaddr(&addr)
}

/// The `id`-th address of the address-manager fuzz run, in binary form:
/// `/ip4/<new_addr_ip(id)>/tcp/42/p2p/<id>` with a random peer id of the
/// form that the node builds. It always parses.
pub fn new_addr(id: usize) -> (r: Vec<u8>)
    requires
        id + 0xE100_0000 <= usize::MAX,
    ensures
        exists|peer: Seq<u8>|
            #![trigger peer_addr_text(FuzzIp::V4(((0xE100_0000 + id) % 0x1_0000_0000) as u32), 42, peer)]
            is_sha256_peer_id(peer) && spec_parse_multiaddr(
                peer_addr_text(FuzzIp::V4(((0xE100_0000 + id) % 0x1_0000_0000) as u32), 42, peer),
            ) == Some(r@),
{
    let ip = new_addr_ip(id);
    let peer_id = random_peer_id();
    let addr = FuzzAddr { ip: FuzzIp::V4(ip), port: 42, peer_id };
    let r = fuzz_addr_multiaddr(&addr);
    proof {
        let peer = choose|b: Seq<u8>| is_sha256_peer_id(b) && addr.peer_id@ == spec_base58(b);
        assert(ip == ((0xE100_0000 + id) % 0x1_0000_0000) as u32);
        assert(fuzz_addr_text(addr@) == peer_addr_text(
            FuzzIp::V4(((0xE100_0000 + id) % 0x1_0000_0000) as u32),
            42,
            peer,
        ));
    }
    r
}

/// The digests of the peers that the peer-registry fuzz run lists: one
/// all-zero digest for an input of at most 32 bytes, else one for each
/// whole 32-byte chunk of the input, in order; bytes after the last whole
/// chunk are not listed. The run reads each chunk once and so always
/// finishes.
pub open spec fn registry_digests(data: Seq<u8>) -> Seq<Seq<u8>> {
    if data.len() <= 32 {
        seq![Seq::new(32, |i: int| 0u8)]
    } else {
        Seq::new(
            data.len() / 32,
            |k: int| data.subrange(32 * k, 32 * k + 32),
        )
    }
}

/// For an input longer than 32 bytes, the listed digests are its whole
/// 32-byte chunks in order: there are `len / 32` of them, each 32 bytes
/// long, byte `i` of digest `k` is byte `32 k + i` of the input, and fewer
/// than 32 bytes are left after the last.
pub proof fn lemma_registry_digests_chunks(data: Seq<u8>)
    requires
        data.len() > 32,
    ensures
        registry_digests(data).len() * 32 <= data.len() < registry_digests(data).len() * 32 + 32,
        forall|k: int|
            0 <= k < registry_digests(data).len() ==> (#[trigger] registry_digests(data)[k]).len()
                == 32,
        forall|k: int, i: int|
            0 <= k < registry_digests(data).len() && 0 <= i < 32 ==> #[trigger] registry_digests(
                data,
            )[k][i] == data[32 * k + i],
{
    let n = data.len() / 32;
    assert(n * 32 <= data.len() < n * 32 + 32) by (nonlinear_arith)
        requires
            n == data.len() / 32,
    ;
    assert forall|k: int, i: int|
        0 <= k < registry_digests(data).len() && 0 <= i < 32 implies #[trigger] registry_digests(
        data,
    )[k][i] == data[32 * k + i] by {
        assert(32 * k + 32 <= 32 * n) by (nonlinear_arith)
            requires
                k < n,
        ;
    }
}

/// The digests of the peers that the peer-registry fuzz run builds: the
/// remote peer's (the input's first 32 bytes, zero-padded) and those of
/// the listed peers (`registry_digests`).
pub fn peer_registry_digests(data: &[u8]) -> (r: (Vec<u8>, Vec<Vec<u8>>))
    requires
        data@.len() + 32 <= usize::MAX,
    ensures
        r.0@ == padded_window(data@, 0, 32),
        r.1@.len() == registry_digests(data@).len(),
        forall|k: int| 0 <= k < r.1@.len() ==> #[trigger] r.1@[k]@ == registry_digests(data@)[k],
{
    let mut offset: usize = 0;
    let remote = get_buf(32, data, &mut offset);
    let mut addrs: Vec<Vec<u8>> = Vec::new();
    if data.len() <= 32 {
        let mut zeros: Vec<u8> = Vec::new();
        let mut i: usize = 0;
        while i < 32
            invariant
                i <= 32,
                zeros@ =~= Seq::new(i as nat, |k: int| 0u8),
            decreases 32 - i,
        {
            zeros.push(0u8);
            i = i + 1;
        }
        addrs.push(zeros);
    } else {
        let mut start: usize = 0;
        while start + 32 <= data.len()
            invariant
                data@.len() + 32 <= usize::MAX,
                data@.len() > 32,
                start % 32 == 0,
                start <= data@.len(),
                addrs@.len() == start / 32,
                start / 32 <= data@.len() / 32,
                forall|k: int|
                    0 <= k < addrs@.len() ==> #[trigger] addrs@[k]@ == data@.subrange(
                        32 * k,
                        32 * k + 32,
                    ),
            decreases data@.len() - start,
        {
            let chunk = slice_to_vec(slice_subrange(data, start, start + 32));
            addrs.push(chunk);
            start = start + 32;
        }
    }
    (remote, addrs)
}

/// The peer-registry fuzz run: builds the multiaddress of the remote peer
/// and of each listed peer from the input.
pub fn fuzz_peer_registry(data: &[u8])
    requires
        data@.len() + 32 <= usize::MAX,
{
    let (remote, addrs) = peer_registry_digests(data);
    let _remote_addr = new_multiaddr(remote.as_slice());
    let mut i: usize = 0;
    while i < addrs.len()
        invariant
            i <= addrs@.len(),
            forall|k: int| 0 <= k < addrs@.len() ==> (#[trigger] addrs@[k])@.len() == 32,
        decreases addrs@.len() - i,
    {
        let _addr = new_multiaddr(addrs[i].as_slice());
        i = i + 1;
    }
}

} // verus!
