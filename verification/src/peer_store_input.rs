//! Decoding the peer-store fuzz input: a count of background addresses,
//! then peer records (address, service flags, last connection time and
//! attempt count) until the input is used up.
use vstd::prelude::*;
use crate::byte_stream::{
    advanced_offset, get_buf, le_u128, le_u16, le_u32, le_value, padded_window, stream_byte,
    lemma_le_value_bound, lemma_pow256_values, pow256,
};
use crate::multiaddr_text::{fuzz_addr_multiaddr, fuzz_addr_text, spec_parse_multiaddr};
use crate::peer_id::{
    digest_peer_id, is_sha256_peer_id, is_sha256_peer_id_text, peer_id_bytes, random_peer_id,
    spec_base58,
};

verus! {

/// An IP address of a fuzzed peer, as the number that the standard library
/// turns into an address (`Ipv4Addr::from(u32)`, `Ipv6Addr::from(u128)`).
#[derive(Clone, Copy, Debug, PartialEq, Eq, Structural)]
pub enum FuzzIp {
    V4(u32),
    V6(u128),
}

/// A fuzzed peer address: `/ip4/<ip>/tcp/<port>/p2p/<peer_id>` or its
/// `ip6` form.
pub struct FuzzAddr {
    pub ip: FuzzIp,
    pub port: u16,
    /// The peer id in base-58 text.
    pub peer_id: String,
}

/// What a `FuzzAddr` holds, with its peer id as a sequence of characters.
pub struct FuzzAddrModel {
    pub ip: FuzzIp,
    pub port: u16,
    pub peer_id: Seq<char>,
}

impl View for FuzzAddr {
    type V = FuzzAddrModel;

    open spec fn view(&self) -> FuzzAddrModel {
        FuzzAddrModel { ip: self.ip, port: self.port, peer_id: self.peer_id@ }
    }
}

/// The address, the service flags and the next read position that
/// `new_multi_addr` decodes at `o0`: a flags byte; a byte whose lowest bit
/// chooses IPv4 (set) or IPv6 (clear); 4 or 16 bytes of address; 2 bytes of
/// port; 32 bytes of peer-id digest; all little-endian and padded with
/// zeros past the end of the input.
pub open spec fn decode_addr_at(data: Seq<u8>, o0: int) -> (FuzzAddrModel, u64, int) {
    let len = data.len() as int;
    let flags = data[o0] as u64;
    let o1 = o0 + 1;
    let addr_flag = stream_byte(data, o1);
    let o2 = advanced_offset(len, o1, 1);
    let is_v6 = addr_flag % 2 == 0;
    let ip = if is_v6 {
        FuzzIp::V6(le_value(padded_window(data, o2, 16)) as u128)
    } else {
        FuzzIp::V4(le_value(padded_window(data, o2, 4)) as u32)
    };
    let o3 = if is_v6 {
        advanced_offset(len, o2, 16)
    } else {
        advanced_offset(len, o2, 4)
    };
    let port = le_value(padded_window(data, o3, 2)) as u16;
    let o4 = advanced_offset(len, o3, 2);
    let digest = padded_window(data, o4, 32);
    let o5 = advanced_offset(len, o4, 32);
    (FuzzAddrModel { ip, port, peer_id: spec_base58(peer_id_bytes(digest)) }, flags, o5)
}

proof fn lemma_le_fits(data: Seq<u8>, o: int, n: nat)
    ensures
        le_value(padded_window(data, o, n)) < pow256(n),
{
    lemma_le_value_bound(padded_window(data, o, n));
}

proof fn lemma_window_capped(data: Seq<u8>, x: int, n: nat)
    requires
        x >= 0,
    ensures
        padded_window(data, advanced_offset(data.len() as int, x, 0), n) == padded_window(
            data,
            x,
            n,
        ),
{
    assert(padded_window(data, advanced_offset(data.len() as int, x, 0), n) =~= padded_window(
        data,
        x,
        n,
    ));
}

proof fn lemma_le_value_two(s: Seq<u8>)
    requires
        s.len() == 2,
    ensures
        le_value(s) == s[0] + 256 * s[1],
{
    reveal_with_fuel(le_value, 3);
    assert(s.drop_first().drop_first() =~= Seq::<u8>::empty());
}

proof fn lemma_le_value_four(s: Seq<u8>)
    requires
        s.len() == 4,
    ensures
        le_value(s) == s[0] + 256 * s[1] + 0x1_0000 * s[2] + 0x100_0000 * s[3],
{
    reveal_with_fuel(le_value, 5);
    assert(s.drop_first().drop_first().drop_first().drop_first() =~= Seq::<u8>::empty());
}

/// Where each part of a decoded address stands in the input, counted from
/// its first byte `o0` (bytes past the end read as zero): byte `o0` holds
/// the flags; byte `o0 + 1` chooses IPv4 where it is odd and IPv6 where it
/// is even; an IPv4 address takes the 4 bytes from `o0 + 2`, least
/// significant first, an IPv6 one 16; the port is the 2 bytes after the
/// address, least significant first; the peer-id digest is the 32 bytes
/// after the port; and decoding stops after them (40 bytes in all for
/// IPv4, 52 for IPv6), or at the end of the input.
pub proof fn lemma_decode_addr_layout(data: Seq<u8>, o0: int)
    requires
        0 <= o0 < data.len(),
    ensures
        decode_addr_at(data, o0).1 == data[o0] as u64,
        (stream_byte(data, o0 + 1) % 2 == 1) <==> decode_addr_at(data, o0).0.ip is V4,
        decode_addr_at(data, o0).0.ip matches FuzzIp::V4(v) ==> v == stream_byte(data, o0 + 2)
            + 256 * stream_byte(data, o0 + 3) + 0x1_0000 * stream_byte(data, o0 + 4) + 0x100_0000
            * stream_byte(data, o0 + 5),
        decode_addr_at(data, o0).0.ip matches FuzzIp::V6(v) ==> v == le_value(
            padded_window(data, o0 + 2, 16),
        ),
        ({
            let at = if decode_addr_at(data, o0).0.ip is V4 {
                o0 + 6
            } else {
                o0 + 18
            };
            &&& decode_addr_at(data, o0).0.port == stream_byte(data, at) + 256 * stream_byte(
                data,
                at + 1,
            )
            &&& decode_addr_at(data, o0).0.peer_id == spec_base58(
                peer_id_bytes(Seq::new(32, |i: int| stream_byte(data, at + 2 + i))),
            )
            &&& decode_addr_at(data, o0).2 == advanced_offset(data.len() as int, at + 34, 0)
        }),
{
    let len = data.len() as int;
    let (m, f, next) = decode_addr_at(data, o0);
    let is_v4 = stream_byte(data, o0 + 1) % 2 == 1;
    let at = if is_v4 { o0 + 6 } else { o0 + 18 };
    lemma_window_capped(data, o0 + 2, 4);
    lemma_window_capped(data, o0 + 2, 16);
    lemma_window_capped(data, at, 2);
    lemma_window_capped(data, at + 2, 32);
    let o2 = advanced_offset(len, o0 + 1, 1);
    assert(o2 == advanced_offset(len, o0 + 2, 0));
    let o3 = if is_v4 { advanced_offset(len, o2, 4) } else { advanced_offset(len, o2, 16) };
    assert(o3 == advanced_offset(len, at, 0));
    let o4 = advanced_offset(len, o3, 2);
    assert(o4 == advanced_offset(len, at + 2, 0));
    assert(next == advanced_offset(len, o4, 32));
    if is_v4 {
        lemma_le_value_four(padded_window(data, o0 + 2, 4));
        lemma_le_fits(data, o2, 4);
    } else {
        lemma_le_fits(data, o2, 16);
        lemma_pow256_values();
    }
    lemma_le_value_two(padded_window(data, at, 2));
    lemma_le_fits(data, o3, 2);
    assert(padded_window(data, at + 2, 32) =~= Seq::new(32, |i: int| stream_byte(data, at + 2 + i)));
}

/// Decodes one fuzzed peer address and its service flags at `*offset`,
/// reading as `get_buf` does, and moves `*offset` past it. The input must
/// hold a byte at `*offset` (the flags byte is read unpadded).
pub fn new_multi_addr(data: &[u8], offset: &mut usize) -> (r: (FuzzAddr, u64))
    requires
        *old(offset) < data@.len(),
        data@.len() + 64 <= usize::MAX,
    ensures
        (r.0@, r.1, *final(offset) as int) == decode_addr_at(data@, *old(offset) as int),
        *old(offset) < *final(offset) <= data@.len(),
        is_sha256_peer_id_text(r.0.peer_id@),
{
    let ghost o0 = *offset as int;
    let flags = data[*offset] as u64;
    *offset = *offset + 1;
    let addr_flag_buf = get_buf(1, data, offset);
    let addr_flag = addr_flag_buf[0];
    let ip;
    if addr_flag % 2 == 0 {
        let buf = get_buf(16, data, offset);
        let v = le_u128(&buf);
        ip = FuzzIp::V6(v);
    } else {
        let buf = get_buf(4, data, offset);
        let v = le_u32(&buf);
        ip = FuzzIp::V4(v);
    }
    let port_buf = get_buf(2, data, offset);
    let port = le_u16(&port_buf);
    let digest = get_buf(32, data, offset);
    let peer_id = digest_peer_id(digest.as_slice());
    assert(is_sha256_peer_id(peer_id_bytes(digest@)));
    proof {
        assert(padded_window(data@, o0 + 1, 1)[0] == stream_byte(data@, o0 + 1));
        lemma_le_fits(data@, advanced_offset(data@.len() as int, o0 + 1, 1), 16);
        lemma_le_fits(data@, advanced_offset(data@.len() as int, o0 + 1, 1), 4);
    }
    (FuzzAddr { ip, port, peer_id }, flags)
}

/// The number of background addresses that the input asks for: a
/// little-endian `u32` at `offset`, reduced modulo 16 and added to 16384.
pub open spec fn spec_basic_addr_count(data: Seq<u8>, offset: int) -> u32 {
    ((le_value(padded_window(data, offset, 4)) % 16) + 16384) as u32
}

/// The number of background addresses depends on the first of its four
/// bytes only: it is 16384 plus that byte modulo 16.
pub proof fn lemma_basic_addr_count_first_byte(data: Seq<u8>, offset: int)
    ensures
        spec_basic_addr_count(data, offset) == stream_byte(data, offset) % 16 + 16384,
{
    let w = padded_window(data, offset, 4);
    let a = w[0] as int;
    let x = le_value(w.drop_first()) as int;
    assert(le_value(w) == a + 256 * x);
    assert((a + 256 * x) % 16 == a % 16) by (nonlinear_arith)
        requires
            0 <= a,
            0 <= x,
    ;
}

/// Reads the number of background addresses to add to the peer store
/// (between 16384 and 16399) and moves `*offset` past its four bytes.
pub fn basic_addr_count(data: &[u8], offset: &mut usize) -> (r: u32)
    requires
        *old(offset) <= data@.len(),
        data@.len() + 64 <= usize::MAX,
    ensures
        r == spec_basic_addr_count(data@, *old(offset) as int),
        16384 <= r < 16400,
        *final(offset) as int == advanced_offset(data@.len() as int, *old(offset) as int, 4),
{
    let buf = get_buf(4, data, offset);
    let num = le_u32(&buf);
    num % 16 + 16384
}

/// A background address: `/ip4/<ip>/tcp/43/p2p/<peer_id>` with a random
/// peer id, a last connection time and an attempt count.
pub struct BasicAddr {
    pub ip: u32,
    pub peer_id: String,
    pub last_connected_time: u64,
    pub attempts_count: u32,
    /// The address `/ip4/<ip>/tcp/43/p2p/<peer_id>` in binary form.
    pub multiaddr: Vec<u8>,
}

/// The `i`-th background address, from its drawn peer id, the drawn time
/// since its last connection (`back` milliseconds before `now_ms`) and
/// the drawn attempt count.
pub fn basic_addr(i: u32, peer_id: String, back: u32, attempts_count: u32, now_ms: u64) -> (r:
    BasicAddr)
    requires
        now_ms >= back,
        is_sha256_peer_id_text(peer_id@),
    ensures
        r.ip == i,
        r.peer_id@ == peer_id@,
        r.last_connected_time == now_ms - back,
        r.attempts_count == attempts_count,
        spec_parse_multiaddr(
            fuzz_addr_text(FuzzAddrModel { ip: FuzzIp::V4(i), port: 43, peer_id: peer_id@ }),
        ) == Some(r.multiaddr@),
{
    let addr = FuzzAddr { ip: FuzzIp::V4(i), port: 43, peer_id };
    let multiaddr = fuzz_addr_multiaddr(&addr);
    let FuzzAddr { peer_id, .. } = addr;
    BasicAddr {
        ip: i,
        peer_id,
        last_connected_time: now_ms - back as u64,
        attempts_count,
        multiaddr,
    }
}

/// Calls `rand::thread_rng().next_u32()`: a random `u32`, of which nothing
/// is claimed.
#[verifier::external_body]
fn random_u32() -> (r: u32) {
    rand::RngCore::next_u32(&mut rand::thread_rng())
}

/// Makes the `count` background addresses: the `i`-th has IPv4 address
/// number `i`, a random peer id, a last connection time up to `u32::MAX`
/// milliseconds before `now_ms` and a random attempt count.
pub fn add_basic_addr(count: u32, now_ms: u64) -> (r: Vec<BasicAddr>)
    requires
        now_ms >= u32::MAX,
    ensures
        r@.len() == count,
        forall|i: int|
            0 <= i < count ==> {
                &&& #[trigger] r@[i].ip == i
                &&& r@[i].last_connected_time <= now_ms
                &&& now_ms - r@[i].last_connected_time <= u32::MAX
                &&& is_sha256_peer_id_text(r@[i].peer_id@)
                &&& spec_parse_multiaddr(
                    fuzz_addr_text(
                        FuzzAddrModel { ip: FuzzIp::V4(i as u32), port: 43, peer_id: r@[i].peer_id@ },
                    ),
                ) == Some(r@[i].multiaddr@)
            },
{
    let mut r: Vec<BasicAddr> = Vec::new();
    let mut i: u32 = 0;
    while i < count
        invariant
            i <= count,
            now_ms >= u32::MAX,
            r@.len() == i,
            forall|k: int|
                0 <= k < i ==> {
                    &&& #[trigger] r@[k].ip == k
                    &&& r@[k].last_connected_time <= now_ms
                    &&& now_ms - r@[k].last_connected_time <= u32::MAX
                    &&& is_sha256_peer_id_text(r@[k].peer_id@)
                    &&& spec_parse_multiaddr(
                        fuzz_addr_text(
                            FuzzAddrModel {
                                ip: FuzzIp::V4(k as u32),
                                port: 43,
                                peer_id: r@[k].peer_id@,
                            },
                        ),
                    ) == Some(r@[k].multiaddr@)
                },
        decreases count - i,
    {
        let peer_id = random_peer_id();
        let back = random_u32();
        let attempts_count = random_u32();
        r.push(basic_addr(i, peer_id, back, attempts_count, now_ms));
        i = i + 1;
    }
    r
}

/// A peer record of the fuzz input: the arguments of one `add_addr_fuzz`
/// call on the peer store.
pub struct PeerRecord {
    pub addr: FuzzAddr,
    pub flags: u64,
    pub last_connected_time: u64,
    pub attempts_count: u32,
    /// The address in binary form.
    pub multiaddr: Vec<u8>,
}

/// What a `PeerRecord` holds.
pub struct PeerRecordModel {
    pub addr: FuzzAddrModel,
    pub flags: u64,
    pub last_connected_time: u64,
    pub attempts_count: u32,
    pub multiaddr: Seq<u8>,
}

impl View for PeerRecord {
    type V = PeerRecordModel;

    open spec fn view(&self) -> PeerRecordModel {
        PeerRecordModel {
            addr: self.addr@,
            flags: self.flags,
            last_connected_time: self.last_connected_time,
            attempts_count: self.attempts_count,
            multiaddr: self.multiaddr@,
        }
    }
}

/// The record at `o0` and the read position after it: an address with its
/// flags, then 2 bytes of time (milliseconds after `now_ms`) and 4 bytes of
/// attempt count.
pub open spec fn decode_record_at(data: Seq<u8>, o0: int, now_ms: u64) -> (PeerRecordModel, int) {
    let (addr, flags, o5) = decode_addr_at(data, o0);
    let len = data.len() as int;
    let since = le_value(padded_window(data, o5, 2));
    let o6 = advanced_offset(len, o5, 2);
    let attempts = le_value(padded_window(data, o6, 4));
    let o7 = advanced_offset(len, o6, 4);
    (
        PeerRecordModel {
            addr,
            flags,
            last_connected_time: (now_ms + since) as u64,
            attempts_count: attempts as u32,
            multiaddr: parsed_multiaddr(fuzz_addr_text(addr)),
        },
        o7,
    )
}

/// The binary form of the multiaddress written `text` (empty where it is
/// refused).
pub open spec fn parsed_multiaddr(text: Seq<char>) -> Seq<u8> {
    match spec_parse_multiaddr(text) {
        Some(bytes) => bytes,
        None => Seq::empty(),
    }
}

/// The records from `offset` to the end of the input.
pub open spec fn decode_records(data: Seq<u8>, offset: int, now_ms: u64) -> Seq<PeerRecordModel>
    decreases data.len() - offset,
{
    if 0 <= offset < data.len() {
        let (rec, next) = decode_record_at(data, offset, now_ms);
        if offset < next <= data.len() {
            seq![rec] + decode_records(data, next, now_ms)
        } else {
            Seq::empty()
        }
    } else {
        Seq::empty()
    }
}

/// Every record takes at least one byte of the input, so the records from
/// `offset` are no more than the bytes left, and an input with bytes left
/// gives at least one record.
pub proof fn lemma_decode_records_len(data: Seq<u8>, offset: int, now_ms: u64)
    requires
        0 <= offset <= data.len(),
    ensures
        decode_records(data, offset, now_ms).len() <= data.len() - offset,
        offset < data.len() ==> decode_records(data, offset, now_ms).len() >= 1,
    decreases data.len() - offset,
{
    if offset < data.len() {
        let (rec, next) = decode_record_at(data, offset, now_ms);
        if offset < next <= data.len() {
            lemma_decode_records_len(data, next, now_ms);
        }
    }
}

/// A decoded record is the address decoded at its start, with its flags;
/// its binary multiaddress is the parse of the text of that same address
/// (its ip, port and peer id); its last connection time is `now_ms` plus
/// the 2 bytes after the address, least significant first; its attempt
/// count is the 4 bytes after those; and decoding goes on after them.
pub proof fn lemma_decode_record_layout(data: Seq<u8>, o0: int, now_ms: u64)
    requires
        0 <= o0 < data.len(),
        now_ms <= u64::MAX - 0xffff,
    ensures
        ({
            let (rec, next) = decode_record_at(data, o0, now_ms);
            let (addr, flags, after) = decode_addr_at(data, o0);
            &&& rec.addr == addr
            &&& rec.flags == flags
            &&& rec.multiaddr == parsed_multiaddr(fuzz_addr_text(rec.addr))
            &&& rec.last_connected_time == now_ms + stream_byte(data, after) + 256 * stream_byte(
                data,
                after + 1,
            )
            &&& rec.attempts_count == stream_byte(data, after + 2) + 256 * stream_byte(
                data,
                after + 3,
            ) + 0x1_0000 * stream_byte(data, after + 4) + 0x100_0000 * stream_byte(
                data,
                after + 5,
            )
            &&& next == advanced_offset(data.len() as int, after + 6, 0)
        }),
{
    let len = data.len() as int;
    let (addr, flags, after) = decode_addr_at(data, o0);
    lemma_decode_addr_layout(data, o0);
    assert(after <= len);
    lemma_window_capped(data, after + 2, 4);
    let o6 = advanced_offset(len, after, 2);
    assert(o6 == advanced_offset(len, after + 2, 0));
    lemma_le_value_two(padded_window(data, after, 2));
    lemma_le_value_four(padded_window(data, after + 2, 4));
    lemma_le_fits(data, o6, 4);
    lemma_pow256_values();
}

/// Every record from `offset` carries, as its binary multiaddress, the
/// parse of the text of its own decoded address.
pub proof fn lemma_decode_records_multiaddr(data: Seq<u8>, offset: int, now_ms: u64)
    requires
        0 <= offset <= data.len(),
    ensures
        forall|i: int|
            0 <= i < decode_records(data, offset, now_ms).len() ==> (#[trigger] decode_records(
                data,
                offset,
                now_ms,
            )[i]).multiaddr == parsed_multiaddr(
                fuzz_addr_text(decode_records(data, offset, now_ms)[i].addr),
            ),
    decreases data.len() - offset,
{
    if offset < data.len() {
        let (rec, next) = decode_record_at(data, offset, now_ms);
        if offset < next <= data.len() {
            lemma_decode_records_multiaddr(data, next, now_ms);
            let rs = decode_records(data, offset, now_ms);
            assert(rs == seq![rec] + decode_records(data, next, now_ms));
            assert forall|i: int| 0 <= i < rs.len() implies (#[trigger] rs[i]).multiaddr
                == parsed_multiaddr(fuzz_addr_text(rs[i].addr)) by {
                if i > 0 {
                    assert(rs[i] == decode_records(data, next, now_ms)[i - 1]);
                }
            }
        }
    }
}

/// Decodes one record at `*offset` and moves `*offset` past it.
fn new_record(data: &[u8], offset: &mut usize, now_ms: u64) -> (r: PeerRecord)
    requires
        *old(offset) < data@.len(),
        data@.len() + 64 <= usize::MAX,
        now_ms <= u64::MAX - 0xffff,
    ensures
        (r@, *final(offset) as int) == decode_record_at(data@, *old(offset) as int, now_ms),
        *old(offset) < *final(offset) <= data@.len(),
        spec_parse_multiaddr(fuzz_addr_text(r.addr@)) == Some(r.multiaddr@),
{
    let (addr, flags) = new_multi_addr(data, offset);
    let since_buf = get_buf(2, data, offset);
    let since = le_u16(&since_buf);
    let attempts_buf = get_buf(4, data, offset);
    let attempts_count = le_u32(&attempts_buf);
    let multiaddr = fuzz_addr_multiaddr(&addr);
    PeerRecord {
        addr,
        flags,
        last_connected_time: now_ms + since as u64,
        attempts_count,
        multiaddr,
    }
}

/// Decodes the peer-store fuzz input: the number of background addresses
/// (its first four bytes), then records until the input is used up.
pub fn decode_peer_store_input(data: &[u8], now_ms: u64) -> (r: (u32, Vec<PeerRecord>))
    requires
        data@.len() + 64 <= usize::MAX,
        now_ms <= u64::MAX - 0xffff,
    ensures
        r.0 == spec_basic_addr_count(data@, 0),
        r.1@.len() == decode_records(data@, advanced_offset(data@.len() as int, 0, 4), now_ms).len(),
        forall|i: int|
            0 <= i < r.1@.len() ==> #[trigger] r.1@[i]@ == decode_records(
                data@,
                advanced_offset(data@.len() as int, 0, 4),
                now_ms,
            )[i],
        forall|i: int|
            0 <= i < r.1@.len() ==> spec_parse_multiaddr(fuzz_addr_text(#[trigger] r.1@[i].addr@))
                == Some(r.1@[i].multiaddr@),
{
    let mut offset: usize = 0;
    let count = basic_addr_count(data, &mut offset);
    let ghost start = offset as int;
    let ghost mut done: Seq<PeerRecordModel> = Seq::empty();
    let mut records: Vec<PeerRecord> = Vec::new();
    assert(done + decode_records(data@, offset as int, now_ms) =~= decode_records(data@, start, now_ms));
    while offset != data.len()
        invariant
            offset <= data@.len(),
            data@.len() + 64 <= usize::MAX,
            now_ms <= u64::MAX - 0xffff,
            records@.len() == done.len(),
            forall|i: int| 0 <= i < done.len() ==> #[trigger] records@[i]@ == done[i],
            forall|i: int|
                0 <= i < records@.len() ==> spec_parse_multiaddr(
                    fuzz_addr_text(#[trigger] records@[i].addr@),
                ) == Some(records@[i].multiaddr@),
            done + decode_records(data@, offset as int, now_ms) == decode_records(data@, start, now_ms),
        decreases data@.len() - offset,
    {
        let ghost before = offset as int;
        let rec = new_record(data, &mut offset, now_ms);
        proof {
            let (m, next) = decode_record_at(data@, before, now_ms);
            assert(decode_records(data@, before, now_ms) == seq![m] + decode_records(data@, next, now_ms));
            assert(done.push(m) + decode_records(data@, next, now_ms) =~= done + decode_records(data@, before, now_ms));
            done = done.push(m);
        }
        records.push(rec);
    }
    assert(done =~= decode_records(data@, start, now_ms));
    (count, records)
}

} // verus!
