//! Peer multiaddresses: written as text (`/ip4/<a.b.c.d>/tcp/<port>/p2p/<id>`
//! or its `ip6` form) and parsed into binary form by `tentacle_multiaddr`.
use vstd::prelude::*;
use tentacle_multiaddr::Multiaddr;
use crate::peer_id::{is_sha256_peer_id, is_sha256_peer_id_text, spec_base58};
use crate::peer_store_input::{FuzzAddr, FuzzAddrModel, FuzzIp};

verus! {

/// The lower-case hexadecimal digit for `d` (below 16).
pub open spec fn digit_char(d: nat) -> char {
    if d == 0 {
        '0'
    } else if d == 1 {
        '1'
    } else if d == 2 {
        '2'
    } else if d == 3 {
        '3'
    } else if d == 4 {
        '4'
    } else if d == 5 {
        '5'
    } else if d == 6 {
        '6'
    } else if d == 7 {
        '7'
    } else if d == 8 {
        '8'
    } else if d == 9 {
        '9'
    } else if d == 10 {
        'a'
    } else if d == 11 {
        'b'
    } else if d == 12 {
        'c'
    } else if d == 13 {
        'd'
    } else if d == 14 {
        'e'
    } else {
        'f'
    }
}

/// The text of the digit `d`.
fn digit_str(d: u64) -> (r: &'static str)
    requires
        d < 16,
    ensures
        r@ =~= seq![digit_char(d as nat)],
{
    if d == 0 {
        proof { reveal_strlit("0"); }
        "0"
    } else if d == 1 {
        proof { reveal_strlit("1"); }
        "1"
    } else if d == 2 {
        proof { reveal_strlit("2"); }
        "2"
    } else if d == 3 {
        proof { reveal_strlit("3"); }
        "3"
    } else if d == 4 {
        proof { reveal_strlit("4"); }
        "4"
    } else if d == 5 {
        proof { reveal_strlit("5"); }
        "5"
    } else if d == 6 {
        proof { reveal_strlit("6"); }
        "6"
    } else if d == 7 {
        proof { reveal_strlit("7"); }
        "7"
    } else if d == 8 {
        proof { reveal_strlit("8"); }
        "8"
    } else if d == 9 {
        proof { reveal_strlit("9"); }
        "9"
    } else if d == 10 {
        proof { reveal_strlit("a"); }
        "a"
    } else if d == 11 {
        proof { reveal_strlit("b"); }
        "b"
    } else if d == 12 {
        proof { reveal_strlit("c"); }
        "c"
    } else if d == 13 {
        proof { reveal_strlit("d"); }
        "d"
    } else if d == 14 {
        proof { reveal_strlit("e"); }
        "e"
    } else {
        proof { reveal_strlit("f"); }
        "f"
    }
}

/// `n` in decimal, without leading zeros.
pub open spec fn dec_text(n: nat) -> Seq<char>
    decreases n,
{
    if n < 10 {
        seq![digit_char(n)]
    } else {
        dec_text(n / 10) + seq![digit_char(n % 10)]
    }
}

/// `n` in lower-case hexadecimal, without leading zeros.
pub open spec fn hex_text(n: nat) -> Seq<char>
    decreases n,
{
    if n < 16 {
        seq![digit_char(n)]
    } else {
        hex_text(n / 16) + seq![digit_char(n % 16)]
    }
}

/// Writes `n` in decimal.
pub fn dec_string(n: u64) -> (r: String)
    ensures
        r@ == dec_text(n as nat),
    decreases n,
{
    if n < 10 {
        String::from_str(digit_str(n))
    } else {
        let mut s = dec_string(n / 10);
        s.append(digit_str(n % 10));
        s
    }
}

/// Writes `n` in lower-case hexadecimal.
pub fn hex_string(n: u64) -> (r: String)
    ensures
        r@ == hex_text(n as nat),
    decreases n,
{
    if n < 16 {
        String::from_str(digit_str(n))
    } else {
        let mut s = hex_string(n / 16);
        s.append(digit_str(n % 16));
        s
    }
}

/// The dotted-decimal text of the IPv4 address numbered `v` (most
/// significant octet first).
pub open spec fn ipv4_text(v: u32) -> Seq<char> {
    dec_text((v / 0x100_0000) as nat) + "."@ + dec_text(((v / 0x1_0000) % 0x100) as nat) + "."@
        + dec_text(((v / 0x100) % 0x100) as nat) + "."@ + dec_text((v % 0x100) as nat)
}

/// The divisor that brings the `k`-th 16-bit group of an IPv6 address
/// number (most significant first) to the lowest place.
pub open spec fn group_divisor(k: nat) -> nat {
    if k == 0 {
        0x1_0000_0000_0000_0000_0000_0000_0000
    } else if k == 1 {
        0x1_0000_0000_0000_0000_0000_0000
    } else if k == 2 {
        0x1_0000_0000_0000_0000_0000
    } else if k == 3 {
        0x1_0000_0000_0000_0000
    } else if k == 4 {
        0x1_0000_0000_0000
    } else if k == 5 {
        0x1_0000_0000
    } else if k == 6 {
        0x1_0000
    } else {
        1
    }
}

/// The `k`-th 16-bit group of the IPv6 address numbered `v`.
pub open spec fn ipv6_group(v: u128, k: nat) -> nat {
    (v as nat / group_divisor(k)) % 0x1_0000
}

/// The groups `0..=k` of the IPv6 address numbered `v`, in hexadecimal,
/// separated by colons.
pub open spec fn ipv6_groups_text(v: u128, k: nat) -> Seq<char>
    decreases k,
{
    if k == 0 {
        hex_text(ipv6_group(v, 0))
    } else {
        ipv6_groups_text(v, (k - 1) as nat) + ":"@ + hex_text(ipv6_group(v, k))
    }
}

/// The full (uncompressed) text of the IPv6 address numbered `v`.
pub open spec fn ipv6_text(v: u128) -> Seq<char> {
    ipv6_groups_text(v, 7)
}

/// The divisor of the `k`-th IPv6 group.
fn group_divisor_exec(k: u64) -> (r: u128)
    requires
        k < 8,
    ensures
        r as nat == group_divisor(k as nat),
{
    if k == 0 {
        0x1_0000_0000_0000_0000_0000_0000_0000
    } else if k == 1 {
        0x1_0000_0000_0000_0000_0000_0000
    } else if k == 2 {
        0x1_0000_0000_0000_0000_0000
    } else if k == 3 {
        0x1_0000_0000_0000_0000
    } else if k == 4 {
        0x1_0000_0000_0000
    } else if k == 5 {
        0x1_0000_0000
    } else if k == 6 {
        0x1_0000
    } else {
        1
    }
}

/// Writes the IPv4 address numbered `v` in dotted decimal.
pub fn ipv4_string(v: u32) -> (r: String)
    ensures
        r@ == ipv4_text(v),
{
    let mut s = dec_string((v / 0x100_0000) as u64);
    s.append(".");
    s.append(dec_string(((v / 0x1_0000) % 0x100) as u64).as_str());
    s.append(".");
    s.append(dec_string(((v / 0x100) % 0x100) as u64).as_str());
    s.append(".");
    s.append(dec_string((v % 0x100) as u64).as_str());
    s
}

/// Writes the IPv6 address numbered `v` as eight hexadecimal groups.
pub fn ipv6_string(v: u128) -> (r: String)
    ensures
        r@ == ipv6_text(v),
{
    let mut s = hex_string(((v / group_divisor_exec(0)) % 0x1_0000) as u64);
    let mut k: u64 = 1;
    while k < 8
        invariant
            1 <= k <= 8,
            s@ == ipv6_groups_text(v, (k - 1) as nat),
        decreases 8 - k,
    {
        s.append(":");
        let g = ((v / group_divisor_exec(k)) % 0x1_0000) as u64;
        s.append(hex_string(g).as_str());
        k = k + 1;
    }
    s
}

/// The text of a peer address: `/ip4/<a.b.c.d>` or `/ip6/<groups>`, then
/// `/tcp/<port>/p2p/<peer id>`.
pub open spec fn fuzz_addr_text(m: FuzzAddrModel) -> Seq<char> {
    let ip = match m.ip {
        FuzzIp::V4(v) => "/ip4/"@ + ipv4_text(v),
        FuzzIp::V6(v) => "/ip6/"@ + ipv6_text(v),
    };
    ip + "/tcp/"@ + dec_text(m.port as nat) + "/p2p/"@ + m.peer_id
}

/// The text of the address of the peer with id bytes `id` at `ip` and
/// `port`.
pub open spec fn peer_addr_text(ip: FuzzIp, port: u16, id: Seq<u8>) -> Seq<char> {
    fuzz_addr_text(FuzzAddrModel { ip, port, peer_id: spec_base58(id) })
}

/// Whether `text` is the address of a peer whose id is of the form that
/// the node builds.
pub open spec fn is_peer_addr_text(text: Seq<char>) -> bool {
    exists|ip: FuzzIp, port: u16, id: Seq<u8>|
        #![trigger peer_addr_text(ip, port, id)]
        is_sha256_peer_id(id) && text == peer_addr_text(ip, port, id)
}

/// The binary form of the multiaddress written `text`: what
/// `tentacle_multiaddr::Multiaddr`'s `from_str` builds (as `to_vec` hands
/// out its bytes), or `None` where it refuses the text.
pub uninterp spec fn spec_parse_multiaddr(text: Seq<char>) -> Option<Seq<u8>>;

/// Parses `text` as a `tentacle_multiaddr::Multiaddr` and hands out its
/// bytes. Claimed of it: the result is the named parse of the text; a text
/// that does not start with `/` is refused; and the address text of a peer
/// with a SHA-256 id is accepted, as its source and the standard library's
/// documentation show (dotted decimal parses as `Ipv4Addr`, eight
/// hexadecimal groups as `Ipv6Addr`, the decimal port as `u16`, and the
/// base-58 text decodes back to the id's bytes, which pass its SHA-256
/// check).
#[verifier::external_body]
fn parse_multiaddr(text: &str) -> (r: Option<Vec<u8>>)
    ensures
        match r {
            Some(bytes) => spec_parse_multiaddr(text@) == Some(bytes@),
            None => spec_parse_multiaddr(text@) is None,
        },
        (text@.len() == 0 || text@[0] != '/') ==> r is None,
        is_peer_addr_text(text@) ==> r is Some,
{
    match text.parse::<Multiaddr>() {
        Ok(addr) => Some(addr.to_vec()),
        Err(_) => None,
    }
}

/// Writes a peer address as text.
pub fn fuzz_addr_string(addr: &FuzzAddr) -> (r: String)
    ensures
        r@ == fuzz_addr_text(addr@),
{
    let mut s = match addr.ip {
        FuzzIp::V4(v) => {
            let mut s = String::from_str("/ip4/");
            s.append(ipv4_string(v).as_str());
            s
        },
        FuzzIp::V6(v) => {
            let mut s = String::from_str("/ip6/");
            s.append(ipv6_string(v).as_str());
            s
        },
    };
    s.append("/tcp/");
    s.append(dec_string(addr.port as u64).as_str());
    s.append("/p2p/");
    s.append(addr.peer_id.as_str());
    s
}

/// The multiaddress of a peer address whose peer id is of the form that
/// the node builds, in binary form. It always parses.
pub fn fuzz_addr_multiaddr(addr: &FuzzAddr) -> (r: Vec<u8>)
    requires
        is_sha256_peer_id_text(addr.peer_id@),
    ensures
        spec_parse_multiaddr(fuzz_addr_text(addr@)) == Some(r@),
{
    let text = fuzz_addr_string(addr);
    proof {
        let id = choose|id: Seq<u8>| is_sha256_peer_id(id) && addr.peer_id@ == spec_base58(id);
        assert(text@ == peer_addr_text(addr.ip, addr.port, id));
    }
    match parse_multiaddr(text.as_str()) {
        Some(bytes) => bytes,
        None => {
            assert(false);
            Vec::new()
        },
    }
}

/// The number a decimal or hexadecimal digit character stands for.
pub open spec fn digit_value(c: char) -> nat {
    if '0' <= c && c <= '9' {
        (c as nat - '0' as nat) as nat
    } else if 'a' <= c && c <= 'f' {
        (c as nat - 'a' as nat + 10) as nat
    } else {
        0
    }
}

/// The number a string of digits in base `base` stands for, most
/// significant digit first.
pub open spec fn digits_value(s: Seq<char>, base: nat) -> nat
    decreases s.len(),
{
    if s.len() == 0 {
        0
    } else {
        digits_value(s.drop_last(), base) * base + digit_value(s.last())
    }
}

/// Whether every character of `s` is a digit below `base` (up to 16), and
/// `s` has no leading zero unless it is a single digit.
pub open spec fn is_numeral(s: Seq<char>, base: nat) -> bool {
    &&& s.len() >= 1
    &&& forall|i: int|
        0 <= i < s.len() ==> (('0' <= #[trigger] s[i] && s[i] <= '9') || ('a' <= s[i] && s[i]
            <= 'f')) && digit_value(s[i]) < base
    &&& (s.len() > 1 ==> s[0] != '0')
}

proof fn lemma_digit_char_value(d: nat)
    requires
        d < 16,
    ensures
        digit_value(digit_char(d)) == d,
        ('0' <= digit_char(d) && digit_char(d) <= '9') || ('a' <= digit_char(d) && digit_char(d)
            <= 'f'),
        d > 0 ==> digit_char(d) != '0',
{
}

/// Decimal text reads back as the number it was written for, and is a
/// well-formed decimal numeral.
pub proof fn lemma_dec_text_reads_back(n: nat)
    ensures
        digits_value(dec_text(n), 10) == n,
        is_numeral(dec_text(n), 10),
        n > 0 ==> dec_text(n)[0] != '0',
        dec_text(n).len() == 1 <==> n < 10,
    decreases n,
{
    lemma_digit_char_value(n % 10);
    if n < 10 {
        let s = dec_text(n);
        assert(s.drop_last() =~= Seq::<char>::empty());
        assert(digits_value(s.drop_last(), 10) == 0);
        assert(n % 10 == n);
        assert(s[0] == digit_char(n));
        lemma_digit_char_value(n);
    } else {
        lemma_dec_text_reads_back(n / 10);
        assert(n / 10 > 0);
        assert((n / 10) * 10 + n % 10 == n) by (nonlinear_arith);
        let s = dec_text(n);
        assert(s.drop_last() =~= dec_text(n / 10));
        assert(s.last() == digit_char(n % 10));
        assert forall|i: int| 0 <= i < s.len() implies (('0' <= #[trigger] s[i] && s[i] <= '9') || (
        'a' <= s[i] && s[i] <= 'f')) && digit_value(s[i]) < 10 by {
            if i < s.len() - 1 {
                assert(s[i] == dec_text(n / 10)[i]);
            }
        }
        assert(s[0] == dec_text(n / 10)[0]);
        if n / 10 < 10 {
            lemma_digit_char_value(n / 10);
        }
    }
}

/// Hexadecimal text reads back as the number it was written for, and is a
/// well-formed hexadecimal numeral.
pub proof fn lemma_hex_text_reads_back(n: nat)
    ensures
        digits_value(hex_text(n), 16) == n,
        is_numeral(hex_text(n), 16),
        n > 0 ==> hex_text(n)[0] != '0',
        hex_text(n).len() == 1 <==> n < 16,
    decreases n,
{
    lemma_digit_char_value(n % 16);
    if n < 16 {
        let s = hex_text(n);
        assert(s.drop_last() =~= Seq::<char>::empty());
        assert(digits_value(s.drop_last(), 16) == 0);
        assert(n % 16 == n);
        assert(s[0] == digit_char(n));
        lemma_digit_char_value(n);
    } else {
        lemma_hex_text_reads_back(n / 16);
        assert(n / 16 > 0);
        assert((n / 16) * 16 + n % 16 == n) by (nonlinear_arith);
        let s = hex_text(n);
        assert(s.drop_last() =~= hex_text(n / 16));
        assert(s.last() == digit_char(n % 16));
        assert forall|i: int| 0 <= i < s.len() implies (('0' <= #[trigger] s[i] && s[i] <= '9') || (
        'a' <= s[i] && s[i] <= 'f')) && digit_value(s[i]) < 16 by {
            if i < s.len() - 1 {
                assert(s[i] == hex_text(n / 16)[i]);
            }
        }
        assert(s[0] == hex_text(n / 16)[0]);
        if n / 16 < 16 {
            lemma_digit_char_value(n / 16);
        }
    }
}

/// The dotted text of an IPv4 address lists its four octets most
/// significant first: the address `a.b.c.d` (each below 256), numbered
/// `a * 2^24 + b * 2^16 + c * 2^8 + d`, is written
/// `dec(a) . dec(b) . dec(c) . dec(d)`.
pub proof fn lemma_ipv4_text_octets(a: u32, b: u32, c: u32, d: u32)
    requires
        a < 256,
        b < 256,
        c < 256,
        d < 256,
    ensures
        ipv4_text((a * 0x100_0000 + b * 0x1_0000 + c * 0x100 + d) as u32) == dec_text(a as nat)
            + "."@ + dec_text(b as nat) + "."@ + dec_text(c as nat) + "."@ + dec_text(d as nat),
{
    let v = (a * 0x100_0000 + b * 0x1_0000 + c * 0x100 + d) as u32;
    assert(v / 0x100_0000 == a && (v / 0x1_0000) % 0x100 == b && (v / 0x100) % 0x100 == c && v
        % 0x100 == d) by (bit_vector)
        requires
            a < 256,
            b < 256,
            c < 256,
            d < 256,
            v == (a * 0x100_0000 + b * 0x1_0000 + c * 0x100 + d) as u32,
    ;
}

/// The four octets that the dotted text of `v` lists, most significant
/// first, put back together give `v`.
pub proof fn lemma_ipv4_octets_recombine(v: u32)
    ensures
        v == (v / 0x100_0000) * 0x100_0000 + ((v / 0x1_0000) % 0x100) * 0x1_0000 + ((v / 0x100)
            % 0x100) * 0x100 + v % 0x100,
        v / 0x100_0000 < 256,
{
    assert(v == (v / 0x100_0000) * 0x100_0000 + ((v / 0x1_0000) % 0x100) * 0x1_0000 + ((v
        / 0x100) % 0x100) * 0x100 + v % 0x100 && v / 0x100_0000 < 256) by (bit_vector);
}

/// The number made of the groups `0..=k` of `v`, most significant first.
pub open spec fn ipv6_groups_value(v: u128, k: nat) -> nat
    decreases k,
{
    if k == 0 {
        ipv6_group(v, 0)
    } else {
        ipv6_groups_value(v, (k - 1) as nat) * 0x1_0000 + ipv6_group(v, k)
    }
}

proof fn lemma_ipv6_groups_prefix(v: u128, k: nat)
    requires
        k <= 7,
    ensures
        ipv6_groups_value(v, k) == v as nat / group_divisor(k),
    decreases k,
{
    let x = v as nat;
    if k == 0 {
        assert(x < 0x1_0000_0000_0000_0000_0000_0000_0000_0000);
        assert(x / 0x1_0000_0000_0000_0000_0000_0000_0000 < 0x1_0000) by (nonlinear_arith)
            requires
                x < 0x1_0000_0000_0000_0000_0000_0000_0000_0000,
        ;
    } else {
        lemma_ipv6_groups_prefix(v, (k - 1) as nat);
        let d = group_divisor(k);
        assert(group_divisor((k - 1) as nat) == d * 0x1_0000);
        vstd::arithmetic::div_mod::lemma_div_denominator(x as int, d as int, 0x1_0000);
        let q = x / d;
        vstd::arithmetic::div_mod::lemma_fundamental_div_mod(q as int, 0x1_0000);
    }
}

/// The eight groups that the text of an IPv6 address lists, most
/// significant first, put back together give the address: each group is
/// below `2^16`, and reading them as base-`2^16` digits gives `v`.
pub proof fn lemma_ipv6_groups_recombine(v: u128)
    ensures
        ipv6_groups_value(v, 7) == v,
        forall|k: nat| k <= 7 ==> #[trigger] ipv6_group(v, k) < 0x1_0000,
{
    lemma_ipv6_groups_prefix(v, 7);
}

} // verus!
