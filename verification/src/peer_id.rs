//! Peer ids, through `tentacle_secio`: checking raw peer-id bytes and
//! drawing random ids, each handed out in its base-58 text form.
use vstd::prelude::*;
use tentacle_secio::PeerId;

verus! {

/// The number that `bytes` encodes, most significant byte first.
pub open spec fn be_value(bytes: Seq<u8>) -> nat
    decreases bytes.len(),
{
    if bytes.len() == 0 {
        0
    } else {
        be_value(bytes.drop_last()) * 256 + bytes.last() as nat
    }
}

/// How many zero bytes `bytes` starts with.
pub open spec fn leading_zeros(bytes: Seq<u8>) -> nat
    decreases bytes.len(),
{
    if bytes.len() > 0 && bytes[0] == 0 {
        1 + leading_zeros(bytes.drop_first())
    } else {
        0
    }
}

/// The letter of the Bitcoin base-58 alphabet for the digit `d`.
pub open spec fn base58_char(d: nat) -> char {
    "123456789ABCDEFGHJKLMNPQRSTUVWXYZabcdefghijkmnopqrstuvwxyz"@[d as int]
}

/// The base-58 digits of `n`, most significant first, without leading
/// zero digits (none for zero).
pub open spec fn base58_digits(n: nat) -> Seq<char>
    decreases n,
{
    if n == 0 {
        Seq::empty()
    } else {
        base58_digits(n / 58) + seq![base58_char(n % 58)]
    }
}

/// The base-58 text of `bytes`: a `1` for each leading zero byte, then the
/// base-58 digits of the number the bytes encode. It is what
/// `tentacle_secio::PeerId::to_base58` returns for a peer id made of
/// `bytes` (it encodes them with `bs58` and its Bitcoin alphabet).
pub open spec fn spec_base58(bytes: Seq<u8>) -> Seq<char> {
    Seq::new(leading_zeros(bytes), |i: int| '1') + base58_digits(be_value(bytes))
}

/// The multihash code of SHA-256.
pub const SHA256_CODE: u16 = 0x12;

/// The length of a SHA-256 digest.
pub const SHA256_SIZE: u8 = 32;

/// The peer-id bytes of a 32-byte SHA-256 digest: the multihash code and
/// length, then the digest.
pub open spec fn peer_id_bytes(digest: Seq<u8>) -> Seq<u8> {
    seq![0x12u8, 0x20u8] + digest
}

/// Whether `bytes` is a peer id of the form that the node builds: the
/// multihash code of SHA-256 (`0x12`), the digest length 32 (`0x20`), then
/// a 32-byte digest.
pub open spec fn is_sha256_peer_id(bytes: Seq<u8>) -> bool {
    &&& bytes.len() == 34
    &&& bytes[0] == 0x12u8
    &&& bytes[1] == 0x20u8
}

/// Whether `text` is the base-58 text of a peer id of the form that the
/// node builds.
pub open spec fn is_sha256_peer_id_text(text: Seq<char>) -> bool {
    exists|bytes: Seq<u8>| is_sha256_peer_id(bytes) && text == spec_base58(bytes)
}

/// Calls `tentacle_secio::PeerId::from_bytes` on `data` and hands out the
/// accepted id as `to_base58` writes it. Claimed of it, as its source
/// shows: empty input is refused; 34 bytes made of the SHA-256 code
/// `0x12`, the length `0x20` and a digest are accepted; an accepted id
/// holds exactly `data`. Which other inputs it accepts is left unsaid: it
/// reads the hash code as a varint of up to ten bytes whose top bits are
/// dropped, so some longer inputs also carry the code `0x12` (for one,
/// `0x92`, eight `0x80`, `0x02`, then `0x20` and a 32-byte digest).
#[verifier::external_body]
pub(crate) fn peer_id_from_bytes(data: Vec<u8>) -> (r: Option<String>)
    ensures
        is_sha256_peer_id(data@) ==> r is Some,
        data@.len() == 0 ==> r is None,
        r matches Some(text) ==> text@ == spec_base58(data@),
{
    match PeerId::from_bytes(data) {
        Ok(id) => Some(id.to_base58()),
        Err(_) => None,
    }
}

/// Calls `tentacle_secio::PeerId::random` and hands out the id as
/// `to_base58` writes it. Claimed of every outcome, as its source shows:
/// the id is the SHA-256 code, the length 32 and a 32-byte digest (of a
/// random seed). Which digest comes out is left unsaid.
#[verifier::external_body]
pub(crate) fn random_peer_id() -> (r: String)
    ensures
        is_sha256_peer_id_text(r@),
{
    PeerId::random().to_base58()
}

/// The base-58 text of the peer id whose SHA-256 digest is `digest`, as
/// `PeerId::from_bytes(..).unwrap().to_base58()` gives it.
pub fn digest_peer_id(digest: &[u8]) -> (r: String)
    requires
        digest@.len() == 32,
    ensures
        r@ == spec_base58(peer_id_bytes(digest@)),
{
    let mut id_bytes: Vec<u8> = Vec::with_capacity(34);
    id_bytes.push(SHA256_CODE as u8);
    id_bytes.push(SHA256_SIZE);
    let mut i: usize = 0;
    while i < digest.len()
        invariant
            digest@.len() == 32,
            i <= 32,
            id_bytes@ =~= seq![0x12u8, 0x20u8] + digest@.subrange(0, i as int),
        decreases 32 - i,
    {
        id_bytes.push(digest[i]);
        i = i + 1;
    }
    assert(digest@.subrange(0, 32) =~= digest@);
    let ghost id_seq = id_bytes@;
    match peer_id_from_bytes(id_bytes) {
        Some(text) => text,
        None => {
            assert(is_sha256_peer_id(id_seq));
            assert(false);
            String::new()
        },
    }
}

} // verus!
