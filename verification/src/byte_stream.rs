//! Reading a fuzz input as a stream of bytes that goes on with zeros once
//! the input is used up, and little-endian integers read from it.
use vstd::prelude::*;
use vstd::slice::slice_subrange;
use vstd::slice::slice_to_vec;

verus! {

/// The byte at position `i` of the stream: the input's byte where there is
/// one, zero past its end.
pub open spec fn stream_byte(data: Seq<u8>, i: int) -> u8 {
    if 0 <= i < data.len() {
        data[i]
    } else {
        0u8
    }
}

/// The `len` bytes of the stream that start at `offset`.
pub open spec fn padded_window(data: Seq<u8>, offset: int, len: nat) -> Seq<u8> {
    Seq::new(len, |i: int| stream_byte(data, offset + i))
}

/// Where the read position stands after `len` bytes were taken at `offset`:
/// it never passes the end of the input.
pub open spec fn advanced_offset(data_len: int, offset: int, len: int) -> int {
    if offset + len <= data_len {
        offset + len
    } else {
        data_len
    }
}

/// The number that `bytes` encodes, least significant byte first.
pub open spec fn le_value(bytes: Seq<u8>) -> nat
    decreases bytes.len(),
{
    if bytes.len() == 0 {
        0
    } else {
        bytes[0] as nat + 256 * le_value(bytes.drop_first())
    }
}

/// 256 to the power `n`.
pub open spec fn pow256(n: nat) -> nat
    decreases n,
{
    if n == 0 {
        1
    } else {
        256 * pow256((n - 1) as nat)
    }
}

/// Takes the next `len` bytes of `data` at `*offset`, padded with zeros
/// where the input runs out, and moves `*offset` past what was read.
pub fn get_buf(len: usize, data: &[u8], offset: &mut usize) -> (r: Vec<u8>)
    requires
        *old(offset) <= data@.len(),
        *old(offset) + len <= usize::MAX,
    ensures
        r@ == padded_window(data@, *old(offset) as int, len as nat),
        *final(offset) as int == advanced_offset(data@.len() as int, *old(offset) as int, len as int),
{
    let start = *offset;
    if data.len() >= start + len && start != data.len() {
        let part = slice_subrange(data, start, start + len);
        let r = slice_to_vec(part);
        *offset = start + len;
        assert(r@ =~= padded_window(data@, start as int, len as nat));
        r
    } else {
        let mut r: Vec<u8> = Vec::with_capacity(len);
        let mut i: usize = 0;
        while i < len
            invariant
                start <= data@.len(),
                i <= len,
                r@.len() == i,
                forall|j: int| 0 <= j < i ==> #[trigger] r@[j] == stream_byte(data@, start + j),
            decreases len - i,
        {
            let avail = data.len() - start;
            if i < avail {
                r.push(data[start + i]);
            } else {
                r.push(0u8);
            }
            i = i + 1;
        }
        *offset = data.len();
        assert(r@ =~= padded_window(data@, start as int, len as nat));
        r
    }
}

/// A number read little-endian from `bytes` is below `256^len`.
pub proof fn lemma_le_value_bound(bytes: Seq<u8>)
    ensures
        le_value(bytes) < pow256(bytes.len()),
    decreases bytes.len(),
{
    if bytes.len() > 0 {
        lemma_le_value_bound(bytes.drop_first());
        assert(pow256(bytes.len()) == 256 * pow256((bytes.len() - 1) as nat));
    }
}

/// `pow256` grows with its exponent.
pub proof fn lemma_pow256_monotonic(a: nat, b: nat)
    requires
        a <= b,
    ensures
        pow256(a) <= pow256(b),
    decreases b,
{
    if a < b {
        lemma_pow256_monotonic(a, (b - 1) as nat);
        lemma_pow256_positive((b - 1) as nat);
    }
}

/// `pow256` is never zero.
pub proof fn lemma_pow256_positive(n: nat)
    ensures
        pow256(n) >= 1,
    decreases n,
{
    if n > 0 {
        lemma_pow256_positive((n - 1) as nat);
    }
}

/// The powers of 256 that the integer widths use.
pub proof fn lemma_pow256_values()
    ensures
        pow256(2) == 0x1_0000,
        pow256(4) == 0x1_0000_0000,
        pow256(8) == 0x1_0000_0000_0000_0000,
        pow256(16) == 0x1_0000_0000_0000_0000_0000_0000_0000_0000,
{
    reveal_with_fuel(pow256, 17);
}

/// Reads `bytes` (at most sixteen of them) as a little-endian number.
pub fn le_u128(bytes: &Vec<u8>) -> (r: u128)
    requires
        bytes@.len() <= 16,
    ensures
        r as nat == le_value(bytes@),
{
    let n = bytes.len();
    let mut v: u128 = 0;
    let mut i: usize = n;
    proof {
        assert(bytes@.subrange(n as int, n as int) =~= Seq::<u8>::empty());
        lemma_pow256_values();
    }
    while i > 0
        invariant
            n == bytes@.len(),
            n <= 16,
            i <= n,
            v as nat == le_value(bytes@.subrange(i as int, n as int)),
            pow256(16) == 0x1_0000_0000_0000_0000_0000_0000_0000_0000,
        decreases i,
    {
        let ghost rest = bytes@.subrange(i as int, n as int);
        let ghost ext = bytes@.subrange(i - 1, n as int);
        proof {
            assert(ext.drop_first() =~= rest);
            lemma_le_value_bound(rest);
            lemma_pow256_monotonic(rest.len(), 15);
            lemma_pow256_values();
            assert(pow256(16) == 256 * pow256(15));
        }
        v = bytes[i - 1] as u128 + 256 * v;
        i = i - 1;
    }
    assert(bytes@.subrange(0, n as int) =~= bytes@);
    v
}

/// Reads two bytes little-endian, as `u16::from_le_bytes` does.
pub fn le_u16(bytes: &Vec<u8>) -> (r: u16)
    requires
        bytes@.len() == 2,
    ensures
        r as nat == le_value(bytes@),
{
    let v = le_u128(bytes);
    proof {
        lemma_le_value_bound(bytes@);
        lemma_pow256_values();
    }
    v as u16
}

/// Reads four bytes little-endian, as `u32::from_le_bytes` does.
pub fn le_u32(bytes: &Vec<u8>) -> (r: u32)
    requires
        bytes@.len() == 4,
    ensures
        r as nat == le_value(bytes@),
{
    let v = le_u128(bytes);
    proof {
        lemma_le_value_bound(bytes@);
        lemma_pow256_values();
    }
    v as u32
}

/// Reads eight bytes little-endian, as `u64::from_le_bytes` does.
pub fn le_u64(bytes: &Vec<u8>) -> (r: u64)
    requires
        bytes@.len() == 8,
    ensures
        r as nat == le_value(bytes@),
{
    let v = le_u128(bytes);
    proof {
        lemma_le_value_bound(bytes@);
        lemma_pow256_values();
    }
    v as u64
}

/// Reading `a` bytes and then `b` bytes gives the same bytes, and leaves
/// the same read position, as reading `a + b` bytes at once.
pub proof fn lemma_get_buf_split(data: Seq<u8>, offset: int, a: nat, b: nat)
    requires
        0 <= offset <= data.len(),
    ensures
        padded_window(data, offset, a) + padded_window(
            data,
            advanced_offset(data.len() as int, offset, a as int),
            b,
        ) == padded_window(data, offset, a + b),
        advanced_offset(
            data.len() as int,
            advanced_offset(data.len() as int, offset, a as int),
            b as int,
        ) == advanced_offset(data.len() as int, offset, (a + b) as int),
{
    let mid = advanced_offset(data.len() as int, offset, a as int);
    let lhs = padded_window(data, offset, a) + padded_window(data, mid, b);
    let rhs = padded_window(data, offset, a + b);
    assert forall|i: int| 0 <= i < a + b implies #[trigger] lhs[i] == rhs[i] by {
        if i >= a {
            assert(lhs[i] == stream_byte(data, mid + (i - a)));
            assert(rhs[i] == stream_byte(data, offset + i));
        }
    }
    assert(lhs =~= rhs);
}

/// The window at `offset` is the input's bytes from `offset` up to the end
/// of the input (or of the window), followed by zeros for the rest.
pub proof fn lemma_padded_window_shape(data: Seq<u8>, offset: int, len: nat)
    requires
        0 <= offset <= data.len(),
    ensures
        padded_window(data, offset, len) == data.subrange(
            offset,
            advanced_offset(data.len() as int, offset, len as int),
        ) + Seq::new(
            (len - (advanced_offset(data.len() as int, offset, len as int) - offset)) as nat,
            |i: int| 0u8,
        ),
{
    let end = advanced_offset(data.len() as int, offset, len as int);
    let rhs = data.subrange(offset, end) + Seq::new((len - (end - offset)) as nat, |i: int| 0u8);
    assert(padded_window(data, offset, len) =~= rhs);
}

/// Little-endian: a byte added at the end is the most significant one.
pub proof fn lemma_le_value_push(bytes: Seq<u8>, b: u8)
    ensures
        le_value(bytes.push(b)) == le_value(bytes) + b * pow256(bytes.len()),
    decreases bytes.len(),
{
    if bytes.len() == 0 {
        assert(bytes.push(b).drop_first() =~= Seq::<u8>::empty());
        assert(le_value(Seq::<u8>::empty()) == 0);
        assert(bytes.push(b)[0] == b);
        assert(le_value(bytes.push(b)) == b as nat);
        assert(pow256(0) == 1);
        assert(b * pow256(bytes.len()) == b as nat);
    } else {
        let rest = bytes.drop_first();
        let p = pow256((bytes.len() - 1) as nat);
        assert(bytes.push(b).drop_first() =~= rest.push(b));
        assert(bytes.push(b)[0] == bytes[0]);
        lemma_le_value_push(rest, b);
        assert(le_value(rest.push(b)) == le_value(rest) + b * p);
        assert(pow256(bytes.len()) == 256 * p);
        assert(256 * (b * p) == b * (256 * p)) by (nonlinear_arith);
        assert(le_value(bytes.push(b)) == bytes[0] + 256 * le_value(rest.push(b)));
        assert(le_value(bytes) == bytes[0] + 256 * le_value(rest));
    }
}

} // verus!
