//! Byte sequences as numbers, in both byte orders.
//!
//! A fixed-width numeric sample is carried on the wire as its unsigned
//! representation, spread over `n` bytes either least-significant-first
//! (little-endian) or most-significant-first (big-endian).  This module
//! defines the value of such a sequence, the sequence for such a value,
//! proves the two are inverse to each other, and gives verified executable
//! conversions between `u128` and byte buffers that everything wider
//! builds on.

use vstd::prelude::*;

verus! {

/// The byte widths the codec handles: those of the primitive numeric types.
pub open spec fn valid_size(n: int) -> bool {
    n == 1 || n == 2 || n == 4 || n == 8 || n == 16
}

/// 256^n, the number of distinct values `n` bytes can carry.
pub open spec fn pow256(n: nat) -> int
    decreases n,
{
    if n == 0 {
        1
    } else {
        256 * pow256((n - 1) as nat)
    }
}

/// The value of a byte sequence read least-significant byte first.
pub open spec fn le_val_of(s: Seq<u8>) -> int
    decreases s.len(),
{
    if s.len() == 0 {
        0
    } else {
        s[0] + 256 * le_val_of(s.skip(1))
    }
}

/// The value of a byte sequence read most-significant byte first.
pub open spec fn be_val_of(s: Seq<u8>) -> int
    decreases s.len(),
{
    if s.len() == 0 {
        0
    } else {
        256 * be_val_of(s.drop_last()) + s.last()
    }
}

/// The `n` little-endian bytes of `v`, for `0 <= v < pow256(n)`.
pub open spec fn le_bytes_of(v: int, n: nat) -> Seq<u8>
    decreases n,
{
    if n == 0 {
        Seq::empty()
    } else {
        seq![(v % 256) as u8] + le_bytes_of(v / 256, (n - 1) as nat)
    }
}

/// The `n` big-endian bytes of `v`, for `0 <= v < pow256(n)`.
pub open spec fn be_bytes_of(v: int, n: nat) -> Seq<u8>
    decreases n,
{
    if n == 0 {
        Seq::empty()
    } else {
        be_bytes_of(v / 256, (n - 1) as nat).push((v % 256) as u8)
    }
}

/// The value of a byte sequence in the given order.
pub open spec fn val_of(s: Seq<u8>, big_endian: bool) -> int {
    if big_endian {
        be_val_of(s)
    } else {
        le_val_of(s)
    }
}

/// The `n` bytes of a value in the given order.
pub open spec fn bytes_of(v: int, n: nat, big_endian: bool) -> Seq<u8> {
    if big_endian {
        be_bytes_of(v, n)
    } else {
        le_bytes_of(v, n)
    }
}

pub proof fn lemma_pow256_positive(n: nat)
    ensures
        pow256(n) >= 1,
    decreases n,
{
    if n > 0 {
        lemma_pow256_positive((n - 1) as nat);
    }
}

pub proof fn lemma_pow256_increases(a: nat, b: nat)
    requires
        a <= b,
    ensures
        pow256(a) <= pow256(b),
    decreases b,
{
    lemma_pow256_positive(a);
    if a < b {
        lemma_pow256_increases(a, (b - 1) as nat);
    }
}

/// Every byte sequence of length `n` names a value below `pow256(n)`.
pub proof fn lemma_le_val_of_bound(s: Seq<u8>)
    ensures
        0 <= le_val_of(s) < pow256(s.len()),
    decreases s.len(),
{
    if s.len() > 0 {
        lemma_le_val_of_bound(s.skip(1));
    }
}

/// Every byte sequence of length `n` names a value below `pow256(n)`.
pub proof fn lemma_be_val_of_bound(s: Seq<u8>)
    ensures
        0 <= be_val_of(s) < pow256(s.len()),
    decreases s.len(),
{
    if s.len() > 0 {
        lemma_be_val_of_bound(s.drop_last());
    }
}

/// Reading back the little-endian bytes of an in-range value yields the value.
pub proof fn lemma_le_round_trip(v: int, n: nat)
    requires
        0 <= v < pow256(n),
    ensures
        le_val_of(le_bytes_of(v, n)) == v,
    decreases n,
{
    if n > 0 {
        let s = le_bytes_of(v, n);
        assert(s.skip(1) =~= le_bytes_of(v / 256, (n - 1) as nat));
        assert(0 <= v / 256 < pow256((n - 1) as nat)) by {
            lemma_pow256_positive((n - 1) as nat);
        }
        lemma_le_round_trip(v / 256, (n - 1) as nat);
    }
}

/// Reading back the big-endian bytes of an in-range value yields the value.
pub proof fn lemma_be_round_trip(v: int, n: nat)
    requires
        0 <= v < pow256(n),
    ensures
        be_val_of(be_bytes_of(v, n)) == v,
    decreases n,
{
    if n > 0 {
        let s = be_bytes_of(v, n);
        assert(s.drop_last() =~= be_bytes_of(v / 256, (n - 1) as nat));
        assert(0 <= v / 256 < pow256((n - 1) as nat)) by {
            lemma_pow256_positive((n - 1) as nat);
        }
        lemma_be_round_trip(v / 256, (n - 1) as nat);
    }
}

/// Encoding the value of a little-endian byte sequence yields the sequence:
/// a value below `pow256(n)` has exactly one `n`-byte spelling.
pub proof fn lemma_le_bytes_of_val(s: Seq<u8>)
    ensures
        le_bytes_of(le_val_of(s), s.len()) == s,
    decreases s.len(),
{
    if s.len() > 0 {
        let v = le_val_of(s);
        lemma_le_val_of_bound(s.skip(1));
        assert(v % 256 == s[0] && v / 256 == le_val_of(s.skip(1))) by {
            lemma_le_val_of_bound(s.skip(1));
        }
        lemma_le_bytes_of_val(s.skip(1));
        assert(le_bytes_of(v, s.len()) =~= s);
    }
}

/// Encoding the value of a big-endian byte sequence yields the sequence.
pub proof fn lemma_be_bytes_of_val(s: Seq<u8>)
    ensures
        be_bytes_of(be_val_of(s), s.len()) == s,
    decreases s.len(),
{
    if s.len() > 0 {
        let v = be_val_of(s);
        lemma_be_val_of_bound(s.drop_last());
        assert(v % 256 == s.last() && v / 256 == be_val_of(s.drop_last()));
        lemma_be_bytes_of_val(s.drop_last());
        assert(be_bytes_of(v, s.len()) =~= s);
    }
}

/// The powers of 256 at the widths the codec meets.
pub proof fn lemma_pow256_values()
    ensures
        pow256(1) == 0x100,
        pow256(2) == 0x10000,
        pow256(4) == 0x1_0000_0000,
        pow256(8) == 0x1_0000_0000_0000_0000,
        pow256(15) == 0x1_000000_00000000_00000000_00000000,
        pow256(16) == 0x1_00000000_00000000_00000000_00000000,
{
    reveal_with_fuel(pow256, 17);
}

/// Little-endian value of `bytes[i..]`, built from the tail upward.
fn le_decode_from(bytes: &[u8], i: usize) -> (v: u128)
    requires
        i <= bytes@.len(),
        bytes@.len() - i <= 16,
    ensures
        v as int == le_val_of(bytes@.skip(i as int)),
    decreases bytes@.len() - i,
{
    let n = bytes.len();
    if i == n {
        proof {
            assert(bytes@.skip(i as int) =~= Seq::<u8>::empty());
        }
        0
    } else {
        let rest = le_decode_from(bytes, i + 1);
        let b = *vstd::slice::slice_index_get(bytes, i);
        proof {
            lemma_le_val_of_bound(bytes@.skip(i as int + 1));
            lemma_pow256_increases(bytes@.skip(i as int + 1).len(), 15);
            lemma_pow256_values();
            assert(bytes@.skip(i as int)[0] == bytes@[i as int]);
            assert(bytes@.skip(i as int).skip(1) =~= bytes@.skip(i as int + 1));
        }
        b as u128 + 256 * rest
    }
}

/// The value of at most 16 bytes read least-significant byte first.
pub fn le_decode(bytes: &[u8]) -> (v: u128)
    requires
        bytes@.len() <= 16,
    ensures
        v as int == le_val_of(bytes@),
{
    proof {
        assert(bytes@.skip(0) =~= bytes@);
    }
    le_decode_from(bytes, 0)
}

/// Big-endian value of `bytes[..k]`, built most-significant byte first.
fn be_decode_upto(bytes: &[u8], k: usize) -> (v: u128)
    requires
        k <= bytes@.len(),
        k <= 16,
    ensures
        v as int == be_val_of(bytes@.take(k as int)),
    decreases k,
{
    if k == 0 {
        proof {
            assert(bytes@.take(0) =~= Seq::<u8>::empty());
        }
        0
    } else {
        let high = be_decode_upto(bytes, k - 1);
        let b = *vstd::slice::slice_index_get(bytes, k - 1);
        proof {
            lemma_be_val_of_bound(bytes@.take(k - 1));
            lemma_pow256_increases(bytes@.take(k - 1).len(), 15);
            lemma_pow256_values();
            assert(bytes@.take(k as int).drop_last() =~= bytes@.take(k - 1));
            assert(bytes@.take(k as int).last() == bytes@[k - 1]);
        }
        256 * high + b as u128
    }
}

/// The value of at most 16 bytes read most-significant byte first.
pub fn be_decode(bytes: &[u8]) -> (v: u128)
    requires
        bytes@.len() <= 16,
    ensures
        v as int == be_val_of(bytes@),
{
    let n = bytes.len();
    proof {
        assert(bytes@.take(n as int) =~= bytes@);
    }
    be_decode_upto(bytes, n)
}

/// The `n` little-endian bytes of `v`.
pub fn le_encode(v: u128, n: usize) -> (r: Vec<u8>)
    ensures
        r@ == le_bytes_of(v as int, n as nat),
    decreases n,
{
    if n == 0 {
        let r: Vec<u8> = Vec::new();
        proof {
            assert(r@ =~= le_bytes_of(v as int, 0));
        }
        r
    } else {
        let mut r: Vec<u8> = Vec::new();
        r.push((v % 256) as u8);
        let mut rest = le_encode(v / 256, n - 1);
        r.append(&mut rest);
        proof {
            assert(r@ =~= seq![((v as int) % 256) as u8] + le_bytes_of(v as int / 256, (n - 1) as nat));
        }
        r
    }
}

/// The `n` big-endian bytes of `v`.
pub fn be_encode(v: u128, n: usize) -> (r: Vec<u8>)
    ensures
        r@ == be_bytes_of(v as int, n as nat),
    decreases n,
{
    if n == 0 {
        let r: Vec<u8> = Vec::new();
        proof {
            assert(r@ =~= be_bytes_of(v as int, 0));
        }
        r
    } else {
        let mut r = be_encode(v / 256, n - 1);
        r.push((v % 256) as u8);
        r
    }
}

} // verus!
