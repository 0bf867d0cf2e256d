//! Fixed-width numeric codec and the exact-read sample stream.
//!
//! Every primitive integer type carries a `repr`: its unsigned fixed-width
//! wire representation (two's complement for the signed types).  `FromBytes`
//! and `ToBytes` convert between a value and exactly `size` bytes of its
//! representation, in either byte order.  `BitReader` pulls one codec-width
//! chunk per call from an in-memory byte stream — a shorter tail is a fatal
//! truncation, never a partial read — and `BitWriter` appends encoded values
//! to an output buffer.

use vstd::prelude::*;

use crate::bytes::be_bytes_of;
use crate::bytes::be_decode;
use crate::bytes::be_encode;
use crate::bytes::be_val_of;
use crate::bytes::bytes_of;
use crate::bytes::le_bytes_of;
use crate::bytes::le_decode;
use crate::bytes::le_encode;
use crate::bytes::le_val_of;
use crate::bytes::lemma_be_round_trip;
use crate::bytes::lemma_be_val_of_bound;
use crate::bytes::lemma_le_round_trip;
use crate::bytes::lemma_le_val_of_bound;
use crate::bytes::lemma_pow256_values;
use crate::bytes::pow256;
use crate::bytes::val_of;
use crate::bytes::valid_size;

verus! {

/// A value with a fixed-width unsigned wire representation.
pub trait SizedNumber: Sized {
    /// Width of the wire representation, in bytes.
    spec fn size_spec() -> int;

    /// The unsigned fixed-width representation carried on the wire
    /// (two's complement for signed types).
    spec fn repr(self) -> int;

    proof fn lemma_size_valid()
        ensures
            valid_size(Self::size_spec()),
    ;

    proof fn lemma_repr_bounded(self)
        ensures
            0 <= self.repr() < pow256(Self::size_spec() as nat),
    ;

    /// Two values with the same wire representation are the same value.
    proof fn lemma_repr_injective(self, other: Self)
        requires
            self.repr() == other.repr(),
        ensures
            self == other,
    ;

    fn size() -> (n: usize)
        ensures
            n as int == Self::size_spec(),
    ;
}

/// Decoding from exactly `size` bytes, in either byte order.
pub trait FromBytes: SizedNumber {
    fn from_le_bytes(bytes: &[u8]) -> (r: Self)
        requires
            bytes@.len() == Self::size_spec(),
        ensures
            r.repr() == le_val_of(bytes@),
    ;

    fn from_be_bytes(bytes: &[u8]) -> (r: Self)
        requires
            bytes@.len() == Self::size_spec(),
        ensures
            r.repr() == be_val_of(bytes@),
    ;
}

/// Encoding into exactly `size` bytes, in either byte order.
/// Encoding succeeds for every value: there is no error path.
pub trait ToBytes: SizedNumber {
    fn to_le_bytes(self) -> (r: Vec<u8>)
        ensures
            r@ == le_bytes_of(self.repr(), Self::size_spec() as nat),
    ;

    fn to_be_bytes(self) -> (r: Vec<u8>)
        ensures
            r@ == be_bytes_of(self.repr(), Self::size_spec() as nat),
    ;
}

/// Law: decoding the encoding of a value, in either byte order, yields the
/// value back.  By the `ToBytes` contract the encoding of `x` is
/// `bytes_of(x.repr(), size)`, and by the `FromBytes` contract any decode of
/// those bytes has representation `val_of` of them; such a result can only
/// be `x` itself.
pub proof fn lemma_codec_round_trip<T: FromBytes + ToBytes>(x: T, y: T, big_endian: bool)
    requires
        y.repr() == val_of(bytes_of(x.repr(), T::size_spec() as nat, big_endian), big_endian),
    ensures
        y == x,
{
    T::lemma_size_valid();
    x.lemma_repr_bounded();
    if big_endian {
        lemma_be_round_trip(x.repr(), T::size_spec() as nat);
    } else {
        lemma_le_round_trip(x.repr(), T::size_spec() as nat);
    }
    y.lemma_repr_injective(x);
}

impl SizedNumber for u8 {
    open spec fn size_spec() -> int {
        1
    }

    open spec fn repr(self) -> int {
        self as int
    }

    proof fn lemma_size_valid() {
    }

    proof fn lemma_repr_bounded(self) {
        lemma_pow256_values();
    }

    proof fn lemma_repr_injective(self, other: u8) {
    }

    fn size() -> (n: usize) {
        1
    }
}

impl FromBytes for u8 {
    fn from_le_bytes(bytes: &[u8]) -> (r: Self) {
        let v = le_decode(bytes);
        proof {
            lemma_le_val_of_bound(bytes@);
            lemma_pow256_values();
        }
        v as u8
    }

    fn from_be_bytes(bytes: &[u8]) -> (r: Self) {
        let v = be_decode(bytes);
        proof {
            lemma_be_val_of_bound(bytes@);
            lemma_pow256_values();
        }
        v as u8
    }
}

impl ToBytes for u8 {
    fn to_le_bytes(self) -> (r: Vec<u8>) {
        le_encode(self as u128, 1)
    }

    fn to_be_bytes(self) -> (r: Vec<u8>) {
        be_encode(self as u128, 1)
    }
}

impl SizedNumber for i8 {
    open spec fn size_spec() -> int {
        1
    }

    open spec fn repr(self) -> int {
        if self >= 0 {
            self as int
        } else {
            self + 0x100
        }
    }

    proof fn lemma_size_valid() {
    }

    proof fn lemma_repr_bounded(self) {
        lemma_pow256_values();
    }

    proof fn lemma_repr_injective(self, other: i8) {
    }

    fn size() -> (n: usize) {
        1
    }
}

impl FromBytes for i8 {
    fn from_le_bytes(bytes: &[u8]) -> (r: Self) {
        let v = le_decode(bytes);
        proof {
            lemma_le_val_of_bound(bytes@);
            lemma_pow256_values();
        }
        let u = v as u8;
        if u < 0x80 {
            u as i8
        } else {
            ((u as i16) - 0x100) as i8
        }
    }

    fn from_be_bytes(bytes: &[u8]) -> (r: Self) {
        let v = be_decode(bytes);
        proof {
            lemma_be_val_of_bound(bytes@);
            lemma_pow256_values();
        }
        let u = v as u8;
        if u < 0x80 {
            u as i8
        } else {
            ((u as i16) - 0x100) as i8
        }
    }
}

impl ToBytes for i8 {
    fn to_le_bytes(self) -> (r: Vec<u8>) {
        let u: u8 = if self >= 0 {
            self as u8
        } else {
            ((self as i16) + 0x100) as u8
        };
        le_encode(u as u128, 1)
    }

    fn to_be_bytes(self) -> (r: Vec<u8>) {
        let u: u8 = if self >= 0 {
            self as u8
        } else {
            ((self as i16) + 0x100) as u8
        };
        be_encode(u as u128, 1)
    }
}

impl SizedNumber for u16 {
    open spec fn size_spec() -> int {
        2
    }

    open spec fn repr(self) -> int {
        self as int
    }

    proof fn lemma_size_valid() {
    }

    proof fn lemma_repr_bounded(self) {
        lemma_pow256_values();
    }

    proof fn lemma_repr_injective(self, other: u16) {
    }

    fn size() -> (n: usize) {
        2
    }
}

impl FromBytes for u16 {
    fn from_le_bytes(bytes: &[u8]) -> (r: Self) {
        let v = le_decode(bytes);
        proof {
            lemma_le_val_of_bound(bytes@);
            lemma_pow256_values();
        }
        v as u16
    }

    fn from_be_bytes(bytes: &[u8]) -> (r: Self) {
        let v = be_decode(bytes);
        proof {
            lemma_be_val_of_bound(bytes@);
            lemma_pow256_values();
        }
        v as u16
    }
}

impl ToBytes for u16 {
    fn to_le_bytes(self) -> (r: Vec<u8>) {
        le_encode(self as u128, 2)
    }

    fn to_be_bytes(self) -> (r: Vec<u8>) {
        be_encode(self as u128, 2)
    }
}

impl SizedNumber for i16 {
    open spec fn size_spec() -> int {
        2
    }

    open spec fn repr(self) -> int {
        if self >= 0 {
            self as int
        } else {
            self + 0x10000
        }
    }

    proof fn lemma_size_valid() {
    }

    proof fn lemma_repr_bounded(self) {
        lemma_pow256_values();
    }

    proof fn lemma_repr_injective(self, other: i16) {
    }

    fn size() -> (n: usize) {
        2
    }
}

impl FromBytes for i16 {
    fn from_le_bytes(bytes: &[u8]) -> (r: Self) {
        let v = le_decode(bytes);
        proof {
            lemma_le_val_of_bound(bytes@);
            lemma_pow256_values();
        }
        let u = v as u16;
        if u < 0x8000 {
            u as i16
        } else {
            ((u as i32) - 0x10000) as i16
        }
    }

    fn from_be_bytes(bytes: &[u8]) -> (r: Self) {
        let v = be_decode(bytes);
        proof {
            lemma_be_val_of_bound(bytes@);
            lemma_pow256_values();
        }
        let u = v as u16;
        if u < 0x8000 {
            u as i16
        } else {
            ((u as i32) - 0x10000) as i16
        }
    }
}

impl ToBytes for i16 {
    fn to_le_bytes(self) -> (r: Vec<u8>) {
        let u: u16 = if self >= 0 {
            self as u16
        } else {
            ((self as i32) + 0x10000) as u16
        };
        le_encode(u as u128, 2)
    }

    fn to_be_bytes(self) -> (r: Vec<u8>) {
        let u: u16 = if self >= 0 {
            self as u16
        } else {
            ((self as i32) + 0x10000) as u16
        };
        be_encode(u as u128, 2)
    }
}

impl SizedNumber for u32 {
    open spec fn size_spec() -> int {
        4
    }

    open spec fn repr(self) -> int {
        self as int
    }

    proof fn lemma_size_valid() {
    }

    proof fn lemma_repr_bounded(self) {
        lemma_pow256_values();
    }

    proof fn lemma_repr_injective(self, other: u32) {
    }

    fn size() -> (n: usize) {
        4
    }
}

impl FromBytes for u32 {
    fn from_le_bytes(bytes: &[u8]) -> (r: Self) {
        let v = le_decode(bytes);
        proof {
            lemma_le_val_of_bound(bytes@);
            lemma_pow256_values();
        }
        v as u32
    }

    fn from_be_bytes(bytes: &[u8]) -> (r: Self) {
        let v = be_decode(bytes);
        proof {
            lemma_be_val_of_bound(bytes@);
            lemma_pow256_values();
        }
        v as u32
    }
}

impl ToBytes for u32 {
    fn to_le_bytes(self) -> (r: Vec<u8>) {
        le_encode(self as u128, 4)
    }

    fn to_be_bytes(self) -> (r: Vec<u8>) {
        be_encode(self as u128, 4)
    }
}

impl SizedNumber for i32 {
    open spec fn size_spec() -> int {
        4
    }

    open spec fn repr(self) -> int {
        if self >= 0 {
            self as int
        } else {
            self + 0x1_0000_0000
        }
    }

    proof fn lemma_size_valid() {
    }

    proof fn lemma_repr_bounded(self) {
        lemma_pow256_values();
    }

    proof fn lemma_repr_injective(self, other: i32) {
    }

    fn size() -> (n: usize) {
        4
    }
}

impl FromBytes for i32 {
    fn from_le_bytes(bytes: &[u8]) -> (r: Self) {
        let v = le_decode(bytes);
        proof {
            lemma_le_val_of_bound(bytes@);
            lemma_pow256_values();
        }
        let u = v as u32;
        if u < 0x8000_0000 {
            u as i32
        } else {
            ((u as i64) - 0x1_0000_0000) as i32
        }
    }

    fn from_be_bytes(bytes: &[u8]) -> (r: Self) {
        let v = be_decode(bytes);
        proof {
            lemma_be_val_of_bound(bytes@);
            lemma_pow256_values();
        }
        let u = v as u32;
        if u < 0x8000_0000 {
            u as i32
        } else {
            ((u as i64) - 0x1_0000_0000) as i32
        }
    }
}

impl ToBytes for i32 {
    fn to_le_bytes(self) -> (r: Vec<u8>) {
        let u: u32 = if self >= 0 {
            self as u32
        } else {
            ((self as i64) + 0x1_0000_0000) as u32
        };
        le_encode(u as u128, 4)
    }

    fn to_be_bytes(self) -> (r: Vec<u8>) {
        let u: u32 = if self >= 0 {
            self as u32
        } else {
            ((self as i64) + 0x1_0000_0000) as u32
        };
        be_encode(u as u128, 4)
    }
}

impl SizedNumber for u64 {
    open spec fn size_spec() -> int {
        8
    }

    open spec fn repr(self) -> int {
        self as int
    }

    proof fn lemma_size_valid() {
    }

    proof fn lemma_repr_bounded(self) {
        lemma_pow256_values();
    }

    proof fn lemma_repr_injective(self, other: u64) {
    }

    fn size() -> (n: usize) {
        8
    }
}

impl FromBytes for u64 {
    fn from_le_bytes(bytes: &[u8]) -> (r: Self) {
        let v = le_decode(bytes);
        proof {
            lemma_le_val_of_bound(bytes@);
            lemma_pow256_values();
        }
        v as u64
    }

    fn from_be_bytes(bytes: &[u8]) -> (r: Self) {
        let v = be_decode(bytes);
        proof {
            lemma_be_val_of_bound(bytes@);
            lemma_pow256_values();
        }
        v as u64
    }
}

impl ToBytes for u64 {
    fn to_le_bytes(self) -> (r: Vec<u8>) {
        le_encode(self as u128, 8)
    }

    fn to_be_bytes(self) -> (r: Vec<u8>) {
        be_encode(self as u128, 8)
    }
}

impl SizedNumber for i64 {
    open spec fn size_spec() -> int {
        8
    }

    open spec fn repr(self) -> int {
        if self >= 0 {
            self as int
        } else {
            self + 0x1_0000_0000_0000_0000
        }
    }

    proof fn lemma_size_valid() {
    }

    proof fn lemma_repr_bounded(self) {
        lemma_pow256_values();
    }

    proof fn lemma_repr_injective(self, other: i64) {
    }

    fn size() -> (n: usize) {
        8
    }
}

impl FromBytes for i64 {
    fn from_le_bytes(bytes: &[u8]) -> (r: Self) {
        let v = le_decode(bytes);
        proof {
            lemma_le_val_of_bound(bytes@);
            lemma_pow256_values();
        }
        let u = v as u64;
        if u < 0x8000_0000_0000_0000 {
            u as i64
        } else {
            ((u as i128) - 0x1_0000_0000_0000_0000) as i64
        }
    }

    fn from_be_bytes(bytes: &[u8]) -> (r: Self) {
        let v = be_decode(bytes);
        proof {
            lemma_be_val_of_bound(bytes@);
            lemma_pow256_values();
        }
        let u = v as u64;
        if u < 0x8000_0000_0000_0000 {
            u as i64
        } else {
            ((u as i128) - 0x1_0000_0000_0000_0000) as i64
        }
    }
}

impl ToBytes for i64 {
    fn to_le_bytes(self) -> (r: Vec<u8>) {
        let u: u64 = if self >= 0 {
            self as u64
        } else {
            ((self as i128) + 0x1_0000_0000_0000_0000) as u64
        };
        le_encode(u as u128, 8)
    }

    fn to_be_bytes(self) -> (r: Vec<u8>) {
        let u: u64 = if self >= 0 {
            self as u64
        } else {
            ((self as i128) + 0x1_0000_0000_0000_0000) as u64
        };
        be_encode(u as u128, 8)
    }
}

impl SizedNumber for u128 {
    open spec fn size_spec() -> int {
        16
    }

    open spec fn repr(self) -> int {
        self as int
    }

    proof fn lemma_size_valid() {
    }

    proof fn lemma_repr_bounded(self) {
        lemma_pow256_values();
    }

    proof fn lemma_repr_injective(self, other: u128) {
    }

    fn size() -> (n: usize) {
        16
    }
}

impl FromBytes for u128 {
    fn from_le_bytes(bytes: &[u8]) -> (r: Self) {
        le_decode(bytes)
    }

    fn from_be_bytes(bytes: &[u8]) -> (r: Self) {
        be_decode(bytes)
    }
}

impl ToBytes for u128 {
    fn to_le_bytes(self) -> (r: Vec<u8>) {
        le_encode(self, 16)
    }

    fn to_be_bytes(self) -> (r: Vec<u8>) {
        be_encode(self, 16)
    }
}

impl SizedNumber for i128 {
    open spec fn size_spec() -> int {
        16
    }

    open spec fn repr(self) -> int {
        if self >= 0 {
            self as int
        } else {
            self + 0x1_00000000_00000000_00000000_00000000
        }
    }

    proof fn lemma_size_valid() {
    }

    proof fn lemma_repr_bounded(self) {
        lemma_pow256_values();
    }

    proof fn lemma_repr_injective(self, other: i128) {
    }

    fn size() -> (n: usize) {
        16
    }
}

impl FromBytes for i128 {
    fn from_le_bytes(bytes: &[u8]) -> (r: Self) {
        let v = le_decode(bytes);
        proof {
            lemma_le_val_of_bound(bytes@);
            lemma_pow256_values();
        }
        if v < 0x8000_0000_0000_0000_0000_0000_0000_0000u128 {
            v as i128
        } else {
            let low = (v - 0x8000_0000_0000_0000_0000_0000_0000_0000u128) as i128;
            low + i128::MIN
        }
    }

    fn from_be_bytes(bytes: &[u8]) -> (r: Self) {
        let v = be_decode(bytes);
        proof {
            lemma_be_val_of_bound(bytes@);
            lemma_pow256_values();
        }
        if v < 0x8000_0000_0000_0000_0000_0000_0000_0000u128 {
            v as i128
        } else {
            let low = (v - 0x8000_0000_0000_0000_0000_0000_0000_0000u128) as i128;
            low + i128::MIN
        }
    }
}

impl ToBytes for i128 {
    fn to_le_bytes(self) -> (r: Vec<u8>) {
        let u: u128 = if self >= 0 {
            self as u128
        } else {
            ((self - i128::MIN) as u128) + 0x8000_0000_0000_0000_0000_0000_0000_0000u128
        };
        le_encode(u, 16)
    }

    fn to_be_bytes(self) -> (r: Vec<u8>) {
        let u: u128 = if self >= 0 {
            self as u128
        } else {
            ((self - i128::MIN) as u128) + 0x8000_0000_0000_0000_0000_0000_0000_0000u128
        };
        be_encode(u, 16)
    }
}

/// The one failure a sample stream can report: the source ended in the
/// middle of a sample, or could not supply one at all.  There is no
/// partial-sample recovery and no retry.
#[derive(Clone, Copy, PartialEq, Eq, Structural, Debug)]
pub enum StreamError {
    Truncated,
}

/// Reads only the exact number of bytes required to decode one primitive
/// number per call, from an in-memory byte stream whose cursor it owns
/// exclusively.  The cursor advances monotonically and is never rewound.
pub struct BitReader {
    data: Vec<u8>,
    pos: usize,
    /// is big endian
    be: bool,
}

impl BitReader {
    /// Bytes not yet consumed.
    pub closed spec fn remaining(self) -> Seq<u8> {
        if self.pos <= self.data@.len() {
            self.data@.skip(self.pos as int)
        } else {
            Seq::empty()
        }
    }

    pub closed spec fn is_be(self) -> bool {
        self.be
    }

    pub fn new(inner: Vec<u8>, big_endian: bool) -> (r: Self)
        ensures
            r.remaining() == inner@,
            r.is_be() == big_endian,
    {
        let r = BitReader { data: inner, pos: 0, be: big_endian };
        proof {
            assert(r.remaining() =~= r.data@);
        }
        r
    }

    /// How many bytes are left to consume.
    pub fn remaining_len(&self) -> (n: usize)
        ensures
            n == self.remaining().len(),
    {
        if self.pos <= self.data.len() {
            self.data.len() - self.pos
        } else {
            0
        }
    }

    /// Pull exactly one codec-width chunk and decode it with the session's
    /// byte order.  Succeeds if and only if that many bytes remain; a
    /// shorter tail is a fatal truncation and consumes nothing.
    pub fn read<T: FromBytes>(&mut self) -> (r: Result<T, StreamError>)
        ensures
            final(self).is_be() == old(self).is_be(),
            match r {
                Ok(v) => {
                    &&& old(self).remaining().len() >= T::size_spec()
                    &&& v.repr() == val_of(
                        old(self).remaining().take(T::size_spec()),
                        old(self).is_be(),
                    )
                    &&& final(self).remaining() == old(self).remaining().skip(T::size_spec())
                },
                Err(e) => {
                    &&& e == StreamError::Truncated
                    &&& old(self).remaining().len() < T::size_spec()
                    &&& *final(self) == *old(self)
                },
            },
    {
        let n = T::size();
        proof {
            T::lemma_size_valid();
        }
        if self.pos >= self.data.len() || self.data.len() - self.pos < n {
            return Err(StreamError::Truncated);
        }
        let mut buf: Vec<u8> = Vec::new();
        let mut i: usize = 0;
        while i < n
            invariant
                i <= n,
                self == old(self),
                self.pos + n <= self.data@.len() <= usize::MAX,
                buf@ == self.data@.subrange(self.pos as int, self.pos + i),
            decreases n - i,
        {
            let b = self.data[self.pos + i];
            buf.push(b);
            proof {
                assert(buf@ =~= self.data@.subrange(self.pos as int, self.pos + i + 1));
            }
            i += 1;
        }
        proof {
            assert(buf@ =~= old(self).remaining().take(n as int));
        }
        let v = if self.be {
            T::from_be_bytes(buf.as_slice())
        } else {
            T::from_le_bytes(buf.as_slice())
        };
        self.pos = self.pos + n;
        proof {
            assert(self.remaining() =~= old(self).remaining().skip(n as int));
        }
        Ok(v)
    }
}

/// Writes the bytes of any `ToBytes` value, in the session's byte order,
/// to an in-memory output buffer.
pub struct BitWriter {
    data: Vec<u8>,
    be: bool,
}

impl BitWriter {
    /// Everything written so far.
    pub closed spec fn written(self) -> Seq<u8> {
        self.data@
    }

    pub closed spec fn is_be(self) -> bool {
        self.be
    }

    pub fn new(inner: Vec<u8>, big_endian: bool) -> (r: Self)
        ensures
            r.written() == inner@,
            r.is_be() == big_endian,
    {
        BitWriter { data: inner, be: big_endian }
    }

    /// Append the wire bytes of `t`.  Always succeeds: encoding a value of
    /// a supported width has no error path.
    pub fn write<T: ToBytes>(&mut self, t: T)
        ensures
            final(self).is_be() == old(self).is_be(),
            final(self).written() == old(self).written() + bytes_of(
                t.repr(),
                T::size_spec() as nat,
                old(self).is_be(),
            ),
    {
        let mut bytes = if self.be {
            t.to_be_bytes()
        } else {
            t.to_le_bytes()
        };
        self.data.append(&mut bytes);
    }

    /// Hand the written bytes back to the caller.
    pub fn into_inner(self) -> (r: Vec<u8>)
        ensures
            r@ == self.written(),
    {
        self.data
    }
}

} // verus!
