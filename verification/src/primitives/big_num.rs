//! Non-negative integers of arbitrary size.
//!
//! A [`BigNum`] keeps its magnitude as big-endian bytes; its view is the
//! natural number those bytes spell in base 256. Arithmetic is done by
//! `num-bigint`, behind small trusted functions that go from bytes to bytes.

use num_bigint::BigUint;
use num_traits::CheckedSub;
use num_traits::ToPrimitive;
use crate::primitives::text::decimal;
use vstd::prelude::*;

verus! {

/// The number that `bytes` spell, most significant byte first.
pub open spec fn be_value(bytes: Seq<u8>) -> nat
    decreases bytes.len(),
{
    if bytes.len() == 0 {
        0
    } else {
        be_value(bytes.drop_last()) * 256 + bytes.last() as nat
    }
}

/// 256 to the power `n`.
pub open spec fn pow256(n: nat) -> nat
    decreases n,
{
    if n == 0 {
        1
    } else {
        256 * pow256((n - 1) as nat)
    }
}

/// The `width` bytes that spell `n`, most significant byte first. Where `n`
/// needs more than `width` bytes, its upper part is cut off.
pub open spec fn be_word(n: nat, width: nat) -> Seq<u8>
    decreases width,
{
    if width == 0 {
        Seq::empty()
    } else {
        be_word(n / 256, (width - 1) as nat).push((n % 256) as u8)
    }
}

/// `n` bytes of zero.
pub open spec fn zeros(n: nat) -> Seq<u8> {
    Seq::new(n, |i: int| 0u8)
}

/// The value of two byte strings written one after the other.
pub proof fn lemma_be_value_concat(head: Seq<u8>, tail: Seq<u8>)
    ensures
        be_value(head + tail) == be_value(head) * pow256(tail.len()) + be_value(tail),
    decreases tail.len(),
{
    let h = be_value(head);
    if tail.len() == 0 {
        assert(head + tail =~= head);
        assert(pow256(0) == 1);
        assert(h * 1 == h) by (nonlinear_arith);
    } else {
        let s = head + tail;
        assert(s.drop_last() =~= head + tail.drop_last());
        assert(s.last() == tail.last());
        lemma_be_value_concat(head, tail.drop_last());
        let p = pow256(tail.drop_last().len());
        let t = be_value(tail.drop_last());
        assert(pow256(tail.len()) == 256 * p);
        assert(be_value(tail) == t * 256 + tail.last() as nat);
        assert(be_value(s) == (h * p + t) * 256 + tail.last() as nat);
        assert((h * p + t) * 256 == h * (256 * p) + t * 256) by (nonlinear_arith);
    }
}

/// Bytes of zero spell zero.
pub proof fn lemma_be_value_zeros(n: nat)
    ensures
        be_value(zeros(n)) == 0,
    decreases n,
{
    if n > 0 {
        assert(zeros(n).drop_last() =~= zeros((n - 1) as nat));
        lemma_be_value_zeros((n - 1) as nat);
    }
}

/// `len` bytes spell a number below 256 to the power `len`.
pub proof fn lemma_be_value_bound(bytes: Seq<u8>)
    ensures
        be_value(bytes) < pow256(bytes.len()),
    decreases bytes.len(),
{
    if bytes.len() > 0 {
        lemma_be_value_bound(bytes.drop_last());
    }
}

/// Powers of 256 grow with the exponent, and none is zero.
pub proof fn lemma_pow256_grows(a: nat, b: nat)
    requires
        a <= b,
    ensures
        0 < pow256(a) <= pow256(b),
    decreases b,
{
    if a < b {
        lemma_pow256_grows(a, (b - 1) as nat);
    } else if a > 0 {
        lemma_pow256_grows((a - 1) as nat, (a - 1) as nat);
    }
}

/// Bytes that start with a byte other than zero spell at least 256 to the
/// power of one less than their number.
pub proof fn lemma_be_value_leading(bytes: Seq<u8>)
    requires
        bytes.len() > 0,
        bytes[0] != 0,
    ensures
        be_value(bytes) >= pow256((bytes.len() - 1) as nat),
{
    let head = bytes.subrange(0, 1);
    let tail = bytes.subrange(1, bytes.len() as int);
    assert(bytes =~= head + tail);
    lemma_be_value_concat(head, tail);
    assert(head.drop_last() =~= Seq::<u8>::empty());
    assert(be_value(Seq::<u8>::empty()) == 0);
    assert(head.last() == bytes[0]);
    assert(be_value(head) == bytes[0] as nat);
    let p = pow256(tail.len());
    lemma_pow256_grows(tail.len(), tail.len());
    assert(be_value(head) * p >= p) by (nonlinear_arith)
        requires
            be_value(head) >= 1,
            p > 0,
    ;
}

/// Bytes are the word of their own value and length.
pub proof fn lemma_be_word_of(bytes: Seq<u8>)
    ensures
        be_word(be_value(bytes), bytes.len()) == bytes,
    decreases bytes.len(),
{
    if bytes.len() > 0 {
        lemma_be_word_of(bytes.drop_last());
        let v = be_value(bytes.drop_last());
        let l = bytes.last() as nat;
        assert((v * 256 + l) / 256 == v && (v * 256 + l) % 256 == l) by (nonlinear_arith)
            requires
                l < 256,
        ;
        assert(bytes =~= bytes.drop_last().push(bytes.last()));
    }
}

/// A word has the width asked for, and spells the number if that is small
/// enough.
pub proof fn lemma_be_word(n: nat, width: nat)
    ensures
        be_word(n, width).len() == width,
        n < pow256(width) ==> be_value(be_word(n, width)) == n,
    decreases width,
{
    if width > 0 {
        lemma_be_word(n / 256, (width - 1) as nat);
        let w = be_word(n, width);
        assert(w.drop_last() =~= be_word(n / 256, (width - 1) as nat));
        if n < pow256(width) {
            assert(n / 256 < pow256((width - 1) as nat)) by (nonlinear_arith)
                requires
                    n < 256 * pow256((width - 1) as nat),
            ;
            assert((n / 256) * 256 + n % 256 == n) by (nonlinear_arith);
        }
    }
}

/// Trusted: `BigUint::from(u64)` followed by `BigUint::to_bytes_be`. The bytes
/// that come back spell `v`.
#[verifier::external_body]
fn bytes_of_u64(v: u64) -> (r: Vec<u8>)
    ensures
        be_value(r@) == v,
{
    BigUint::from(v).to_bytes_be()
}

/// Trusted: `ToPrimitive::to_u64` of `num-bigint`'s `BigUint`, read from
/// big-endian bytes. It gives the number when it fits in 64 bits, and nothing
/// otherwise.
#[verifier::external_body]
fn bytes_to_u64(a: &Vec<u8>) -> (r: Option<u64>)
    ensures
        r.is_some() <==> be_value(a@) <= u64::MAX,
        r.is_some() ==> r.unwrap() == be_value(a@),
{
    BigUint::from_bytes_be(a.as_slice()).to_u64()
}

/// Trusted: `BigUint`'s `+`. The result spells the sum of the two numbers.
#[verifier::external_body]
fn bytes_sum(a: &Vec<u8>, b: &Vec<u8>) -> (r: Vec<u8>)
    ensures
        be_value(r@) == be_value(a@) + be_value(b@),
{
    (BigUint::from_bytes_be(a.as_slice()) + BigUint::from_bytes_be(b.as_slice())).to_bytes_be()
}

/// Trusted: `CheckedSub::checked_sub` of `BigUint`. The difference when `a` is
/// at least `b`, nothing otherwise.
#[verifier::external_body]
fn bytes_difference(a: &Vec<u8>, b: &Vec<u8>) -> (r: Option<Vec<u8>>)
    ensures
        r.is_some() <==> be_value(a@) >= be_value(b@),
        r.is_some() ==> be_value(r.unwrap()@) == be_value(a@) - be_value(b@),
{
    BigUint::from_bytes_be(a.as_slice()).checked_sub(&BigUint::from_bytes_be(b.as_slice())).map(
        |d| d.to_bytes_be(),
    )
}

/// Trusted: `BigUint`'s `*`. The result spells the product of the two numbers.
#[verifier::external_body]
fn bytes_product(a: &Vec<u8>, b: &Vec<u8>) -> (r: Vec<u8>)
    ensures
        be_value(r@) == be_value(a@) * be_value(b@),
{
    (BigUint::from_bytes_be(a.as_slice()) * BigUint::from_bytes_be(b.as_slice())).to_bytes_be()
}

/// Trusted: `BigUint`'s `/`, which rounds towards zero and panics on a zero
/// divisor; the divisor is therefore required to be positive.
#[verifier::external_body]
fn bytes_quotient(a: &Vec<u8>, b: &Vec<u8>) -> (r: Vec<u8>)
    requires
        be_value(b@) > 0,
    ensures
        be_value(r@) == be_value(a@) / be_value(b@),
{
    (BigUint::from_bytes_be(a.as_slice()) / BigUint::from_bytes_be(b.as_slice())).to_bytes_be()
}

/// Trusted: `BigUint::to_str_radix` with radix 10: the decimal digits of the
/// number, without leading zeros, and `0` for zero.
#[verifier::external_body]
fn bytes_to_decimal(a: &Vec<u8>) -> (r: String)
    ensures
        r@ == decimal(be_value(a@)),
{
    BigUint::from_bytes_be(a.as_slice()).to_str_radix(10)
}

/// Trusted: `BigUint`'s `<=`, which orders by numeric value.
#[verifier::external_body]
fn bytes_le(a: &Vec<u8>, b: &Vec<u8>) -> (r: bool)
    ensures
        r == (be_value(a@) <= be_value(b@)),
{
    BigUint::from_bytes_be(a.as_slice()) <= BigUint::from_bytes_be(b.as_slice())
}

/// A non-negative integer without an upper bound.
#[derive(Debug)]
pub struct BigNum {
    bytes: Vec<u8>,
}

impl View for BigNum {
    type V = nat;

    open spec fn view(&self) -> nat {
        be_value(self.bytes())
    }
}

impl BigNum {
    /// The big-endian bytes this number is kept in. They need not be the
    /// shortest that spell it.
    pub closed spec fn bytes(&self) -> Seq<u8> {
        self.bytes@
    }

    /// Zero.
    pub fn zero() -> (r: BigNum)
        ensures
            r@ == 0,
    {
        let r = BigNum { bytes: Vec::new() };
        assert(be_value(r.bytes@) == 0);
        r
    }

    /// The number `v`.
    pub fn from_u64(v: u64) -> (r: BigNum)
        ensures
            r@ == v,
    {
        BigNum { bytes: bytes_of_u64(v) }
    }

    /// The number that `bytes` spell, most significant byte first.
    pub fn from_bytes_be(bytes: Vec<u8>) -> (r: BigNum)
        ensures
            r@ == be_value(bytes@),
    {
        BigNum { bytes }
    }

    /// Big-endian bytes that spell this number.
    pub fn to_bytes_be(&self) -> (r: Vec<u8>)
        ensures
            be_value(r@) == self@,
    {
        self.bytes.clone()
    }

    /// The number in decimal digits.
    pub fn to_dec_string(&self) -> (r: String)
        ensures
            r@ == decimal(self@),
    {
        bytes_to_decimal(&self.bytes)
    }

    /// The number as a `u64`, if it fits.
    pub fn to_u64(&self) -> (r: Option<u64>)
        ensures
            r.is_some() <==> self@ <= u64::MAX,
            r.is_some() ==> r.unwrap() == self@,
    {
        bytes_to_u64(&self.bytes)
    }

    /// The number as exactly `width` bytes, most significant first; nothing
    /// where it does not fit into that many.
    pub fn to_word(&self, width: usize) -> (r: Option<Vec<u8>>)
        ensures
            r.is_some() <==> self@ < pow256(width as nat),
            r.is_some() ==> r.unwrap()@ == be_word(self@, width as nat),
            r.is_some() ==> r.unwrap()@.len() == width && be_value(r.unwrap()@) == self@,
    {
        proof {
            lemma_be_word(self@, width as nat);
        }
        let n: usize = self.bytes.len();
        let mut skip: usize = 0;
        while skip < n && self.bytes[skip] == 0
            invariant
                n == self.bytes@.len(),
                skip <= n,
                forall|j: int| 0 <= j < skip ==> self.bytes@[j] == 0,
            decreases n - skip,
        {
            skip = skip + 1;
        }
        let ghost head = self.bytes@.subrange(0, skip as int);
        let ghost tail = self.bytes@.subrange(skip as int, n as int);
        proof {
            assert(self.bytes@ =~= head + tail);
            assert(head =~= zeros(skip as nat));
            lemma_be_value_concat(head, tail);
            lemma_be_value_zeros(skip as nat);
            assert(be_value(tail) == self@) by (nonlinear_arith)
                requires
                    self@ == be_value(head) * pow256(tail.len()) + be_value(tail),
                    be_value(head) == 0,
            ;
            lemma_be_value_bound(tail);
        }
        let digits: usize = n - skip;
        if digits > width {
            proof {
                lemma_be_value_leading(tail);
                lemma_pow256_grows(width as nat, (digits - 1) as nat);
            }
            return None;
        }
        let pad: usize = width - digits;
        let mut out: Vec<u8> = Vec::new();
        let mut i: usize = 0;
        while i < pad
            invariant
                i <= pad,
                out@ == zeros(i as nat),
            decreases pad - i,
        {
            out.push(0u8);
            assert(out@ =~= zeros((i + 1) as nat));
            i = i + 1;
        }
        let mut j: usize = skip;
        while j < n
            invariant
                n == self.bytes@.len(),
                skip <= j <= n,
                out@ == zeros(pad as nat) + self.bytes@.subrange(skip as int, j as int),
            decreases n - j,
        {
            out.push(self.bytes[j]);
            assert(out@ =~= zeros(pad as nat) + self.bytes@.subrange(skip as int, j + 1));
            j = j + 1;
        }
        proof {
            lemma_be_value_concat(zeros(pad as nat), tail);
            lemma_be_value_zeros(pad as nat);
            assert(be_value(out@) == self@) by (nonlinear_arith)
                requires
                    be_value(out@) == be_value(zeros(pad as nat)) * pow256(tail.len()) + be_value(
                        tail,
                    ),
                    be_value(zeros(pad as nat)) == 0,
                    be_value(tail) == self@,
            ;
            lemma_be_word_of(out@);
            lemma_be_value_bound(out@);
        }
        Some(out)
    }

    /// `self + other`.
    pub fn plus(&self, other: &BigNum) -> (r: BigNum)
        ensures
            r@ == self@ + other@,
    {
        BigNum { bytes: bytes_sum(&self.bytes, &other.bytes) }
    }

    /// `self - other`, or `None` when `other` is the larger.
    pub fn checked_sub(&self, other: &BigNum) -> (r: Option<BigNum>)
        ensures
            r.is_some() <==> self@ >= other@,
            r.is_some() ==> r.unwrap()@ == self@ - other@,
    {
        match bytes_difference(&self.bytes, &other.bytes) {
            Some(bytes) => Some(BigNum { bytes }),
            None => None,
        }
    }

    /// `self * other`.
    pub fn times(&self, other: &BigNum) -> (r: BigNum)
        ensures
            r@ == self@ * other@,
    {
        BigNum { bytes: bytes_product(&self.bytes, &other.bytes) }
    }

    /// `self / other`, rounded down.
    pub fn div_floor(&self, other: &BigNum) -> (r: BigNum)
        requires
            other@ > 0,
        ensures
            r@ == self@ / other@,
    {
        BigNum { bytes: bytes_quotient(&self.bytes, &other.bytes) }
    }

    /// Whether `self <= other`.
    pub fn le(&self, other: &BigNum) -> (r: bool)
        ensures
            r == (self@ <= other@),
    {
        bytes_le(&self.bytes, &other.bytes)
    }

    /// Whether `self < other`.
    pub fn lt(&self, other: &BigNum) -> (r: bool)
        ensures
            r == (self@ < other@),
    {
        !bytes_le(&other.bytes, &self.bytes)
    }

    /// Whether the two numbers are equal.
    pub fn same(&self, other: &BigNum) -> (r: bool)
        ensures
            r == (self@ == other@),
    {
        bytes_le(&self.bytes, &other.bytes) && bytes_le(&other.bytes, &self.bytes)
    }

    /// Whether the number is zero.
    pub fn is_zero(&self) -> (r: bool)
        ensures
            r == (self@ == 0),
    {
        let zero = BigNum::zero();
        bytes_le(&self.bytes, &zero.bytes)
    }

    /// The smaller of the two numbers.
    pub fn min(&self, other: &BigNum) -> (r: BigNum)
        ensures
            r@ == if self@ <= other@ { self@ } else { other@ },
    {
        if self.le(other) {
            self.clone()
        } else {
            other.clone()
        }
    }
}

impl Clone for BigNum {
    fn clone(&self) -> (r: BigNum)
        ensures
            r@ == self@,
            r.bytes() == self.bytes(),
    {
        BigNum { bytes: self.bytes.clone() }
    }
}

} // verus!
