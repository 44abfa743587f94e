use vstd::prelude::*;
use crate::decode::{Checked, Cursor, DecodeError, ReadOut};

verus! {

/// `256` to the power `w`: one more than the largest value of `w` bytes.
pub open spec fn byte_pow(w: nat) -> nat
    decreases w,
{
    if w == 0 { 1 } else { 256 * byte_pow((w - 1) as nat) }
}

/// The unsigned value of `s` read little-endian: first byte least significant.
pub open spec fn le_value(s: Seq<u8>) -> nat
    decreases s.len(),
{
    if s.len() == 0 { 0 } else { s[0] as nat + 256 * le_value(s.drop_first()) }
}

/// The `w` little-endian bytes of `v` (taken modulo `256` to the `w`).
pub open spec fn le_bytes(v: nat, w: nat) -> Seq<u8>
    decreases w,
{
    if w == 0 { Seq::empty() } else { seq![(v % 256) as u8] + le_bytes(v / 256, (w - 1) as nat) }
}

/// The two's complement reading of the `w`-byte pattern `v`.
pub open spec fn signed_value(v: nat, w: nat) -> int {
    if 2 * v >= byte_pow(w) { v - byte_pow(w) } else { v as int }
}

/// The `w`-byte pattern of the signed value `x`.
pub open spec fn signed_pattern(x: int, w: nat) -> nat {
    if x < 0 { (x + byte_pow(w)) as nat } else { x as nat }
}

/// Decoding the scalar of `w` bytes from the front of `s`.
pub open spec fn scalar_len(s: Seq<u8>, w: nat) -> Result<nat, DecodeError> {
    if s.len() >= w { Ok(w) } else { Err(DecodeError::UnexpectedEnd) }
}

pub proof fn lemma_byte_pow_positive(w: nat)
    ensures
        byte_pow(w) >= 1,
    decreases w,
{
    if w > 0 {
        lemma_byte_pow_positive((w - 1) as nat);
    }
}

/// Encoding `v` in `w` little-endian bytes and reading them back gives `v`,
/// whenever `v` fits in `w` bytes.
pub proof fn lemma_le_round_trip(v: nat, w: nat)
    requires
        v < byte_pow(w),
    ensures
        le_bytes(v, w).len() == w,
        le_value(le_bytes(v, w)) == v,
    decreases w,
{
    if w > 0 {
        let q = v / 256;
        let p = byte_pow((w - 1) as nat);
        assert(q < p) by (nonlinear_arith)
            requires
                v < 256 * p,
                q == v / 256,
        ;
        lemma_le_round_trip(q, (w - 1) as nat);
        let s = le_bytes(v, w);
        assert(s.drop_first() =~= le_bytes(q, (w - 1) as nat));
    }
}

impl Cursor {
    /// Reads `w` bytes as one little-endian unsigned value.
    pub fn read_le(&mut self, w: usize) -> (r: Result<u128, DecodeError>)
        requires
            1 <= w <= 16,
        ensures
            w <= old(self).rest().len() ==> r is Ok && r->Ok_0 == le_value(old(self).rest().take(w as int))
                && final(self).rest() == old(self).rest().skip(w as int),
            w > old(self).rest().len() ==> r == Err::<u128, DecodeError>(DecodeError::UnexpectedEnd),
            r is Ok ==> r->Ok_0 < byte_pow(w as nat),
    {
        let b = self.read_exact(w)?;
        let mut acc: u128 = 0;
        let mut i: usize = w;
        proof {
            assert(b@.subrange(w as int, w as int) =~= Seq::<u8>::empty());
            reveal_with_fuel(byte_pow, 17);
        }
        while i > 0
            invariant
                i <= w <= 16,
                b@.len() == w,
                acc == le_value(b@.subrange(i as int, w as int)),
                acc < byte_pow((w - i) as nat),
                byte_pow(16) == 0x1_0000_0000_0000_0000_0000_0000_0000_0000,
            decreases i,
        {
            let ghost k = (w - i) as nat;
            proof {
                lemma_byte_pow_le(k + 1, 16);
            }
            let x = b[i - 1];
            assert(acc * 256 + x < byte_pow(k) * 256) by (nonlinear_arith)
                requires
                    acc < byte_pow(k),
                    x < 256,
            ;
            acc = acc * 256 + x as u128;
            let ghost t = b@.subrange(i - 1, w as int);
            assert(t.drop_first() =~= b@.subrange(i as int, w as int));
            i = i - 1;
        }
        assert(b@.subrange(0, w as int) =~= b@);
        Ok(acc)
    }
}

pub proof fn lemma_byte_pow_le(a: nat, b: nat)
    requires
        a <= b,
    ensures
        byte_pow(a) <= byte_pow(b),
    decreases b,
{
    if a < b {
        lemma_byte_pow_le(a, (b - 1) as nat);
        lemma_byte_pow_positive((b - 1) as nat);
    }
}

/// Every scalar width from one to sixteen bytes round-trips: the `w`
/// little-endian bytes of an unsigned `v` that fits decode back to `v`,
/// whatever follows them, consuming exactly `w` bytes.
pub proof fn lemma_scalar_round_trip(v: nat, w: nat, rest: Seq<u8>)
    requires
        1 <= w <= 16,
        v < byte_pow(w),
    ensures
        scalar_len(le_bytes(v, w) + rest, w) == Ok::<nat, DecodeError>(w),
        le_value((le_bytes(v, w) + rest).take(w as int)) == v,
{
    lemma_le_round_trip(v, w);
    assert((le_bytes(v, w) + rest).take(w as int) =~= le_bytes(v, w));
}

/// The same for signed values: the two's complement bytes of an `x` in range
/// decode back to `x`.
pub proof fn lemma_signed_round_trip(x: int, w: nat, rest: Seq<u8>)
    requires
        1 <= w <= 16,
        -byte_pow(w) <= 2 * x < byte_pow(w),
    ensures
        scalar_len(le_bytes(signed_pattern(x, w), w) + rest, w) == Ok::<nat, DecodeError>(w),
        signed_value(le_value((le_bytes(signed_pattern(x, w), w) + rest).take(w as int)), w) == x,
{
    lemma_scalar_round_trip(signed_pattern(x, w), w, rest);
}

/// Each scalar type decodes its own little-endian bytes back to itself,
/// consuming exactly its width, whatever follows.
pub proof fn lemma_scalars_round_trip(
    rest: Seq<u8>,
    a: u8,
    b: u16,
    c: u32,
    d: u64,
    e: u128,
    f: i8,
    g: i16,
    h: i32,
    i: i64,
    j: i128,
)
    ensures
        u8::decoded_len(le_bytes(a as nat, 1) + rest) == Ok::<nat, DecodeError>(1),
        u8::decodes_to(le_bytes(a as nat, 1) + rest, a),
        u16::decoded_len(le_bytes(b as nat, 2) + rest) == Ok::<nat, DecodeError>(2),
        u16::decodes_to(le_bytes(b as nat, 2) + rest, b),
        u32::decoded_len(le_bytes(c as nat, 4) + rest) == Ok::<nat, DecodeError>(4),
        u32::decodes_to(le_bytes(c as nat, 4) + rest, c),
        u64::decoded_len(le_bytes(d as nat, 8) + rest) == Ok::<nat, DecodeError>(8),
        u64::decodes_to(le_bytes(d as nat, 8) + rest, d),
        u128::decoded_len(le_bytes(e as nat, 16) + rest) == Ok::<nat, DecodeError>(16),
        u128::decodes_to(le_bytes(e as nat, 16) + rest, e),
        i8::decoded_len(le_bytes(signed_pattern(f as int, 1), 1) + rest) == Ok::<nat, DecodeError>(1),
        i8::decodes_to(le_bytes(signed_pattern(f as int, 1), 1) + rest, f),
        i16::decoded_len(le_bytes(signed_pattern(g as int, 2), 2) + rest) == Ok::<nat, DecodeError>(2),
        i16::decodes_to(le_bytes(signed_pattern(g as int, 2), 2) + rest, g),
        i32::decoded_len(le_bytes(signed_pattern(h as int, 4), 4) + rest) == Ok::<nat, DecodeError>(4),
        i32::decodes_to(le_bytes(signed_pattern(h as int, 4), 4) + rest, h),
        i64::decoded_len(le_bytes(signed_pattern(i as int, 8), 8) + rest) == Ok::<nat, DecodeError>(8),
        i64::decodes_to(le_bytes(signed_pattern(i as int, 8), 8) + rest, i),
        i128::decoded_len(le_bytes(signed_pattern(j as int, 16), 16) + rest) == Ok::<nat, DecodeError>(16),
        i128::decodes_to(le_bytes(signed_pattern(j as int, 16), 16) + rest, j),
{
    reveal_with_fuel(byte_pow, 17);
    lemma_scalar_round_trip(a as nat, 1, rest);
    reveal_with_fuel(le_value, 2);
    assert((le_bytes(a as nat, 1) + rest).take(1) =~= seq![(le_bytes(a as nat, 1) + rest)[0]]);
    assert(seq![(le_bytes(a as nat, 1) + rest)[0]].drop_first() =~= Seq::<u8>::empty());
    lemma_scalar_round_trip(b as nat, 2, rest);
    lemma_scalar_round_trip(c as nat, 4, rest);
    lemma_scalar_round_trip(d as nat, 8, rest);
    lemma_scalar_round_trip(e as nat, 16, rest);
    lemma_signed_round_trip(f as int, 1, rest);
    lemma_signed_round_trip(g as int, 2, rest);
    lemma_signed_round_trip(h as int, 4, rest);
    lemma_signed_round_trip(i as int, 8, rest);
    lemma_signed_round_trip(j as int, 16, rest);
}

impl ReadOut for u8 {
    open spec fn decoded_len(s: Seq<u8>) -> Result<nat, DecodeError> {
        if s.len() >= 1 { Ok(1) } else { Err(DecodeError::UnexpectedEnd) }
    }

    open spec fn decodes_to(s: Seq<u8>, v: u8) -> bool {
        v == s[0]
    }

    fn read_out(buf: &mut Cursor) -> (r: Result<u8, DecodeError>) {
        let b = buf.read_byte()?;
        Ok(b)
    }
}

impl ReadOut for u16 {
    open spec fn decoded_len(s: Seq<u8>) -> Result<nat, DecodeError> {
        scalar_len(s, 2)
    }

    open spec fn decodes_to(s: Seq<u8>, v: u16) -> bool {
        v == le_value(s.take(2))
    }

    fn read_out(buf: &mut Cursor) -> (r: Result<u16, DecodeError>) {
        proof { reveal_with_fuel(byte_pow, 3); }
        let v = buf.read_le(2)?;
        Ok(v as u16)
    }
}

impl ReadOut for u32 {
    open spec fn decoded_len(s: Seq<u8>) -> Result<nat, DecodeError> {
        scalar_len(s, 4)
    }

    open spec fn decodes_to(s: Seq<u8>, v: u32) -> bool {
        v == le_value(s.take(4))
    }

    fn read_out(buf: &mut Cursor) -> (r: Result<u32, DecodeError>) {
        proof { reveal_with_fuel(byte_pow, 5); }
        let v = buf.read_le(4)?;
        Ok(v as u32)
    }
}

impl ReadOut for u64 {
    open spec fn decoded_len(s: Seq<u8>) -> Result<nat, DecodeError> {
        scalar_len(s, 8)
    }

    open spec fn decodes_to(s: Seq<u8>, v: u64) -> bool {
        v == le_value(s.take(8))
    }

    fn read_out(buf: &mut Cursor) -> (r: Result<u64, DecodeError>) {
        proof { reveal_with_fuel(byte_pow, 9); }
        let v = buf.read_le(8)?;
        Ok(v as u64)
    }
}

impl ReadOut for u128 {
    open spec fn decoded_len(s: Seq<u8>) -> Result<nat, DecodeError> {
        scalar_len(s, 16)
    }

    open spec fn decodes_to(s: Seq<u8>, v: u128) -> bool {
        v == le_value(s.take(16))
    }

    fn read_out(buf: &mut Cursor) -> (r: Result<u128, DecodeError>) {
        proof { reveal_with_fuel(byte_pow, 17); }
        let v = buf.read_le(16)?;
        Ok(v as u128)
    }
}

impl ReadOut for i8 {
    open spec fn decoded_len(s: Seq<u8>) -> Result<nat, DecodeError> {
        scalar_len(s, 1)
    }

    open spec fn decodes_to(s: Seq<u8>, v: i8) -> bool {
        v == signed_value(le_value(s.take(1)), 1)
    }

    fn read_out(buf: &mut Cursor) -> (r: Result<i8, DecodeError>) {
        proof { reveal_with_fuel(byte_pow, 2); }
        let v = buf.read_le(1)?;
        if v >= 0x80 {
            Ok((v - 0x80) as i8 - 0x7f - 1)
        } else {
            Ok(v as i8)
        }
    }
}

impl ReadOut for i16 {
    open spec fn decoded_len(s: Seq<u8>) -> Result<nat, DecodeError> {
        scalar_len(s, 2)
    }

    open spec fn decodes_to(s: Seq<u8>, v: i16) -> bool {
        v == signed_value(le_value(s.take(2)), 2)
    }

    fn read_out(buf: &mut Cursor) -> (r: Result<i16, DecodeError>) {
        proof { reveal_with_fuel(byte_pow, 3); }
        let v = buf.read_le(2)?;
        if v >= 0x8000 {
            Ok((v - 0x8000) as i16 - 0x7fff - 1)
        } else {
            Ok(v as i16)
        }
    }
}

impl ReadOut for i32 {
    open spec fn decoded_len(s: Seq<u8>) -> Result<nat, DecodeError> {
        scalar_len(s, 4)
    }

    open spec fn decodes_to(s: Seq<u8>, v: i32) -> bool {
        v == signed_value(le_value(s.take(4)), 4)
    }

    fn read_out(buf: &mut Cursor) -> (r: Result<i32, DecodeError>) {
        proof { reveal_with_fuel(byte_pow, 5); }
        let v = buf.read_le(4)?;
        if v >= 0x80000000 {
            Ok((v - 0x80000000) as i32 - 0x7fffffff - 1)
        } else {
            Ok(v as i32)
        }
    }
}

impl ReadOut for i64 {
    open spec fn decoded_len(s: Seq<u8>) -> Result<nat, DecodeError> {
        scalar_len(s, 8)
    }

    open spec fn decodes_to(s: Seq<u8>, v: i64) -> bool {
        v == signed_value(le_value(s.take(8)), 8)
    }

    fn read_out(buf: &mut Cursor) -> (r: Result<i64, DecodeError>) {
        proof { reveal_with_fuel(byte_pow, 9); }
        let v = buf.read_le(8)?;
        if v >= 0x8000000000000000 {
            Ok((v - 0x8000000000000000) as i64 - 0x7fffffffffffffff - 1)
        } else {
            Ok(v as i64)
        }
    }
}

impl ReadOut for i128 {
    open spec fn decoded_len(s: Seq<u8>) -> Result<nat, DecodeError> {
        scalar_len(s, 16)
    }

    open spec fn decodes_to(s: Seq<u8>, v: i128) -> bool {
        v == signed_value(le_value(s.take(16)), 16)
    }

    fn read_out(buf: &mut Cursor) -> (r: Result<i128, DecodeError>) {
        proof { reveal_with_fuel(byte_pow, 17); }
        let v = buf.read_le(16)?;
        if v >= 0x80000000000000000000000000000000 {
            Ok((v - 0x80000000000000000000000000000000) as i128 - 0x7fffffffffffffffffffffffffffffff - 1)
        } else {
            Ok(v as i128)
        }
    }
}

impl Checked for u8 {
    open spec fn check_prefix(s: Seq<u8>) -> Result<nat, DecodeError> {
        Ok(0)
    }

    fn check(buf: &mut Cursor) -> (r: Result<u8, DecodeError>) {
        assert(buf.rest().skip(0) =~= buf.rest());
        <u8 as ReadOut>::read_out(buf)
    }
}

impl Checked for u16 {
    open spec fn check_prefix(s: Seq<u8>) -> Result<nat, DecodeError> {
        Ok(0)
    }

    fn check(buf: &mut Cursor) -> (r: Result<u16, DecodeError>) {
        assert(buf.rest().skip(0) =~= buf.rest());
        <u16 as ReadOut>::read_out(buf)
    }
}

impl Checked for u32 {
    open spec fn check_prefix(s: Seq<u8>) -> Result<nat, DecodeError> {
        Ok(0)
    }

    fn check(buf: &mut Cursor) -> (r: Result<u32, DecodeError>) {
        assert(buf.rest().skip(0) =~= buf.rest());
        <u32 as ReadOut>::read_out(buf)
    }
}

impl Checked for u64 {
    open spec fn check_prefix(s: Seq<u8>) -> Result<nat, DecodeError> {
        Ok(0)
    }

    fn check(buf: &mut Cursor) -> (r: Result<u64, DecodeError>) {
        assert(buf.rest().skip(0) =~= buf.rest());
        <u64 as ReadOut>::read_out(buf)
    }
}

impl Checked for u128 {
    open spec fn check_prefix(s: Seq<u8>) -> Result<nat, DecodeError> {
        Ok(0)
    }

    fn check(buf: &mut Cursor) -> (r: Result<u128, DecodeError>) {
        assert(buf.rest().skip(0) =~= buf.rest());
        <u128 as ReadOut>::read_out(buf)
    }
}

impl Checked for i8 {
    open spec fn check_prefix(s: Seq<u8>) -> Result<nat, DecodeError> {
        Ok(0)
    }

    fn check(buf: &mut Cursor) -> (r: Result<i8, DecodeError>) {
        assert(buf.rest().skip(0) =~= buf.rest());
        <i8 as ReadOut>::read_out(buf)
    }
}

impl Checked for i16 {
    open spec fn check_prefix(s: Seq<u8>) -> Result<nat, DecodeError> {
        Ok(0)
    }

    fn check(buf: &mut Cursor) -> (r: Result<i16, DecodeError>) {
        assert(buf.rest().skip(0) =~= buf.rest());
        <i16 as ReadOut>::read_out(buf)
    }
}

impl Checked for i32 {
    open spec fn check_prefix(s: Seq<u8>) -> Result<nat, DecodeError> {
        Ok(0)
    }

    fn check(buf: &mut Cursor) -> (r: Result<i32, DecodeError>) {
        assert(buf.rest().skip(0) =~= buf.rest());
        <i32 as ReadOut>::read_out(buf)
    }
}

impl Checked for i64 {
    open spec fn check_prefix(s: Seq<u8>) -> Result<nat, DecodeError> {
        Ok(0)
    }

    fn check(buf: &mut Cursor) -> (r: Result<i64, DecodeError>) {
        assert(buf.rest().skip(0) =~= buf.rest());
        <i64 as ReadOut>::read_out(buf)
    }
}

impl Checked for i128 {
    open spec fn check_prefix(s: Seq<u8>) -> Result<nat, DecodeError> {
        Ok(0)
    }

    fn check(buf: &mut Cursor) -> (r: Result<i128, DecodeError>) {
        assert(buf.rest().skip(0) =~= buf.rest());
        <i128 as ReadOut>::read_out(buf)
    }
}

} // verus!
