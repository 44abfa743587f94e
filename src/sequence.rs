use vstd::prelude::*;
use crate::decode::{Checked, Cursor, DecodeError, ReadOut};
use crate::scalar::{le_value, scalar_len};

verus! {

/// Decoding `c` values of `T` one after another from the front of `s`: the
/// bytes consumed, or the first error.
pub open spec fn many_len<T: ReadOut>(s: Seq<u8>, c: nat) -> Result<nat, DecodeError>
    decreases c,
{
    if c == 0 {
        Ok(0)
    } else {
        match many_len::<T>(s, (c - 1) as nat) {
            Err(e) => Err(e),
            Ok(m) => match T::decoded_len(s.skip(m as int)) {
                Err(e) => Err(e),
                Ok(n) => Ok(m + n),
            },
        }
    }
}

/// `items` are the values decoded one after another from the front of `s`, in order.
pub open spec fn many_decode_to<T: ReadOut>(s: Seq<u8>, items: Seq<T>) -> bool
    decreases items.len(),
{
    if items.len() == 0 {
        true
    } else {
        match many_len::<T>(s, (items.len() - 1) as nat) {
            Err(_) => false,
            Ok(m) => many_decode_to(s, items.drop_last()) && T::decodes_to(
                s.skip(m as int),
                items.last(),
            ),
        }
    }
}

proof fn lemma_many_err<T: ReadOut>(s: Seq<u8>, i: nat, c: nat)
    requires
        i <= c,
        many_len::<T>(s, i) is Err,
    ensures
        many_len::<T>(s, c) == many_len::<T>(s, i),
    decreases c,
{
    if i < c {
        lemma_many_err::<T>(s, i, (c - 1) as nat);
    }
}

/// Decodes `count` values of `T` in order; the first failure ends the decode
/// and no partial result is returned.
pub fn read_many<T: ReadOut>(buf: &mut Cursor, count: usize) -> (r: Result<Vec<T>, DecodeError>)
    ensures
        r is Ok <==> many_len::<T>(old(buf).rest(), count as nat) is Ok,
        r is Err ==> r->Err_0 == many_len::<T>(old(buf).rest(), count as nat)->Err_0,
        r is Ok ==> r->Ok_0@.len() == count && many_decode_to(old(buf).rest(), r->Ok_0@)
            && many_len::<T>(old(buf).rest(), count as nat)->Ok_0 <= old(buf).rest().len()
            && final(buf).rest() == old(buf).rest().skip(
            many_len::<T>(old(buf).rest(), count as nat)->Ok_0 as int,
        ),
{
    let ghost s = buf.rest();
    let mut out: Vec<T> = Vec::new();
    let mut i: usize = 0;
    assert(s.skip(0) =~= s);
    while i < count
        invariant
            s == old(buf).rest(),
            i <= count,
            out@.len() == i,
            many_len::<T>(s, i as nat) is Ok,
            many_len::<T>(s, i as nat)->Ok_0 <= s.len(),
            buf.rest() == s.skip(many_len::<T>(s, i as nat)->Ok_0 as int),
            many_decode_to(s, out@),
        decreases count - i,
    {
        let ghost m = many_len::<T>(s, i as nat)->Ok_0;
        let x = match T::read_out(buf) {
            Ok(x) => x,
            Err(e) => {
                proof {
                    assert(many_len::<T>(s, (i + 1) as nat) == Err::<nat, DecodeError>(e));
                    lemma_many_err::<T>(s, (i + 1) as nat, count as nat);
                }
                return Err(e);
            },
        };
        let ghost prev = out@;
        out.push(x);
        proof {
            assert(out@.drop_last() =~= prev);
            let n = T::decoded_len(s.skip(m as int))->Ok_0;
            assert(buf.rest() =~= s.skip((m + n) as int));
        }
        i = i + 1;
    }
    Ok(out)
}

/// `C` values of `T`, decoded one after another with nothing in front.
#[derive(Debug)]
pub struct FixedArray<T, const C: usize> {
    items: Vec<T>,
}

impl<T, const C: usize> View for FixedArray<T, C> {
    type V = Seq<T>;

    closed spec fn view(&self) -> Seq<T> {
        self.items@
    }
}

impl<T, const C: usize> FixedArray<T, C> {
    /// The values, in order.
    pub fn as_slice(&self) -> (r: &[T])
        ensures
            r@ == self@,
    {
        self.items.as_slice()
    }
}

impl<T: ReadOut, const C: usize> ReadOut for FixedArray<T, C> {
    open spec fn decoded_len(s: Seq<u8>) -> Result<nat, DecodeError> {
        many_len::<T>(s, C as nat)
    }

    open spec fn decodes_to(s: Seq<u8>, v: FixedArray<T, C>) -> bool {
        v@.len() == C && many_decode_to(s, v@)
    }

    fn read_out(buf: &mut Cursor) -> (r: Result<FixedArray<T, C>, DecodeError>) {
        let items = read_many::<T>(buf, C)?;
        Ok(FixedArray { items })
    }
}

/// An integer that can stand as the length in front of a sequence.
pub trait LengthField: ReadOut {
    /// The count that the length field at the front of `s` states.
    spec fn count_of(s: Seq<u8>) -> nat;

    /// Decodes the length field and widens it to a machine size.
    fn read_count(buf: &mut Cursor) -> (r: Result<usize, DecodeError>)
        ensures
            Self::decoded_len(old(buf).rest()) is Err ==> r == Err::<usize, DecodeError>(
                Self::decoded_len(old(buf).rest())->Err_0,
            ),
            Self::decoded_len(old(buf).rest()) is Ok && Self::count_of(old(buf).rest()) > usize::MAX
                ==> r == Err::<usize, DecodeError>(DecodeError::LengthOverflow),
            Self::decoded_len(old(buf).rest()) is Ok && Self::count_of(old(buf).rest()) <= usize::MAX
                ==> r == Ok::<usize, DecodeError>(Self::count_of(old(buf).rest()) as usize)
                && Self::decoded_len(old(buf).rest())->Ok_0 <= old(buf).rest().len()
                && final(buf).rest() == old(buf).rest().skip(
                Self::decoded_len(old(buf).rest())->Ok_0 as int,
            ),
    ;
}

impl LengthField for u8 {
    open spec fn count_of(s: Seq<u8>) -> nat {
        s[0] as nat
    }

    fn read_count(buf: &mut Cursor) -> (r: Result<usize, DecodeError>) {
        let v = u8::read_out(buf)?;
        Ok(v as usize)
    }
}

impl LengthField for u16 {
    open spec fn count_of(s: Seq<u8>) -> nat {
        le_value(s.take(2))
    }

    fn read_count(buf: &mut Cursor) -> (r: Result<usize, DecodeError>) {
        let v = u16::read_out(buf)?;
        Ok(v as usize)
    }
}

impl LengthField for u32 {
    open spec fn count_of(s: Seq<u8>) -> nat {
        le_value(s.take(4))
    }

    fn read_count(buf: &mut Cursor) -> (r: Result<usize, DecodeError>) {
        let v = u32::read_out(buf)?;
        if v as u128 > usize::MAX as u128 {
            return Err(DecodeError::LengthOverflow);
        }
        Ok(v as usize)
    }
}

impl LengthField for u64 {
    open spec fn count_of(s: Seq<u8>) -> nat {
        le_value(s.take(8))
    }

    fn read_count(buf: &mut Cursor) -> (r: Result<usize, DecodeError>) {
        let v = u64::read_out(buf)?;
        if v as u128 > usize::MAX as u128 {
            return Err(DecodeError::LengthOverflow);
        }
        Ok(v as usize)
    }
}

/// A sequence of `T` preceded by its count, written as an `L`.
#[derive(Debug)]
pub struct SizedVec<L, T> {
    items: Vec<T>,
    width: core::marker::PhantomData<L>,
}

impl<L, T> View for SizedVec<L, T> {
    type V = Seq<T>;

    closed spec fn view(&self) -> Seq<T> {
        self.items@
    }
}

impl<L, T> SizedVec<L, T> {
    /// The elements, in order.
    pub fn as_slice(&self) -> (r: &[T])
        ensures
            r@ == self@,
    {
        self.items.as_slice()
    }

    /// How many elements there are.
    pub fn len(&self) -> (r: usize)
        ensures
            r == self@.len(),
    {
        self.items.len()
    }
}

impl<L: LengthField, T: ReadOut> ReadOut for SizedVec<L, T> {
    open spec fn decoded_len(s: Seq<u8>) -> Result<nat, DecodeError> {
        match L::decoded_len(s) {
            Err(e) => Err(e),
            Ok(n) => if L::count_of(s) > usize::MAX {
                Err(DecodeError::LengthOverflow)
            } else {
                match many_len::<T>(s.skip(n as int), L::count_of(s)) {
                    Err(e) => Err(e),
                    Ok(m) => Ok(n + m),
                }
            },
        }
    }

    open spec fn decodes_to(s: Seq<u8>, v: SizedVec<L, T>) -> bool {
        &&& L::decoded_len(s) is Ok
        &&& v@.len() == L::count_of(s)
        &&& many_decode_to(s.skip(L::decoded_len(s)->Ok_0 as int), v@)
    }

    fn read_out(buf: &mut Cursor) -> (r: Result<SizedVec<L, T>, DecodeError>) {
        let ghost s = buf.rest();
        let count = L::read_count(buf)?;
        let items = read_many::<T>(buf, count)?;
        assert(buf.rest() =~= s.skip(s.len() - buf.rest().len()));
        Ok(SizedVec { items, width: core::marker::PhantomData })
    }
}

impl<L: LengthField, T: ReadOut> Checked for SizedVec<L, T> {
    open spec fn check_prefix(s: Seq<u8>) -> Result<nat, DecodeError> {
        Ok(0)
    }

    fn check(buf: &mut Cursor) -> (r: Result<SizedVec<L, T>, DecodeError>) {
        assert(buf.rest().skip(0) =~= buf.rest());
        SizedVec::<L, T>::read_out(buf)
    }
}

impl<T: ReadOut, const C: usize> Checked for FixedArray<T, C> {
    open spec fn check_prefix(s: Seq<u8>) -> Result<nat, DecodeError> {
        Ok(0)
    }

    fn check(buf: &mut Cursor) -> (r: Result<FixedArray<T, C>, DecodeError>) {
        assert(buf.rest().skip(0) =~= buf.rest());
        <FixedArray<T, C> as ReadOut>::read_out(buf)
    }
}

/// `T` always decodes from exactly `w` bytes, failing only when fewer are left.
pub open spec fn fixed_width<T: ReadOut>(w: nat) -> bool {
    forall|s: Seq<u8>| #[trigger] T::decoded_len(s) == scalar_len(s, w)
}

/// `c` values of a type of fixed width `w` consume exactly `c * w` bytes when
/// that many are there.
pub proof fn lemma_many_width<T: ReadOut>(s: Seq<u8>, c: nat, w: nat)
    requires
        fixed_width::<T>(w),
        c * w <= s.len(),
    ensures
        many_len::<T>(s, c) == Ok::<nat, DecodeError>(c * w),
    decreases c,
{
    if c == 0 {
        assert(c * w == 0) by (nonlinear_arith)
            requires
                c == 0,
        ;
    } else {
        assert((c - 1) * w + w == c * w) by (nonlinear_arith);
        assert((c - 1) * w <= c * w) by (nonlinear_arith);
        lemma_many_width::<T>(s, (c - 1) as nat, w);
        let m = ((c - 1) * w) as nat;
        assert(m + w == c * w);
        assert(s.skip(m as int).len() >= w);
        assert(T::decoded_len(s.skip(m as int)) == Ok::<nat, DecodeError>(w));
        assert(many_len::<T>(s, (c - 1) as nat) == Ok::<nat, DecodeError>(m));
    }
}

/// Decoded values keep the order of their bytes: with elements of fixed width
/// `w`, the `i`-th value decodes from the bytes at `i * w`.
pub proof fn lemma_many_order<T: ReadOut>(s: Seq<u8>, items: Seq<T>, w: nat, i: int)
    requires
        fixed_width::<T>(w),
        items.len() * w <= s.len(),
        many_decode_to(s, items),
        0 <= i < items.len(),
    ensures
        T::decodes_to(s.skip(i * w), items[i]),
    decreases items.len(),
{
    let k = (items.len() - 1) as nat;
    assert(k * w <= items.len() * w) by (nonlinear_arith)
        requires
            k <= items.len(),
    ;
    lemma_many_width::<T>(s, k, w);
    if i < k {
        lemma_many_order::<T>(s, items.drop_last(), w, i);
    }
}

/// An array of `C` elements of fixed width `w` consumes exactly `C * w` bytes,
/// and its `i`-th element is decoded from the bytes at `i * w`.
pub proof fn lemma_array_width<T: ReadOut, const C: usize>(s: Seq<u8>, w: nat)
    requires
        fixed_width::<T>(w),
        C * w <= s.len(),
    ensures
        FixedArray::<T, C>::decoded_len(s) == Ok::<nat, DecodeError>((C * w) as nat),
        forall|v: FixedArray<T, C>, i: int|
            FixedArray::<T, C>::decodes_to(s, v) && 0 <= i < C ==> T::decodes_to(
                s.skip(i * w),
                #[trigger] v@[i],
            ),
{
    lemma_many_width::<T>(s, C as nat, w);
    assert(C as nat * w == C * w);
    assert forall|v: FixedArray<T, C>, i: int|
        FixedArray::<T, C>::decodes_to(s, v) && 0 <= i < C implies T::decodes_to(
        s.skip(i * w),
        #[trigger] v@[i],
    ) by {
        lemma_many_order::<T>(s, v@, w, i);
    }
}

/// A sequence whose length field states zero is empty and consumes the length
/// field alone.
pub proof fn lemma_empty_sequence<L: LengthField, T: ReadOut>(s: Seq<u8>)
    requires
        L::decoded_len(s) is Ok,
        L::count_of(s) == 0,
    ensures
        SizedVec::<L, T>::decoded_len(s) == L::decoded_len(s),
        forall|v: SizedVec<L, T>| #[trigger] SizedVec::<L, T>::decodes_to(s, v) ==> v@.len() == 0,
{
}

} // verus!
