use vstd::prelude::*;

verus! {

/// Why a decode failed.
#[derive(Debug, Clone, Copy, PartialEq, Eq, Structural)]
pub enum DecodeError {
    /// The source ran out in the middle of a field.
    UnexpectedEnd,
    /// A fixed prefix did not match.
    InvalidMagic,
    /// A tagged union met a tag that none of its variants carries.
    UnknownDiscriminant(u8),
    /// A sequence length does not fit in a machine size.
    LengthOverflow,
    /// The compressed region could not be inflated.
    DecompressionFailure,
    /// The blob scanner ran out of bytes without a soft terminator.
    ScanTerminationFailure,
}

/// A byte source read from the front: the bytes and a position in them.
pub struct Cursor {
    data: Vec<u8>,
    pos: usize,
}

impl Cursor {
    #[verifier::type_invariant]
    spec fn inv(&self) -> bool {
        self.pos <= self.data.len()
    }

    /// The bytes not yet consumed.
    pub closed spec fn rest(&self) -> Seq<u8> {
        self.data@.subrange(self.pos as int, self.data@.len() as int)
    }

    /// A source that yields `data` from its first byte on.
    pub fn new(data: Vec<u8>) -> (r: Cursor)
        ensures
            r.rest() == data@,
    {
        let r = Cursor { data, pos: 0 };
        assert(r.rest() =~= r.data@);
        r
    }

    /// How many bytes are left.
    pub fn remaining(&self) -> (r: usize)
        ensures
            r == self.rest().len(),
    {
        proof { use_type_invariant(self); }
        self.data.len() - self.pos
    }

    /// Reads exactly `n` bytes, or fails without consuming anything.
    pub fn read_exact(&mut self, n: usize) -> (r: Result<Vec<u8>, DecodeError>)
        ensures
            n <= old(self).rest().len() ==> r is Ok && r->Ok_0@ == old(self).rest().take(n as int)
                && final(self).rest() == old(self).rest().skip(n as int),
            n > old(self).rest().len() ==> r == Err::<Vec<u8>, DecodeError>(DecodeError::UnexpectedEnd)
                && final(self).rest() == old(self).rest(),
    {
        proof { use_type_invariant(&*self); }
        if n > self.data.len() - self.pos {
            return Err(DecodeError::UnexpectedEnd);
        }
        let mut out: Vec<u8> = Vec::new();
        let start = self.pos;
        let mut i: usize = 0;
        while i < n
            invariant
                start + n <= self.data.len(),
                self.pos == start,
                i <= n,
                out@ == self.data@.subrange(start as int, start + i),
            decreases n - i,
        {
            out.push(self.data[start + i]);
            i = i + 1;
            assert(out@ =~= self.data@.subrange(start as int, start + i));
        }
        self.pos = start + n;
        assert(out@ =~= old(self).rest().take(n as int));
        assert(self.rest() =~= old(self).rest().skip(n as int));
        Ok(out)
    }

    /// Reads one byte.
    pub fn read_byte(&mut self) -> (r: Result<u8, DecodeError>)
        ensures
            old(self).rest().len() == 0 ==> r == Err::<u8, DecodeError>(DecodeError::UnexpectedEnd)
                && final(self).rest() == old(self).rest(),
            old(self).rest().len() > 0 ==> r == Ok::<u8, DecodeError>(old(self).rest()[0])
                && final(self).rest() == old(self).rest().skip(1),
    {
        proof { use_type_invariant(&*self); }
        if self.pos >= self.data.len() {
            return Err(DecodeError::UnexpectedEnd);
        }
        let b = self.data[self.pos];
        self.pos = self.pos + 1;
        assert(self.rest() =~= old(self).rest().skip(1));
        Ok(b)
    }

    /// Consumes and returns every byte left.
    pub fn read_to_end(&mut self) -> (r: Vec<u8>)
        ensures
            r@ == old(self).rest(),
            final(self).rest().len() == 0,
    {
        proof { use_type_invariant(&*self); }
        let n = self.data.len() - self.pos;
        let r = self.read_exact(n);
        match r {
            Ok(v) => v,
            Err(_) => Vec::new(),
        }
    }
}

/// A value that can be decoded from the front of a byte source.
///
/// `decoded_len` says how many bytes a decode of `s` consumes, or which error it
/// ends in; `decodes_to` says which value a successful decode of `s` yields.
pub trait ReadOut: Sized {
    spec fn decoded_len(s: Seq<u8>) -> Result<nat, DecodeError>;

    spec fn decodes_to(s: Seq<u8>, v: Self) -> bool;

    fn read_out(buf: &mut Cursor) -> (r: Result<Self, DecodeError>)
        ensures
            r is Ok <==> Self::decoded_len(old(buf).rest()) is Ok,
            r is Err ==> r->Err_0 == Self::decoded_len(old(buf).rest())->Err_0,
            r is Ok ==> Self::decoded_len(old(buf).rest())->Ok_0 <= old(buf).rest().len()
                && Self::decodes_to(old(buf).rest(), r->Ok_0)
                && final(buf).rest() == old(buf).rest().skip(
                Self::decoded_len(old(buf).rest())->Ok_0 as int,
            ),
    ;
}

/// Decoding that may first test a precondition on the input (a magic
/// prefix, say) before the structural decode of `ReadOut`.
pub trait Checked: ReadOut {
    /// Bytes that the precondition consumes from the front of `s`, or the
    /// error it ends in.
    spec fn check_prefix(s: Seq<u8>) -> Result<nat, DecodeError>;

    fn check(buf: &mut Cursor) -> (r: Result<Self, DecodeError>)
        ensures
            Self::check_prefix(old(buf).rest()) is Err ==> r is Err && r->Err_0 == Self::check_prefix(
                old(buf).rest(),
            )->Err_0,
            Self::check_prefix(old(buf).rest()) is Ok ==> {
                let t = old(buf).rest().skip(Self::check_prefix(old(buf).rest())->Ok_0 as int);
                &&& Self::check_prefix(old(buf).rest())->Ok_0 <= old(buf).rest().len()
                &&& r is Ok <==> Self::decoded_len(t) is Ok
                &&& r is Err ==> r->Err_0 == Self::decoded_len(t)->Err_0
                &&& r is Ok ==> Self::decoded_len(t)->Ok_0 <= t.len() && Self::decodes_to(t, r->Ok_0)
                    && final(buf).rest() == t.skip(Self::decoded_len(t)->Ok_0 as int)
            },
    ;
}

/// Bytes consumed by a checked decode of `s`: the precondition, then the
/// structural decode of what follows it.
pub open spec fn checked_len<T: Checked>(s: Seq<u8>) -> Result<nat, DecodeError> {
    match T::check_prefix(s) {
        Err(e) => Err(e),
        Ok(k) => match T::decoded_len(s.skip(k as int)) {
            Err(e) => Err(e),
            Ok(n) => Ok(k + n),
        },
    }
}

/// A tag byte, then `payload` bytes.
pub open spec fn after_tag(payload: Result<nat, DecodeError>) -> Result<nat, DecodeError> {
    match payload {
        Err(e) => Err(e),
        Ok(n) => Ok(n + 1),
    }
}

} // verus!
