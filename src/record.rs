use vstd::prelude::*;
use crate::decode::{Checked, Cursor, DecodeError, ReadOut};

verus! {

impl ReadOut for () {
    open spec fn decoded_len(s: Seq<u8>) -> Result<nat, DecodeError> {
        Ok(0)
    }

    open spec fn decodes_to(s: Seq<u8>, v: ()) -> bool {
        true
    }

    fn read_out(buf: &mut Cursor) -> (r: Result<(), DecodeError>) {
        assert(buf.rest().skip(0) =~= buf.rest());
        Ok(())
    }
}

/// A record of two fields: the first, then the second from the bytes that
/// follow it. Longer records nest: `(A, B, C)` decodes as `(A, (B, C))`.
impl<A: ReadOut, B: ReadOut> ReadOut for (A, B) {
    open spec fn decoded_len(s: Seq<u8>) -> Result<nat, DecodeError> {
        match A::decoded_len(s) {
            Err(e) => Err(e),
            Ok(n) => match B::decoded_len(s.skip(n as int)) {
                Err(e) => Err(e),
                Ok(m) => Ok(n + m),
            },
        }
    }

    open spec fn decodes_to(s: Seq<u8>, v: (A, B)) -> bool {
        match A::decoded_len(s) {
            Err(_) => false,
            Ok(n) => A::decodes_to(s, v.0) && B::decodes_to(s.skip(n as int), v.1),
        }
    }

    fn read_out(buf: &mut Cursor) -> (r: Result<(A, B), DecodeError>) {
        let ghost s = buf.rest();
        let a = A::read_out(buf)?;
        let b = B::read_out(buf)?;
        assert(buf.rest() =~= s.skip(s.len() - buf.rest().len()));
        Ok((a, b))
    }
}

impl<A: ReadOut, B: ReadOut, C: ReadOut> ReadOut for (A, B, C) {
    open spec fn decoded_len(s: Seq<u8>) -> Result<nat, DecodeError> {
        <(A, (B, C)) as ReadOut>::decoded_len(s)
    }

    open spec fn decodes_to(s: Seq<u8>, v: (A, B, C)) -> bool {
        <(A, (B, C)) as ReadOut>::decodes_to(s, (v.0, (v.1, v.2)))
    }

    fn read_out(buf: &mut Cursor) -> (r: Result<(A, B, C), DecodeError>) {
        let (a, (b, c)) = <(A, (B, C)) as ReadOut>::read_out(buf)?;
        Ok((a, b, c))
    }
}

impl<A: ReadOut, B: ReadOut, C: ReadOut, D: ReadOut> ReadOut for (A, B, C, D) {
    open spec fn decoded_len(s: Seq<u8>) -> Result<nat, DecodeError> {
        <(A, (B, C, D)) as ReadOut>::decoded_len(s)
    }

    open spec fn decodes_to(s: Seq<u8>, v: (A, B, C, D)) -> bool {
        <(A, (B, C, D)) as ReadOut>::decodes_to(s, (v.0, (v.1, v.2, v.3)))
    }

    fn read_out(buf: &mut Cursor) -> (r: Result<(A, B, C, D), DecodeError>) {
        let (a, (b, c, d)) = <(A, (B, C, D)) as ReadOut>::read_out(buf)?;
        Ok((a, b, c, d))
    }
}

impl<A: ReadOut, B: ReadOut, C: ReadOut, D: ReadOut, E: ReadOut> ReadOut for (A, B, C, D, E) {
    open spec fn decoded_len(s: Seq<u8>) -> Result<nat, DecodeError> {
        <(A, (B, C, D, E)) as ReadOut>::decoded_len(s)
    }

    open spec fn decodes_to(s: Seq<u8>, v: (A, B, C, D, E)) -> bool {
        <(A, (B, C, D, E)) as ReadOut>::decodes_to(s, (v.0, (v.1, v.2, v.3, v.4)))
    }

    fn read_out(buf: &mut Cursor) -> (r: Result<(A, B, C, D, E), DecodeError>) {
        let (a, (b, c, d, e)) = <(A, (B, C, D, E)) as ReadOut>::read_out(buf)?;
        Ok((a, b, c, d, e))
    }
}

impl Checked for () {
    open spec fn check_prefix(s: Seq<u8>) -> Result<nat, DecodeError> {
        Ok(0)
    }

    fn check(buf: &mut Cursor) -> (r: Result<(), DecodeError>) {
        assert(buf.rest().skip(0) =~= buf.rest());
        <() as ReadOut>::read_out(buf)
    }
}

} // verus!
