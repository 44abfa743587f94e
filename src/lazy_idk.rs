use vstd::prelude::*;
use crate::decode::{Checked, Cursor, DecodeError, ReadOut};

verus! {

/// Width of the window that the blob scanner tests.
pub const WINDOW: usize = 13;

/// Sentinel that opens an accepted window.
pub const SENTINEL: u8 = 0x11;

/// Terminator that closes an accepted window.
pub const TERMINATOR: u8 = 0x14;

/// A last byte that ends the blob cleanly when the source runs out.
pub const SOFT_TERMINATOR: u8 = 0x15;

/// A 13-byte window ends a blob: sentinel first, terminator last, and the
/// seven bytes after the sentinel each within its own small range.
pub open spec fn window_accepts(w: Seq<u8>) -> bool {
    &&& w[0] == SENTINEL
    &&& w[12] == TERMINATOR
    &&& w[1] <= 1 && w[2] <= 1 && w[3] <= 1 && w[4] <= 1
    &&& w[5] <= 2
    &&& w[6] <= 3 && w[7] <= 3
}

/// Where the scan of `s` ends, with `k` bytes of it taken so far.
pub open spec fn scan_end(s: Seq<u8>, k: nat) -> Result<nat, DecodeError>
    recommends
        WINDOW <= k <= s.len(),
    decreases s.len() - k,
{
    if window_accepts(s.subrange(k - WINDOW, k as int)) {
        Ok(k)
    } else if k >= s.len() {
        if s[k - 1] == SOFT_TERMINATOR {
            Ok(k)
        } else {
            Err(DecodeError::ScanTerminationFailure)
        }
    } else {
        scan_end(s, k + 1)
    }
}

/// A blob whose end is not stored but found by scanning.
#[derive(Debug)]
pub struct LazyIdk(Vec<u8>);

impl View for LazyIdk {
    type V = Seq<u8>;

    closed spec fn view(&self) -> Seq<u8> {
        self.0@
    }
}

impl LazyIdk {
    /// The byte at `i`.
    pub fn get(&self, i: usize) -> (r: u8)
        requires
            i < self@.len(),
        ensures
            r == self@[i as int],
    {
        self.0[i]
    }

    /// How many bytes the blob holds.
    pub fn len(&self) -> (r: usize)
        ensures
            r == self@.len(),
    {
        self.0.len()
    }

    /// The blob's bytes.
    pub fn as_slice(&self) -> (r: &[u8])
        ensures
            r@ == self@,
    {
        self.0.as_slice()
    }
}

/// Tests whether the 13 bytes of `acc` from `start` on end a blob.
pub fn window_ends_blob(acc: &[u8], start: usize) -> (r: bool)
    requires
        start + WINDOW <= acc@.len(),
    ensures
        r == window_accepts(acc@.subrange(start as int, start + WINDOW)),
{
    let a = acc[start];
    let b = acc[start + 1];
    let c = acc[start + 2];
    let d = acc[start + 3];
    let e = acc[start + 4];
    let f = acc[start + 5];
    let g = acc[start + 6];
    let h = acc[start + 7];
    let l = acc[start + 12];
    if a != SENTINEL || l != TERMINATOR {
        return false;
    }
    b <= 1 && c <= 1 && d <= 1 && e <= 1 && f <= 2 && g <= 3 && h <= 3
}

impl ReadOut for LazyIdk {
    open spec fn decoded_len(s: Seq<u8>) -> Result<nat, DecodeError> {
        if s.len() < WINDOW {
            Ok(s.len())
        } else {
            scan_end(s, WINDOW as nat)
        }
    }

    open spec fn decodes_to(s: Seq<u8>, v: LazyIdk) -> bool {
        v@ == s.take(Self::decoded_len(s)->Ok_0 as int)
    }

    fn read_out(buf: &mut Cursor) -> (r: Result<LazyIdk, DecodeError>) {
        let ghost s = buf.rest();
        let mut acc = match buf.read_exact(WINDOW) {
            Ok(v) => v,
            Err(_) => {
                let v = buf.read_to_end();
                assert(s.take(s.len() as int) =~= s);
                assert(buf.rest() =~= s.skip(s.len() as int));
                return Ok(LazyIdk(v));
            },
        };
        loop
            invariant
                s == old(buf).rest(),
                WINDOW <= acc@.len() <= s.len(),
                acc@ == s.take(acc@.len() as int),
                buf.rest() == s.skip(acc@.len() as int),
                scan_end(s, WINDOW as nat) == scan_end(s, acc@.len() as nat),
            decreases s.len() - acc@.len(),
        {
            let n = acc.len();
            assert(acc@.subrange(n - WINDOW, n as int) =~= s.subrange(n - WINDOW, n as int));
            if window_ends_blob(acc.as_slice(), n - WINDOW) {
                return Ok(LazyIdk(acc));
            }
            match buf.read_byte() {
                Ok(b) => {
                    acc.push(b);
                    assert(acc@ =~= s.take(acc@.len() as int));
                    assert(buf.rest() =~= s.skip(acc@.len() as int));
                },
                Err(_) => {
                    if acc[n - 1] == SOFT_TERMINATOR {
                        return Ok(LazyIdk(acc));
                    }
                    return Err(DecodeError::ScanTerminationFailure);
                },
            }
        }
    }
}

impl Checked for LazyIdk {
    open spec fn check_prefix(s: Seq<u8>) -> Result<nat, DecodeError> {
        Ok(0)
    }

    fn check(buf: &mut Cursor) -> (r: Result<LazyIdk, DecodeError>) {
        assert(buf.rest().skip(0) =~= buf.rest());
        LazyIdk::read_out(buf)
    }
}

} // verus!
