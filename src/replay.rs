use vstd::prelude::*;
use crate::decode::{after_tag, checked_len, Checked, Cursor, DecodeError, ReadOut};
use crate::lazy_idk::LazyIdk;
use crate::sequence::{FixedArray, SizedVec};

verus! {

/// A point in space; each coordinate is the bit pattern of an `f32`.
#[derive(Debug, Clone, Copy)]
pub struct Position {
    pub x: u32,
    pub y: u32,
    pub z: u32,
}

impl ReadOut for Position {
    open spec fn decoded_len(s: Seq<u8>) -> Result<nat, DecodeError> {
        <(u32, u32, u32) as ReadOut>::decoded_len(s)
    }

    open spec fn decodes_to(s: Seq<u8>, v: Position) -> bool {
        <(u32, u32, u32) as ReadOut>::decodes_to(s, (v.x, v.y, v.z))
    }

    fn read_out(buf: &mut Cursor) -> (r: Result<Position, DecodeError>) {
        let (x, y, z) = <(u32, u32, u32) as ReadOut>::read_out(buf)?;
        Ok(Position { x, y, z })
    }
}

/// One member of a scuttle pack.
#[derive(Debug)]
pub struct Scuttle {
    pub oid: u16,
    pub pos: Position,
}

impl ReadOut for Scuttle {
    open spec fn decoded_len(s: Seq<u8>) -> Result<nat, DecodeError> {
        <(u16, Position) as ReadOut>::decoded_len(s)
    }

    open spec fn decodes_to(s: Seq<u8>, v: Scuttle) -> bool {
        <(u16, Position) as ReadOut>::decodes_to(s, (v.oid, v.pos))
    }

    fn read_out(buf: &mut Cursor) -> (r: Result<Scuttle, DecodeError>) {
        let (oid, pos) = <(u16, Position) as ReadOut>::read_out(buf)?;
        Ok(Scuttle { oid, pos })
    }
}

/// The player's input during one frame.
#[derive(Debug, Clone, Copy)]
pub struct InputData {
    pub left: u8,
    pub right: u8,
    pub fwd: u8,
    pub back: u8,
    pub jump: u8,
    pub lmb: u8,
    pub rmb: u8,
    pub mouse_x: i16,
    pub mouse_y: i16,
}

impl ReadOut for InputData {
    open spec fn decoded_len(s: Seq<u8>) -> Result<nat, DecodeError> {
        <((u8, u8, u8, u8, u8), (u8, u8, i16, i16)) as ReadOut>::decoded_len(s)
    }

    open spec fn decodes_to(s: Seq<u8>, v: InputData) -> bool {
        <((u8, u8, u8, u8, u8), (u8, u8, i16, i16)) as ReadOut>::decodes_to(
            s,
            ((v.left, v.right, v.fwd, v.back, v.jump), (v.lmb, v.rmb, v.mouse_x, v.mouse_y)),
        )
    }

    fn read_out(buf: &mut Cursor) -> (r: Result<InputData, DecodeError>) {
        let ((left, right, fwd, back, jump), (lmb, rmb, mouse_x, mouse_y)) = <(
            (u8, u8, u8, u8, u8),
            (u8, u8, i16, i16),
        ) as ReadOut>::read_out(buf)?;
        Ok(InputData { left, right, fwd, back, jump, lmb, rmb, mouse_x, mouse_y })
    }
}

/// What an entity spawn carries, by kind of entity.
#[derive(Debug)]
pub enum SpawnData {
    Dagger(u32, FixedArray<u8, 34>),
    Skull(u32, FixedArray<u8, 49>),
    Centipede { id: u32, idk0: u32, idk1: u32, pos: Position },
    SpiderPack { id: u32, idk0: u32, idk1: u32, pos: Position },
    Idk0A(u32, FixedArray<u8, 42>),
    SnakePack { id: u32, idk0: u32, idk1: u32, pos: Position },
    Spawner { id: u32, idk0: u32, idk1: u32, pos: Position },
    ScuttlePack { id: u32, idk0: u32, idk1: u32, center: Position, pack: FixedArray<Scuttle, 3> },
    Lazer(u32, FixedArray<u8, 45>),
    Idk1C(u32, FixedArray<u8, 33>),
    Boss { id: u32, idk0: u32, idk1: u32, pos: Position },
}

impl ReadOut for SpawnData {
    open spec fn decoded_len(s: Seq<u8>) -> Result<nat, DecodeError> {
        if s.len() == 0 {
            Err(DecodeError::UnexpectedEnd)
        } else {
            let t = s[0];
            let p = s.skip(1);
            if t == 0x01 {
                after_tag(<(u32, FixedArray<u8, 34>) as ReadOut>::decoded_len(p))
            } else if t == 0x06 {
                after_tag(<(u32, FixedArray<u8, 49>) as ReadOut>::decoded_len(p))
            } else if t == 0x07 {
                after_tag(<(u32, u32, u32, Position) as ReadOut>::decoded_len(p))
            } else if t == 0x08 {
                after_tag(<(u32, u32, u32, Position) as ReadOut>::decoded_len(p))
            } else if t == 0x0A {
                after_tag(<(u32, FixedArray<u8, 42>) as ReadOut>::decoded_len(p))
            } else if t == 0x10 {
                after_tag(<(u32, u32, u32, Position) as ReadOut>::decoded_len(p))
            } else if t == 0x11 {
                after_tag(<(u32, u32, u32, Position) as ReadOut>::decoded_len(p))
            } else if t == 0x13 {
                after_tag(<(u32, u32, u32, Position, FixedArray<Scuttle, 3>) as ReadOut>::decoded_len(p))
            } else if t == 0x1B {
                after_tag(<(u32, FixedArray<u8, 45>) as ReadOut>::decoded_len(p))
            } else if t == 0x1C {
                after_tag(<(u32, FixedArray<u8, 33>) as ReadOut>::decoded_len(p))
            } else if t == 0x1E {
                after_tag(<(u32, u32, u32, Position) as ReadOut>::decoded_len(p))
            } else {
                Err(DecodeError::UnknownDiscriminant(t))
            }
        }
    }

    open spec fn decodes_to(s: Seq<u8>, v: SpawnData) -> bool {
        s.len() > 0 && match v {
            SpawnData::Dagger(a0, a1) => s[0] == 0x01 && <(u32, FixedArray<u8, 34>) as ReadOut>::decodes_to(
                s.skip(1),
                (a0, a1),
            ),
            SpawnData::Skull(a0, a1) => s[0] == 0x06 && <(u32, FixedArray<u8, 49>) as ReadOut>::decodes_to(
                s.skip(1),
                (a0, a1),
            ),
            SpawnData::Centipede { id, idk0, idk1, pos } => s[0] == 0x07 && <(u32, u32, u32, Position) as ReadOut>::decodes_to(
                s.skip(1),
                (id, idk0, idk1, pos),
            ),
            SpawnData::SpiderPack { id, idk0, idk1, pos } => s[0] == 0x08 && <(u32, u32, u32, Position) as ReadOut>::decodes_to(
                s.skip(1),
                (id, idk0, idk1, pos),
            ),
            SpawnData::Idk0A(a0, a1) => s[0] == 0x0A && <(u32, FixedArray<u8, 42>) as ReadOut>::decodes_to(
                s.skip(1),
                (a0, a1),
            ),
            SpawnData::SnakePack { id, idk0, idk1, pos } => s[0] == 0x10 && <(u32, u32, u32, Position) as ReadOut>::decodes_to(
                s.skip(1),
                (id, idk0, idk1, pos),
            ),
            SpawnData::Spawner { id, idk0, idk1, pos } => s[0] == 0x11 && <(u32, u32, u32, Position) as ReadOut>::decodes_to(
                s.skip(1),
                (id, idk0, idk1, pos),
            ),
            SpawnData::ScuttlePack { id, idk0, idk1, center, pack } => s[0] == 0x13 && <(u32, u32, u32, Position, FixedArray<Scuttle, 3>) as ReadOut>::decodes_to(
                s.skip(1),
                (id, idk0, idk1, center, pack),
            ),
            SpawnData::Lazer(a0, a1) => s[0] == 0x1B && <(u32, FixedArray<u8, 45>) as ReadOut>::decodes_to(
                s.skip(1),
                (a0, a1),
            ),
            SpawnData::Idk1C(a0, a1) => s[0] == 0x1C && <(u32, FixedArray<u8, 33>) as ReadOut>::decodes_to(
                s.skip(1),
                (a0, a1),
            ),
            SpawnData::Boss { id, idk0, idk1, pos } => s[0] == 0x1E && <(u32, u32, u32, Position) as ReadOut>::decodes_to(
                s.skip(1),
                (id, idk0, idk1, pos),
            ),
        }
    }

    #[verifier::rlimit(100)]
    fn read_out(buf: &mut Cursor) -> (r: Result<SpawnData, DecodeError>) {
        let ghost s = buf.rest();
        let tag = u8::read_out(buf)?;
        let v = match tag {
            0x01 => {
                let (a0, a1) = <(u32, FixedArray<u8, 34>) as ReadOut>::read_out(buf)?;
                SpawnData::Dagger(a0, a1)
            },
            0x06 => {
                let (a0, a1) = <(u32, FixedArray<u8, 49>) as ReadOut>::read_out(buf)?;
                SpawnData::Skull(a0, a1)
            },
            0x07 => {
                let (id, idk0, idk1, pos) = <(u32, u32, u32, Position) as ReadOut>::read_out(buf)?;
                SpawnData::Centipede { id, idk0, idk1, pos }
            },
            0x08 => {
                let (id, idk0, idk1, pos) = <(u32, u32, u32, Position) as ReadOut>::read_out(buf)?;
                SpawnData::SpiderPack { id, idk0, idk1, pos }
            },
            0x0A => {
                let (a0, a1) = <(u32, FixedArray<u8, 42>) as ReadOut>::read_out(buf)?;
                SpawnData::Idk0A(a0, a1)
            },
            0x10 => {
                let (id, idk0, idk1, pos) = <(u32, u32, u32, Position) as ReadOut>::read_out(buf)?;
                SpawnData::SnakePack { id, idk0, idk1, pos }
            },
            0x11 => {
                let (id, idk0, idk1, pos) = <(u32, u32, u32, Position) as ReadOut>::read_out(buf)?;
                SpawnData::Spawner { id, idk0, idk1, pos }
            },
            0x13 => {
                let (id, idk0, idk1, center, pack) = <(u32, u32, u32, Position, FixedArray<Scuttle, 3>) as ReadOut>::read_out(buf)?;
                SpawnData::ScuttlePack { id, idk0, idk1, center, pack }
            },
            0x1B => {
                let (a0, a1) = <(u32, FixedArray<u8, 45>) as ReadOut>::read_out(buf)?;
                SpawnData::Lazer(a0, a1)
            },
            0x1C => {
                let (a0, a1) = <(u32, FixedArray<u8, 33>) as ReadOut>::read_out(buf)?;
                SpawnData::Idk1C(a0, a1)
            },
            0x1E => {
                let (id, idk0, idk1, pos) = <(u32, u32, u32, Position) as ReadOut>::read_out(buf)?;
                SpawnData::Boss { id, idk0, idk1, pos }
            },
            _ => {
                return Err(DecodeError::UnknownDiscriminant(tag));
            },
        };
        assert(buf.rest() =~= s.skip(s.len() - buf.rest().len()));
        Ok(v)
    }
}

/// One record of the event stream; fields named `idk` are not understood,
/// and fields that hold a float hold its bit pattern.
#[derive(Debug)]
pub enum Event {
    Spawn(SpawnData),
    Position { id: u32, pos: Position },
    Idk02 { id: u32, a: u32, b: u32, c: u32 },
    Idk03 { id: u32, a: FixedArray<i16, 9> },
    Idk04 { id: u32, a: FixedArray<u32, 3> },
    WishPosition { id: u32, pos: Position },
    Idk07 { id: u32, a: i16, b: i16, c: i16 },
    Idk08 { id: u32, id2: u32, id3: u32 },
    Idk09(u32, FixedArray<u16, 3>, FixedArray<u32, 6>),
    Idk0A(FixedArray<u8, 47>),
    Idk0B(FixedArray<u8, 90>),
    Idk0D,
    State(u32, u8),
    Input(InputData),
    FrameEnd,
    ReplayEnd,
    Idk16 { idk0: FixedArray<u8, 12>, idk1: u32, idk2: u32, idk3: FixedArray<u8, 8> },
    Idk18(LazyIdk),
    Idk19 { idk0: FixedArray<u8, 4>, idk1: u32 },
}

/// Bytes of the payload that follows the tag `t` at the front of `p`, or the
/// error: no payload for a tag that none of the variants carries.
#[verifier::opaque]
pub open spec fn event_payload_len(t: u8, p: Seq<u8>) -> Result<nat, DecodeError> {
    if t == 0x00 {
        <SpawnData as ReadOut>::decoded_len(p)
    } else if t == 0x01 {
        <(u32, Position) as ReadOut>::decoded_len(p)
    } else if t == 0x02 {
        <(u32, u32, u32, u32) as ReadOut>::decoded_len(p)
    } else if t == 0x03 {
        <(u32, FixedArray<i16, 9>) as ReadOut>::decoded_len(p)
    } else if t == 0x04 {
        <(u32, FixedArray<u32, 3>) as ReadOut>::decoded_len(p)
    } else if t == 0x05 {
        <(u32, Position) as ReadOut>::decoded_len(p)
    } else if t == 0x07 {
        <(u32, i16, i16, i16) as ReadOut>::decoded_len(p)
    } else if t == 0x08 {
        <(u32, u32, u32) as ReadOut>::decoded_len(p)
    } else if t == 0x09 {
        <(u32, FixedArray<u16, 3>, FixedArray<u32, 6>) as ReadOut>::decoded_len(p)
    } else if t == 0x0A {
        <FixedArray<u8, 47> as ReadOut>::decoded_len(p)
    } else if t == 0x0B {
        <FixedArray<u8, 90> as ReadOut>::decoded_len(p)
    } else if t == 0x0D {
        Ok(0)
    } else if t == 0x0F {
        <(u32, u8) as ReadOut>::decoded_len(p)
    } else if t == 0x11 {
        <InputData as ReadOut>::decoded_len(p)
    } else if t == 0x14 {
        Ok(0)
    } else if t == 0x15 {
        Ok(0)
    } else if t == 0x16 {
        <(FixedArray<u8, 12>, u32, u32, FixedArray<u8, 8>) as ReadOut>::decoded_len(p)
    } else if t == 0x18 {
        <LazyIdk as ReadOut>::decoded_len(p)
    } else if t == 0x19 {
        <(FixedArray<u8, 4>, u32) as ReadOut>::decoded_len(p)
    } else {
        Err(DecodeError::UnknownDiscriminant(t))
    }
}

/// `v` is the event that `s` (tag included) decodes to.
#[verifier::opaque]
pub open spec fn event_decodes_to(s: Seq<u8>, v: Event) -> bool {
    match v {
        Event::Spawn(a0) => s[0] == 0x00 && <SpawnData as ReadOut>::decodes_to(
            s.skip(1),
            a0,
        ),
        Event::Position { id, pos } => s[0] == 0x01 && <(u32, Position) as ReadOut>::decodes_to(
            s.skip(1),
            (id, pos),
        ),
        Event::Idk02 { id, a, b, c } => s[0] == 0x02 && <(u32, u32, u32, u32) as ReadOut>::decodes_to(
            s.skip(1),
            (id, a, b, c),
        ),
        Event::Idk03 { id, a } => s[0] == 0x03 && <(u32, FixedArray<i16, 9>) as ReadOut>::decodes_to(
            s.skip(1),
            (id, a),
        ),
        Event::Idk04 { id, a } => s[0] == 0x04 && <(u32, FixedArray<u32, 3>) as ReadOut>::decodes_to(
            s.skip(1),
            (id, a),
        ),
        Event::WishPosition { id, pos } => s[0] == 0x05 && <(u32, Position) as ReadOut>::decodes_to(
            s.skip(1),
            (id, pos),
        ),
        Event::Idk07 { id, a, b, c } => s[0] == 0x07 && <(u32, i16, i16, i16) as ReadOut>::decodes_to(
            s.skip(1),
            (id, a, b, c),
        ),
        Event::Idk08 { id, id2, id3 } => s[0] == 0x08 && <(u32, u32, u32) as ReadOut>::decodes_to(
            s.skip(1),
            (id, id2, id3),
        ),
        Event::Idk09(a0, a1, a2) => s[0] == 0x09 && <(u32, FixedArray<u16, 3>, FixedArray<u32, 6>) as ReadOut>::decodes_to(
            s.skip(1),
            (a0, a1, a2),
        ),
        Event::Idk0A(a0) => s[0] == 0x0A && <FixedArray<u8, 47> as ReadOut>::decodes_to(
            s.skip(1),
            a0,
        ),
        Event::Idk0B(a0) => s[0] == 0x0B && <FixedArray<u8, 90> as ReadOut>::decodes_to(
            s.skip(1),
            a0,
        ),
        Event::Idk0D => s[0] == 0x0D,
        Event::State(a0, a1) => s[0] == 0x0F && <(u32, u8) as ReadOut>::decodes_to(
            s.skip(1),
            (a0, a1),
        ),
        Event::Input(a0) => s[0] == 0x11 && <InputData as ReadOut>::decodes_to(
            s.skip(1),
            a0,
        ),
        Event::FrameEnd => s[0] == 0x14,
        Event::ReplayEnd => s[0] == 0x15,
        Event::Idk16 { idk0, idk1, idk2, idk3 } => s[0] == 0x16 && <(FixedArray<u8, 12>, u32, u32, FixedArray<u8, 8>) as ReadOut>::decodes_to(
            s.skip(1),
            (idk0, idk1, idk2, idk3),
        ),
        Event::Idk18(a0) => s[0] == 0x18 && <LazyIdk as ReadOut>::decodes_to(
            s.skip(1),
            a0,
        ),
        Event::Idk19 { idk0, idk1 } => s[0] == 0x19 && <(FixedArray<u8, 4>, u32) as ReadOut>::decodes_to(
            s.skip(1),
            (idk0, idk1),
        ),
    }
}

impl ReadOut for Event {
    open spec fn decoded_len(s: Seq<u8>) -> Result<nat, DecodeError> {
        if s.len() == 0 {
            Err(DecodeError::UnexpectedEnd)
        } else {
            after_tag(event_payload_len(s[0], s.skip(1)))
        }
    }

    open spec fn decodes_to(s: Seq<u8>, v: Event) -> bool {
        s.len() > 0 && event_decodes_to(s, v)
    }

    #[verifier::rlimit(100)]
    fn read_out(buf: &mut Cursor) -> (r: Result<Event, DecodeError>) {
        reveal(event_payload_len);
        reveal(event_decodes_to);
        let ghost s = buf.rest();
        let tag = u8::read_out(buf)?;
        let v = match tag {
            0x00 => {
                let a0 = <SpawnData as ReadOut>::read_out(buf)?;
                Event::Spawn(a0)
            },
            0x01 => {
                let (id, pos) = <(u32, Position) as ReadOut>::read_out(buf)?;
                Event::Position { id, pos }
            },
            0x02 => {
                let (id, a, b, c) = <(u32, u32, u32, u32) as ReadOut>::read_out(buf)?;
                Event::Idk02 { id, a, b, c }
            },
            0x03 => {
                let (id, a) = <(u32, FixedArray<i16, 9>) as ReadOut>::read_out(buf)?;
                Event::Idk03 { id, a }
            },
            0x04 => {
                let (id, a) = <(u32, FixedArray<u32, 3>) as ReadOut>::read_out(buf)?;
                Event::Idk04 { id, a }
            },
            0x05 => {
                let (id, pos) = <(u32, Position) as ReadOut>::read_out(buf)?;
                Event::WishPosition { id, pos }
            },
            0x07 => {
                let (id, a, b, c) = <(u32, i16, i16, i16) as ReadOut>::read_out(buf)?;
                Event::Idk07 { id, a, b, c }
            },
            0x08 => {
                let (id, id2, id3) = <(u32, u32, u32) as ReadOut>::read_out(buf)?;
                Event::Idk08 { id, id2, id3 }
            },
            0x09 => {
                let (a0, a1, a2) = <(u32, FixedArray<u16, 3>, FixedArray<u32, 6>) as ReadOut>::read_out(buf)?;
                Event::Idk09(a0, a1, a2)
            },
            0x0A => {
                let a0 = <FixedArray<u8, 47> as ReadOut>::read_out(buf)?;
                Event::Idk0A(a0)
            },
            0x0B => {
                let a0 = <FixedArray<u8, 90> as ReadOut>::read_out(buf)?;
                Event::Idk0B(a0)
            },
            0x0D => Event::Idk0D,
            0x0F => {
                let (a0, a1) = <(u32, u8) as ReadOut>::read_out(buf)?;
                Event::State(a0, a1)
            },
            0x11 => {
                let a0 = <InputData as ReadOut>::read_out(buf)?;
                Event::Input(a0)
            },
            0x14 => Event::FrameEnd,
            0x15 => Event::ReplayEnd,
            0x16 => {
                let (idk0, idk1, idk2, idk3) = <(FixedArray<u8, 12>, u32, u32, FixedArray<u8, 8>) as ReadOut>::read_out(buf)?;
                Event::Idk16 { idk0, idk1, idk2, idk3 }
            },
            0x18 => {
                let a0 = <LazyIdk as ReadOut>::read_out(buf)?;
                Event::Idk18(a0)
            },
            0x19 => {
                let (idk0, idk1) = <(FixedArray<u8, 4>, u32) as ReadOut>::read_out(buf)?;
                Event::Idk19 { idk0, idk1 }
            },
            _ => {
                return Err(DecodeError::UnknownDiscriminant(tag));
            },
        };
        assert(buf.rest() =~= s.skip(s.len() - buf.rest().len()));
        Ok(v)
    }
}

/// The six bytes that open a replay: `hdrpl` and a zero byte.
pub open spec fn magic() -> Seq<u8> {
    seq![0x68u8, 0x64u8, 0x72u8, 0x70u8, 0x6Cu8, 0x00u8]
}

/// The fixed header of a replay; fields that hold a float hold its bit pattern.
#[derive(Debug)]
pub struct Header {
    pub unknown1: FixedArray<u8, 10>,
    pub pb_score: u32,
    pub unknown2: u32,
    pub unknown3: u8,
    pub run_score: u32,
    pub player_id: u32,
    pub unknown4: FixedArray<u8, 16>,
    pub splits: SizedVec<u16, u32>,
    pub unknown5: SizedVec<u32, u32>,
}

impl Header {
    /// Consumes six bytes and tests them against the magic prefix.
    pub fn check_magic(buf: &mut Cursor) -> (r: Result<(), DecodeError>)
        ensures
            old(buf).rest().len() < 6 ==> r == Err::<(), DecodeError>(DecodeError::UnexpectedEnd),
            old(buf).rest().len() >= 6 ==> final(buf).rest() == old(buf).rest().skip(6) && (r is Ok
                <==> old(buf).rest().take(6) == magic()) && (r is Err ==> r->Err_0
                == DecodeError::InvalidMagic),
    {
        let b = buf.read_exact(6)?;
        if b[0] == 0x68 && b[1] == 0x64 && b[2] == 0x72 && b[3] == 0x70 && b[4] == 0x6C && b[5]
            == 0x00 {
            assert(b@ =~= magic());
            Ok(())
        } else {
            assert(b@ != magic()) by {
                if b@ == magic() {
                    assert(b@[0] == 0x68 && b@[1] == 0x64 && b@[2] == 0x72);
                    assert(b@[3] == 0x70 && b@[4] == 0x6C && b@[5] == 0x00);
                }
            }
            Err(DecodeError::InvalidMagic)
        }
    }
}

impl ReadOut for Header {
    open spec fn decoded_len(s: Seq<u8>) -> Result<nat, DecodeError> {
        <(
            (FixedArray<u8, 10>, u32, u32, u8, u32),
            (u32, FixedArray<u8, 16>, SizedVec<u16, u32>, SizedVec<u32, u32>),
        ) as ReadOut>::decoded_len(s)
    }

    open spec fn decodes_to(s: Seq<u8>, v: Header) -> bool {
        <(
            (FixedArray<u8, 10>, u32, u32, u8, u32),
            (u32, FixedArray<u8, 16>, SizedVec<u16, u32>, SizedVec<u32, u32>),
        ) as ReadOut>::decodes_to(
            s,
            (
                (v.unknown1, v.pb_score, v.unknown2, v.unknown3, v.run_score),
                (v.player_id, v.unknown4, v.splits, v.unknown5),
            ),
        )
    }

    fn read_out(buf: &mut Cursor) -> (r: Result<Header, DecodeError>) {
        let (
            (unknown1, pb_score, unknown2, unknown3, run_score),
            (player_id, unknown4, splits, unknown5),
        ) = <(
            (FixedArray<u8, 10>, u32, u32, u8, u32),
            (u32, FixedArray<u8, 16>, SizedVec<u16, u32>, SizedVec<u32, u32>),
        ) as ReadOut>::read_out(buf)?;
        Ok(
            Header {
                unknown1,
                pb_score,
                unknown2,
                unknown3,
                run_score,
                player_id,
                unknown4,
                splits,
                unknown5,
            },
        )
    }
}

impl Checked for Header {
    open spec fn check_prefix(s: Seq<u8>) -> Result<nat, DecodeError> {
        if s.len() < 6 {
            Err(DecodeError::UnexpectedEnd)
        } else if s.take(6) == magic() {
            Ok(6)
        } else {
            Err(DecodeError::InvalidMagic)
        }
    }

    fn check(buf: &mut Cursor) -> (r: Result<Header, DecodeError>) {
        Header::check_magic(buf)?;
        Header::read_out(buf)
    }
}

/// A header whose first six bytes are not the magic prefix fails with
/// `InvalidMagic`, whatever follows them.
pub proof fn lemma_bad_magic(s: Seq<u8>)
    requires
        s.len() >= 6,
        s.take(6) != magic(),
    ensures
        checked_len::<Header>(s) == Err::<nat, DecodeError>(DecodeError::InvalidMagic),
{
}

/// How a decode of the event stream `s` ends: `Ok` when events follow one
/// another up to its very last byte, else the first error.
pub open spec fn events_end(s: Seq<u8>) -> Result<(), DecodeError>
    decreases s.len(),
{
    match Event::decoded_len(s) {
        Err(e) => Err(e),
        Ok(n) => if n >= s.len() {
            Ok(())
        } else {
            events_end(s.skip(n as int))
        },
    }
}

/// `events` are the events decoded one after another from all of `s`, in order.
pub open spec fn events_decode_to(s: Seq<u8>, events: Seq<Event>) -> bool
    decreases events.len(),
{
    events.len() > 0 && match Event::decoded_len(s) {
        Err(_) => false,
        Ok(n) => Event::decodes_to(s, events[0]) && if n >= s.len() {
            events.len() == 1
        } else {
            events_decode_to(s.skip(n as int), events.drop_first())
        },
    }
}

/// Decodes the whole event stream: events one after another until no byte is
/// left. The first failing event fails the whole stream.
#[verifier::rlimit(100)]
pub fn decode_events(data: Vec<u8>) -> (r: Result<Vec<Event>, DecodeError>)
    ensures
        r is Ok <==> events_end(data@) is Ok,
        r is Err ==> r->Err_0 == events_end(data@)->Err_0,
        r is Ok ==> events_decode_to(data@, r->Ok_0@),
{
    let ghost s = data@;
    let mut buf = Cursor::new(data);
    let mut out: Vec<Event> = Vec::new();
    assert forall|tail: Seq<Event>| events_decode_to(buf.rest(), tail) implies #[trigger] events_decode_to(
        s,
        out@ + tail,
    ) by {
        assert(out@ + tail =~= tail);
    }
    loop
        invariant
            s == data@,
            events_end(s) == events_end(buf.rest()),
            forall|tail: Seq<Event>|
                events_decode_to(buf.rest(), tail) ==> #[trigger] events_decode_to(s, out@ + tail),
        decreases buf.rest().len(),
    {
        let ghost r0 = buf.rest();
        let e = Event::read_out(&mut buf)?;
        let ghost n = Event::decoded_len(r0)->Ok_0;
        if buf.remaining() == 0 {
            proof {
                assert(events_decode_to(r0, seq![e]));
                assert(out@ + seq![e] =~= out@.push(e));
            }
            out.push(e);
            return Ok(out);
        }
        proof {
            assert forall|tail: Seq<Event>| events_decode_to(buf.rest(), tail) implies #[trigger] events_decode_to(
                s,
                out@.push(e) + tail,
            ) by {
                let t2 = seq![e] + tail;
                assert(t2.drop_first() =~= tail);
                assert(events_decode_to(r0, t2));
                assert(out@.push(e) + tail =~= out@ + t2);
            }
        }
        out.push(e);
    }
}

/// What libflate's zlib decoder yields from `data`, or `None` where it
/// rejects the stream.
pub uninterp spec fn zlib_inflate(data: Seq<u8>) -> Option<Seq<u8>>;

/// Relies on `libflate::zlib::Decoder` (`new`, then `read_to_end`): it decodes
/// the zlib stream at the front of `data` and fails on a malformed one.
#[verifier::external_body]
fn inflate(data: &[u8]) -> (r: Result<Vec<u8>, DecodeError>)
    ensures
        r is Ok <==> zlib_inflate(data@) is Some,
        r is Ok ==> zlib_inflate(data@) == Some(r->Ok_0@),
        r is Err ==> r->Err_0 == DecodeError::DecompressionFailure,
{
    let mut out: Vec<u8> = Vec::new();
    let done = match libflate::zlib::Decoder::new(data) {
        Ok(mut d) => std::io::Read::read_to_end(&mut d, &mut out),
        Err(e) => Err(e),
    };
    match done {
        Ok(_) => Ok(out),
        Err(_) => Err(DecodeError::DecompressionFailure),
    }
}

/// A whole replay: the header, then the events of the compressed stream in
/// the order they were recorded.
#[derive(Debug)]
pub struct HDReplay {
    pub header: Header,
    pub events: Vec<Event>,
}

impl ReadOut for HDReplay {
    open spec fn decoded_len(s: Seq<u8>) -> Result<nat, DecodeError> {
        match checked_len::<Header>(s) {
            Err(e) => Err(e),
            Ok(h) => match zlib_inflate(s.skip(h as int)) {
                None => Err(DecodeError::DecompressionFailure),
                Some(d) => match events_end(d) {
                    Err(e) => Err(e),
                    Ok(_) => Ok(s.len()),
                },
            },
        }
    }

    open spec fn decodes_to(s: Seq<u8>, v: HDReplay) -> bool {
        &&& Header::check_prefix(s) is Ok
        &&& checked_len::<Header>(s) is Ok
        &&& Header::decodes_to(s.skip(Header::check_prefix(s)->Ok_0 as int), v.header)
        &&& zlib_inflate(s.skip(checked_len::<Header>(s)->Ok_0 as int)) is Some
        &&& events_decode_to(
            zlib_inflate(s.skip(checked_len::<Header>(s)->Ok_0 as int))->Some_0,
            v.events@,
        )
    }

    #[verifier::rlimit(100)]
    fn read_out(buf: &mut Cursor) -> (r: Result<HDReplay, DecodeError>) {
        let ghost s = buf.rest();
        let header = Header::check(buf)?;
        assert(buf.rest() =~= s.skip(checked_len::<Header>(s)->Ok_0 as int));
        let compressed = buf.read_to_end();
        let data = inflate(compressed.as_slice())?;
        let events = decode_events(data)?;
        assert(buf.rest() =~= s.skip(s.len() as int));
        Ok(HDReplay { header, events })
    }
}

impl Checked for Position {
    open spec fn check_prefix(s: Seq<u8>) -> Result<nat, DecodeError> {
        Ok(0)
    }

    fn check(buf: &mut Cursor) -> (r: Result<Position, DecodeError>) {
        assert(buf.rest().skip(0) =~= buf.rest());
        Position::read_out(buf)
    }
}

impl Checked for Scuttle {
    open spec fn check_prefix(s: Seq<u8>) -> Result<nat, DecodeError> {
        Ok(0)
    }

    fn check(buf: &mut Cursor) -> (r: Result<Scuttle, DecodeError>) {
        assert(buf.rest().skip(0) =~= buf.rest());
        Scuttle::read_out(buf)
    }
}

impl Checked for InputData {
    open spec fn check_prefix(s: Seq<u8>) -> Result<nat, DecodeError> {
        Ok(0)
    }

    fn check(buf: &mut Cursor) -> (r: Result<InputData, DecodeError>) {
        assert(buf.rest().skip(0) =~= buf.rest());
        InputData::read_out(buf)
    }
}

impl Checked for SpawnData {
    open spec fn check_prefix(s: Seq<u8>) -> Result<nat, DecodeError> {
        Ok(0)
    }

    fn check(buf: &mut Cursor) -> (r: Result<SpawnData, DecodeError>) {
        assert(buf.rest().skip(0) =~= buf.rest());
        SpawnData::read_out(buf)
    }
}

impl Checked for Event {
    open spec fn check_prefix(s: Seq<u8>) -> Result<nat, DecodeError> {
        Ok(0)
    }

    fn check(buf: &mut Cursor) -> (r: Result<Event, DecodeError>) {
        assert(buf.rest().skip(0) =~= buf.rest());
        Event::read_out(buf)
    }
}

impl Checked for HDReplay {
    open spec fn check_prefix(s: Seq<u8>) -> Result<nat, DecodeError> {
        Ok(0)
    }

    fn check(buf: &mut Cursor) -> (r: Result<HDReplay, DecodeError>) {
        assert(buf.rest().skip(0) =~= buf.rest());
        HDReplay::read_out(buf)
    }
}

} // verus!
