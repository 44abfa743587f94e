//! Decoding of recorded game replays: a small binary decoding framework
//! (scalars, records, arrays, length-prefixed sequences, checked prefixes,
//! tagged unions), a scanner for a blob whose end is not stored, and the
//! replay format built on them.
mod decode;
mod lazy_idk;
mod record;
mod replay;
mod scalar;
mod sequence;

pub use decode::{after_tag, checked_len, Checked, Cursor, DecodeError, ReadOut};
pub use lazy_idk::{
    scan_end, window_accepts, window_ends_blob, LazyIdk, SENTINEL, SOFT_TERMINATOR, TERMINATOR,
    WINDOW,
};
pub use replay::{
    decode_events, event_decodes_to, event_payload_len, events_decode_to, events_end,
    lemma_bad_magic, magic, zlib_inflate, Event, HDReplay, Header, InputData, Position, Scuttle,
    SpawnData,
};
pub use scalar::{
    byte_pow, le_bytes, le_value, lemma_le_round_trip, lemma_scalar_round_trip, lemma_scalars_round_trip,
    lemma_signed_round_trip, scalar_len, signed_pattern, signed_value,
};
pub use sequence::{
    fixed_width, lemma_array_width, lemma_empty_sequence, lemma_many_width, many_decode_to,
    many_len, read_many, FixedArray, LengthField, SizedVec,
};
