use std::io::Write;

use hdfmt::{
    decode_events, window_ends_blob, Checked, Cursor, DecodeError, Event, HDReplay, Header,
    InputData, LazyIdk, ReadOut, SizedVec, SpawnData,
};

fn zlib(data: &[u8]) -> Vec<u8> {
    let mut enc = libflate::zlib::Encoder::new(Vec::new()).unwrap();
    enc.write_all(data).unwrap();
    enc.finish().into_result().unwrap()
}

fn minimal_header() -> Vec<u8> {
    header_with_splits(&[])
}

fn header_with_splits(splits: &[f32]) -> Vec<u8> {
    let mut h = vec![0x68, 0x64, 0x72, 0x70, 0x6C, 0x00];
    h.extend_from_slice(&[0u8; 10]);
    h.extend_from_slice(&1.5f32.to_le_bytes());
    h.extend_from_slice(&[0u8; 4]);
    h.push(7);
    h.extend_from_slice(&2.5f32.to_le_bytes());
    h.extend_from_slice(&42u32.to_le_bytes());
    h.extend_from_slice(&[0u8; 16]);
    h.extend_from_slice(&(splits.len() as u16).to_le_bytes());
    for x in splits {
        h.extend_from_slice(&x.to_le_bytes());
    }
    h.extend_from_slice(&0u32.to_le_bytes());
    h
}

#[test]
fn spawn_of_a_dagger() {
    let mut data = vec![0x00, 0x01];
    data.extend_from_slice(&77u32.to_le_bytes());
    data.extend_from_slice(&[0xaa; 34]);
    let buf = &mut Cursor::new(data);
    match Event::read_out(buf) {
        Ok(Event::Spawn(SpawnData::Dagger(id, filler))) => {
            assert_eq!(id, 77);
            assert_eq!(filler.as_slice(), &[0xaa; 34]);
        }
        other => panic!("unexpected {:?}", other),
    }
    assert_eq!(buf.remaining(), 0);
}

#[test]
fn unknown_event_tag() {
    let buf = &mut Cursor::new(vec![0xFF, 1, 2, 3]);
    assert!(matches!(
        Event::read_out(buf),
        Err(DecodeError::UnknownDiscriminant(0xFF))
    ));
    let buf = &mut Cursor::new(vec![0x00, 0x02, 1, 2, 3]);
    assert!(matches!(
        Event::read_out(buf),
        Err(DecodeError::UnknownDiscriminant(0x02))
    ));
}

#[test]
fn event_payloads() {
    let mut data = vec![0x01];
    data.extend_from_slice(&9u32.to_le_bytes());
    data.extend_from_slice(&1.0f32.to_le_bytes());
    data.extend_from_slice(&2.0f32.to_le_bytes());
    data.extend_from_slice(&3.0f32.to_le_bytes());
    data.extend_from_slice(&[0x0F, 5, 0, 0, 0, 1, 0x0D, 0x14]);
    let buf = &mut Cursor::new(data);
    match Event::read_out(buf) {
        Ok(Event::Position { id, pos }) => {
            assert_eq!(id, 9);
            assert_eq!(f32::from_bits(pos.x), 1.0);
            assert_eq!(f32::from_bits(pos.y), 2.0);
            assert_eq!(f32::from_bits(pos.z), 3.0);
        }
        other => panic!("unexpected {:?}", other),
    }
    assert!(matches!(Event::read_out(buf), Ok(Event::State(5, 1))));
    assert!(matches!(Event::read_out(buf), Ok(Event::Idk0D)));
    assert!(matches!(Event::read_out(buf), Ok(Event::FrameEnd)));
    assert!(matches!(Event::read_out(buf), Err(DecodeError::UnexpectedEnd)));
}

#[test]
fn input_event() {
    let data = vec![0x11, 1, 0, 1, 0, 1, 0, 1, 0xff, 0xff, 0x02, 0x00];
    let buf = &mut Cursor::new(data);
    match Event::read_out(buf) {
        Ok(Event::Input(InputData {
            left,
            rmb,
            mouse_x,
            mouse_y,
            ..
        })) => {
            assert_eq!((left, rmb, mouse_x, mouse_y), (1, 1, -1, 2));
        }
        other => panic!("unexpected {:?}", other),
    }
}

#[test]
fn header_with_wrong_magic() {
    let mut data = minimal_header();
    data[0] = 0x69;
    let len = data.len();
    let buf = &mut Cursor::new(data);
    assert!(matches!(Header::check(buf), Err(DecodeError::InvalidMagic)));
    assert_eq!(buf.remaining(), len - 6);

    let buf = &mut Cursor::new(vec![0x68, 0x64, 0x72]);
    assert!(matches!(Header::check(buf), Err(DecodeError::UnexpectedEnd)));
}

#[test]
fn header_fields() {
    let data = header_with_splits(&[1.0, 2.0]);
    let buf = &mut Cursor::new(data);
    let h = Header::check(buf).unwrap();
    assert_eq!(f32::from_bits(h.pb_score), 1.5);
    assert_eq!(f32::from_bits(h.run_score), 2.5);
    assert_eq!(h.unknown3, 7);
    assert_eq!(h.player_id, 42);
    assert_eq!(h.splits.len(), 2);
    assert_eq!(f32::from_bits(h.splits.as_slice()[1]), 2.0);
    assert_eq!(h.unknown5.len(), 0);
    assert_eq!(buf.remaining(), 0);
}

#[test]
fn scanner_stops_at_accepted_window() {
    let window = [0x11, 0x00, 0x00, 0x00, 0x00, 0x00, 0x01, 0x02, 0x09, 0x09, 0x09, 0x09, 0x14];
    assert!(window_ends_blob(&window, 0));
    let mut data = window.to_vec();
    data.extend_from_slice(&[0x77, 0x88]);
    let buf = &mut Cursor::new(data);
    let blob = LazyIdk::read_out(buf).unwrap();
    assert_eq!(blob.as_slice(), &window);
    assert_eq!(buf.remaining(), 2);
}

#[test]
fn scanner_continues_past_bad_interior() {
    let bad = [0x11, 0x05, 0x00, 0x00, 0x00, 0x00, 0x01, 0x02, 0x09, 0x09, 0x09, 0x09, 0x14];
    let good = [0x11, 0x00, 0x01, 0x00, 0x01, 0x02, 0x03, 0x03, 0x10, 0x10, 0x10, 0x10, 0x14];
    assert!(!window_ends_blob(&bad, 0));
    assert!(window_ends_blob(&good, 0));
    let mut data = bad.to_vec();
    data.extend_from_slice(&good);
    data.push(0x99);
    let buf = &mut Cursor::new(data);
    let blob = LazyIdk::read_out(buf).unwrap();
    assert_eq!(blob.len(), 26);
    assert_eq!(blob.get(0), 0x11);
    assert_eq!(blob.get(1), 0x05);
    assert_eq!(blob.get(25), 0x14);
    assert_eq!(buf.remaining(), 1);

    let mut data = bad.to_vec();
    data.push(0x15);
    let buf = &mut Cursor::new(data);
    let blob = LazyIdk::read_out(buf).unwrap();
    assert_eq!(blob.len(), 14);
    assert_eq!(buf.remaining(), 0);
}

#[test]
fn scanner_fails_without_soft_terminator() {
    let mut data = vec![0u8; 13];
    data.push(0x16);
    let buf = &mut Cursor::new(data);
    assert!(matches!(
        LazyIdk::read_out(buf),
        Err(DecodeError::ScanTerminationFailure)
    ));
}

#[test]
fn scanner_takes_short_tail_whole() {
    let buf = &mut Cursor::new(vec![1, 2, 3]);
    let blob = LazyIdk::read_out(buf).unwrap();
    assert_eq!(blob.as_slice(), &[1, 2, 3]);
    assert_eq!(buf.remaining(), 0);
}

#[test]
fn sequence_of_zero() {
    let buf = &mut Cursor::new(vec![0, 0, 0xab]);
    let v = SizedVec::<u16, u32>::read_out(buf).unwrap();
    assert_eq!(v.len(), 0);
    assert_eq!(buf.remaining(), 1);
}

#[test]
fn sequence_of_two() {
    let buf = &mut Cursor::new(vec![2, 1, 0, 2, 0, 7]);
    let v = SizedVec::<u8, u16>::read_out(buf).unwrap();
    assert_eq!(v.as_slice(), &[1u16, 2]);
    assert_eq!(buf.remaining(), 1);
    let buf = &mut Cursor::new(vec![3, 1, 0, 2, 0]);
    assert!(matches!(
        SizedVec::<u8, u16>::read_out(buf),
        Err(DecodeError::UnexpectedEnd)
    ));
}

#[test]
fn events_until_exhausted() {
    let events = decode_events(vec![0x14, 0x15]).unwrap();
    assert_eq!(events.len(), 2);
    assert!(matches!(events[0], Event::FrameEnd));
    assert!(matches!(events[1], Event::ReplayEnd));
    assert!(matches!(decode_events(vec![]), Err(DecodeError::UnexpectedEnd)));
    assert!(matches!(
        decode_events(vec![0x14, 0x40]),
        Err(DecodeError::UnknownDiscriminant(0x40))
    ));
}

#[test]
fn minimal_replay() {
    let mut data = minimal_header();
    data.extend_from_slice(&zlib(&[0x14, 0x15]));
    let buf = &mut Cursor::new(data);
    let replay = HDReplay::check(buf).unwrap();
    assert_eq!(replay.events.len(), 2);
    assert!(matches!(replay.events[0], Event::FrameEnd));
    assert!(matches!(replay.events[1], Event::ReplayEnd));
    assert_eq!(replay.header.player_id, 42);
    assert_eq!(buf.remaining(), 0);
}

#[test]
fn replay_with_broken_stream() {
    let mut data = minimal_header();
    data.extend_from_slice(&[0xde, 0xad, 0xbe, 0xef]);
    let buf = &mut Cursor::new(data);
    assert!(matches!(
        HDReplay::read_out(buf),
        Err(DecodeError::DecompressionFailure)
    ));
}

#[test]
fn replay_with_trailing_garbage_event() {
    let mut data = minimal_header();
    data.extend_from_slice(&zlib(&[0x14, 0x15, 0x01]));
    let buf = &mut Cursor::new(data);
    assert!(matches!(
        HDReplay::read_out(buf),
        Err(DecodeError::UnexpectedEnd)
    ));
}

#[test]
fn blob_event_swallows_up_to_accepted_window() {
    let mut data = vec![0x18, 1, 2, 3, 0x11];
    data.extend_from_slice(&[0u8; 11]);
    data.push(0x14);
    let events = decode_events(data).unwrap();
    assert_eq!(events.len(), 1);
    match &events[0] {
        Event::Idk18(blob) => {
            assert_eq!(blob.len(), 16);
            assert_eq!(blob.get(3), 0x11);
            assert_eq!(blob.get(15), 0x14);
        }
        other => panic!("unexpected {:?}", other),
    }
}
