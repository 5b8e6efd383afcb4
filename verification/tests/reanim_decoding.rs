use libre_pvz::bits::F32Bits;
use libre_pvz::decode::{optional_f32, optional_string, LenString, SeekError, SeekFrom, TrivialSeek};
use libre_pvz::reanim::{Animation, Transform};
use libre_pvz::stream::{DecodeError, DecodeExt, Magic, Stream};
use std::io::Write;

const MISSING: u32 = 0xC61C_4000; // -10000.0

fn u32le(out: &mut Vec<u8>, n: u32) {
    out.extend_from_slice(&n.to_le_bytes());
}

fn string(out: &mut Vec<u8>, s: &[u8]) {
    u32le(out, s.len() as u32);
    out.extend_from_slice(s);
}

fn header(out: &mut Vec<u8>, track_count: u32, fps_bits: u32) {
    u32le(out, 0xB393_B4C0);
    out.extend_from_slice(&[0; 4]);
    u32le(out, track_count);
    out.extend_from_slice(&[0; 4]);
    u32le(out, fps_bits);
    u32le(out, 0x0C);
}

fn frame_count(out: &mut Vec<u8>, n: u32) {
    out.extend_from_slice(&[0; 8]);
    u32le(out, n);
}

fn transform(out: &mut Vec<u8>, values: [u32; 8]) {
    for v in values {
        u32le(out, v);
    }
    out.extend_from_slice(&[0; 12]);
}

/// One track "head" with two frames.
fn sample_animation() -> Vec<u8> {
    let mut out = Vec::new();
    header(&mut out, 1, 12.0f32.to_bits());
    frame_count(&mut out, 2);
    string(&mut out, b"head");
    u32le(&mut out, 0x2C);
    transform(&mut out, [1.0f32.to_bits(), 2.0f32.to_bits(), MISSING, MISSING, MISSING, MISSING, 0, MISSING]);
    transform(&mut out, [MISSING, MISSING, MISSING, MISSING, 0.5f32.to_bits(), MISSING, (-1.0f32).to_bits(), 0.25f32.to_bits()]);
    string(&mut out, b"IMAGE_REANIM_PEA_HEAD");
    string(&mut out, b"");
    string(&mut out, b"");
    string(&mut out, b"");
    string(&mut out, b"FONT");
    string(&mut out, b"hello");
    out
}

#[test]
fn decode_sample_animation() {
    let bytes = sample_animation();
    let anim = Animation::decompress_and_decode(&bytes).unwrap();
    assert_eq!(anim.fps, F32Bits(12.0f32.to_bits()));
    assert_eq!(anim.tracks.len(), 1);
    let track = &anim.tracks[0];
    assert_eq!(track.name, "head");
    assert_eq!(track.frames.len(), 2);
    let t0: Transform = track.frames[0].transform;
    assert_eq!(t0.x, Some(F32Bits(1.0f32.to_bits())));
    assert_eq!(t0.y, Some(F32Bits(2.0f32.to_bits())));
    assert_eq!(t0.kx, None);
    assert_eq!(t0.f, Some(F32Bits(0)));
    assert_eq!(t0.a, None);
    let t1 = track.frames[1].transform;
    assert_eq!(t1.x, None);
    assert_eq!(t1.sx, Some(F32Bits(0.5f32.to_bits())));
    assert_eq!(t1.f, Some(F32Bits((-1.0f32).to_bits())));
    assert_eq!(t1.a, Some(F32Bits(0.25f32.to_bits())));
    assert_eq!(track.frames[0].elements.image.as_deref(), Some("IMAGE_REANIM_PEA_HEAD"));
    assert_eq!(track.frames[0].elements.font, None);
    assert_eq!(track.frames[0].elements.text, None);
    assert_eq!(track.frames[1].elements.image, None);
    assert_eq!(track.frames[1].elements.font.as_deref(), Some("FONT"));
    assert_eq!(track.frames[1].elements.text.as_deref(), Some("hello"));
}

#[test]
fn decode_compressed_animation() {
    let plain = sample_animation();
    let mut encoder = flate2::write::ZlibEncoder::new(Vec::new(), flate2::Compression::default());
    encoder.write_all(&plain).unwrap();
    let compressed = encoder.finish().unwrap();
    let mut bytes = vec![0xD4, 0xFE, 0xAD, 0xDE];
    bytes.extend_from_slice(&(plain.len() as u32).to_le_bytes());
    bytes.extend_from_slice(&compressed);
    let anim = Animation::decompress_and_decode(&bytes).unwrap();
    assert_eq!(anim.tracks.len(), 1);
    assert_eq!(anim.tracks[0].name, "head");
    assert_eq!(anim.tracks[0].frames[1].elements.text.as_deref(), Some("hello"));
}

#[test]
fn decode_wrong_magic() {
    let mut bytes = sample_animation();
    bytes[0] = 0xC1;
    match Animation::decompress_and_decode(&bytes) {
        Err(DecodeError::MagicMismatch { real_bytes, expected_magic }) => {
            assert_eq!(real_bytes.0, [0xC1, 0xB4, 0x93, 0xB3]);
            assert_eq!(expected_magic.0, [0xC0, 0xB4, 0x93, 0xB3]);
        }
        other => panic!("unexpected result {other:?}"),
    }
}

#[test]
fn decode_truncated_input() {
    let bytes = sample_animation();
    // cut inside the first transform of the track
    let cut = 4 + 4 + 4 + 4 + 4 + 4 + 12 + 8 + 4 + 10;
    match Animation::decompress_and_decode(&bytes[..cut]) {
        Err(DecodeError::IncompleteData(what)) => assert_eq!(what, "f32"),
        other => panic!("unexpected result {other:?}"),
    }
    match Animation::decompress_and_decode(&bytes[..6]) {
        Err(DecodeError::IncompleteData(what)) => assert_eq!(what, "padding"),
        other => panic!("unexpected result {other:?}"),
    }
}

#[test]
fn decode_invalid_utf8_name() {
    let mut out = Vec::new();
    header(&mut out, 1, 12.0f32.to_bits());
    frame_count(&mut out, 0);
    string(&mut out, &[b'a', b'b', 0xFF, b'c']);
    u32le(&mut out, 0x2C);
    match Animation::decompress_and_decode(&out) {
        Err(DecodeError::DecodeUtf8Error { valid_prefix, invalid_bytes }) => {
            assert_eq!(valid_prefix, "ab");
            assert_eq!(invalid_bytes, vec![0xFF]);
        }
        other => panic!("unexpected result {other:?}"),
    }
}

#[test]
fn decode_incomplete_utf8_name() {
    let mut s = Stream::new({
        let mut out = Vec::new();
        string(&mut out, &[b'x', 0xE2, 0x82]);
        out
    });
    match s.read_string() {
        Err(DecodeError::DecodeUtf8Error { valid_prefix, invalid_bytes }) => {
            assert_eq!(valid_prefix, "x");
            assert!(invalid_bytes.is_empty());
        }
        other => panic!("unexpected result {other:?}"),
    }
}

#[test]
fn stream_reads_plain_data_little_endian() {
    let mut s = Stream::new(vec![0x01, 0x02, 0x03, 0x04, 0xFF, 0xFE]);
    assert_eq!(s.read_data::<u16>().unwrap(), 0x0201);
    assert_eq!(s.read_data::<u16>().unwrap(), 0x0403);
    assert_eq!(s.read_data::<i16>().unwrap(), -257);
    assert_eq!(s.remaining_len(), 0);
    match s.read_data::<u8>() {
        Err(DecodeError::IncompleteData(what)) => assert_eq!(what, "u8"),
        other => panic!("unexpected result {other:?}"),
    }
}

#[test]
fn stream_failed_read_consumes_nothing() {
    let mut s = Stream::new(vec![1, 2, 3]);
    assert!(s.read_data::<u32>().is_err());
    assert_eq!(s.remaining_bytes(), vec![1, 2, 3]);
    assert_eq!(s.read_bytes(2, "pair").unwrap(), vec![1, 2]);
    match s.read_bytes(2, "pair") {
        Err(DecodeError::IncompleteData(what)) => assert_eq!(what, "pair"),
        other => panic!("unexpected result {other:?}"),
    }
    assert_eq!(s.remaining_bytes(), vec![3]);
}

#[test]
fn stream_check_magic() {
    let mut s = Stream::new(vec![0x2C, 0, 0, 0, 0x2D, 0, 0, 0]);
    assert!(s.check_magic(0x2C).is_ok());
    match s.check_magic(0x2C) {
        Err(DecodeError::MagicMismatch { real_bytes, expected_magic }) => {
            assert_eq!(real_bytes.0, [0x2D, 0, 0, 0]);
            assert_eq!(expected_magic.0, [0x2C, 0, 0, 0]);
        }
        other => panic!("unexpected result {other:?}"),
    }
    // the mismatched bytes are consumed all the same
    assert_eq!(s.remaining_len(), 0);
    let mut t = Stream::new(vec![1, 2, 3, 4, 5]);
    assert!(t.check_magic(0x2C).is_err());
    assert_eq!(t.remaining_len(), 1);
}

#[test]
fn stream_read_array_and_n() {
    let mut s = Stream::new(vec![2, 0, 0, 0, 7, 0, 8, 0, 9, 0]);
    let v: Vec<u16> = s.read_array().unwrap();
    assert_eq!(v, vec![7, 8]);
    let w: Vec<u16> = s.read_n(1).unwrap();
    assert_eq!(w, vec![9]);
    let mut t = Stream::new(vec![3, 0, 0, 0, 1, 0]);
    match t.read_array::<u16>() {
        Err(DecodeError::IncompleteData(what)) => assert_eq!(what, "u16"),
        other => panic!("unexpected result {other:?}"),
    }
}

#[test]
fn stream_drop_padding() {
    let mut s = Stream::new(vec![9, 9, 9, 1]);
    assert!(s.drop_padding("test", 3).is_ok());
    assert_eq!(s.read_data::<u8>().unwrap(), 1);
    match s.drop_padding("test", 1) {
        Err(DecodeError::IncompleteData(what)) => assert_eq!(what, "padding"),
        other => panic!("unexpected result {other:?}"),
    }
}

#[test]
fn decode_via_decode_ext() {
    let mut s = Stream::new(vec![0xC0, 0xB4, 0x93, 0xB3]);
    let m = Magic::decode(&mut s).unwrap();
    assert_eq!(m.0, [0xC0, 0xB4, 0x93, 0xB3]);
    assert_eq!(Magic::from_u32(0xB393_B4C0).0, m.0);
}

#[test]
fn optional_values() {
    assert_eq!(optional_f32(F32Bits(MISSING)), None);
    assert_eq!(optional_f32(F32Bits((-20000.0f32).to_bits())), None);
    assert_eq!(optional_f32(F32Bits((-9999.0f32).to_bits())), Some(F32Bits((-9999.0f32).to_bits())));
    assert_eq!(optional_f32(F32Bits(f32::NAN.to_bits())), None);
    assert_eq!(optional_f32(F32Bits((-0.0f32).to_bits())), Some(F32Bits((-0.0f32).to_bits())));
    assert_eq!(optional_string(LenString { content: String::new() }), None);
    assert_eq!(optional_string(LenString { content: "a".to_string() }), Some("a".to_string()));
}

#[test]
fn trivial_seek_forward_only() {
    let mut s = TrivialSeek::new(Stream::new(vec![1, 2, 3, 4, 5]));
    assert_eq!(s.stream_position(), 0);
    assert_eq!(s.seek(SeekFrom::Current(2)).unwrap(), 2);
    assert_eq!(s.read_exact(1).unwrap(), vec![3]);
    assert_eq!(s.seek(SeekFrom::Start(3)).unwrap(), 3);
    assert_eq!(s.seek(SeekFrom::Start(4)).unwrap(), 4);
    assert!(matches!(s.seek(SeekFrom::Start(1)), Err(SeekError::Backward)));
    assert!(matches!(s.seek(SeekFrom::Current(-1)), Err(SeekError::Backward)));
    assert!(matches!(s.seek(SeekFrom::End(0)), Err(SeekError::FromEnd)));
    assert!(matches!(s.seek(SeekFrom::Current(5)), Err(SeekError::Incomplete(_))));
    assert_eq!(s.stream_position(), 4);
    assert_eq!(s.read_exact(1).unwrap(), vec![5]);
}

#[test]
fn read_data_consumes_its_bytes() {
    let mut s = Stream::new(vec![0x2A, 0, 0, 0, 7]);
    let v: u32 = s.read_data().unwrap();
    assert_eq!(v, 42);
    assert_eq!(s.remaining_len(), 1);
    let mut short = Stream::new(vec![1, 0]);
    assert!(matches!(short.read_data::<u32>(), Err(DecodeError::IncompleteData(_))));
}
