use drsplayer::frame::{pack_frame, unpack_frame, FrameError};
use drsplayer::freq::f64_bits_of_u64;
use drsplayer::identity::{new_session_id, session_id_from_bytes};

const GUID: &str = "AAECAwQFBgcICQoLDA0ODw";

fn is_url_safe(c: char) -> bool {
    c.is_ascii_alphanumeric() || c == '-' || c == '_'
}

#[test]
fn session_id_has_22_url_safe_chars_and_16_bytes() {
    for _ in 0..50 {
        let id = new_session_id();
        assert_eq!(id.len(), 22);
        assert!(id.chars().all(is_url_safe));
        let decoded = base64::decode_config(&id, base64::URL_SAFE_NO_PAD).unwrap();
        assert_eq!(decoded.len(), 16);
    }
}

#[test]
fn session_ids_differ() {
    assert_ne!(new_session_id(), new_session_id());
}

#[test]
fn session_id_from_known_bytes() {
    let mut b = [0u8; 16];
    for (i, x) in b.iter_mut().enumerate() {
        *x = i as u8;
    }
    assert_eq!(session_id_from_bytes(&b), GUID);
    assert_eq!(session_id_from_bytes(&[0u8; 16]), "AAAAAAAAAAAAAAAAAAAAAA");
    assert_eq!(session_id_from_bytes(&[255u8; 16]), "_____________________w");
}

#[test]
fn float_bits_match_std() {
    let values: [u64; 14] = [
        0,
        1,
        2,
        3,
        1000,
        255_000_000,
        (1 << 52) - 1,
        1 << 52,
        (1 << 53) - 1,
        1 << 53,
        (1 << 53) + 1,
        (1 << 53) + 3,
        u64::MAX - 1024,
        u64::MAX,
    ];
    for v in values.iter() {
        assert_eq!(f64_bits_of_u64(*v), (*v as f64).to_bits(), "value {}", v);
    }
    let mut x: u64 = 0x9E37_79B9_7F4A_7C15;
    for _ in 0..2000 {
        x = x.wrapping_mul(6364136223846793005).wrapping_add(1442695040888963407);
        let v = x >> (x % 64);
        assert_eq!(f64_bits_of_u64(v), (v as f64).to_bits(), "value {}", v);
    }
}

#[test]
fn frame_layout_is_exact() {
    let audio = [1u8, 2, 3];
    let frame = pack_frame(GUID, 7, 255_000_000, &audio).unwrap();
    let total = 6 + 3 + 10 + 4 + 8 + 22;
    assert_eq!(frame.len(), total);
    assert_eq!(&frame[0..2], &(total as u16).to_le_bytes());
    assert_eq!(&frame[2..4], &3u16.to_le_bytes());
    assert_eq!(&frame[4..6], &10u16.to_le_bytes());
    assert_eq!(&frame[6..9], &audio);
    assert_eq!(&frame[9..17], &(255_000_000f64).to_le_bytes());
    assert_eq!(frame[17], 0);
    assert_eq!(frame[18], 0);
    assert_eq!(&frame[19..23], &[0, 0, 0, 0]);
    assert_eq!(&frame[23..31], &7u64.to_le_bytes());
    assert_eq!(&frame[31..53], GUID.as_bytes());
}

#[test]
fn frame_round_trip() {
    let audio: Vec<u8> = (0..200u32).map(|i| (i * 7) as u8).collect();
    let frame = pack_frame(GUID, 123_456_789, 30_000_000, &audio).unwrap();
    let f = unpack_frame(&frame).unwrap();
    assert_eq!(f.audio, audio);
    assert_eq!(f64::from_bits(f.freq_bits), 30_000_000.0);
    assert_eq!(f.modulation, 0);
    assert_eq!(f.encryption, 0);
    assert_eq!(f.unit_id, 0);
    assert_eq!(f.packet_id, 123_456_789);
    assert_eq!(f.guid, GUID.as_bytes().to_vec());
}

#[test]
fn frame_with_empty_audio() {
    let frame = pack_frame(GUID, 1, 0, &[]).unwrap();
    assert_eq!(frame.len(), 50);
    let f = unpack_frame(&frame).unwrap();
    assert!(f.audio.is_empty());
    assert_eq!(f.freq_bits, 0);
}

#[test]
fn frame_rejects_bad_guid() {
    assert!(matches!(pack_frame("short", 1, 1, &[1]), Err(FrameError::GuidLength)));
    assert!(matches!(pack_frame("", 1, 1, &[1]), Err(FrameError::GuidLength)));
}

#[test]
fn frame_length_limit() {
    let ok = vec![0u8; 65535 - 50];
    let frame = pack_frame(GUID, 1, 1, &ok).unwrap();
    assert_eq!(frame.len(), 65535);
    assert_eq!(&frame[0..2], &[0xff, 0xff]);
    let long = vec![0u8; 65535 - 49];
    assert!(matches!(pack_frame(GUID, 1, 1, &long), Err(FrameError::AudioTooLong)));
}

#[test]
fn unpack_rejects_inconsistent_headers() {
    let frame = pack_frame(GUID, 1, 1, &[9, 9]).unwrap();
    assert!(unpack_frame(&frame[..frame.len() - 1]).is_none());
    assert!(unpack_frame(&[1, 0]).is_none());
    let mut bad = frame.clone();
    bad[4] = 11;
    assert!(unpack_frame(&bad).is_none());
    let mut bad = frame.clone();
    bad[2] = 3;
    assert!(unpack_frame(&bad).is_none());
}
