//! The binary audio packet: a six-byte header of three little-endian `u16`
//! lengths, the encoded audio, the frequency segment (frequency as a
//! double, modulation, encryption) and the fixed segment (unit id, packet id,
//! session identity).
use vstd::prelude::*;
use vstd::string::StrSliceExecFns;
use vstd::utf8::encode_utf8;
use crate::bytes::{le_bytes, le_value, pow256, push_le, read_le, lemma_le_bytes_len, lemma_le_round_trip};
use crate::freq::{f64_bits, f64_bits_of_u64};

verus! {

/// Bytes of the header segment.
pub const HEADER_LEN: usize = 6;

/// Bytes of the frequency segment: frequency, modulation, encryption.
pub const FREQ_SEGMENT_LEN: usize = 10;

/// Bytes of the session identity carried in each packet.
pub const GUID_LEN: usize = 22;

/// Bytes of the fixed segment: unit id, packet id, session identity.
pub const FIXED_SEGMENT_LEN: usize = 34;

/// The largest packet length that the `u16` header can declare.
pub const MAX_PACKET_LEN: usize = 65535;

/// Length of the packet that carries `audio_len` bytes of audio.
pub open spec fn packet_len(audio_len: nat) -> nat {
    6 + audio_len + 10 + 34
}

/// The packet for `audio`, sent by session `guid` as packet `id` on the
/// frequency whose double-precision bit pattern is `freq_bits`.
/// Modulation, encryption and unit id are always 0 for this client.
pub open spec fn frame_spec(guid: Seq<u8>, id: u64, freq_bits: u64, audio: Seq<u8>) -> Seq<u8> {
    le_bytes(packet_len(audio.len()), 2) + le_bytes(audio.len(), 2) + le_bytes(10, 2) + audio
        + le_bytes(freq_bits as nat, 8) + seq![0u8, 0u8] + le_bytes(0, 4) + le_bytes(
        id as nat,
        8,
    ) + guid
}

/// The length of the audio segment that header of `s` declares.
pub open spec fn declared_audio_len(s: Seq<u8>) -> nat {
    le_value(s.subrange(2, 4))
}

/// The three header fields agree with each other and with the length of `s`.
pub open spec fn frame_well_formed(s: Seq<u8>) -> bool {
    &&& s.len() >= 6
    &&& le_value(s.subrange(0, 2)) == s.len()
    &&& le_value(s.subrange(4, 6)) == 10
    &&& s.len() == packet_len(declared_audio_len(s))
}

/// Offset of the frequency segment of a well-formed packet.
pub open spec fn freq_offset(s: Seq<u8>) -> int {
    6 + declared_audio_len(s) as int
}

pub open spec fn frame_audio(s: Seq<u8>) -> Seq<u8> {
    s.subrange(6, freq_offset(s))
}

pub open spec fn frame_freq_bits(s: Seq<u8>) -> nat {
    le_value(s.subrange(freq_offset(s), freq_offset(s) + 8))
}

pub open spec fn frame_modulation(s: Seq<u8>) -> u8 {
    s[freq_offset(s) + 8]
}

pub open spec fn frame_encryption(s: Seq<u8>) -> u8 {
    s[freq_offset(s) + 9]
}

pub open spec fn frame_unit_id(s: Seq<u8>) -> nat {
    le_value(s.subrange(freq_offset(s) + 10, freq_offset(s) + 14))
}

pub open spec fn frame_packet_id(s: Seq<u8>) -> nat {
    le_value(s.subrange(freq_offset(s) + 14, freq_offset(s) + 22))
}

pub open spec fn frame_guid(s: Seq<u8>) -> Seq<u8> {
    s.subrange(freq_offset(s) + 22, freq_offset(s) + 44)
}

/// Why a packet could not be built.
#[derive(Clone, Copy, Debug, PartialEq, Eq, Structural)]
pub enum FrameError {
    /// The session identity is not exactly 22 bytes long.
    GuidLength,
    /// The packet would be longer than its `u16` length field can declare.
    AudioTooLong,
}

/// The fields of a packet, as a reader takes them apart.
pub struct Frame {
    pub audio: Vec<u8>,
    pub freq_bits: u64,
    pub modulation: u8,
    pub encryption: u8,
    pub unit_id: u32,
    pub packet_id: u64,
    pub guid: Vec<u8>,
}

fn push_all(buf: &mut Vec<u8>, src: &[u8])
    ensures
        final(buf)@ == old(buf)@ + src@,
{
    let mut i: usize = 0;
    while i < src.len()
        invariant
            i <= src@.len(),
            buf@ == old(buf)@ + src@.subrange(0, i as int),
        decreases src@.len() - i,
    {
        buf.push(src[i]);
        i = i + 1;
        proof {
            assert(buf@ =~= old(buf)@ + src@.subrange(0, i as int));
        }
    }
    proof {
        assert(src@.subrange(0, src@.len() as int) =~= src@);
    }
}

fn copy_range(src: &[u8], from: usize, to: usize) -> (r: Vec<u8>)
    requires
        from <= to <= src@.len(),
    ensures
        r@ == src@.subrange(from as int, to as int),
{
    let mut r: Vec<u8> = Vec::new();
    let mut i: usize = from;
    while i < to
        invariant
            from <= i <= to <= src@.len(),
            r@ == src@.subrange(from as int, i as int),
        decreases to - i,
    {
        r.push(src[i]);
        i = i + 1;
        proof {
            assert(r@ =~= src@.subrange(from as int, i as int));
        }
    }
    r
}

/// Builds the packet that carries the encoded audio `rd` as packet `id` of
/// session `sguid` on `freq` Hz.
pub fn pack_frame(sguid: &str, id: u64, freq: u64, rd: &[u8]) -> (r: Result<Vec<u8>, FrameError>)
    ensures
        encode_utf8(sguid@).len() != GUID_LEN ==> r == Err::<Vec<u8>, FrameError>(
            FrameError::GuidLength,
        ),
        encode_utf8(sguid@).len() == GUID_LEN && packet_len(rd@.len()) > MAX_PACKET_LEN ==> r
            == Err::<Vec<u8>, FrameError>(FrameError::AudioTooLong),
        encode_utf8(sguid@).len() == GUID_LEN && packet_len(rd@.len()) <= MAX_PACKET_LEN ==> r
            is Ok && r->Ok_0@ == frame_spec(encode_utf8(sguid@), id, f64_bits(freq as nat) as u64, rd@),
{
    let guid = sguid.as_bytes_vec();
    if guid.len() != GUID_LEN {
        return Err(FrameError::GuidLength);
    }
    if rd.len() > MAX_PACKET_LEN - (HEADER_LEN + FREQ_SEGMENT_LEN + FIXED_SEGMENT_LEN) {
        return Err(FrameError::AudioTooLong);
    }
    let audio_len: usize = rd.len();
    let total: usize = HEADER_LEN + audio_len + FREQ_SEGMENT_LEN + FIXED_SEGMENT_LEN;
    let mut frame: Vec<u8> = Vec::new();
    // header segment
    push_le(&mut frame, total as u64, 2);
    push_le(&mut frame, audio_len as u64, 2);
    push_le(&mut frame, FREQ_SEGMENT_LEN as u64, 2);
    // audio segment
    push_all(&mut frame, rd);
    // frequency segment: frequency, modulation (AM), encryption (none)
    let freq_bits = f64_bits_of_u64(freq);
    push_le(&mut frame, freq_bits, 8);
    frame.push(0);
    frame.push(0);
    // fixed segment: unit id, packet id, session identity
    push_le(&mut frame, 0, 4);
    push_le(&mut frame, id, 8);
    push_all(&mut frame, guid.as_slice());
    proof {
        assert(frame@ =~= frame_spec(encode_utf8(sguid@), id, freq_bits, rd@));
    }
    Ok(frame)
}

/// Takes a packet apart; `None` where its header fields disagree.
pub fn unpack_frame(s: &[u8]) -> (r: Option<Frame>)
    ensures
        r is Some <==> frame_well_formed(s@),
        r matches Some(f) ==> {
            &&& f.audio@ == frame_audio(s@)
            &&& f.freq_bits as nat == frame_freq_bits(s@)
            &&& f.modulation == frame_modulation(s@)
            &&& f.encryption == frame_encryption(s@)
            &&& f.unit_id as nat == frame_unit_id(s@)
            &&& f.packet_id as nat == frame_packet_id(s@)
            &&& f.guid@ == frame_guid(s@)
        },
{
    let len = s.len();
    if len < HEADER_LEN {
        return None;
    }
    let total = read_le(s, 0, 2);
    let audio_len = read_le(s, 2, 2);
    let freq_len = read_le(s, 4, 2);
    proof {
        lemma_le_value_bound(s@.subrange(2, 4));
        assert(pow256(2) == 65536) by {
            reveal_with_fuel(pow256, 3);
        };
    }
    if total != len as u64 || freq_len != FREQ_SEGMENT_LEN as u64 || len as u64 != 6 + audio_len
        + 10 + 34 {
        return None;
    }
    let off: usize = HEADER_LEN + audio_len as usize;
    let audio = copy_range(s, HEADER_LEN, off);
    let freq_bits = read_le(s, off, 8);
    let modulation = s[off + 8];
    let encryption = s[off + 9];
    let unit_id = read_le(s, off + 10, 4);
    let packet_id = read_le(s, off + 14, 8);
    let guid = copy_range(s, off + 22, off + 44);
    proof {
        lemma_le_value_bound(s@.subrange(off + 10, off + 14));
        assert(pow256(4) == 0x1_0000_0000) by {
            reveal_with_fuel(pow256, 5);
        };
    }
    Some(
        Frame {
            audio,
            freq_bits,
            modulation,
            encryption,
            unit_id: unit_id as u32,
            packet_id,
            guid,
        },
    )
}

proof fn lemma_le_value_bound(s: Seq<u8>)
    ensures
        le_value(s) < pow256(s.len()),
    decreases s.len(),
{
    if s.len() > 0 {
        lemma_le_value_bound(s.drop_first());
    }
}

/// A packet built by `pack_frame` declares lengths of `packet_len(La)`, `La`
/// and 10 in its header, and a reader takes back from it the audio, the
/// frequency's bit pattern, modulation and encryption 0, unit id 0, the
/// packet id and the session identity.
pub proof fn lemma_frame_round_trip(guid: Seq<u8>, id: u64, freq_bits: u64, audio: Seq<u8>)
    requires
        guid.len() == GUID_LEN,
        packet_len(audio.len()) <= MAX_PACKET_LEN,
    ensures
        ({
            let s = frame_spec(guid, id, freq_bits, audio);
            &&& frame_well_formed(s)
            &&& le_value(s.subrange(0, 2)) == packet_len(audio.len())
            &&& declared_audio_len(s) == audio.len()
            &&& le_value(s.subrange(4, 6)) == 10
            &&& frame_audio(s) == audio
            &&& frame_freq_bits(s) == freq_bits
            &&& frame_modulation(s) == 0
            &&& frame_encryption(s) == 0
            &&& frame_unit_id(s) == 0
            &&& frame_packet_id(s) == id
            &&& frame_guid(s) == guid
        }),
{
    let s = frame_spec(guid, id, freq_bits, audio);
    let la = audio.len();
    let fb = freq_bits as nat;
    lemma_le_bytes_len(packet_len(la), 2);
    lemma_le_bytes_len(la, 2);
    lemma_le_bytes_len(10, 2);
    lemma_le_bytes_len(fb, 8);
    lemma_le_bytes_len(0, 4);
    lemma_le_bytes_len(id as nat, 8);
    assert(pow256(2) == 65536) by {
        reveal_with_fuel(pow256, 3);
    };
    assert(pow256(4) == 0x1_0000_0000) by {
        reveal_with_fuel(pow256, 5);
    };
    assert(pow256(8) == 0x1_0000_0000_0000_0000) by {
        reveal_with_fuel(pow256, 9);
    };
    lemma_le_round_trip(packet_len(la), 2);
    lemma_le_round_trip(la, 2);
    lemma_le_round_trip(10, 2);
    lemma_le_round_trip(fb, 8);
    lemma_le_round_trip(0, 4);
    lemma_le_round_trip(id as nat, 8);
    assert(s.subrange(0, 2) =~= le_bytes(packet_len(la), 2));
    assert(s.subrange(2, 4) =~= le_bytes(la, 2));
    assert(s.subrange(4, 6) =~= le_bytes(10, 2));
    let o: int = 6 + la as int;
    assert(s.subrange(6, o) =~= audio);
    assert(s.subrange(o, o + 8) =~= le_bytes(fb, 8));
    assert(s[o + 8] == 0u8);
    assert(s[o + 9] == 0u8);
    assert(s.subrange(o + 10, o + 14) =~= le_bytes(0, 4));
    assert(s.subrange(o + 14, o + 22) =~= le_bytes(id as nat, 8));
    assert(s.subrange(o + 22, o + 44) =~= guid);
}

} // verus!
