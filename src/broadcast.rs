//! One broadcast run: cutting decoded audio into fixed chunks, numbering and
//! framing the encoded chunks, and pacing them to real time.
use vstd::prelude::*;
use vstd::utf8::encode_utf8;
use crate::frame::{frame_spec, pack_frame, packet_len, FrameError, GUID_LEN, MAX_PACKET_LEN};
use crate::freq::f64_bits;

verus! {

/// Samples per second of the encoded stream.
pub const SAMPLE_RATE: u32 = 24000;

/// Samples in one chunk: 20 ms of mono audio at 24 kHz.
pub const CHUNK_SAMPLES: usize = 480;

/// Milliseconds of grace between two sources, during which a stop is seen.
pub const SOURCE_GRACE_MS: u64 = 3000;

/// Milliseconds that `size` encoded bytes take to play at 32 kbit/s
/// (1 kbit = 1024 bits), rounded down.
pub open spec fn playtime_ms_spec(size: nat) -> nat {
    (size * 8 * 1000) / (1024 * 32)
}

/// How long to wait before the next frame: what the bytes sent so far take
/// to play, less the time already passed, and no wait where the send runs
/// behind.
pub open spec fn pacing_delay_spec(size: nat, elapsed_ms: nat) -> nat {
    if playtime_ms_spec(size) > elapsed_ms {
        (playtime_ms_spec(size) - elapsed_ms) as nat
    } else {
        0
    }
}

pub fn playtime_ms(size: u64) -> (r: u64)
    ensures
        r as nat == playtime_ms_spec(size as nat),
{
    let q = size / 512;
    let rem = size % 512;
    let t = (rem * 125) / 512;
    proof {
        vstd::arithmetic::div_mod::lemma_fundamental_div_mod(size as int, 512);
        vstd::arithmetic::div_mod::lemma_fundamental_div_mod((rem * 125) as int, 512);
        let u = (rem * 125) % 512;
        assert(size * 8 * 1000 == (q * 125 + t) * 32768 + 64 * u) by (nonlinear_arith)
            requires
                size == 512 * q + rem,
                rem * 125 == 512 * t + u,
        ;
        vstd::arithmetic::div_mod::lemma_fundamental_div_mod_converse_div(
            (size * 8 * 1000) as int,
            32768,
            (q * 125 + t) as int,
            (64 * u) as int,
        );
    }
    q * 125 + (rem * 125) / 512
}

pub fn pacing_delay_ms(size: u64, elapsed_ms: u64) -> (r: u64)
    ensures
        r as nat == pacing_delay_spec(size as nat, elapsed_ms as nat),
{
    let playtime = playtime_ms(size);
    if playtime > elapsed_ms {
        playtime - elapsed_ms
    } else {
        0
    }
}

/// Chunk `k` of `samples`: the samples `480 k .. 480 (k + 1)`.
pub open spec fn chunk_spec(samples: Seq<i16>, k: int) -> Seq<i16> {
    samples.subrange(k * 480, k * 480 + 480)
}

/// Cuts `samples` into whole chunks of 480 samples, in order. A remainder
/// shorter than a chunk is dropped.
pub fn split_chunks(samples: &[i16]) -> (r: Vec<Vec<i16>>)
    ensures
        r@.len() == samples@.len() / 480,
        forall|k: int| 0 <= k < r@.len() ==> (#[trigger] r@[k])@ == chunk_spec(samples@, k),
{
    let len = samples.len();
    let n = len / CHUNK_SAMPLES;
    let mut r: Vec<Vec<i16>> = Vec::new();
    let mut k: usize = 0;
    while k < n
        invariant
            len == samples@.len(),
            n == samples@.len() / 480,
            k <= n,
            r@.len() == k,
            forall|j: int| 0 <= j < k ==> (#[trigger] r@[j])@ == chunk_spec(samples@, j),
        decreases n - k,
    {
        proof {
            vstd::arithmetic::div_mod::lemma_fundamental_div_mod(samples@.len() as int, 480);
            assert(k * 480 + 480 <= samples@.len()) by (nonlinear_arith)
                requires
                    k < n,
                    samples@.len() == 480 * n + samples@.len() % 480,
                    samples@.len() % 480 >= 0,
            ;
        }
        let start: usize = k * CHUNK_SAMPLES;
        let mut chunk: Vec<i16> = Vec::new();
        let mut i: usize = 0;
        while i < CHUNK_SAMPLES
            invariant
                start == k * 480,
                len == samples@.len(),
                start + 480 <= samples@.len(),
                i <= 480,
                chunk@ == samples@.subrange(start as int, start + i),
            decreases 480 - i,
        {
            chunk.push(samples[start + i]);
            i = i + 1;
            proof {
                assert(chunk@ =~= samples@.subrange(start as int, start + i));
            }
        }
        r.push(chunk);
        k = k + 1;
    }
    r
}

/// The state of one broadcast run: the session, its frequency, the id of
/// the next packet, the encoded bytes sent since the current source began,
/// and the ids of the packets framed so far.
pub struct Broadcast {
    guid: String,
    freq: u64,
    next_id: u64,
    source_bytes: u64,
    sent: Ghost<Seq<u64>>,
}

impl Broadcast {
    pub closed spec fn guid_view(&self) -> Seq<char> {
        self.guid@
    }

    pub closed spec fn freq_spec(&self) -> u64 {
        self.freq
    }

    pub closed spec fn next_id_spec(&self) -> u64 {
        self.next_id
    }

    pub closed spec fn source_bytes_spec(&self) -> u64 {
        self.source_bytes
    }

    /// The ids of the packets framed in this run, in order.
    pub closed spec fn sent_ids(&self) -> Seq<u64> {
        self.sent@
    }

    /// The packets framed so far carry ids 1, 2, ... in order, and the next
    /// one follows the last.
    pub closed spec fn wf(&self) -> bool {
        &&& self.next_id == self.sent@.len() + 1
        &&& forall|i: int| 0 <= i < self.sent@.len() ==> self.sent@[i] == i + 1
    }

    /// A run whose first packet has id 1.
    pub fn new(guid: String, freq: u64) -> (r: Broadcast)
        ensures
            r.wf(),
            r.guid_view() == guid@,
            r.freq_spec() == freq,
            r.next_id_spec() == 1,
            r.source_bytes_spec() == 0,
            r.sent_ids() == Seq::<u64>::empty(),
    {
        Broadcast { guid, freq, next_id: 1, source_bytes: 0, sent: Ghost(Seq::empty()) }
    }

    pub fn next_id(&self) -> (r: u64)
        ensures
            r == self.next_id_spec(),
    {
        self.next_id
    }

    pub fn source_bytes(&self) -> (r: u64)
        ensures
            r == self.source_bytes_spec(),
    {
        self.source_bytes
    }

    /// Starts the next source: its pacing counts from zero, the packet ids
    /// go on.
    pub fn begin_source(&mut self)
        requires
            old(self).wf(),
        ensures
            final(self).wf(),
            final(self).guid_view() == old(self).guid_view(),
            final(self).freq_spec() == old(self).freq_spec(),
            final(self).next_id_spec() == old(self).next_id_spec(),
            final(self).sent_ids() == old(self).sent_ids(),
            final(self).source_bytes_spec() == 0,
    {
        self.source_bytes = 0;
    }

    /// Frames the encoded chunk `encoded` as the next packet. On success the
    /// packet carries id `next_id`, the id after it is one more, and the
    /// chunk's bytes count toward the source's pacing.
    pub fn next_frame(&mut self, encoded: &[u8]) -> (r: Result<Vec<u8>, FrameError>)
        requires
            old(self).wf(),
            old(self).next_id_spec() < u64::MAX,
            old(self).source_bytes_spec() + encoded@.len() <= u64::MAX,
        ensures
            final(self).wf(),
            final(self).guid_view() == old(self).guid_view(),
            final(self).freq_spec() == old(self).freq_spec(),
            encode_utf8(old(self).guid_view()).len() != GUID_LEN ==> r == Err::<
                Vec<u8>,
                FrameError,
            >(FrameError::GuidLength),
            encode_utf8(old(self).guid_view()).len() == GUID_LEN && packet_len(encoded@.len())
                > MAX_PACKET_LEN ==> r == Err::<Vec<u8>, FrameError>(FrameError::AudioTooLong),
            r is Err ==> {
                &&& final(self).next_id_spec() == old(self).next_id_spec()
                &&& final(self).source_bytes_spec() == old(self).source_bytes_spec()
                &&& final(self).sent_ids() == old(self).sent_ids()
            },
            encode_utf8(old(self).guid_view()).len() == GUID_LEN && packet_len(encoded@.len())
                <= MAX_PACKET_LEN ==> {
                &&& r is Ok
                &&& r->Ok_0@ == frame_spec(
                    encode_utf8(old(self).guid_view()),
                    old(self).next_id_spec(),
                    f64_bits(old(self).freq_spec() as nat) as u64,
                    encoded@,
                )
                &&& final(self).next_id_spec() == old(self).next_id_spec() + 1
                &&& final(self).sent_ids() == old(self).sent_ids().push(old(self).next_id_spec())
                &&& final(self).source_bytes_spec() == old(self).source_bytes_spec()
                    + encoded@.len()
            },
    {
        let r = pack_frame(self.guid.as_str(), self.next_id, self.freq, encoded);
        if r.is_ok() {
            self.sent = Ghost(self.sent@.push(self.next_id));
            self.next_id = self.next_id + 1;
            self.source_bytes = self.source_bytes + encoded.len() as u64;
        }
        r
    }

    /// How long to wait before sending on, `elapsed_ms` after the current
    /// source began.
    pub fn delay_ms(&self, elapsed_ms: u64) -> (r: u64)
        ensures
            r as nat == pacing_delay_spec(self.source_bytes_spec() as nat, elapsed_ms as nat),
    {
        pacing_delay_ms(self.source_bytes, elapsed_ms)
    }
}

/// The packets of one run carry the ids 1, 2, 3, ... in the order they were
/// framed: strictly increasing, without gaps, and the next id follows the
/// last one.
pub proof fn lemma_run_ids(b: &Broadcast)
    requires
        b.wf(),
    ensures
        forall|i: int| 0 <= i < b.sent_ids().len() ==> b.sent_ids()[i] == i + 1,
        forall|i: int, j: int|
            0 <= i < j < b.sent_ids().len() ==> b.sent_ids()[i] < b.sent_ids()[j],
        b.next_id_spec() == b.sent_ids().len() + 1,
{
}

} // verus!
