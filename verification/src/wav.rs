//! PCM conversion and RIFF/WAVE serialization, plus the block renderer
//! that drives a generator through an [`Engine`].
//!
//! The container layout is a hard external contract: `RIFF <size> WAVE`,
//! a 16-byte PCM `fmt ` chunk (format 1, channel count, sample rate, byte
//! rate, block align, 16 bits per sample) and a `data` chunk of
//! little-endian 16-bit samples.  `wav_bytes` pins every header field to
//! the documented formula.

use vstd::prelude::*;
use crate::fixed::{ONE, SR_MAX, qmul_s, clamp_s, clamp_q, qmul,
    lemma_mul_le, lemma_qmul_bound};
use crate::qmath::HALF;
use crate::graph::{Generator, Engine};

verus! {

/// Why an offline render was refused.
#[derive(Clone, Copy, Debug, PartialEq, Eq)]
pub enum RenderError {
    /// A channel count of zero was requested.
    ZeroChannels,
    /// A duration of zero or less was requested.
    NonPositiveDuration,
}

/// The little-endian 16-bit word at `i`.
pub open spec fn le16_at(s: Seq<u8>, i: int) -> int {
    s[i] + 256 * s[i + 1]
}

/// The little-endian 32-bit word at `i`.
pub open spec fn le32_at(s: Seq<u8>, i: int) -> int {
    s[i] + 256 * s[i + 1] + 65536 * s[i + 2] + 16777216 * s[i + 3]
}

/// A 16-bit sample's unsigned wire word: two's complement.
pub open spec fn i16_word_s(x: int) -> int {
    if x >= 0 { x } else { x + 65536 }
}

/// A Q32.32 sample clamped to `[-1, 1]` and scaled to a signed 16-bit
/// PCM value.
pub open spec fn sample_i16_s(x: int) -> int {
    qmul_s(clamp_s(x, -(ONE as int), ONE as int), 32767)
}

/// Convert one sample: clamp to `[-1, 1]`, scale by `32767`, truncate.
pub fn sample_to_i16(x: i64) -> (r: i16)
    ensures
        r == sample_i16_s(x as int),
        -32767 <= r <= 32767,
{
    let xc = clamp_q(x, -ONE, ONE);
    proof {
        lemma_mul_le(xc as int, 32767, 0x100000000, 32767);
        lemma_qmul_bound(xc as int, 32767, 0x100000000, 32767);
    }
    let v = qmul(xc, 32767);
    v as i16
}

/// Append a 16-bit word, little-endian.
fn push_u16_le(v: &mut Vec<u8>, x: u16)
    ensures
        final(v)@.len() == old(v)@.len() + 2,
        forall|k: int| 0 <= k < old(v)@.len() ==> final(v)@[k] == old(v)@[k],
        le16_at(final(v)@, old(v)@.len() as int) == x,
{
    let b0: u8 = (x % 256) as u8;
    let b1: u8 = (x / 256) as u8;
    v.push(b0);
    v.push(b1);
}

/// Append a 32-bit word, little-endian.
fn push_u32_le(v: &mut Vec<u8>, x: u32)
    ensures
        final(v)@.len() == old(v)@.len() + 4,
        forall|k: int| 0 <= k < old(v)@.len() ==> final(v)@[k] == old(v)@[k],
        le32_at(final(v)@, old(v)@.len() as int) == x,
{
    let b0: u8 = (x % 256) as u8;
    let b1: u8 = ((x / 256) % 256) as u8;
    let b2: u8 = ((x / 65536) % 256) as u8;
    let b3: u8 = (x / 16777216) as u8;
    v.push(b0);
    v.push(b1);
    v.push(b2);
    v.push(b3);
}

/// The structural facts of a serialized WAV stream: the four tags, each
/// header field at its documented offset and formula, and 16-bit
/// little-endian payload words.
pub open spec fn wav_ok_s(b: Seq<u8>, sr: int, channels: int, data: Seq<i16>) -> bool {
    &&& b.len() == 44 + 2 * data.len()
    &&& b[0] == 82 && b[1] == 73 && b[2] == 70 && b[3] == 70
    &&& le32_at(b, 4) == 36 + 2 * data.len()
    &&& b[8] == 87 && b[9] == 65 && b[10] == 86 && b[11] == 69
    &&& b[12] == 102 && b[13] == 109 && b[14] == 116 && b[15] == 32
    &&& le32_at(b, 16) == 16
    &&& le16_at(b, 20) == 1
    &&& le16_at(b, 22) == channels
    &&& le32_at(b, 24) == sr
    &&& le32_at(b, 28) == sr * channels * 2
    &&& le16_at(b, 32) == channels * 2
    &&& le16_at(b, 34) == 16
    &&& b[36] == 100 && b[37] == 97 && b[38] == 116 && b[39] == 97
    &&& le32_at(b, 40) == 2 * data.len()
    &&& forall|i: int| 0 <= i < data.len()
        ==> le16_at(b, 44 + 2 * i) == i16_word_s(#[trigger] data[i] as int)
}

/// Serialize a 16-bit PCM buffer as a canonical RIFF/WAVE byte stream.
pub fn wav_bytes(sr: u32, channels: u16, data: &Vec<i16>) -> (r: Vec<u8>)
    requires
        1 <= channels <= 1024,
        sr <= SR_MAX,
        data@.len() <= 100000000,
    ensures
        wav_ok_s(r@, sr as int, channels as int, data@),
{
    let nlen: u32 = data.len() as u32;
    let data_len_bytes: u32 = nlen * 2;
    let riff_chunk_size: u32 = 36 + data_len_bytes;
    let block_align: u16 = channels * 2;
    proof {
        assert((sr as int) * ((channels as int) * 2) <= 1000000 * 2048) by (nonlinear_arith)
            requires sr as int <= 1000000, 1 <= channels as int <= 1024,
        {}
        assert((sr as int) * ((channels as int) * 2) == (sr as int) * (channels as int) * 2)
            by (nonlinear_arith) {}
    }
    let byte_rate: u32 = sr * (block_align as u32);
    let mut v: Vec<u8> = Vec::new();
    v.push(82);
    v.push(73);
    v.push(70);
    v.push(70);
    push_u32_le(&mut v, riff_chunk_size);
    v.push(87);
    v.push(65);
    v.push(86);
    v.push(69);
    v.push(102);
    v.push(109);
    v.push(116);
    v.push(32);
    push_u32_le(&mut v, 16);
    push_u16_le(&mut v, 1);
    push_u16_le(&mut v, channels);
    push_u32_le(&mut v, sr);
    push_u32_le(&mut v, byte_rate);
    push_u16_le(&mut v, block_align);
    push_u16_le(&mut v, 16);
    v.push(100);
    v.push(97);
    v.push(116);
    v.push(97);
    push_u32_le(&mut v, data_len_bytes);
    proof {
        assert(v@.len() == 44);
    }
    let n = data.len();
    let mut i: usize = 0;
    while i < n
        invariant
            0 <= i <= n,
            n == data@.len(),
            v@.len() == 44 + 2 * i,
            wav_head_ok(v@, sr as int, channels as int, n as int),
            forall|j: int| 0 <= j < i
                ==> le16_at(v@, 44 + 2 * j) == i16_word_s(#[trigger] data@[j] as int),
        decreases n - i,
    {
        let x: i16 = data[i];
        let w: u16 = if x >= 0 {
            x as u16
        } else {
            ((x as i32) + 65536) as u16
        };
        push_u16_le(&mut v, w);
        i = i + 1;
    }
    v
}

/// The header-only part of [`wav_ok_s`], used as the serializer's loop
/// invariant while the payload grows.
pub open spec fn wav_head_ok(b: Seq<u8>, sr: int, channels: int, nsamples: int) -> bool {
    &&& b.len() >= 44
    &&& b[0] == 82 && b[1] == 73 && b[2] == 70 && b[3] == 70
    &&& le32_at(b, 4) == 36 + 2 * nsamples
    &&& b[8] == 87 && b[9] == 65 && b[10] == 86 && b[11] == 69
    &&& b[12] == 102 && b[13] == 109 && b[14] == 116 && b[15] == 32
    &&& le32_at(b, 16) == 16
    &&& le16_at(b, 20) == 1
    &&& le16_at(b, 22) == channels
    &&& le32_at(b, 24) == sr
    &&& le32_at(b, 28) == sr * channels * 2
    &&& le16_at(b, 32) == channels * 2
    &&& le16_at(b, 34) == 16
    &&& b[36] == 100 && b[37] == 97 && b[38] == 116 && b[39] == 97
    &&& le32_at(b, 40) == 2 * nsamples
}

/// Render `frames` mono samples from the engine at its current rate and
/// duplicate each across `channels` interleaved slots.  The bundled scene
/// never signals exhaustion, so the produced frame count always equals
/// the request; the returned buffer's length says so.
pub fn render_interleaved<G: Generator>(eng: &mut Engine<G>, frames: usize, channels: usize)
    -> (r: Vec<i64>)
    requires
        old(eng).wf(),
        1 <= channels <= 1024,
        frames <= 10000000,
    ensures
        final(eng).wf(),
        final(eng).sr == old(eng).sr,
        r@.len() == frames * channels,
        forall|f: int, c: int| 0 <= f < frames && 0 <= c < channels
            ==> #[trigger] r@[f * (channels as int) + c] == r@[f * (channels as int)],
        forall|k: int| 0 <= k < r@.len() ==> -ONE <= #[trigger] r@[k] <= ONE,
{
    let mut out: Vec<i64> = Vec::new();
    let mut f: usize = 0;
    while f < frames
        invariant
            0 <= f <= frames,
            frames <= 10000000,
            1 <= channels <= 1024,
            eng.wf(),
            eng.sr == old(eng).sr,
            out@.len() == f * channels,
            forall|ff: int, c: int| 0 <= ff < f && 0 <= c < channels
                ==> #[trigger] out@[ff * (channels as int) + c] == out@[ff * (channels as int)],
            forall|k: int| 0 <= k < out@.len() ==> -ONE <= #[trigger] out@[k] <= ONE,
        decreases frames - f,
    {
        let sr = eng.sample_rate();
        let s = eng.next(sr);
        let ghost base = out@.len() as int;
        let ghost snap = out@;
        proof {
            assert(base == f * (channels as int));
            assert((f + 1) * (channels as int) == f * (channels as int) + channels)
                by (nonlinear_arith) {}
        }
        let mut c: usize = 0;
        while c < channels
            invariant
                0 <= c <= channels,
                out@.len() == base + c,
                base == snap.len(),
                forall|k: int| 0 <= k < base ==> #[trigger] out@[k] == snap[k],
                forall|k: int| base <= k < base + c ==> #[trigger] out@[k] == s,
                -ONE <= s <= ONE,
            decreases channels - c,
        {
            out.push(s);
            c = c + 1;
        }
        proof {
            assert forall|ff: int, cc: int|
                0 <= ff < f + 1 && 0 <= cc < channels
                implies #[trigger] out@[ff * (channels as int) + cc]
                    == out@[ff * (channels as int)] by {
                if ff < f {
                    assert((ff + 1) * (channels as int) <= f * (channels as int))
                        by (nonlinear_arith)
                        requires ff < f, channels as int >= 1, 0 <= ff,
                    {}
                    assert((ff + 1) * (channels as int) == ff * (channels as int) + channels)
                        by (nonlinear_arith) {}
                    assert(ff * (channels as int) >= 0) by (nonlinear_arith)
                        requires ff >= 0, channels as int >= 1,
                    {}
                    assert(out@[ff * (channels as int) + cc] == snap[ff * (channels as int) + cc]);
                    assert(out@[ff * (channels as int)] == snap[ff * (channels as int)]);
                } else {
                    assert(ff * (channels as int) == base);
                }
            }
            assert(out@.len() == base + channels);
            assert((f + 1) * (channels as int) == base + channels);
        }
        f = f + 1;
    }
    out
}

/// The number of frames a duration dictates: `round(sr·seconds)`.
pub open spec fn wav_frames_s(sr: int, seconds: int) -> int {
    (sr * seconds + HALF) / (ONE as int)
}

/// Render `seconds_q` (Q32.32 seconds) of audio from the engine at its
/// current rate into a complete 16-bit PCM WAV byte stream with
/// `channels` channels.  A zero channel count and a nonpositive duration
/// are rejected, each with its own error, and an error leaves the engine
/// untouched; any other allowed input produces the full serialized
/// stream: `round(sr·seconds)` frames of mono samples in `[-1, 1]`, each
/// converted by clamp-scale-truncate and duplicated across the channels.
pub fn render_wav<G: Generator>(eng: &mut Engine<G>, seconds_q: i64, channels: u16)
    -> (r: Result<Vec<u8>, RenderError>)
    requires
        old(eng).wf(),
        old(eng).sr <= SR_MAX,
        channels <= 64,
        seconds_q > 0 ==> wav_frames_s(old(eng).sr as int, seconds_q as int) * (channels as int)
            <= 10000000,
    ensures
        final(eng).wf(),
        final(eng).sr == old(eng).sr,
        r is Err <==> (channels == 0 || seconds_q <= 0),
        r is Err ==> *final(eng) == *old(eng),
        channels == 0 ==> r == Result::<Vec<u8>, RenderError>::Err(RenderError::ZeroChannels),
        channels >= 1 && seconds_q <= 0
            ==> r == Result::<Vec<u8>, RenderError>::Err(RenderError::NonPositiveDuration),
        r matches Ok(b) ==> b@.len()
            == 44 + 2 * wav_frames_s(old(eng).sr as int, seconds_q as int) * (channels as int),
        r matches Ok(b) ==> exists|data: Seq<i16>, mono: Seq<i64>|
            wav_ok_s(b@, old(eng).sr as int, channels as int, data)
            && data.len() == wav_frames_s(old(eng).sr as int, seconds_q as int) * (channels as int)
            && mono.len() == wav_frames_s(old(eng).sr as int, seconds_q as int)
            && (forall|f: int| 0 <= f < mono.len() ==> -ONE <= #[trigger] mono[f] <= ONE)
            && (forall|f: int, c: int| 0 <= f < mono.len() && 0 <= c < channels
                ==> #[trigger] data[f * (channels as int) + c] as int == sample_i16_s(mono[f] as int)),
{
    if channels == 0 {
        return Err(RenderError::ZeroChannels);
    }
    if seconds_q <= 0 {
        return Err(RenderError::NonPositiveDuration);
    }
    let sr = eng.sample_rate();
    proof {
        lemma_mul_le(sr as int, seconds_q as int, 0x100000000, 0x8000000000000000);
        assert((sr as int) * (seconds_q as int) >= 0) by (nonlinear_arith)
            requires sr as int >= 0, seconds_q as int > 0,
        {}
    }
    let total: u128 = ((sr as u128) * (seconds_q as u128) + (HALF as u128)) / (ONE as u128);
    proof {
        vstd::arithmetic::div_mod::lemma_div_pos_is_pos(
            (sr as int) * (seconds_q as int) + (HALF as int), ONE as int);
        assert(total as int == wav_frames_s(sr as int, seconds_q as int));
        assert(wav_frames_s(sr as int, seconds_q as int) <= 10000000) by (nonlinear_arith)
            requires
                wav_frames_s(sr as int, seconds_q as int) * (channels as int) <= 10000000,
                channels as int >= 1,
                wav_frames_s(sr as int, seconds_q as int) >= 0,
        {}
    }
    let frames: usize = total as usize;
    let inter = render_interleaved(eng, frames, channels as usize);
    let n = inter.len();
    let mut pcm: Vec<i16> = Vec::new();
    let mut i: usize = 0;
    while i < n
        invariant
            0 <= i <= n,
            n == inter@.len(),
            pcm@.len() == i,
            forall|j: int| 0 <= j < i
                ==> #[trigger] pcm@[j] as int == sample_i16_s(inter@[j] as int),
        decreases n - i,
    {
        let s = sample_to_i16(inter[i]);
        pcm.push(s);
        i = i + 1;
    }
    proof {
        assert((frames as int) * (channels as int) <= 10000000);
    }
    let bytes = wav_bytes(sr, channels, &pcm);
    proof {
        let ch = channels as int;
        let fr = frames as int;
        let mono_seq = Seq::new(frames as nat, |f: int| inter@[f * ch]);
        assert forall|f: int| 0 <= f < fr
            implies -ONE <= #[trigger] mono_seq[f] <= ONE by {
            lemma_frame_index(f, ch, fr);
            assert(inter@[f * ch + 0] == inter@[f * ch]);
        }
        assert forall|f: int, c: int| 0 <= f < fr && 0 <= c < ch
            implies #[trigger] pcm@[f * ch + c] as int == sample_i16_s(mono_seq[f] as int) by {
            lemma_frame_index(f, ch, fr);
            assert(f * ch + c < fr * ch) by (nonlinear_arith)
                requires 0 <= f < fr, 0 <= c < ch,
            {}
            assert(inter@[f * ch + c] == inter@[f * ch]);
            assert(pcm@[f * ch + c] as int == sample_i16_s(inter@[f * ch + c] as int));
        }
        assert(wav_ok_s(bytes@, sr as int, ch, pcm@)
            && pcm@.len() == wav_frames_s(old(eng).sr as int, seconds_q as int) * ch
            && mono_seq.len() == wav_frames_s(old(eng).sr as int, seconds_q as int)
            && (forall|f: int| 0 <= f < mono_seq.len() ==> -ONE <= #[trigger] mono_seq[f] <= ONE)
            && (forall|f: int, c: int| 0 <= f < mono_seq.len() && 0 <= c < channels
                ==> #[trigger] pcm@[f * ch + c] as int == sample_i16_s(mono_seq[f] as int)));
        assert(2 * ((frames as int) * (channels as int))
            == 2 * (frames as int) * (channels as int)) by (nonlinear_arith) {}
    }
    Ok(bytes)
}

/// A frame's first slot sits inside the interleaved buffer.
proof fn lemma_frame_index(f: int, ch: int, fr: int)
    requires
        0 <= f < fr,
        1 <= ch,
    ensures
        0 <= f * ch,
        f * ch + ch <= fr * ch,
    decreases 0int,
{
    assert(0 <= f * ch && f * ch + ch <= fr * ch) by (nonlinear_arith)
        requires 0 <= f < fr, 1 <= ch,
    {}
}

} // verus!
