//! The WAV producer: non-destructive format probing, per-sample-width
//! decoding, duration computation, and frame-aligned seeking over a
//! random-access byte resource.

use vstd::prelude::*;
use vstd::arithmetic::power2::*;
use vstd::arithmetic::div_mod::*;
use crate::sample::{
    SampleFormat, spec_bytes_per_sample, le_value, spec_decode_sample, bytes_per_sample, read_le,
    decode_sample, lemma_le_value_bound,
};
use crate::source::{SeekError, Source};

verus! {

/// The format information a successful header parse extracts.
#[derive(Clone, Copy, PartialEq, Eq, Structural, Debug)]
pub struct WavHeader {
    pub format: SampleFormat,
    pub channels: u16,
    pub sample_rate: u32,
    pub bits: u16,
    /// First byte of the data chunk's payload.
    pub data_off: usize,
    /// Payload bytes available in the buffer, capped at the declared size.
    pub data_len: usize,
}

/// Little-endian 16-bit field at `i`.
pub open spec fn le16(b: Seq<u8>, i: int) -> nat {
    le_value(b, i, 2)
}

/// Little-endian 32-bit field at `i`.
pub open spec fn le32(b: Seq<u8>, i: int) -> nat {
    le_value(b, i, 4)
}

/// Does a RIFF/WAVE container start the buffer?
pub open spec fn is_riff_wave(b: Seq<u8>) -> bool {
    b.len() >= 12 && b[0] == 0x52u8 && b[1] == 0x49u8 && b[2] == 0x46u8 && b[3] == 0x46u8 && b[8]
        == 0x57u8 && b[9] == 0x41u8 && b[10] == 0x56u8 && b[11] == 0x45u8
}

/// Is the chunk at `pos` a `fmt ` chunk?
pub open spec fn is_fmt_chunk(b: Seq<u8>, pos: int) -> bool {
    b[pos] == 0x66u8 && b[pos + 1] == 0x6du8 && b[pos + 2] == 0x74u8 && b[pos + 3] == 0x20u8
}

/// Is the chunk at `pos` a `data` chunk?
pub open spec fn is_data_chunk(b: Seq<u8>, pos: int) -> bool {
    b[pos] == 0x64u8 && b[pos + 1] == 0x61u8 && b[pos + 2] == 0x74u8 && b[pos + 3] == 0x61u8
}

/// The four `fmt ` fields this library reads: format tag, channel count,
/// sample rate, bits per sample.
pub open spec fn fmt_fields(b: Seq<u8>, pos: int) -> (nat, nat, nat, nat) {
    (le16(b, pos + 8), le16(b, pos + 10), le32(b, pos + 12), le16(b, pos + 22))
}

/// The header a `data` chunk at `pos` yields, given the `fmt ` fields seen
/// earlier: the format tag must be PCM (1) or IEEE float (3) and every
/// field must be non-zero; the payload is capped at what the buffer holds.
pub open spec fn header_from(f: (nat, nat, nat, nat), b: Seq<u8>, pos: int) -> Option<WavHeader> {
    let size = le32(b, pos + 4);
    let avail = (b.len() - pos - 8) as nat;
    if (f.0 == 1 || f.0 == 3) && f.1 >= 1 && f.2 >= 1 && f.3 >= 1 {
        Some(
            WavHeader {
                format: if f.0 == 3 {
                    SampleFormat::Float
                } else {
                    SampleFormat::Int
                },
                channels: f.1 as u16,
                sample_rate: f.2 as u32,
                bits: f.3 as u16,
                data_off: (pos + 8) as usize,
                data_len: if size <= avail {
                    size as usize
                } else {
                    avail as usize
                },
            },
        )
    } else {
        None
    }
}

/// Walk the chunk list from `pos`: remember the first `fmt ` chunk, skip
/// unknown chunks (word-aligned, as RIFF requires), and stop at the first
/// `data` chunk. Anything malformed parses to `None`.
pub open spec fn scan_chunks(b: Seq<u8>, pos: int, fmt: Option<(nat, nat, nat, nat)>) -> Option<
    WavHeader,
>
    decreases b.len() - pos,
{
    if pos + 8 > b.len() || pos < 0 {
        None
    } else {
        let size = le32(b, pos + 4);
        let pad = size % 2;
        if is_data_chunk(b, pos) {
            if fmt is Some {
                header_from(fmt->0, b, pos)
            } else {
                None
            }
        } else if is_fmt_chunk(b, pos) && (fmt is Some || size < 16 || pos + 24 > b.len()) {
            None
        } else {
            let fmt2 = if is_fmt_chunk(b, pos) {
                Some(fmt_fields(b, pos))
            } else {
                fmt
            };
            if size + pad > b.len() - pos - 8 {
                None
            } else {
                scan_chunks(b, pos + 8 + size + pad, fmt2)
            }
        }
    }
}

/// What probing the buffer as WAV yields: `None` means "not this format".
pub open spec fn parse_wav(b: Seq<u8>) -> Option<WavHeader> {
    if is_riff_wave(b) {
        scan_chunks(b, 12, Option::<(nat, nat, nat, nat)>::None)
    } else {
        None
    }
}

/// A successful parse only ever yields non-zero metadata, a payload that
/// lies inside the buffer, and a payload length below 2^32.
proof fn lemma_scan_chunks_bounds(b: Seq<u8>, pos: int, fmt: Option<(nat, nat, nat, nat)>)
    requires
        scan_chunks(b, pos, fmt) is Some,
        b.len() <= usize::MAX,
        fmt is Some ==> (fmt->0).1 < 0x1_0000 && (fmt->0).2 < 0x1_0000_0000 && (fmt->0).3
            < 0x1_0000,
    ensures
        ({
            let h = scan_chunks(b, pos, fmt)->0;
            &&& h.channels >= 1
            &&& h.sample_rate >= 1
            &&& h.bits >= 1
            &&& h.data_off + h.data_len <= b.len()
            &&& h.data_len < 0x1_0000_0000
        }),
    decreases b.len() - pos,
{
    let size = le32(b, pos + 4);
    let pad = size % 2;
    lemma_le_value_bound(b, pos + 4, 4);
    lemma2_to64();
    if is_data_chunk(b, pos) {
    } else if is_fmt_chunk(b, pos) && (fmt is Some || size < 16 || pos + 24 > b.len()) {
    } else {
        let fmt2 = if is_fmt_chunk(b, pos) {
            Some(fmt_fields(b, pos))
        } else {
            fmt
        };
        if is_fmt_chunk(b, pos) {
            lemma_le_value_bound(b, pos + 10, 2);
            lemma_le_value_bound(b, pos + 12, 4);
            lemma_le_value_bound(b, pos + 22, 2);
        }
        lemma_scan_chunks_bounds(b, pos + 8 + size + pad, fmt2);
    }
}

/// Public face of the bounds above, for the parse entry point.
pub proof fn lemma_parse_wav_bounds(b: Seq<u8>)
    requires
        parse_wav(b) is Some,
        b.len() <= usize::MAX,
    ensures
        ({
            let h = parse_wav(b)->0;
            &&& h.channels >= 1
            &&& h.sample_rate >= 1
            &&& h.bits >= 1
            &&& h.data_off + h.data_len <= b.len()
            &&& h.data_len < 0x1_0000_0000
        }),
{
    lemma_scan_chunks_bounds(b, 12, Option::<(nat, nat, nat, nat)>::None);
}

/// Probe the buffer as WAV without consuming it. The buffer is read, never
/// written, so on mismatch the caller's resource is exactly as it was.
pub fn probe_wav(data: &Vec<u8>) -> (r: Option<WavHeader>)
    ensures
        r == parse_wav(data@),
{
    let n: usize = data.len();
    if n < 12 {
        return None;
    }
    if !(data[0] == 0x52 && data[1] == 0x49 && data[2] == 0x46 && data[3] == 0x46 && data[8] == 0x57
        && data[9] == 0x41 && data[10] == 0x56 && data[11] == 0x45) {
        return None;
    }
    let mut pos: usize = 12;
    let mut have_fmt: bool = false;
    let mut tag: u16 = 0;
    let mut channels: u16 = 0;
    let mut rate: u32 = 0;
    let mut bits: u16 = 0;
    loop
        invariant
            12 <= pos <= n,
            n == data@.len(),
            is_riff_wave(data@),
            have_fmt ==> ({
                let f = (tag as nat, channels as nat, rate as nat, bits as nat);
                scan_chunks(data@, pos as int, Some(f)) == parse_wav(data@)
            }),
            !have_fmt ==> scan_chunks(data@, pos as int, Option::<(nat, nat, nat, nat)>::None)
                == parse_wav(data@),
        decreases n - pos,
    {
        if n - pos < 8 {
            return None;
        }
        let size64: u64 = read_le(data, pos + 4, 4);
        proof {
            lemma_le_value_bound(data@, pos as int + 4, 4);
            lemma2_to64();
        }
        let pad: u64 = size64 % 2;
        let is_data: bool = data[pos] == 0x64 && data[pos + 1] == 0x61 && data[pos + 2] == 0x74
            && data[pos + 3] == 0x61;
        let is_fmt: bool = data[pos] == 0x66 && data[pos + 1] == 0x6d && data[pos + 2] == 0x74
            && data[pos + 3] == 0x20;
        if is_data {
            if !have_fmt {
                return None;
            }
            if !((tag == 1 || tag == 3) && channels >= 1 && rate >= 1 && bits >= 1) {
                return None;
            }
            let avail: usize = n - pos - 8;
            let dl: usize = if size64 <= avail as u64 {
                size64 as usize
            } else {
                avail
            };
            return Some(
                WavHeader {
                    format: if tag == 3 {
                        SampleFormat::Float
                    } else {
                        SampleFormat::Int
                    },
                    channels,
                    sample_rate: rate,
                    bits,
                    data_off: pos + 8,
                    data_len: dl,
                },
            );
        }
        if is_fmt {
            if have_fmt || size64 < 16 || n - pos < 24 {
                return None;
            }
            tag = read_le(data, pos + 8, 2) as u16;
            channels = read_le(data, pos + 10, 2) as u16;
            rate = read_le(data, pos + 12, 4) as u32;
            bits = read_le(data, pos + 22, 2) as u16;
            proof {
                lemma_le_value_bound(data@, pos as int + 8, 2);
                lemma_le_value_bound(data@, pos as int + 10, 2);
                lemma_le_value_bound(data@, pos as int + 12, 4);
                lemma_le_value_bound(data@, pos as int + 22, 2);
            }
            have_fmt = true;
        }
        let avail: u64 = (n - pos - 8) as u64;
        if size64 + pad > avail {
            return None;
        }
        pos = pos + 8 + (size64 as usize) + (pad as usize);
    }
}

/// Decoder for the WAV format over an owned byte resource.
pub struct WavDecoder {
    data: Vec<u8>,
    header: WavHeader,
    samples_read: u64,
    total_samples: u64,
}

impl WavDecoder {
    /// Internal invariant: the stored header is exactly what the buffer
    /// parses to, and the read cursor never passes the sample count the
    /// data chunk holds.
    pub closed spec fn wf(self) -> bool {
        &&& parse_wav(self.data@) == Some(self.header)
        &&& self.header.channels >= 1
        &&& self.header.sample_rate >= 1
        &&& self.header.bits >= 1
        &&& self.header.data_off + self.header.data_len <= self.data@.len()
        &&& self.header.data_len < 0x1_0000_0000
        &&& self.total_samples == self.header.data_len as int / spec_bytes_per_sample(
            self.header.bits as nat,
        ) as int
        &&& self.samples_read <= self.total_samples
    }

    pub closed spec fn spec_header(self) -> WavHeader {
        self.header
    }

    pub closed spec fn spec_samples_read(self) -> u64 {
        self.samples_read
    }

    pub closed spec fn spec_total_samples(self) -> u64 {
        self.total_samples
    }

    pub closed spec fn spec_data(self) -> Seq<u8> {
        self.data@
    }

    /// The amplitude of sample number `idx` of the data chunk.
    pub open spec fn sample_at(self, idx: int) -> int {
        spec_decode_sample(
            self.spec_data(),
            self.spec_header().data_off + idx * spec_bytes_per_sample(
                self.spec_header().bits as nat,
            ),
            self.spec_header().format,
            self.spec_header().bits as nat,
        )
    }

    /// Total duration in microseconds:
    /// `samples * 1_000_000 / (sample_rate * channels)`.
    pub open spec fn spec_duration_micros(self) -> int {
        self.spec_total_samples() * 1_000_000 / (self.spec_header().sample_rate as int
            * self.spec_header().channels as int)
    }

    /// Attempts to decode the data as WAV. On success the producer owns the
    /// buffer with its cursor at the first sample; on mismatch the buffer
    /// comes back untouched so probing can chain across candidate decoders.
    pub fn new(data: Vec<u8>) -> (r: Result<WavDecoder, Vec<u8>>)
        ensures
            match r {
                Ok(d) => {
                    &&& parse_wav(data@) is Some
                    &&& d.wf()
                    &&& d.spec_data() == data@
                    &&& d.spec_header() == parse_wav(data@)->0
                    &&& d.spec_samples_read() == 0
                    &&& d.spec_total_samples() == d.spec_header().data_len as int
                        / spec_bytes_per_sample(d.spec_header().bits as nat) as int
                },
                Err(e) => {
                    &&& parse_wav(data@) is None
                    &&& e@ == data@
                },
            },
    {
        let n: usize = data.len();
        let h: Option<WavHeader> = probe_wav(&data);
        match h {
            None => Err(data),
            Some(header) => {
                proof {
                    lemma_parse_wav_bounds(data@);
                }
                let bps: u64 = bytes_per_sample(header.bits) as u64;
                let total: u64 = (header.data_len as u64) / bps;
                proof {
                    lemma_div_is_ordered(0, header.data_len as int, bps as int);
                }
                Ok(WavDecoder { data, header, samples_read: 0, total_samples: total })
            },
        }
    }

    /// Samples still to be produced before exhaustion.
    pub fn remaining_samples(&self) -> (r: u64)
        requires
            WavDecoder::wf(*self),
        ensures
            r == self.spec_total_samples() - self.spec_samples_read(),
    {
        self.total_samples - self.samples_read
    }

    /// Hand the byte resource back, consuming the producer.
    pub fn into_inner(self) -> (r: Vec<u8>)
        ensures
            r@ == self.spec_data(),
    {
        self.data
    }
}

impl Source for WavDecoder {
    open spec fn wf(&self) -> bool {
        WavDecoder::wf(*self)
    }

    closed spec fn spec_channels(&self) -> u16 {
        self.header.channels
    }

    closed spec fn spec_sample_rate(&self) -> u32 {
        self.header.sample_rate
    }

    closed spec fn spec_span_len(&self) -> Option<usize> {
        None
    }

    /// Produce the sample under the cursor, or `None` exactly when the
    /// data chunk is exhausted; decoding never fails mid-stream, malformed
    /// or unsupported samples decode to equilibrium.
    fn next(&mut self) -> (s: Option<i32>)
        ensures
            final(self).wf(),
            final(self).spec_header() == old(self).spec_header(),
            final(self).spec_data() == old(self).spec_data(),
            final(self).spec_total_samples() == old(self).spec_total_samples(),
            old(self).spec_samples_read() < old(self).spec_total_samples() ==> {
                &&& s == Some(old(self).sample_at(old(self).spec_samples_read() as int) as i32)
                &&& final(self).spec_samples_read() == old(self).spec_samples_read() + 1
            },
            old(self).spec_samples_read() >= old(self).spec_total_samples() ==> {
                &&& s is None
                &&& final(self).spec_samples_read() == old(self).spec_samples_read()
            },
    {
        if self.samples_read >= self.total_samples {
            return None;
        }
        let dn: usize = self.data.len();
        let bps: u64 = bytes_per_sample(self.header.bits) as u64;
        proof {
            lemma_fundamental_div_mod(self.header.data_len as int, bps as int);
            lemma_mod_bound(self.header.data_len as int, bps as int);
            assert((self.samples_read + 1) * bps <= self.total_samples * bps) by (nonlinear_arith)
                requires
                    self.samples_read + 1 <= self.total_samples,
                    bps >= 1,
            ;
            assert(self.total_samples * bps <= self.header.data_len) by (nonlinear_arith)
                requires
                    self.total_samples == self.header.data_len as int / bps as int,
                    self.header.data_len == bps * (self.header.data_len as int / bps as int) + self.header.data_len as int % bps as int,
                    self.header.data_len as int % bps as int >= 0,
            ;
            assert(self.samples_read * bps + bps == (self.samples_read + 1) * bps)
                by (nonlinear_arith);
            assert(self.samples_read * bps <= (self.samples_read + 1) * bps) by (nonlinear_arith)
                requires
                    bps >= 0,
            ;
        }
        let off: usize = self.header.data_off + (self.samples_read * bps) as usize;
        let s: i32 = decode_sample(&self.data, off, self.header.format, self.header.bits);
        self.samples_read = self.samples_read + 1;
        Some(s)
    }

    /// The channel count is the header's, constant for the whole stream.
    fn channels(&self) -> (c: u16)
        ensures
            c == self.spec_header().channels,
    {
        self.header.channels
    }

    /// The sample rate is the header's, constant for the whole stream.
    fn sample_rate(&self) -> (r: u32)
        ensures
            r == self.spec_header().sample_rate,
    {
        self.header.sample_rate
    }

    /// This format has no interior metadata discontinuities, so the span
    /// length is always reported unknown.
    fn current_span_len(&self) -> (l: Option<usize>)
        ensures
            l is None,
    {
        None
    }

    /// Total duration, computed from the sample count the data chunk holds.
    fn total_duration(&self) -> (d: Option<u64>)
        ensures
            d == Some(self.spec_duration_micros() as u64),
            self.spec_duration_micros() <= u64::MAX,
    {
        proof {
            let bps = spec_bytes_per_sample(self.header.bits as nat) as int;
            lemma_div_is_ordered(8, self.header.bits + 7, 8);
            lemma_div_basics(8);
            lemma_div_is_ordered_by_denominator(self.header.data_len as int, 1, bps);
            lemma_div_basics(self.header.data_len as int);
            assert(self.total_samples <= self.header.data_len);
            assert((self.header.sample_rate as int) * (self.header.channels as int)
                <= 0xFFFF_FFFFu64 * 0xFFFF) by (nonlinear_arith)
                requires
                    self.header.sample_rate <= 0xFFFF_FFFFu64,
                    self.header.channels <= 0xFFFFu64,
                    self.header.sample_rate >= 0,
                    self.header.channels >= 0,
            ;
            assert((self.header.sample_rate as int) * (self.header.channels as int) >= 1)
                by (nonlinear_arith)
                requires
                    self.header.sample_rate >= 1,
                    self.header.channels >= 1,
            ;
            assert(self.total_samples * 1_000_000 <= 0x1_0000_0000u64 * 1_000_000)
                by (nonlinear_arith)
                requires
                    self.total_samples <= 0x1_0000_0000u64,
            ;
        }
        let denom: u64 = (self.header.sample_rate as u64) * (self.header.channels as u64);
        let num: u64 = self.total_samples * 1_000_000;
        proof {
            lemma_div_is_ordered_by_denominator(num as int, 1, denom as int);
            lemma_div_basics(num as int);
        }
        Some(num / denom)
    }

    /// Reposition to the frame boundary at or before `pos_micros`
    /// (`time * sample_rate`, truncated), clamping past-the-end requests to
    /// end-of-media, then skip `previous samples_read mod channels` samples
    /// so reads stay channel-aligned. Seeking a byte buffer cannot fail.
    fn try_seek(&mut self, pos_micros: u64) -> (r: Result<(), SeekError>)
        ensures
            final(self).wf(),
            r is Ok,
            final(self).spec_header() == old(self).spec_header(),
            final(self).spec_data() == old(self).spec_data(),
            final(self).spec_total_samples() == old(self).spec_total_samples(),
            final(self).spec_samples_read() == seek_target(*old(self), pos_micros as nat),
    {
        let frames: u64 = self.total_samples / (self.header.channels as u64);
        proof {
            assert((pos_micros as int) * (self.header.sample_rate as int) <= 0xFFFF_FFFF_FFFF_FFFFu64
                * 0xFFFF_FFFFu64) by (nonlinear_arith)
                requires
                    pos_micros <= 0xFFFF_FFFF_FFFF_FFFFu64,
                    self.header.sample_rate <= 0xFFFF_FFFFu64,
                    pos_micros >= 0,
                    self.header.sample_rate >= 0,
            ;
        }
        let tf128: u128 = (pos_micros as u128) * (self.header.sample_rate as u128) / 1_000_000;
        let f: u64 = if tf128 < frames as u128 {
            tf128 as u64
        } else {
            frames
        };
        let ch: u64 = self.header.channels as u64;
        proof {
            lemma_fundamental_div_mod(self.total_samples as int, ch as int);
            lemma_mod_bound(self.total_samples as int, ch as int);
            assert(f * ch <= frames * ch) by (nonlinear_arith)
                requires
                    f <= frames,
                    ch >= 1,
            ;
            assert(frames * ch <= self.total_samples) by (nonlinear_arith)
                requires
                    frames == self.total_samples as int / ch as int,
                    self.total_samples == ch * (self.total_samples as int / ch as int) + self.total_samples as int % ch as int,
                    self.total_samples as int % ch as int >= 0,
            ;
        }
        let base: u64 = f * ch;
        let skip: u64 = self.samples_read % ch;
        proof {
            lemma_mod_bound(old(self).samples_read as int, ch as int);
        }
        self.samples_read = base;
        let mut i: u64 = 0;
        while i < skip
            invariant
                i <= skip,
                self.wf(),
                self.header == old(self).header,
                self.data@ == old(self).data@,
                self.total_samples == old(self).total_samples,
                base + skip <= u64::MAX,
                if base + i <= self.total_samples {
                    self.samples_read == base + i
                } else {
                    self.samples_read == self.total_samples
                },
            decreases skip - i,
        {
            let _ = self.next();
            i = i + 1;
        }
        Ok(())
    }
}

/// The cursor position `try_seek` leaves behind: the clamped target frame
/// times the channel count, advanced by the channel-alignment skip, and
/// never past end-of-media.
pub open spec fn seek_target(d: WavDecoder, pos_micros: nat) -> nat {
    let frames = d.spec_total_samples() as nat / d.spec_header().channels as nat;
    let tf = pos_micros * d.spec_header().sample_rate as nat / 1_000_000;
    let f = if tf < frames {
        tf
    } else {
        frames
    };
    let base = f * d.spec_header().channels as nat;
    let skip = d.spec_samples_read() as nat % d.spec_header().channels as nat;
    if base + skip <= d.spec_total_samples() {
        base + skip
    } else {
        d.spec_total_samples() as nat
    }
}

/// Law: seeking to any time and then back to time zero leaves the cursor
/// exactly where a freshly constructed producer starts, so the next pull
/// yields the same first sample. `d` is the fresh producer, `d2` the same
/// producer after the first seek.
pub proof fn lemma_seek_to_start_is_fresh(d: WavDecoder, d2: WavDecoder, t: nat)
    requires
        d.wf(),
        d.spec_samples_read() == 0,
        d2.wf(),
        d2.spec_header() == d.spec_header(),
        d2.spec_total_samples() == d.spec_total_samples(),
        d2.spec_samples_read() == seek_target(d, t),
    ensures
        seek_target(d2, 0) == 0,
{
    let ch = d.spec_header().channels as int;
    let total = d.spec_total_samples() as int;
    let frames = total / ch;
    let tf = t * d.spec_header().sample_rate as nat / 1_000_000;
    let f: int = if tf < frames {
        tf as int
    } else {
        frames
    };
    lemma_small_mod(0, ch as nat);
    lemma_mod_multiples_basic(f, ch);
    lemma_fundamental_div_mod(total, ch);
    lemma_mod_bound(total, ch);
    assert(ch * frames == frames * ch) by (nonlinear_arith);
    assert(frames * ch <= total);
    assert(f * ch <= frames * ch) by (nonlinear_arith)
        requires
            f <= frames,
            ch >= 1,
    ;
    let tgt = seek_target(d, t) as int;
    assert(tgt == f * ch);
    assert(tgt % ch == 0);
    lemma_small_mod(0, 1_000_000);
    assert(0 * d.spec_header().sample_rate as nat == 0) by (nonlinear_arith);
    assert(0 * ch == 0) by (nonlinear_arith);
    assert(seek_target(d2, 0) == 0);
}

/// Law: a seek past end-of-media clamps the cursor to end-of-media, so the
/// pull after it reports exhaustion immediately; the data chunk holds whole
/// frames.
pub proof fn lemma_seek_past_end_exhausts(d: WavDecoder, t: nat)
    requires
        d.wf(),
        d.spec_total_samples() as int % d.spec_header().channels as int == 0,
        t * d.spec_header().sample_rate as nat / 1_000_000 >= d.spec_total_samples() as nat
            / d.spec_header().channels as nat,
    ensures
        seek_target(d, t) == d.spec_total_samples(),
{
    let ch = d.spec_header().channels as int;
    let total = d.spec_total_samples() as int;
    let frames = total / ch;
    lemma_fundamental_div_mod(total, ch);
    assert(ch * frames == frames * ch) by (nonlinear_arith);
    assert(frames * ch == total);
    lemma_mod_bound(d.spec_samples_read() as int, ch);
}

} // verus!
