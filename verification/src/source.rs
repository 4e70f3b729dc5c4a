//! Audio sources: the shape of the audio a source delivers, what it is doing, the
//! reduction of any channel count to stereo, and the layout of a WAV file.
//!
//! Capturing, and turning samples into floating point, are the app's. Reading a WAV
//! file's chunks is this library's: [`parse_wav`] finds the format and the data, and
//! says exactly why a file is refused.

use vstd::prelude::*;
use crate::text;

verus! {

/// The shape of the audio a source delivers after it has made it stereo.
#[derive(Clone, Copy, Debug, PartialEq, Eq, Structural)]
pub struct StreamFormat {
    pub sample_rate: u32,
    /// Channels in the source itself; what reaches the ring is always stereo.
    pub source_channels: u16,
}

/// What a source is doing, for the status line.
#[derive(Clone, Debug, PartialEq, Eq)]
pub enum SourceStatus {
    Starting,
    /// Capturing; the text says what, such as "Whole system, Speakers, 48 kHz".
    Running(String),
    /// No audio server or API to capture from.
    NoAudioServer,
    /// Nothing to capture: no output device, or the chosen app has gone.
    NoDevice,
    /// The system suspended the stream, as for a sleep.
    Suspended,
    /// Another app holds the device in exclusive mode.
    ExclusiveMode,
    Failed(String),
    Stopped,
}

/// What the status line says for a status.
pub open spec fn status_text(s: SourceStatus) -> Seq<char> {
    match s {
        SourceStatus::Starting => "starting capture"@,
        SourceStatus::Running(what) => what@,
        SourceStatus::NoAudioServer => "no audio server"@,
        SourceStatus::NoDevice => "no output device"@,
        SourceStatus::Suspended => "capture suspended"@,
        SourceStatus::ExclusiveMode => "device in exclusive use"@,
        SourceStatus::Failed(why) => "capture failed: "@ + why@,
        SourceStatus::Stopped => "capture stopped"@,
    }
}

impl SourceStatus {
    /// What the status line says.
    pub fn to_text(&self) -> (r: String)
        ensures
            r@ == status_text(*self),
    {
        let mut s = String::new();
        match self {
            SourceStatus::Starting => text::push_str(&mut s, "starting capture"),
            SourceStatus::Running(what) => text::push_str(&mut s, what.as_str()),
            SourceStatus::NoAudioServer => text::push_str(&mut s, "no audio server"),
            SourceStatus::NoDevice => text::push_str(&mut s, "no output device"),
            SourceStatus::Suspended => text::push_str(&mut s, "capture suspended"),
            SourceStatus::ExclusiveMode => text::push_str(&mut s, "device in exclusive use"),
            SourceStatus::Failed(why) => {
                text::push_str(&mut s, "capture failed: ");
                text::push_str(&mut s, why.as_str());
            },
            SourceStatus::Stopped => text::push_str(&mut s, "capture stopped"),
        }
        s
    }
}

/// News from a source.
#[derive(Clone, Debug, PartialEq, Eq)]
pub enum SourceEvent {
    Status(SourceStatus),
    /// The stream's format, sent before the first frames and again whenever it changes.
    Format(StreamFormat),
}

/// Interleaved frames of `channels` channels, as stereo: mono doubled, stereo as it
/// is, and past two channels the front pair of each whole frame.
pub open spec fn stereo_of<T>(frames: Seq<T>, channels: nat) -> Seq<T> {
    if channels == 0 {
        Seq::empty()
    } else if channels == 1 {
        Seq::new(2 * frames.len(), |i: int| frames[i / 2])
    } else if channels == 2 {
        frames
    } else {
        Seq::new(2 * (frames.len() / channels), |i: int| frames[(i / 2) * channels + i % 2])
    }
}

/// Turns interleaved frames of any channel count into stereo, as Nostalgia+'s ring did:
/// mono is doubled, and past two channels only the front pair is kept.
pub fn to_stereo<T: Copy>(frames: &[T], channels: usize, out: &mut Vec<T>)
    requires
        channels == 1 ==> 2 * frames@.len() <= usize::MAX,
    ensures
        final(out)@ == stereo_of(frames@, channels as nat),
{
    out.clear();
    if channels == 0 {
        assert(out@ =~= stereo_of(frames@, 0));
        return;
    }
    if channels == 2 {
        let mut i: usize = 0;
        while i < frames.len()
            invariant
                i <= frames@.len(),
                out@ == frames@.subrange(0, i as int),
            decreases frames.len() - i,
        {
            out.push(frames[i]);
            i = i + 1;
        }
        assert(frames@.subrange(0, frames@.len() as int) =~= frames@);
        return;
    }
    if channels == 1 {
        let mut i: usize = 0;
        while i < frames.len()
            invariant
                i <= frames@.len(),
                out@.len() == 2 * i,
                forall|j: int| 0 <= j < 2 * i ==> #[trigger] out@[j] == frames@[j / 2],
            decreases frames.len() - i,
        {
            out.push(frames[i]);
            out.push(frames[i]);
            i = i + 1;
        }
        assert(out@ =~= stereo_of(frames@, 1));
        return;
    }
    let whole = frames.len() / channels;
    let mut f: usize = 0;
    while f < whole
        invariant
            channels >= 3,
            whole == frames@.len() / (channels as nat),
            f <= whole,
            out@.len() == 2 * f,
            forall|j: int| 0 <= j < 2 * f ==> #[trigger] out@[j] == frames@[(j / 2) * channels + j % 2],
        decreases whole - f,
    {
        proof {
            assert(f * channels + channels <= whole * channels) by (nonlinear_arith)
                requires
                    f < whole;
            assert(whole * channels <= frames@.len()) by (nonlinear_arith)
                requires
                    whole == frames@.len() / (channels as nat),
                    channels >= 3;
            assert(frames@.len() == frames.len());
            assert(f * channels + channels <= frames.len());
        }
        let base = f * channels;
        out.push(frames[base]);
        out.push(frames[base + 1]);
        proof {
            assert forall|j: int| 0 <= j < 2 * (f + 1) implies #[trigger] out@[j] == frames@[(j / 2) * channels + j % 2] by {
                if j >= 2 * f {
                    assert(j / 2 == f);
                }
            }
        }
        f = f + 1;
    }
    assert(out@ =~= stereo_of(frames@, channels as nat));
}

} // verus!

verus! {

/// The little-endian 16-bit number at `i`.
pub open spec fn le16(b: Seq<u8>, i: int) -> nat {
    (b[i] + b[i + 1] * 0x100) as nat
}

/// The little-endian 32-bit number at `i`.
pub open spec fn le32(b: Seq<u8>, i: int) -> nat {
    (b[i] + b[i + 1] * 0x100 + b[i + 2] * 0x1_0000 + b[i + 3] * 0x100_0000) as nat
}

/// Whether the four bytes at `i` are `a b c d`.
pub open spec fn tag_at(b: Seq<u8>, i: int, a: u8, b1: u8, c: u8, d: u8) -> bool {
    b[i] == a && b[i + 1] == b1 && b[i + 2] == c && b[i + 3] == d
}

/// What a `fmt ` chunk says: the format tag, the channel count, the sample rate and the
/// bits per sample.
#[derive(Clone, Copy, Debug, PartialEq, Eq, Structural)]
pub struct WavFormat {
    pub tag: u16,
    pub channels: u16,
    pub sample_rate: u32,
    pub bits: u16,
}

/// The `fmt ` chunk whose body starts at `start` and is `len` bytes long. For
/// `WAVE_FORMAT_EXTENSIBLE` the real tag is the subformat GUID's first two bytes.
pub open spec fn format_at(b: Seq<u8>, start: int, len: int) -> WavFormat {
    let tag = le16(b, start);
    WavFormat {
        tag: (if tag == 0xFFFE && len >= 26 { le16(b, start + 24) } else { tag }) as u16,
        channels: le16(b, start + 2) as u16,
        sample_rate: le32(b, start + 4) as u32,
        bits: le16(b, start + 14) as u16,
    }
}

/// Walks the chunks from `pos` on, keeping the last `fmt ` chunk of at least 16 bytes and
/// the last `data` chunk, as its start and length. A chunk that claims more than the
/// file holds runs to the end of the file; chunks are padded to an even length.
pub open spec fn walk_chunks(b: Seq<u8>, pos: nat, fmt: Option<WavFormat>, data: Option<(nat, nat)>)
    -> (Option<WavFormat>, Option<(nat, nat)>)
    decreases (if pos <= b.len() { b.len() - pos } else { 0 }),
{
    if pos + 8 > b.len() {
        (fmt, data)
    } else {
        let len = le32(b, pos as int + 4);
        let start: int = pos as int + 8;
        let end: int = if start + len <= b.len() { start + len } else { b.len() as int };
        let body = (end - start) as nat;
        let fmt2 = if tag_at(b, pos as int, 0x66, 0x6d, 0x74, 0x20) && body >= 16 {
            Some(format_at(b, start as int, body as int))
        } else {
            fmt
        };
        let data2 = if tag_at(b, pos as int, 0x64, 0x61, 0x74, 0x61) {
            Some((start as nat, body))
        } else {
            data
        };
        walk_chunks(b, (pos + 8 + len + len % 2) as nat, fmt2, data2)
    }
}

/// How samples are stored.
#[derive(Clone, Copy, Debug, PartialEq, Eq, Structural)]
pub enum WavEncoding {
    /// 8-bit unsigned integers.
    Pcm8,
    /// 16-bit signed little-endian integers.
    Pcm16,
    /// 24-bit signed little-endian integers.
    Pcm24,
    /// 32-bit signed little-endian integers.
    Pcm32,
    /// 32-bit little-endian IEEE floats.
    Float32,
    /// 64-bit little-endian IEEE floats.
    Float64,
}

/// The encoding a format tag and a sample size name: integer PCM (tag 1) at 8, 16, 24
/// or 32 bits, or IEEE float (tag 3) at 32 or 64.
pub open spec fn encoding_of(tag: u16, bits: u16) -> Option<WavEncoding> {
    if tag == 1 && bits == 8 {
        Some(WavEncoding::Pcm8)
    } else if tag == 1 && bits == 16 {
        Some(WavEncoding::Pcm16)
    } else if tag == 1 && bits == 24 {
        Some(WavEncoding::Pcm24)
    } else if tag == 1 && bits == 32 {
        Some(WavEncoding::Pcm32)
    } else if tag == 3 && bits == 32 {
        Some(WavEncoding::Float32)
    } else if tag == 3 && bits == 64 {
        Some(WavEncoding::Float64)
    } else {
        None
    }
}

/// Bytes per sample.
pub open spec fn sample_width(e: WavEncoding) -> nat {
    match e {
        WavEncoding::Pcm8 => 1,
        WavEncoding::Pcm16 => 2,
        WavEncoding::Pcm24 => 3,
        WavEncoding::Pcm32 => 4,
        WavEncoding::Float32 => 4,
        WavEncoding::Float64 => 8,
    }
}

impl WavEncoding {
    /// Bytes per sample.
    pub fn width(self) -> (w: usize)
        ensures
            w == sample_width(self),
    {
        match self {
            WavEncoding::Pcm8 => 1,
            WavEncoding::Pcm16 => 2,
            WavEncoding::Pcm24 => 3,
            WavEncoding::Pcm32 => 4,
            WavEncoding::Float32 => 4,
            WavEncoding::Float64 => 8,
        }
    }
}

/// Where a WAV file's samples are and how to read them.
#[derive(Clone, Copy, Debug, PartialEq, Eq, Structural)]
pub struct WavLayout {
    pub encoding: WavEncoding,
    pub sample_rate: u32,
    pub source_channels: u16,
    /// Where the `data` chunk's body starts in the file.
    pub data_start: usize,
    /// How many bytes of it the file holds.
    pub data_len: usize,
}

/// Why a WAV file is refused.
#[derive(Clone, Copy, Debug, PartialEq, Eq, Structural)]
pub enum WavError {
    NotRiffWave,
    NoFmtChunk,
    NoDataChunk,
    NoChannelsOrRate,
    Unsupported { tag: u16, bits: u16 },
}

/// What [`parse_wav`] makes of a file.
pub open spec fn spec_parse_wav(b: Seq<u8>) -> Result<WavLayout, WavError> {
    if b.len() < 12 || !tag_at(b, 0, 0x52, 0x49, 0x46, 0x46) || !tag_at(b, 8, 0x57, 0x41, 0x56, 0x45) {
        Err(WavError::NotRiffWave)
    } else {
        let (fmt, data) = walk_chunks(b, 12, None, None);
        match fmt {
            None => Err(WavError::NoFmtChunk),
            Some(f) => match data {
                None => Err(WavError::NoDataChunk),
                Some((start, len)) => if f.channels == 0 || f.sample_rate == 0 {
                    Err(WavError::NoChannelsOrRate)
                } else {
                    match encoding_of(f.tag, f.bits) {
                        None => Err(WavError::Unsupported { tag: f.tag, bits: f.bits }),
                        Some(e) => Ok(WavLayout {
                            encoding: e,
                            sample_rate: f.sample_rate,
                            source_channels: f.channels,
                            data_start: start as usize,
                            data_len: len as usize,
                        }),
                    }
                },
            },
        }
    }
}

fn read_le16(b: &[u8], i: usize) -> (v: u16)
    requires
        i + 2 <= b@.len(),
    ensures
        v == le16(b@, i as int),
{
    b[i] as u16 + b[i + 1] as u16 * 0x100
}

fn read_le32(b: &[u8], i: usize) -> (v: u32)
    requires
        i + 4 <= b@.len(),
    ensures
        v == le32(b@, i as int),
{
    b[i] as u32 + b[i + 1] as u32 * 0x100 + b[i + 2] as u32 * 0x1_0000 + b[i + 3] as u32 * 0x100_0000
}

fn is_tag(b: &[u8], i: usize, t: [u8; 4]) -> (r: bool)
    requires
        i + 4 <= b@.len(),
    ensures
        r == tag_at(b@, i as int, t[0], t[1], t[2], t[3]),
{
    b[i] == t[0] && b[i + 1] == t[1] && b[i + 2] == t[2] && b[i + 3] == t[3]
}

/// Reads a WAV file's chunks: 8, 16, 24 and 32-bit integer PCM and 32 and 64-bit float,
/// including the extensible header.
pub fn parse_wav(bytes: &[u8]) -> (r: Result<WavLayout, WavError>)
    requires
        bytes@.len() < 0x8000_0000_0000_0000,
    ensures
        r == spec_parse_wav(bytes@),
        r matches Ok(l) ==> l.data_start + l.data_len <= bytes@.len(),
{
    if bytes.len() < 12 || !is_tag(bytes, 0, [0x52, 0x49, 0x46, 0x46]) || !is_tag(bytes, 8, [0x57, 0x41, 0x56, 0x45]) {
        return Err(WavError::NotRiffWave);
    }
    let ghost len_usize = bytes.len();
    let n = bytes.len() as u64;
    let mut fmt: Option<WavFormat> = None;
    let mut data: Option<(usize, usize)> = None;
    let mut pos: u64 = 12;
    while pos + 8 <= n
        invariant
            n == bytes@.len(),
            bytes@.len() <= usize::MAX,
            n < 0x8000_0000_0000_0000,
            pos <= n + 0x1_0000_0002,
            walk_chunks(bytes@, 12, None, None) == walk_chunks(bytes@, pos as nat, fmt,
                match data { Some((s, l)) => Some((s as nat, l as nat)), None => None }),
            data matches Some((s, l)) ==> s + l <= n,
        decreases n + 0x1_0000_0002 - pos,
    {
        let p = pos as usize;
        let len = read_le32(bytes, p + 4);
        let start = p + 8;
        let end: usize = if (start as u64) + (len as u64) <= n { start + len as usize } else { bytes.len() };
        let body = end - start;
        if is_tag(bytes, p, [0x66, 0x6d, 0x74, 0x20]) && body >= 16 {
            let raw = read_le16(bytes, start);
            let tag = if raw == 0xFFFE && body >= 26 { read_le16(bytes, start + 24) } else { raw };
            fmt = Some(WavFormat {
                tag,
                channels: read_le16(bytes, start + 2),
                sample_rate: read_le32(bytes, start + 4),
                bits: read_le16(bytes, start + 14),
            });
        }
        if is_tag(bytes, p, [0x64, 0x61, 0x74, 0x61]) {
            data = Some((start, body));
        }
        pos = pos + 8 + len as u64 + (len as u64) % 2;
    }
    let f = match fmt {
        None => { return Err(WavError::NoFmtChunk); },
        Some(f) => f,
    };
    let (start, len) = match data {
        None => { return Err(WavError::NoDataChunk); },
        Some(d) => d,
    };
    if f.channels == 0 || f.sample_rate == 0 {
        return Err(WavError::NoChannelsOrRate);
    }
    let encoding = if f.tag == 1 && f.bits == 8 {
        WavEncoding::Pcm8
    } else if f.tag == 1 && f.bits == 16 {
        WavEncoding::Pcm16
    } else if f.tag == 1 && f.bits == 24 {
        WavEncoding::Pcm24
    } else if f.tag == 1 && f.bits == 32 {
        WavEncoding::Pcm32
    } else if f.tag == 3 && f.bits == 32 {
        WavEncoding::Float32
    } else if f.tag == 3 && f.bits == 64 {
        WavEncoding::Float64
    } else {
        return Err(WavError::Unsupported { tag: f.tag, bits: f.bits });
    };
    Ok(WavLayout {
        encoding,
        sample_rate: f.sample_rate,
        source_channels: f.channels,
        data_start: start,
        data_len: len,
    })
}

} // verus!

verus! {

/// How many samples of a layout's data make whole frames: the whole samples there are,
/// less any that do not complete a frame.
pub open spec fn usable_samples(l: WavLayout) -> nat {
    let count = l.data_len as nat / sample_width(l.encoding);
    (count - count % (l.source_channels as nat)) as nat
}

/// The integer sample of `width` bytes at `at`, as a signed number: 8-bit samples are
/// unsigned around 128, the rest two's complement.
pub open spec fn int_sample_value(e: WavEncoding, b: Seq<u8>, at: int) -> int {
    match e {
        WavEncoding::Pcm8 => b[at] - 128,
        WavEncoding::Pcm16 => {
            let v = le16(b, at);
            if v >= 0x8000 { v - 0x1_0000 } else { v as int }
        },
        WavEncoding::Pcm24 => {
            let v = b[at] + b[at + 1] * 0x100 + b[at + 2] * 0x1_0000;
            if v >= 0x80_0000 { v - 0x100_0000 } else { v as int }
        },
        _ => {
            let v = le32(b, at);
            if v >= 0x8000_0000 { v - 0x1_0000_0000 } else { v as int }
        },
    }
}

impl WavLayout {
    /// How many samples of the data make whole frames.
    pub fn usable_samples(&self) -> (n: usize)
        requires
            self.source_channels > 0,
        ensures
            n == usable_samples(*self),
    {
        let count = self.data_len / self.encoding.width();
        let channels = self.source_channels as usize;
        assert(count % channels <= count) by (nonlinear_arith)
            requires
                channels > 0;
        count - count % channels
    }
}

/// The integer PCM sample at byte `at`, signed; the app scales it to the unit range.
pub fn int_sample(e: WavEncoding, b: &[u8], at: usize) -> (v: i32)
    requires
        e != WavEncoding::Float32,
        e != WavEncoding::Float64,
        at + sample_width(e) <= b@.len(),
    ensures
        v == int_sample_value(e, b@, at as int),
{
    match e {
        WavEncoding::Pcm8 => b[at] as i32 - 128,
        WavEncoding::Pcm16 => {
            let v = read_le16(b, at) as i32;
            if v >= 0x8000 { v - 0x1_0000 } else { v }
        },
        WavEncoding::Pcm24 => {
            let v = b[at] as i32 + b[at + 1] as i32 * 0x100 + b[at + 2] as i32 * 0x1_0000;
            if v >= 0x80_0000 { v - 0x100_0000 } else { v }
        },
        _ => {
            let v = read_le32(b, at) as i64;
            (if v >= 0x8000_0000 { v - 0x1_0000_0000 } else { v }) as i32
        },
    }
}

/// What the error says.
pub open spec fn wav_error_text(e: WavError) -> Seq<char> {
    match e {
        WavError::NotRiffWave => "not a RIFF WAVE file"@,
        WavError::NoFmtChunk => "no fmt chunk"@,
        WavError::NoDataChunk => "no data chunk"@,
        WavError::NoChannelsOrRate => "no channels or no sample rate"@,
        WavError::Unsupported { tag, bits } => "unsupported WAV encoding: tag "@
            + text::decimal_digits(tag as nat) + ", "@ + text::decimal_digits(bits as nat) + " bits"@,
    }
}

impl WavError {
    /// What went wrong, in words.
    pub fn message(&self) -> (r: String)
        ensures
            r@ == wav_error_text(*self),
    {
        let mut s = String::new();
        match self {
            WavError::NotRiffWave => text::push_str(&mut s, "not a RIFF WAVE file"),
            WavError::NoFmtChunk => text::push_str(&mut s, "no fmt chunk"),
            WavError::NoDataChunk => text::push_str(&mut s, "no data chunk"),
            WavError::NoChannelsOrRate => text::push_str(&mut s, "no channels or no sample rate"),
            WavError::Unsupported { tag, bits } => {
                text::push_str(&mut s, "unsupported WAV encoding: tag ");
                text::push_decimal(&mut s, *tag as u64);
                text::push_str(&mut s, ", ");
                text::push_decimal(&mut s, *bits as u64);
                text::push_str(&mut s, " bits");
            },
        }
        s
    }
}

} // verus!

verus! {

/// The two little-endian bytes of a 16-bit two's-complement sample.
pub open spec fn le_bytes16(x: i16) -> Seq<u8> {
    let u = x as u16;
    seq![(u & 0xff) as u8, (u >> 8) as u8]
}

/// The three little-endian bytes of a 24-bit two's-complement sample.
pub open spec fn le_bytes24(x: i32) -> Seq<u8> {
    let u = x as u32;
    seq![(u & 0xff) as u8, ((u >> 8) & 0xff) as u8, ((u >> 16) & 0xff) as u8]
}

/// The four little-endian bytes of a 32-bit two's-complement sample.
pub open spec fn le_bytes32(x: i32) -> Seq<u8> {
    let u = x as u32;
    seq![(u & 0xff) as u8, ((u >> 8) & 0xff) as u8, ((u >> 16) & 0xff) as u8, (u >> 24) as u8]
}

/// Decoding the byte an 8-bit sample is written as, around 128, gives the sample back.
pub proof fn lemma_pcm8_reads_back(x: int)
    requires
        -128 <= x < 128,
    ensures
        int_sample_value(WavEncoding::Pcm8, seq![(x + 128) as u8], 0) == x,
{
}

/// Decoding the little-endian two's-complement bytes of a 16-bit sample gives the
/// sample back.
pub proof fn lemma_pcm16_reads_back(x: i16)
    ensures
        int_sample_value(WavEncoding::Pcm16, le_bytes16(x), 0) == x,
{
    let u = x as u16;
    let b0 = (u & 0xff) as u8;
    let b1 = (u >> 8) as u8;
    assert(b0 as u32 + b1 as u32 * 0x100 == u as u32) by (bit_vector)
        requires
            b0 == (u & 0xff) as u8,
            b1 == (u >> 8) as u8;
    assert(u >= 0x8000 ==> u as i32 - 0x1_0000 == x as i32) by (bit_vector)
        requires
            u == x as u16;
    assert(u < 0x8000 ==> u as i32 == x as i32) by (bit_vector)
        requires
            u == x as u16;
}

/// Decoding the little-endian two's-complement bytes of a 24-bit sample gives the
/// sample back.
pub proof fn lemma_pcm24_reads_back(x: i32)
    requires
        -0x80_0000 <= x < 0x80_0000,
    ensures
        int_sample_value(WavEncoding::Pcm24, le_bytes24(x), 0) == x,
{
    let u = x as u32;
    let b0 = (u & 0xff) as u8;
    let b1 = ((u >> 8) & 0xff) as u8;
    let b2 = ((u >> 16) & 0xff) as u8;
    assert(b0 as u32 + b1 as u32 * 0x100 + b2 as u32 * 0x1_0000 == u & 0xff_ffff) by (bit_vector)
        requires
            b0 == (u & 0xff) as u8,
            b1 == ((u >> 8) & 0xff) as u8,
            b2 == ((u >> 16) & 0xff) as u8;
    assert((u & 0xff_ffff) >= 0x80_0000 ==> (u & 0xff_ffff) as i64 - 0x100_0000 == x as i64) by (bit_vector)
        requires
            u == x as u32,
            -0x80_0000 <= x < 0x80_0000;
    assert((u & 0xff_ffff) < 0x80_0000 ==> (u & 0xff_ffff) as i64 == x as i64) by (bit_vector)
        requires
            u == x as u32,
            -0x80_0000 <= x < 0x80_0000;
}

/// Decoding the little-endian two's-complement bytes of a 32-bit sample gives the
/// sample back: a negative sample stays negative.
pub proof fn lemma_pcm32_reads_back(x: i32)
    ensures
        int_sample_value(WavEncoding::Pcm32, le_bytes32(x), 0) == x,
{
    let u = x as u32;
    let b0 = (u & 0xff) as u8;
    let b1 = ((u >> 8) & 0xff) as u8;
    let b2 = ((u >> 16) & 0xff) as u8;
    let b3 = (u >> 24) as u8;
    assert(b0 as u64 + b1 as u64 * 0x100 + b2 as u64 * 0x1_0000 + b3 as u64 * 0x100_0000 == u as u64) by (bit_vector)
        requires
            b0 == (u & 0xff) as u8,
            b1 == ((u >> 8) & 0xff) as u8,
            b2 == ((u >> 16) & 0xff) as u8,
            b3 == (u >> 24) as u8;
    assert(u >= 0x8000_0000 ==> u as i64 - 0x1_0000_0000 == x as i64) by (bit_vector)
        requires
            u == x as u32;
    assert(u < 0x8000_0000 ==> u as i64 == x as i64) by (bit_vector)
        requires
            u == x as u32;
}

} // verus!
