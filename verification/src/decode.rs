//! Decoding of one received chunk into audio samples.
//!
//! Only plain PCM WAV reaches the decoder: a `RIFF`/`WAVE` stream whose first
//! sub-chunk is a 16-byte `fmt ` chunk for integer PCM, followed at once by
//! the `data` chunk. The header is checked here, byte by byte, and every
//! other chunk is turned away with the fault that was found.

use vstd::prelude::*;

verus! {

/// The length of the header of a plain WAV stream, up to the first sample.
pub const WAV_HEADER_LEN: usize = 44;

/// The most channels a stream may have to be decoded.
pub const MAX_CHANNELS: u16 = 2;

/// The first thing that keeps a chunk from being a plain PCM WAV stream.
#[derive(Clone, Copy, Debug, PartialEq, Eq, Structural)]
pub enum WavFault {
    /// Fewer bytes than a header.
    TooShort,
    /// The stream does not begin with `RIFF`.
    NotRiff,
    /// The RIFF form is not `WAVE`.
    NotWave,
    /// The first sub-chunk is not a `fmt ` chunk of 16 bytes.
    FormatChunk,
    /// The format tag is not 1, integer PCM.
    NotPcm,
    /// The channel count is 0 or above `MAX_CHANNELS`.
    Channels,
    /// The sample rate is 0.
    SampleRate,
    /// The sample width is not 8, 16, 24 or 32 bits.
    SampleWidth,
    /// The block alignment is not the size of one frame.
    BlockAlign,
    /// The `fmt ` chunk is not followed by the `data` chunk.
    DataChunk,
}

/// The two bytes at `at`, read as a little-endian number.
pub open spec fn le16(bytes: Seq<u8>, at: int) -> int {
    bytes[at] + 256 * bytes[at + 1]
}

/// The four bytes at `at`, read as a little-endian number.
pub open spec fn le32(bytes: Seq<u8>, at: int) -> int {
    bytes[at] + 256 * bytes[at + 1] + 65536 * bytes[at + 2] + 16777216 * bytes[at + 3]
}

/// The four bytes at `at` are `a`, `b`, `c`, `d`.
pub open spec fn tag_at(bytes: Seq<u8>, at: int, a: u8, b: u8, c: u8, d: u8) -> bool {
    bytes[at] == a && bytes[at + 1] == b && bytes[at + 2] == c && bytes[at + 3] == d
}

/// The sample width is one that integer PCM is decoded for.
pub open spec fn is_pcm_width(bits: int) -> bool {
    bits == 8 || bits == 16 || bits == 24 || bits == 32
}

/// What keeps `bytes` from being a plain PCM WAV stream, or `None` where
/// nothing does. The fields are looked at in the order of the stream, and
/// the first fault is the answer. The RIFF length, the byte rate and the
/// length of the data are not looked at: the decoder answers for those.
pub open spec fn wav_fault(bytes: Seq<u8>) -> Option<WavFault> {
    if bytes.len() < WAV_HEADER_LEN {
        Some(WavFault::TooShort)
    } else if !tag_at(bytes, 0, 0x52, 0x49, 0x46, 0x46) {
        Some(WavFault::NotRiff)
    } else if !tag_at(bytes, 8, 0x57, 0x41, 0x56, 0x45) {
        Some(WavFault::NotWave)
    } else if !tag_at(bytes, 12, 0x66, 0x6d, 0x74, 0x20) || le32(bytes, 16) != 16 {
        Some(WavFault::FormatChunk)
    } else if le16(bytes, 20) != 1 {
        Some(WavFault::NotPcm)
    } else if le16(bytes, 22) < 1 || le16(bytes, 22) > MAX_CHANNELS {
        Some(WavFault::Channels)
    } else if le32(bytes, 24) == 0 {
        Some(WavFault::SampleRate)
    } else if !is_pcm_width(le16(bytes, 34)) {
        Some(WavFault::SampleWidth)
    } else if le16(bytes, 32) != le16(bytes, 22) * (le16(bytes, 34) / 8) {
        Some(WavFault::BlockAlign)
    } else if !tag_at(bytes, 36, 0x64, 0x61, 0x74, 0x61) {
        Some(WavFault::DataChunk)
    } else {
        None
    }
}

/// `bytes` begin with the header of a plain PCM WAV stream.
pub open spec fn is_plain_wav(bytes: Seq<u8>) -> bool {
    wav_fault(bytes) is None
}

fn read_le16(bytes: &[u8], at: usize) -> (value: u16)
    requires
        at + 2 <= bytes@.len(),
    ensures
        value == le16(bytes@, at as int),
{
    let low: u16 = bytes[at] as u16;
    let high: u16 = bytes[at + 1] as u16;
    low + 256 * high
}

fn read_le32(bytes: &[u8], at: usize) -> (value: u32)
    requires
        at + 4 <= bytes@.len(),
    ensures
        value == le32(bytes@, at as int),
{
    let b0: u32 = bytes[at] as u32;
    let b1: u32 = bytes[at + 1] as u32;
    let b2: u32 = bytes[at + 2] as u32;
    let b3: u32 = bytes[at + 3] as u32;
    b0 + 256 * b1 + 65536 * b2 + 16777216 * b3
}

fn has_tag(bytes: &[u8], at: usize, a: u8, b: u8, c: u8, d: u8) -> (found: bool)
    requires
        at + 4 <= bytes@.len(),
    ensures
        found == tag_at(bytes@, at as int, a, b, c, d),
{
    bytes[at] == a && bytes[at + 1] == b && bytes[at + 2] == c && bytes[at + 3] == d
}

/// Reads the header of a chunk and says what keeps it from being a plain
/// PCM WAV stream, if anything does.
pub fn check_wav_header(bytes: &[u8]) -> (fault: Option<WavFault>)
    ensures
        fault == wav_fault(bytes@),
{
    if bytes.len() < WAV_HEADER_LEN {
        return Some(WavFault::TooShort);
    }
    if !has_tag(bytes, 0, 0x52, 0x49, 0x46, 0x46) {
        return Some(WavFault::NotRiff);
    }
    if !has_tag(bytes, 8, 0x57, 0x41, 0x56, 0x45) {
        return Some(WavFault::NotWave);
    }
    if !has_tag(bytes, 12, 0x66, 0x6d, 0x74, 0x20) || read_le32(bytes, 16) != 16 {
        return Some(WavFault::FormatChunk);
    }
    if read_le16(bytes, 20) != 1 {
        return Some(WavFault::NotPcm);
    }
    let channels: u16 = read_le16(bytes, 22);
    if channels < 1 || channels > MAX_CHANNELS {
        return Some(WavFault::Channels);
    }
    if read_le32(bytes, 24) == 0 {
        return Some(WavFault::SampleRate);
    }
    let bits: u16 = read_le16(bytes, 34);
    if !(bits == 8 || bits == 16 || bits == 24 || bits == 32) {
        return Some(WavFault::SampleWidth);
    }
    let sample_bytes: u16 = bits / 8;
    let frame_bytes: u16 = if channels == 1 {
        sample_bytes
    } else {
        sample_bytes + sample_bytes
    };
    assert(frame_bytes == channels * (bits / 8)) by {
        assert(channels == 1 || channels == 2);
    }
    if read_le16(bytes, 32) != frame_bytes {
        return Some(WavFault::BlockAlign);
    }
    if !has_tag(bytes, 36, 0x64, 0x61, 0x74, 0x61) {
        return Some(WavFault::DataChunk);
    }
    None
}

/// The audio that one chunk decodes to.
#[derive(Clone, Debug, PartialEq, Eq)]
pub struct DecodedAudio {
    /// The number of interleaved channels.
    pub channels: u16,
    /// Samples per second and channel.
    pub sample_rate: u32,
    /// The interleaved samples, each as the bit pattern of the
    /// single-precision number that the decoder gave.
    pub samples: Vec<u32>,
}

/// `DecodedAudio` as mathematics.
pub struct AudioView {
    pub channels: u16,
    pub sample_rate: u32,
    pub samples: Seq<u32>,
}

impl DecodedAudio {
    pub open spec fn view(&self) -> AudioView {
        AudioView { channels: self.channels, sample_rate: self.sample_rate, samples: self.samples@ }
    }
}

/// Why a chunk gave no audio.
#[derive(Clone, Debug, PartialEq, Eq)]
pub enum DecodeError {
    /// The chunk is no plain PCM WAV stream and was not handed to the
    /// decoder.
    Unsupported(WavFault),
    /// The decoder rejected the chunk; this is the text of its error.
    Rejected(String),
}

/// A `DecodeError` as mathematics.
pub enum DecodeFailure {
    Unsupported(WavFault),
    Rejected(Seq<char>),
}

impl DecodeError {
    pub open spec fn view(&self) -> DecodeFailure {
        match *self {
            DecodeError::Unsupported(fault) => DecodeFailure::Unsupported(fault),
            DecodeError::Rejected(text) => DecodeFailure::Rejected(text@),
        }
    }
}

/// What the decoder makes of a chunk: channel count, sample rate and the
/// samples' bit patterns, or the text of its error.
pub uninterp spec fn rodio_decoded(bytes: Seq<u8>) -> Result<(u16, u32, Seq<u32>), Seq<char>>;

/// What a decoding gave, as plain values.
pub open spec fn decoding_view(decoded: Result<DecodedAudio, String>) -> Result<
    (u16, u32, Seq<u32>),
    Seq<char>,
> {
    match decoded {
        Ok(audio) => Ok((audio.channels, audio.sample_rate, audio.samples@)),
        Err(reason) => Err(reason@),
    }
}

/// Decodes `bytes` with `rodio::Decoder::new` on an in-memory cursor and
/// reads the decoder to its end through its `Source` and `Iterator` impls.
/// Not proved. The contract claims one thing: what comes back depends on the
/// bytes alone, and `rodio_decoded` is its name. The decoder takes integer
/// samples from the data, as many whole frames as are there, and converts
/// each by one division. The channel count and sample rate are those
/// reported before the first sample is taken; an error comes back as its
/// display text.
///
/// The decoder is asked for plain PCM WAV only: outside of that its reader
/// panics on some headers, such as a sample rate of 0.
#[verifier::external_body]
pub(crate) fn decode_chunk(bytes: &Vec<u8>) -> (decoded: Result<DecodedAudio, String>)
    requires
        is_plain_wav(bytes@),
    ensures
        decoding_view(decoded) == rodio_decoded(bytes@),
{
    match rodio::Decoder::new(std::io::Cursor::new(bytes.clone())) {
        Ok(source) => {
            let channels = rodio::Source::channels(&source);
            let sample_rate = rodio::Source::sample_rate(&source);
            let samples = source.map(|sample| sample.to_bits()).collect();
            Ok(DecodedAudio { channels, sample_rate, samples })
        },
        Err(error) => Err(error.to_string()),
    }
}

} // verus!
