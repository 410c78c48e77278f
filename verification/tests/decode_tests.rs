use audio_bridge::decode::{check_wav_header, DecodeError, WavFault, MAX_CHANNELS, WAV_HEADER_LEN};
use audio_bridge::playback::{PlaybackAction, PlaybackPump};

fn header(format: u16, channels: u16, rate: u32, block_align: u16, bits: u16) -> Vec<u8> {
    let mut bytes = Vec::new();
    bytes.extend_from_slice(b"RIFF");
    bytes.extend_from_slice(&40u32.to_le_bytes());
    bytes.extend_from_slice(b"WAVE");
    bytes.extend_from_slice(b"fmt ");
    bytes.extend_from_slice(&16u32.to_le_bytes());
    bytes.extend_from_slice(&format.to_le_bytes());
    bytes.extend_from_slice(&channels.to_le_bytes());
    bytes.extend_from_slice(&rate.to_le_bytes());
    bytes.extend_from_slice(&(rate.wrapping_mul(u32::from(block_align))).to_le_bytes());
    bytes.extend_from_slice(&block_align.to_le_bytes());
    bytes.extend_from_slice(&bits.to_le_bytes());
    bytes.extend_from_slice(b"data");
    bytes.extend_from_slice(&4u32.to_le_bytes());
    bytes.extend_from_slice(&[0, 0, 0, 0]);
    bytes
}

fn with_data(mut head: Vec<u8>, claimed: u32, data: &[u8]) -> Vec<u8> {
    head.truncate(40);
    head[4..8].copy_from_slice(&(36 + claimed).to_le_bytes());
    head.extend_from_slice(&claimed.to_le_bytes());
    head.extend_from_slice(data);
    head
}

fn dropped(chunk: &[u8]) -> DecodeError {
    match PlaybackPump::new().handle_chunk(&chunk.to_vec()) {
        PlaybackAction::DropChunk { reason } => reason,
        other => panic!("expected a dropped chunk, got {:?}", other),
    }
}

fn samples_of(chunk: &[u8]) -> Vec<f32> {
    match PlaybackPump::new().handle_chunk(&chunk.to_vec()) {
        PlaybackAction::Play(audio) => {
            audio.samples.iter().map(|bits| f32::from_bits(*bits)).collect()
        }
        other => panic!("expected audio to play, got {:?}", other),
    }
}

#[test]
fn header_constants_have_their_values() {
    assert_eq!(WAV_HEADER_LEN, 44);
    assert_eq!(MAX_CHANNELS, 2);
}

#[test]
fn plain_pcm_headers_pass_the_check() {
    assert_eq!(check_wav_header(&header(1, 1, 8000, 2, 16)), None);
    assert_eq!(check_wav_header(&header(1, 2, 44100, 4, 16)), None);
    assert_eq!(check_wav_header(&header(1, 1, 11525, 1, 8)), None);
    assert_eq!(check_wav_header(&header(1, 2, 1, 6, 24)), None);
    assert_eq!(check_wav_header(&header(1, 2, u32::MAX, 8, 32)), None);
    assert_eq!(check_wav_header(&header(1, 1, 8000, 2, 16)[..44]), None);
}

#[test]
fn short_chunks_fail_the_check() {
    assert_eq!(check_wav_header(&[]), Some(WavFault::TooShort));
    assert_eq!(check_wav_header(b"RIFF"), Some(WavFault::TooShort));
    assert_eq!(check_wav_header(&header(1, 1, 8000, 2, 16)[..43]), Some(WavFault::TooShort));
}

#[test]
fn each_header_field_is_checked() {
    let good = header(1, 1, 8000, 2, 16);
    let mut not_riff = good.clone();
    not_riff[3] = b'X';
    assert_eq!(check_wav_header(&not_riff), Some(WavFault::NotRiff));
    let mut not_wave = good.clone();
    not_wave[8..12].copy_from_slice(b"AIFF");
    assert_eq!(check_wav_header(&not_wave), Some(WavFault::NotWave));
    let mut list_first = good.clone();
    list_first[12..16].copy_from_slice(b"LIST");
    assert_eq!(check_wav_header(&list_first), Some(WavFault::FormatChunk));
    let mut long_format = good.clone();
    long_format[16..20].copy_from_slice(&18u32.to_le_bytes());
    assert_eq!(check_wav_header(&long_format), Some(WavFault::FormatChunk));
    let mut fact_next = good.clone();
    fact_next[36..40].copy_from_slice(b"fact");
    assert_eq!(check_wav_header(&fact_next), Some(WavFault::DataChunk));
}

#[test]
fn only_integer_pcm_passes_the_check() {
    assert_eq!(check_wav_header(&header(0, 1, 8000, 2, 16)), Some(WavFault::NotPcm));
    assert_eq!(check_wav_header(&header(2, 1, 8000, 2, 4)), Some(WavFault::NotPcm));
    assert_eq!(check_wav_header(&header(3, 1, 8000, 4, 32)), Some(WavFault::NotPcm));
    assert_eq!(check_wav_header(&header(0x11, 1, 8000, 2, 4)), Some(WavFault::NotPcm));
    assert_eq!(check_wav_header(&header(0xfffe, 1, 8000, 2, 16)), Some(WavFault::NotPcm));
    assert_eq!(check_wav_header(&header(0x0101, 1, 8000, 2, 16)), Some(WavFault::NotPcm));
}

#[test]
fn channel_count_rate_width_and_alignment_are_checked() {
    assert_eq!(check_wav_header(&header(1, 0, 8000, 0, 16)), Some(WavFault::Channels));
    assert_eq!(check_wav_header(&header(1, 3, 8000, 6, 16)), Some(WavFault::Channels));
    assert_eq!(check_wav_header(&header(1, 40, 8000, 80, 16)), Some(WavFault::Channels));
    assert_eq!(check_wav_header(&header(1, 256, 8000, 2, 16)), Some(WavFault::Channels));
    assert_eq!(check_wav_header(&header(1, 1, 0, 2, 16)), Some(WavFault::SampleRate));
    assert_eq!(check_wav_header(&header(1, 1, 8000, 0, 0)), Some(WavFault::SampleWidth));
    assert_eq!(check_wav_header(&header(1, 1, 8000, 1, 12)), Some(WavFault::SampleWidth));
    assert_eq!(check_wav_header(&header(1, 1, 8000, 8, 64)), Some(WavFault::SampleWidth));
    assert_eq!(check_wav_header(&header(1, 1, 8000, 5, 40)), Some(WavFault::SampleWidth));
    assert_eq!(check_wav_header(&header(1, 1, 8000, 0, 16)), Some(WavFault::BlockAlign));
    assert_eq!(check_wav_header(&header(1, 2, 8000, 2, 16)), Some(WavFault::BlockAlign));
    assert_eq!(check_wav_header(&header(1, 1, 8000, 4, 16)), Some(WavFault::BlockAlign));
    assert_eq!(check_wav_header(&header(1, 1, 8000, 258, 16)), Some(WavFault::BlockAlign));
}

#[test]
fn first_fault_in_stream_order_is_reported() {
    let mut bad = header(3, 0, 0, 0, 0);
    assert_eq!(check_wav_header(&bad), Some(WavFault::NotPcm));
    bad[8] = b'w';
    assert_eq!(check_wav_header(&bad), Some(WavFault::NotWave));
    bad[0] = b'r';
    assert_eq!(check_wav_header(&bad), Some(WavFault::NotRiff));
}

#[test]
fn zero_sample_rate_never_reaches_the_decoder() {
    assert_eq!(
        dropped(&header(1, 1, 0, 2, 16)),
        DecodeError::Unsupported(WavFault::SampleRate)
    );
}

#[test]
fn extensible_format_without_width_never_reaches_the_decoder() {
    let mut chunk = Vec::new();
    chunk.extend_from_slice(b"RIFF");
    chunk.extend_from_slice(&60u32.to_le_bytes());
    chunk.extend_from_slice(b"WAVE");
    chunk.extend_from_slice(b"fmt ");
    chunk.extend_from_slice(&40u32.to_le_bytes());
    chunk.extend_from_slice(&0xfffeu16.to_le_bytes());
    chunk.extend_from_slice(&1u16.to_le_bytes());
    chunk.extend_from_slice(&8000u32.to_le_bytes());
    chunk.extend_from_slice(&0u32.to_le_bytes());
    chunk.extend_from_slice(&0u16.to_le_bytes());
    chunk.extend_from_slice(&0u16.to_le_bytes());
    chunk.extend_from_slice(&22u16.to_le_bytes());
    chunk.extend_from_slice(&0u16.to_le_bytes());
    chunk.extend_from_slice(&0u32.to_le_bytes());
    chunk.extend_from_slice(&[1, 0, 0, 0, 0, 0, 0x10, 0, 0x80, 0, 0, 0xaa, 0, 0x38, 0x9b, 0x71]);
    chunk.extend_from_slice(b"data");
    chunk.extend_from_slice(&0u32.to_le_bytes());
    assert_eq!(dropped(&chunk), DecodeError::Unsupported(WavFault::FormatChunk));
    assert_eq!(dropped(&header(0xfffe, 1, 8000, 0, 0)), DecodeError::Unsupported(WavFault::NotPcm));
}

#[test]
fn wide_channel_counts_and_adpcm_never_reach_the_decoder() {
    assert_eq!(dropped(&header(1, 40, 8000, 80, 16)), DecodeError::Unsupported(WavFault::Channels));
    assert_eq!(dropped(&header(2, 2, 8000, 4, 4)), DecodeError::Unsupported(WavFault::NotPcm));
    assert_eq!(dropped(&header(0x11, 2, 8000, 4, 4)), DecodeError::Unsupported(WavFault::NotPcm));
    assert_eq!(dropped(&header(3, 1, 8000, 4, 32)), DecodeError::Unsupported(WavFault::NotPcm));
}

#[test]
fn other_containers_never_reach_the_decoder() {
    assert_eq!(dropped(b"fLaC\0\0\0\x22"), DecodeError::Unsupported(WavFault::TooShort));
    let mut flac = vec![0u8; 64];
    flac[..4].copy_from_slice(b"fLaC");
    assert_eq!(dropped(&flac), DecodeError::Unsupported(WavFault::NotRiff));
    let mut tagged = vec![0u8; 64];
    tagged[..3].copy_from_slice(b"ID3");
    assert_eq!(dropped(&tagged), DecodeError::Unsupported(WavFault::NotRiff));
}

#[test]
fn all_four_sample_widths_decode() {
    let eight = with_data(header(1, 1, 8000, 1, 8), 3, &[128, 192, 0]);
    assert_eq!(samples_of(&eight), vec![0.0, 0.5, -1.0]);
    let sixteen = with_data(header(1, 1, 8000, 2, 16), 4, &[0x00, 0x40, 0x00, 0xc0]);
    assert_eq!(samples_of(&sixteen), vec![0.5, -0.5]);
    let twenty_four = with_data(header(1, 1, 8000, 3, 24), 6, &[0, 0, 0x40, 0, 0, 0x80]);
    assert_eq!(samples_of(&twenty_four), vec![0.5, -1.0]);
    let thirty_two = with_data(header(1, 1, 8000, 4, 32), 8, &[0, 0, 0, 0x40, 0, 0, 0, 0xc0]);
    assert_eq!(samples_of(&thirty_two), vec![0.5, -0.5]);
}

#[test]
fn stereo_frames_come_out_interleaved() {
    let chunk = with_data(
        header(1, 2, 8000, 4, 16),
        8,
        &[0x00, 0x40, 0x00, 0xc0, 0x00, 0x20, 0x00, 0x80],
    );
    assert_eq!(samples_of(&chunk), vec![0.5, -0.5, 0.25, -1.0]);
}

#[test]
fn data_shorter_than_claimed_gives_the_frames_that_are_there() {
    let chunk = with_data(header(1, 1, 8000, 2, 16), 8, &[0x00, 0x40, 0x00, 0xc0]);
    assert_eq!(samples_of(&chunk), vec![0.5, -0.5]);
    let odd = with_data(header(1, 1, 8000, 2, 16), 8, &[0x00, 0x40, 0x00]);
    assert_eq!(samples_of(&odd), vec![0.5]);
}

#[test]
fn empty_data_plays_nothing() {
    let chunk = with_data(header(1, 1, 8000, 2, 16), 0, &[]);
    assert_eq!(chunk.len(), 44);
    assert_eq!(samples_of(&chunk), Vec::<f32>::new());
    let unfilled = with_data(header(1, 2, 8000, 4, 16), 400, &[]);
    assert_eq!(samples_of(&unfilled), Vec::<f32>::new());
}

#[test]
fn bytes_after_the_data_are_not_samples() {
    let chunk = with_data(header(1, 1, 8000, 2, 16), 2, &[0x00, 0x40, 0x00, 0xc0, 0xff, 0xff]);
    assert_eq!(samples_of(&chunk), vec![0.5]);
}

#[test]
fn lengths_that_do_not_add_up_are_rejected_by_the_decoder() {
    let mut short_riff = with_data(header(1, 1, 8000, 2, 16), 4, &[0, 0, 0, 0]);
    short_riff[4..8].copy_from_slice(&20u32.to_le_bytes());
    assert!(matches!(dropped(&short_riff), DecodeError::Rejected(_)));
    let mut no_room = with_data(header(1, 1, 8000, 2, 16), 4, &[0, 0, 0, 0]);
    no_room[4..8].copy_from_slice(&33u32.to_le_bytes());
    assert!(matches!(dropped(&no_room), DecodeError::Rejected(_)));
    let mut endless = with_data(header(1, 1, 8000, 2, 16), 4, &[0x00, 0x40, 0, 0]);
    endless[4..8].copy_from_slice(&u32::MAX.to_le_bytes());
    endless[40..44].copy_from_slice(&u32::MAX.to_le_bytes());
    assert_eq!(samples_of(&endless), vec![0.5, 0.0]);
}
