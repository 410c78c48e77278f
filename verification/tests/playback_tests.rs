use audio_bridge::channel::{ByteChannel, Received};
use audio_bridge::decode::{DecodeError, DecodedAudio, WavFault};
use audio_bridge::playback::{PlaybackAction, PlaybackPump, UnderrunCounter, MIN_DECODE_SIZE};
use audio_bridge::receive::{ReadOutcome, ReceiveAction, ReceivePump};

fn wav(channels: u16, sample_rate: u32, bits: u16, data: &[u8]) -> Vec<u8> {
    let block_align = channels * (bits / 8);
    let mut bytes = Vec::new();
    bytes.extend_from_slice(b"RIFF");
    bytes.extend_from_slice(&(36 + data.len() as u32).to_le_bytes());
    bytes.extend_from_slice(b"WAVE");
    bytes.extend_from_slice(b"fmt ");
    bytes.extend_from_slice(&16u32.to_le_bytes());
    bytes.extend_from_slice(&1u16.to_le_bytes());
    bytes.extend_from_slice(&channels.to_le_bytes());
    bytes.extend_from_slice(&sample_rate.to_le_bytes());
    bytes.extend_from_slice(&(sample_rate * u32::from(block_align)).to_le_bytes());
    bytes.extend_from_slice(&block_align.to_le_bytes());
    bytes.extend_from_slice(&bits.to_le_bytes());
    bytes.extend_from_slice(b"data");
    bytes.extend_from_slice(&(data.len() as u32).to_le_bytes());
    bytes.extend_from_slice(data);
    bytes
}

fn wav_16bit_mono(sample_rate: u32, samples: &[i16]) -> Vec<u8> {
    let data: Vec<u8> = samples.iter().flat_map(|sample| sample.to_le_bytes()).collect();
    wav(1, sample_rate, 16, &data)
}

fn played(action: PlaybackAction) -> DecodedAudio {
    match action {
        PlaybackAction::Play(audio) => audio,
        other => panic!("expected audio to play, got {:?}", other),
    }
}

#[test]
fn minimum_decode_size_is_two_bytes() {
    assert_eq!(MIN_DECODE_SIZE, 2);
}

#[test]
fn underrun_counter_counts_each_event() {
    let mut counter = UnderrunCounter::new();
    assert_eq!(counter.count(), 0);
    counter.record();
    assert_eq!(counter.count(), 1);
    counter.record();
    counter.record();
    assert_eq!(counter.count(), 3);
}

#[test]
fn new_pump_runs_with_no_underruns() {
    let pump = PlaybackPump::new();
    assert!(pump.is_running());
    assert_eq!(pump.underruns(), 0);
}

#[test]
fn one_byte_chunk_is_one_underrun_and_is_not_decoded() {
    let mut pump = PlaybackPump::new();
    assert_eq!(pump.handle_chunk(&vec![0x52]), PlaybackAction::Underrun { count: 1 });
    assert_eq!(pump.underruns(), 1);
    assert!(pump.is_running());
}

#[test]
fn empty_chunk_is_an_underrun() {
    let mut pump = PlaybackPump::new();
    assert_eq!(pump.handle_received(Received::Chunk(vec![])), PlaybackAction::Underrun { count: 1 });
    assert_eq!(pump.handle_received(Received::Chunk(vec![])), PlaybackAction::Underrun { count: 2 });
    assert_eq!(pump.underruns(), 2);
}

#[test]
fn two_byte_chunk_is_no_underrun() {
    let mut pump = PlaybackPump::new();
    assert_eq!(
        pump.handle_chunk(&vec![0, 0]),
        PlaybackAction::DropChunk { reason: DecodeError::Unsupported(WavFault::TooShort) }
    );
    assert_eq!(pump.underruns(), 0);
}

#[test]
fn wav_chunk_decodes_to_its_samples() {
    let mut pump = PlaybackPump::new();
    let chunk = wav_16bit_mono(8000, &[0, 16384, -32768, -16384]);
    let audio = played(pump.handle_chunk(&chunk));
    assert_eq!(audio.channels, 1);
    assert_eq!(audio.sample_rate, 8000);
    assert_eq!(audio.samples, vec![0x0000_0000, 0x3f00_0000, 0xbf80_0000, 0xbf00_0000]);
    let values: Vec<f32> = audio.samples.iter().map(|bits| f32::from_bits(*bits)).collect();
    assert_eq!(values, vec![0.0, 0.5, -1.0, -0.5]);
    assert_eq!(pump.underruns(), 0);
}

#[test]
fn eight_bit_stereo_wav_keeps_rate_channels_and_centre() {
    let mut pump = PlaybackPump::new();
    let chunk = wav(2, 11525, 8, &[128, 0, 192, 64]);
    let audio = played(pump.handle_chunk(&chunk));
    assert_eq!(audio.channels, 2);
    assert_eq!(audio.sample_rate, 11525);
    let values: Vec<f32> = audio.samples.iter().map(|bits| f32::from_bits(*bits)).collect();
    assert_eq!(values, vec![0.0, -1.0, 0.5, -0.5]);
}

#[test]
fn decoded_audio_is_not_the_chunk_itself() {
    let mut pump = PlaybackPump::new();
    let chunk = wav_16bit_mono(8000, &[256, 512]);
    let audio = played(pump.handle_chunk(&chunk));
    assert_eq!(chunk.len(), 48);
    assert_eq!(audio.samples.len(), 2);
    assert_eq!(audio.samples, vec![(256.0f32 / 32768.0).to_bits(), (512.0f32 / 32768.0).to_bits()]);
}

#[test]
fn equal_chunks_decode_alike() {
    let mut pump = PlaybackPump::new();
    let chunk = wav_16bit_mono(44100, &[1, -1, 32767, 12345]);
    let first = pump.handle_chunk(&chunk);
    let second = pump.handle_chunk(&chunk.clone());
    assert_eq!(first, second);
}

#[test]
fn rejected_chunk_is_dropped_and_the_next_one_plays() {
    let mut pump = PlaybackPump::new();
    let mut channel = ByteChannel::new(10);
    assert_eq!(channel.send(vec![0xde; 500]), Ok(()));
    assert_eq!(channel.send(wav_16bit_mono(8000, &[16384])), Ok(()));
    assert_eq!(
        pump.step(&mut channel),
        PlaybackAction::DropChunk { reason: DecodeError::Unsupported(WavFault::NotRiff) }
    );
    assert!(pump.is_running());
    assert_eq!(pump.underruns(), 0);
    let audio = played(pump.step(&mut channel));
    assert_eq!(audio.samples, vec![0x3f00_0000]);
    assert_eq!(pump.step(&mut channel), PlaybackAction::AwaitChunk);
    assert!(pump.is_running());
}

#[test]
fn chunk_the_decoder_rejects_is_dropped_with_its_text() {
    let mut pump = PlaybackPump::new();
    let mut chunk = wav_16bit_mono(8000, &[1, 2]);
    chunk[4..8].copy_from_slice(&0u32.to_le_bytes());
    assert_eq!(
        pump.handle_chunk(&chunk),
        PlaybackAction::DropChunk {
            reason: DecodeError::Rejected(String::from("Unrecognized format"))
        }
    );
    assert!(pump.is_running());
    assert_eq!(played(pump.handle_chunk(&wav_16bit_mono(8000, &[0]))).samples, vec![0]);
}

#[test]
fn header_that_would_crash_the_decoder_is_dropped() {
    let mut pump = PlaybackPump::new();
    assert_eq!(
        pump.handle_chunk(&wav(1, 0, 16, &[0, 0])),
        PlaybackAction::DropChunk { reason: DecodeError::Unsupported(WavFault::SampleRate) }
    );
    assert!(pump.is_running());
    assert_eq!(pump.underruns(), 0);
}

#[test]
fn handle_decoded_plays_audio_and_drops_rejections() {
    let audio = DecodedAudio { channels: 1, sample_rate: 8000, samples: vec![1, 2, 3] };
    assert_eq!(PlaybackPump::handle_decoded(Ok(audio.clone())), PlaybackAction::Play(audio));
    assert_eq!(
        PlaybackPump::handle_decoded(Err(String::from("bad frame"))),
        PlaybackAction::DropChunk { reason: DecodeError::Rejected(String::from("bad frame")) }
    );
}

#[test]
fn empty_queue_asks_to_wait() {
    let mut pump = PlaybackPump::new();
    let mut channel = ByteChannel::new(3);
    assert_eq!(pump.step(&mut channel), PlaybackAction::AwaitChunk);
    assert_eq!(pump.handle_received(Received::Empty), PlaybackAction::AwaitChunk);
    assert!(pump.is_running());
}

#[test]
fn closed_channel_stops_the_pump_for_good() {
    let mut pump = PlaybackPump::new();
    assert_eq!(pump.handle_received(Received::Closed), PlaybackAction::Stop);
    assert!(!pump.is_running());
    assert_eq!(pump.handle_received(Received::Chunk(vec![1])), PlaybackAction::Stop);
    assert_eq!(pump.handle_received(Received::Empty), PlaybackAction::Stop);
    assert_eq!(pump.underruns(), 0);
}

#[test]
fn stopped_pump_takes_nothing_from_the_channel() {
    let mut pump = PlaybackPump::new();
    let mut closed = ByteChannel::new(1);
    closed.close_sender();
    assert_eq!(pump.step(&mut closed), PlaybackAction::Stop);
    let mut channel = ByteChannel::new(3);
    assert_eq!(channel.send(vec![1, 2, 3]), Ok(()));
    assert_eq!(pump.step(&mut channel), PlaybackAction::Stop);
    assert_eq!(channel.len(), 1);
}

#[test]
fn pump_drains_queued_chunks_before_it_stops() {
    let mut pump = PlaybackPump::new();
    let mut channel = ByteChannel::new(5);
    assert_eq!(channel.send(vec![1]), Ok(()));
    assert_eq!(channel.send(wav_16bit_mono(8000, &[0])), Ok(()));
    channel.close_sender();
    assert_eq!(pump.step(&mut channel), PlaybackAction::Underrun { count: 1 });
    assert_eq!(played(pump.step(&mut channel)).samples, vec![0]);
    assert_eq!(pump.step(&mut channel), PlaybackAction::Stop);
    assert!(!pump.is_running());
}

#[test]
fn serial_failure_reaches_playback_as_closed() {
    let mut receive = ReceivePump::new();
    let mut playback = PlaybackPump::new();
    let mut channel = ByteChannel::new(10);
    let chunk = wav_16bit_mono(8000, &[16384, 0]);
    assert_eq!(
        receive.handle_read(&chunk, ReadOutcome::Bytes(chunk.len()), &mut channel),
        ReceiveAction::ReadNext
    );
    assert_eq!(
        receive.handle_read(&chunk, ReadOutcome::WouldBlock, &mut channel),
        ReceiveAction::RetryAfter { delay_ms: 10 }
    );
    assert_eq!(
        receive.handle_read(&chunk, ReadOutcome::Failed, &mut channel),
        ReceiveAction::Stop
    );
    assert_eq!(played(playback.step(&mut channel)).samples, vec![0x3f00_0000, 0]);
    assert_eq!(playback.step(&mut channel), PlaybackAction::Stop);
}
