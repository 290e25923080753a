use media_io::companding::{alaw_to_linear, mulaw_to_linear};
use media_io::error::StreamError;
use media_io::memory::MemorySource;
use media_io::opus_setup::{opus_setup, OpusChannels, OpusSetupError};
use media_io::codec::{describe, PcmCodec, SampleKind};
use media_io::pcm::{
    read_sample, read_word, signed_sample, unsigned_sample, widened_sample, ChannelSpec,
    CodecParameters, Layout, PcmDecoder, PcmError, SignalSpec,
};
use media_io::stream::MediaSourceStream;

fn packet(bytes: &[u8]) -> MediaSourceStream<MemorySource> {
    MediaSourceStream::new(MemorySource::new(bytes.to_vec()))
}

fn params(codec: PcmCodec, width: Option<u32>) -> CodecParameters {
    CodecParameters {
        codec,
        sample_rate: Some(44100),
        channel_layout: None,
        channels: Some(3),
        bits_per_sample: width,
        bits_per_coded_sample: None,
    }
}

#[test]
fn alaw_expands_the_ends_of_its_range() {
    assert_eq!(alaw_to_linear(0xd5), 8);
    assert_eq!(alaw_to_linear(0x55), -8);
    assert_eq!(alaw_to_linear(0xaa), 32256);
    assert_eq!(alaw_to_linear(0x2a), -32256);
    assert_eq!(alaw_to_linear(0xc5), 264);
    assert_eq!(alaw_to_linear(0xf5), 528);
    assert_eq!(alaw_to_linear(0x00), -5504);
}

#[test]
fn mulaw_expands_the_ends_of_its_range() {
    assert_eq!(mulaw_to_linear(0xff), 0);
    assert_eq!(mulaw_to_linear(0x7f), 0);
    assert_eq!(mulaw_to_linear(0x00), 32124);
    assert_eq!(mulaw_to_linear(0x80), -32124);
    assert_eq!(mulaw_to_linear(0x7e), 8);
    assert_eq!(mulaw_to_linear(0xfe), -8);
    assert_eq!(mulaw_to_linear(0x6f), 132);
    assert_eq!(mulaw_to_linear(0xef), -132);
}

#[test]
fn companding_is_odd_in_the_sign_bit() {
    for v in 0..=255u8 {
        assert_eq!(alaw_to_linear(v), -alaw_to_linear(v ^ 0x80));
        assert_eq!(mulaw_to_linear(v), -mulaw_to_linear(v ^ 0x80));
    }
}

#[test]
fn integer_samples_move_up() {
    assert_eq!(signed_sample(0x1234, 16), 0x1234_0000);
    assert_eq!(signed_sample(0xffff, 16), -65536);
    assert_eq!(signed_sample(0x80, 24), i32::MIN);
    assert_eq!(signed_sample(0xffff_ffff, 0), -1);
    assert_eq!(signed_sample(1, 31), i32::MIN);
    assert_eq!(signed_sample(3, 31), i32::MIN);
    assert_eq!(unsigned_sample(0x80, 24), 0);
    assert_eq!(unsigned_sample(0, 24), i32::MIN);
    assert_eq!(unsigned_sample(0xff, 24), 0x7f00_0000);
    assert_eq!(unsigned_sample(0xffff_ffff, 0), i32::MAX);
    assert_eq!(widened_sample(-1), -65536);
    assert_eq!(widened_sample(i16::MAX), 0x7fff_0000);
    assert_eq!(widened_sample(i16::MIN), i32::MIN);
}

#[test]
fn words_follow_the_byte_order() {
    let bytes = [0x12u8, 0x34, 0x56, 0x78];
    assert_eq!(read_word(&mut packet(&bytes), PcmCodec::S32Be), Ok(0x1234_5678));
    assert_eq!(read_word(&mut packet(&bytes), PcmCodec::U32Le), Ok(0x7856_3412));
    assert_eq!(read_word(&mut packet(&bytes), PcmCodec::S24Be), Ok(0x12_3456));
    assert_eq!(read_word(&mut packet(&bytes), PcmCodec::U24Le), Ok(0x56_3412));
    assert_eq!(read_word(&mut packet(&bytes), PcmCodec::U16Be), Ok(0x1234));
    assert_eq!(read_word(&mut packet(&bytes), PcmCodec::S16Le), Ok(0x3412));
    assert_eq!(read_word(&mut packet(&bytes), PcmCodec::S8), Ok(0x12));
    assert_eq!(read_word(&mut packet(&bytes), PcmCodec::MuLaw), Ok(0x12));
    let eight = [1u8, 2, 3, 4, 5, 6, 7, 8];
    assert_eq!(read_word(&mut packet(&eight), PcmCodec::F64Be), Ok(0x0102_0304_0506_0708));
    assert_eq!(read_word(&mut packet(&eight), PcmCodec::F64Le), Ok(0x0807_0605_0403_0201));
    assert_eq!(read_word(&mut packet(&eight), PcmCodec::F32Le), Ok(0x0403_0201));
    let mut half = packet(&eight[..6]);
    assert_eq!(read_word(&mut half, PcmCodec::F64Le), Err(StreamError::EndOfStream));
    assert_eq!(half.pos(), 6);
    let mut short = packet(&bytes[..3]);
    assert_eq!(read_word(&mut short, PcmCodec::S32Le), Err(StreamError::EndOfStream));
    assert_eq!(short.pos(), 3);
}

#[test]
fn samples_of_each_kind() {
    let bytes = [0xffu8, 0xfe];
    assert_eq!(read_sample(&mut packet(&bytes), PcmCodec::S16Be, 16), Ok(-2 * 65536));
    assert_eq!(read_sample(&mut packet(&bytes), PcmCodec::S16Le, 16), Ok(-257 * 65536));
    assert_eq!(read_sample(&mut packet(&bytes), PcmCodec::U16Be, 16), Ok(0x7ffe_0000));
    assert_eq!(read_sample(&mut packet(&bytes), PcmCodec::U8, 24), Ok(0x7f00_0000));
    assert_eq!(read_sample(&mut packet(&bytes), PcmCodec::MuLaw, 0), Ok(0));
    assert_eq!(read_sample(&mut packet(&[0xaa]), PcmCodec::ALaw, 0), Ok(32256 * 65536));
    let mut floats = packet(&[0, 0, 0, 0]);
    assert_eq!(read_sample(&mut floats, PcmCodec::F32Le, 0), Err(PcmError::UnsupportedCodec));
    assert_eq!(floats.pos(), 0);
    let mut empty = packet(&[]);
    assert_eq!(
        read_sample(&mut empty, PcmCodec::S8, 24),
        Err(PcmError::Stream(StreamError::EndOfStream))
    );
}

#[test]
fn decode_deinterleaves() {
    let decoder = PcmDecoder::new(&params(PcmCodec::S16Be, Some(16)));
    let mut stream = packet(&[0, 1, 0, 2, 0, 3, 0, 4, 9, 9]);
    let planes = decoder.decode(&mut stream, 2, 2).unwrap();
    assert_eq!(planes, vec![vec![65536, 3 * 65536], vec![2 * 65536, 4 * 65536]]);
    assert_eq!(stream.pos(), 8);
    let none = decoder.decode(&mut stream, 2, 0).unwrap();
    assert_eq!(none, vec![Vec::<i32>::new(), Vec::<i32>::new()]);
    let nothing = decoder.decode(&mut stream, 0, 5).unwrap();
    assert_eq!(nothing, Vec::<Vec<i32>>::new());
    assert_eq!(stream.pos(), 8);
}

#[test]
fn decode_uses_the_coded_width() {
    let mut p = params(PcmCodec::U24Le, Some(32));
    p.bits_per_coded_sample = Some(24);
    let decoder = PcmDecoder::new(&p);
    let mut stream = packet(&[0x00, 0x00, 0x80, 0xff, 0xff, 0xff]);
    assert_eq!(decoder.decode(&mut stream, 1, 2), Ok(vec![vec![0, 0x7fff_ff00]]));
}

#[test]
fn decode_refuses_what_it_cannot_read() {
    let mut stream = packet(&[1, 2, 3, 4, 5, 6, 7, 8]);
    let unknown = PcmDecoder::new(&params(PcmCodec::S16Le, None));
    assert_eq!(unknown.decode(&mut stream, 1, 1), Err(PcmError::UnknownWidth));
    let zero = PcmDecoder::new(&params(PcmCodec::S16Le, Some(0)));
    assert_eq!(zero.decode(&mut stream, 1, 1), Err(PcmError::UnknownWidth));
    let wide = PcmDecoder::new(&params(PcmCodec::S16Le, Some(33)));
    assert_eq!(wide.decode(&mut stream, 1, 1), Err(PcmError::UnknownWidth));
    let float = PcmDecoder::new(&params(PcmCodec::F64Be, Some(32)));
    assert_eq!(float.decode(&mut stream, 1, 1), Err(PcmError::UnsupportedCodec));
    assert_eq!(stream.pos(), 0);
    let short = PcmDecoder::new(&params(PcmCodec::S32Le, Some(32)));
    assert_eq!(
        short.decode(&mut stream, 3, 1),
        Err(PcmError::Stream(StreamError::EndOfStream))
    );
    assert_eq!(stream.pos(), 8);
}

#[test]
fn supported_codecs_are_listed_in_order() {
    let list = PcmDecoder::supported_codecs();
    assert_eq!(list.len(), 20);
    assert_eq!(list[0].codec, PcmCodec::S32Le);
    assert_eq!(list[0].short_name, "pcm_s32le");
    assert_eq!(list[0].long_name, "PCM Signed 32-bit Little-Endian Interleaved");
    assert_eq!(list[6].short_name, "pcm_s8");
    assert_eq!(list[13].codec, PcmCodec::U8);
    assert_eq!(list[17].long_name, "PCM 64-bit Big-Endian Floating Point Interleaved");
    assert_eq!(list[18].short_name, "pcm_alaw");
    assert_eq!(list[19].codec, PcmCodec::MuLaw);
    assert_eq!(list[19].long_name, "PCM Mu-law");
    for d in &list {
        assert_eq!(describe(d.codec).short_name, d.short_name);
    }
}

#[test]
fn codec_properties() {
    assert_eq!(PcmCodec::S24Be.word_bytes(), 3);
    assert_eq!(PcmCodec::F64Le.word_bytes(), 8);
    assert_eq!(PcmCodec::ALaw.word_bytes(), 1);
    assert!(PcmCodec::U16Be.is_big_endian());
    assert!(!PcmCodec::U16Le.is_big_endian());
    assert!(!PcmCodec::S8.is_big_endian());
    assert_eq!(PcmCodec::U32Le.sample_kind(), SampleKind::Unsigned);
    assert_eq!(PcmCodec::F32Be.sample_kind(), SampleKind::Floating);
    assert_eq!(PcmCodec::MuLaw.sample_kind(), SampleKind::MuLaw);
}

#[test]
fn signal_prefers_the_layout() {
    let mut p = params(PcmCodec::S16Le, Some(16));
    let decoder = PcmDecoder::new(&p);
    assert_eq!(*decoder.codec_params(), p);
    assert_eq!(
        decoder.spec(),
        Some(SignalSpec { rate: 44100, channels: ChannelSpec::Channels(3) })
    );
    p.channel_layout = Some(Layout::Stereo);
    assert_eq!(
        PcmDecoder::new(&p).spec(),
        Some(SignalSpec { rate: 44100, channels: ChannelSpec::Layout(Layout::Stereo) })
    );
    p.sample_rate = None;
    assert_eq!(PcmDecoder::new(&p).spec(), None);
    p.sample_rate = Some(8000);
    p.channel_layout = None;
    p.channels = None;
    assert_eq!(PcmDecoder::new(&p).spec(), None);
}

#[test]
fn opus_setup_checks_in_order() {
    assert_eq!(opus_setup(true, Some(1), Some(48000)), Ok(OpusChannels::Mono));
    assert_eq!(opus_setup(true, Some(2), Some(48000)), Ok(OpusChannels::Stereo));
    assert_eq!(opus_setup(false, Some(3), None), Err(OpusSetupError::MissingExtraData));
    assert_eq!(opus_setup(true, Some(3), None), Err(OpusSetupError::UnsupportedChannels));
    assert_eq!(opus_setup(true, Some(0), Some(48000)), Err(OpusSetupError::UnsupportedChannels));
    assert_eq!(opus_setup(true, None, Some(48000)), Err(OpusSetupError::UnsupportedChannels));
    assert_eq!(opus_setup(true, Some(2), Some(44100)), Err(OpusSetupError::UnsupportedSampleRate));
    assert_eq!(opus_setup(true, Some(1), None), Err(OpusSetupError::UnsupportedSampleRate));
}
