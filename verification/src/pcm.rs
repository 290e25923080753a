//! Raw PCM packets: one fixed-width word per sample and channel, read from
//! a stream and brought to 32-bit precision.

use vstd::prelude::*;
use crate::codec::{
    codec_list, describe, long_name, short_name, CodecDescriptor, PcmCodec, SampleKind,
};
use crate::companding::{alaw_to_linear, alaw_value, mulaw_to_linear, mulaw_value};
use crate::error::StreamError;
use crate::source::MediaSource;
use crate::stream::MediaSourceStream;
use crate::view::StreamView;

verus! {

/// The number that the bytes spell, most significant byte first.
pub open spec fn be_value(bytes: Seq<u8>) -> nat
    decreases bytes.len(),
{
    if bytes.len() == 0 {
        0
    } else {
        256 * be_value(bytes.drop_last()) + bytes.last() as nat
    }
}

/// The number that the bytes of a word spell in the byte order of `codec`.
pub open spec fn word_value(codec: PcmCodec, bytes: Seq<u8>) -> nat {
    if codec.big_endian() {
        be_value(bytes)
    } else {
        be_value(bytes.reverse())
    }
}

/// The 32-bit sample that a signed word stands for: the word moved up by
/// `shift` bits, read as a two's complement number.
pub open spec fn signed_value(word: u32, shift: u32) -> int {
    let moved = word << shift;
    if moved >= 0x8000_0000 {
        moved - 0x1_0000_0000
    } else {
        moved as int
    }
}

/// The 32-bit sample that an unsigned word stands for: the word moved up
/// by `shift` bits, with the middle of the range at 0.
pub open spec fn unsigned_value(word: u32, shift: u32) -> int {
    (word << shift) - 0x8000_0000
}

/// The 32-bit sample that a 16-bit linear sample stands for.
pub open spec fn widened_value(linear: int) -> int {
    linear * 65536
}

/// Brings a signed word to 32-bit precision.
pub fn signed_sample(word: u32, shift: u32) -> (r: i32)
    requires
        shift < 32,
    ensures
        r == signed_value(word, shift),
{
    let moved: u32 = word << shift;
    if moved >= 0x8000_0000 {
        (moved as i64 - 0x1_0000_0000) as i32
    } else {
        moved as i32
    }
}

/// Brings an unsigned word to 32-bit precision.
pub fn unsigned_sample(word: u32, shift: u32) -> (r: i32)
    requires
        shift < 32,
    ensures
        r == unsigned_value(word, shift),
{
    let moved: u32 = word << shift;
    (moved as i64 - 0x8000_0000) as i32
}

/// Brings a 16-bit linear sample to 32-bit precision.
pub fn widened_sample(linear: i16) -> (r: i32)
    ensures
        r == widened_value(linear as int),
{
    (linear as i32) * 65536
}

/// The 32-bit sample that the word `word` of a sample in `codec` stands
/// for, where integer words are moved up by `shift` bits. Nothing is said
/// of floating-point encodings.
pub open spec fn sample_value(codec: PcmCodec, shift: u32, word: nat) -> int
    recommends
        !(codec.kind() is Floating),
{
    match codec.kind() {
        SampleKind::Signed => signed_value(word as u32, shift),
        SampleKind::Unsigned => unsigned_value(word as u32, shift),
        SampleKind::ALaw => widened_value(alaw_value(word as u8)),
        SampleKind::MuLaw => widened_value(mulaw_value(word as u8)),
        SampleKind::Floating => arbitrary(),
    }
}

/// The `k`-th sample of a packet that starts at the cursor of `v`.
pub open spec fn sample_at(v: StreamView, codec: PcmCodec, shift: u32, k: nat) -> int {
    sample_value(
        codec,
        shift,
        word_value(codec, v.skipped(k * codec.word_len()).upcoming(codec.word_len())),
    )
}

/// Why a packet could not be decoded.
#[derive(Clone, Copy, Debug, PartialEq, Eq, Structural)]
pub enum PcmError {
    /// The parameters give no usable number of bits per sample.
    UnknownWidth,
    /// The samples are floating-point numbers, which this decoder leaves
    /// to its caller.
    UnsupportedCodec,
    /// The stream failed or ended within the packet.
    Stream(StreamError),
}

proof fn lemma_be_values(a: u8, b: u8, c: u8, d: u8)
    ensures
        be_value(seq![a]) == a,
        be_value(seq![a, b]) == 256 * a + b,
        be_value(seq![a, b, c]) == 65536 * a + 256 * b + c,
        be_value(seq![a, b, c, d]) == 16777216 * a + 65536 * b + 256 * c + d,
{
    reveal_with_fuel(be_value, 5);
    assert(seq![a].drop_last() =~= Seq::<u8>::empty());
    assert(seq![a, b].drop_last() =~= seq![a]);
    assert(seq![a, b, c].drop_last() =~= seq![a, b]);
    assert(seq![a, b, c, d].drop_last() =~= seq![a, b, c]);
}

proof fn lemma_be_value_of_eight(a: u8, b: u8, c: u8, d: u8, e: u8, f: u8, g: u8, h: u8)
    ensures
        be_value(seq![a, b, c, d, e, f, g, h]) == 0x1_0000_0000 * be_value(seq![a, b, c, d])
            + be_value(seq![e, f, g, h]),
{
    lemma_be_values(a, b, c, d);
    lemma_be_values(e, f, g, h);
    reveal_with_fuel(be_value, 5);
    assert(seq![a, b, c, d, e, f, g, h].drop_last() =~= seq![a, b, c, d, e, f, g]);
    assert(seq![a, b, c, d, e, f, g].drop_last() =~= seq![a, b, c, d, e, f]);
    assert(seq![a, b, c, d, e, f].drop_last() =~= seq![a, b, c, d, e]);
    assert(seq![a, b, c, d, e].drop_last() =~= seq![a, b, c, d]);
}

/// The number that four bytes spell in the given byte order.
fn quad_value(b: [u8; 4], big: bool) -> (r: u32)
    ensures
        r == if big {
            be_value(b@)
        } else {
            be_value(b@.reverse())
        },
{
    proof {
        lemma_be_values(b[0], b[1], b[2], b[3]);
        lemma_be_values(b[3], b[2], b[1], b[0]);
        assert(b@ =~= seq![b[0], b[1], b[2], b[3]]);
        assert(b@.reverse() =~= seq![b[3], b[2], b[1], b[0]]);
    }
    if big {
        16777216 * (b[0] as u32) + 65536 * (b[1] as u32) + 256 * (b[2] as u32) + b[3] as u32
    } else {
        16777216 * (b[3] as u32) + 65536 * (b[2] as u32) + 256 * (b[1] as u32) + b[0] as u32
    }
}

/// Reads the word of one sample and returns the number it spells.
pub fn read_word<S: MediaSource>(stream: &mut MediaSourceStream<S>, codec: PcmCodec) -> (r: Result<
    u64,
    StreamError,
>)
    requires
        old(stream).wf(),
    ensures
        final(stream).source().requested().len() >= old(stream).source().requested().len(),
        r matches Err(e) && e != StreamError::EndOfStream ==> final(
            stream).source().requested().len() > old(stream).source().requested().len(),
        old(stream)@.exact_outcome(r, codec.word_len()),
        old(stream)@.buffered() >= codec.word_len() ==> final(stream)@ == old(stream)@.skipped(
            codec.word_len(),
        ) && final(stream).source() == old(stream).source(),
        final(stream).wf(),
        old(stream)@.buffered() >= codec.word_len() ==> r is Ok,
        match r {
            Ok(word) => {
                &&& old(stream)@.remaining() >= codec.word_len()
                &&& word == word_value(codec, old(stream)@.upcoming(codec.word_len()))
                &&& codec.word_len() <= 4 ==> word <= u32::MAX
                &&& codec.word_len() == 1 ==> word <= u8::MAX
                &&& old(stream)@.advances_to(final(stream)@, codec.word_len())
            },
            Err(e) => {
                &&& e != StreamError::Interrupted
                &&& old(stream)@.stops_within(final(stream)@, codec.word_len())
                &&& e == StreamError::EndOfStream ==> final(stream)@.remaining() == 0
            },
        },
{
    let ghost bytes = old(stream)@.upcoming(codec.word_len());
    let big: bool = codec.is_big_endian();
    match codec.word_bytes() {
        1 => {
            let b: u8 = match stream.read_byte() {
                Ok(b) => b,
                Err(e) => {
                    return Err(e);
                },
            };
            proof {
                lemma_be_values(b, 0, 0, 0);
                assert(bytes =~= seq![b]);
                assert(bytes.reverse() =~= seq![b]);
            }
            Ok(b as u64)
        },
        2 => {
            let b: [u8; 2] = match stream.read_double_bytes() {
                Ok(b) => b,
                Err(e) => {
                    return Err(e);
                },
            };
            proof {
                lemma_be_values(b[0], b[1], 0, 0);
                lemma_be_values(b[1], b[0], 0, 0);
                assert(bytes =~= seq![b[0], b[1]]);
                assert(bytes.reverse() =~= seq![b[1], b[0]]);
            }
            if big {
                Ok(256 * (b[0] as u64) + b[1] as u64)
            } else {
                Ok(256 * (b[1] as u64) + b[0] as u64)
            }
        },
        3 => {
            let b: [u8; 3] = match stream.read_triple_bytes() {
                Ok(b) => b,
                Err(e) => {
                    return Err(e);
                },
            };
            proof {
                lemma_be_values(b[0], b[1], b[2], 0);
                lemma_be_values(b[2], b[1], b[0], 0);
                assert(bytes =~= seq![b[0], b[1], b[2]]);
                assert(bytes.reverse() =~= seq![b[2], b[1], b[0]]);
            }
            if big {
                Ok(65536 * (b[0] as u64) + 256 * (b[1] as u64) + b[2] as u64)
            } else {
                Ok(65536 * (b[2] as u64) + 256 * (b[1] as u64) + b[0] as u64)
            }
        },
        4 => {
            let b: [u8; 4] = match stream.read_quad_bytes() {
                Ok(b) => b,
                Err(e) => {
                    return Err(e);
                },
            };
            Ok(quad_value(b, big) as u64)
        },
        _ => {
            let first: [u8; 4] = match stream.read_quad_bytes() {
                Ok(b) => b,
                Err(e) => {
                    return Err(e);
                },
            };
            let second: [u8; 4] = match stream.read_quad_bytes() {
                Ok(b) => b,
                Err(e) => {
                    return Err(e);
                },
            };
            proof {
                lemma_be_value_of_eight(
                    first[0],
                    first[1],
                    first[2],
                    first[3],
                    second[0],
                    second[1],
                    second[2],
                    second[3],
                );
                lemma_be_value_of_eight(
                    second[3],
                    second[2],
                    second[1],
                    second[0],
                    first[3],
                    first[2],
                    first[1],
                    first[0],
                );
                assert(first@ =~= seq![first[0], first[1], first[2], first[3]]);
                assert(second@ =~= seq![second[0], second[1], second[2], second[3]]);
                assert(first@.reverse() =~= seq![first[3], first[2], first[1], first[0]]);
                assert(second@.reverse() =~= seq![second[3], second[2], second[1], second[0]]);
                assert(bytes =~= seq![
                    first[0],
                    first[1],
                    first[2],
                    first[3],
                    second[0],
                    second[1],
                    second[2],
                    second[3],
                ]);
                assert(bytes.reverse() =~= seq![
                    second[3],
                    second[2],
                    second[1],
                    second[0],
                    first[3],
                    first[2],
                    first[1],
                    first[0],
                ]);
            }
            if big {
                Ok(0x1_0000_0000 * (quad_value(first, big) as u64) + quad_value(second, big) as u64)
            } else {
                Ok(0x1_0000_0000 * (quad_value(second, big) as u64) + quad_value(first, big) as u64)
            }
        },
    }
}

/// Reads one sample and brings it to 32-bit precision. Floating-point
/// encodings are refused before anything is read.
pub fn read_sample<S: MediaSource>(
    stream: &mut MediaSourceStream<S>,
    codec: PcmCodec,
    shift: u32,
) -> (r: Result<i32, PcmError>)
    requires
        old(stream).wf(),
        shift < 32,
    ensures
        final(stream).source().requested().len() >= old(stream).source().requested().len(),
        r matches Err(PcmError::Stream(e)) && e != StreamError::EndOfStream ==> final(
            stream).source().requested().len() > old(stream).source().requested().len(),
        !(codec.kind() is Floating) && old(stream)@.unfailing ==> {
            &&& r is Ok <==> codec.word_len() <= old(stream)@.remaining()
            &&& r is Err ==> r == Err::<i32, PcmError>(PcmError::Stream(StreamError::EndOfStream))
        },
        !(codec.kind() is Floating) && old(stream)@.buffered() >= codec.word_len() ==> final(
            stream)@ == old(stream)@.skipped(codec.word_len()) && final(stream).source() == old(
            stream).source(),
        codec.kind() is Floating ==> final(stream).source() == old(stream).source(),
        final(stream).wf(),
        codec.kind() is Floating ==> r == Err::<i32, PcmError>(PcmError::UnsupportedCodec)
            && final(stream)@ == old(stream)@,
        !(codec.kind() is Floating) && old(stream)@.buffered() >= codec.word_len() ==> r is Ok,
        !(codec.kind() is Floating) ==> match r {
            Ok(sample) => {
                &&& old(stream)@.remaining() >= codec.word_len()
                &&& sample == sample_at(old(stream)@, codec, shift, 0)
                &&& old(stream)@.advances_to(final(stream)@, codec.word_len())
            },
            Err(PcmError::Stream(e)) => {
                &&& e != StreamError::Interrupted
                &&& old(stream)@.stops_within(final(stream)@, codec.word_len())
                &&& e == StreamError::EndOfStream ==> final(stream)@.remaining() == 0
            },
            Err(_) => false,
        },
{
    let kind: SampleKind = codec.sample_kind();
    if let SampleKind::Floating = kind {
        return Err(PcmError::UnsupportedCodec);
    }
    let word: u32 = match read_word(stream, codec) {
        Ok(word) => word as u32,
        Err(e) => {
            return Err(PcmError::Stream(e));
        },
    };
    proof {
        assert(old(stream)@.skipped(0) == old(stream)@);
    }
    match kind {
        SampleKind::Signed => Ok(signed_sample(word, shift)),
        SampleKind::Unsigned => Ok(unsigned_sample(word, shift)),
        SampleKind::ALaw => Ok(widened_sample(alaw_to_linear(word as u8))),
        _ => Ok(widened_sample(mulaw_to_linear(word as u8))),
    }
}

/// A channel layout.
#[derive(Clone, Copy, Debug, PartialEq, Eq, Structural)]
pub enum Layout {
    Mono,
    Stereo,
    TwoPointOne,
    FivePointOne,
}

/// The channels of a signal: a layout, or a set of channels as a bit mask.
#[derive(Clone, Copy, Debug, PartialEq, Eq, Structural)]
pub enum ChannelSpec {
    Layout(Layout),
    Channels(u32),
}

/// The sample rate and the channels of a signal.
#[derive(Clone, Copy, Debug, PartialEq, Eq, Structural)]
pub struct SignalSpec {
    pub rate: u32,
    pub channels: ChannelSpec,
}

/// What a container says of a PCM track.
#[derive(Clone, Copy, Debug, PartialEq, Eq, Structural)]
pub struct CodecParameters {
    pub codec: PcmCodec,
    pub sample_rate: Option<u32>,
    pub channel_layout: Option<Layout>,
    pub channels: Option<u32>,
    pub bits_per_sample: Option<u32>,
    pub bits_per_coded_sample: Option<u32>,
}

impl CodecParameters {
    /// The number of bits of a coded sample: the coded width where it is
    /// given, else the sample width, else 0.
    pub open spec fn coded_width(self) -> u32 {
        match self.bits_per_coded_sample {
            Some(w) => w,
            None => match self.bits_per_sample {
                Some(w) => w,
                None => 0,
            },
        }
    }

    /// The signal of the track: known where the rate is, with the layout
    /// preferred over a set of channels.
    pub open spec fn signal(self) -> Option<SignalSpec> {
        match (self.sample_rate, self.channel_layout, self.channels) {
            (Some(rate), Some(layout), _) => Some(
                SignalSpec { rate, channels: ChannelSpec::Layout(layout) },
            ),
            (Some(rate), None, Some(channels)) => Some(
                SignalSpec { rate, channels: ChannelSpec::Channels(channels) },
            ),
            _ => None,
        }
    }
}

/// Why a decoder with the parameters `p` refuses every packet, if it does:
/// the width of a sample is unknown or beyond 32 bits, or the samples are
/// floating-point numbers.
pub open spec fn decode_refused(p: CodecParameters) -> Option<PcmError> {
    if p.coded_width() == 0 || p.coded_width() > 32 {
        Some(PcmError::UnknownWidth)
    } else if p.codec.kind() is Floating {
        Some(PcmError::UnsupportedCodec)
    } else {
        None
    }
}

/// A decoder of raw PCM packets.
pub struct PcmDecoder {
    params: CodecParameters,
}

impl PcmDecoder {
    /// The parameters that the decoder was made with.
    pub closed spec fn params(&self) -> CodecParameters {
        self.params
    }

    /// A decoder for a track with the given parameters.
    pub fn new(params: &CodecParameters) -> (d: Self)
        ensures
            d.params() == *params,
    {
        PcmDecoder { params: *params }
    }

    /// The codecs that this decoder knows, each with its names.
    pub fn supported_codecs() -> (list: Vec<CodecDescriptor>)
        ensures
            list@.len() == codec_list().len(),
            forall|i: int|
                0 <= i < list@.len() ==> {
                    &&& (#[trigger] list@[i]).codec == codec_list()[i]
                    &&& list@[i].short_name@ == short_name(codec_list()[i])
                    &&& list@[i].long_name@ == long_name(codec_list()[i])
                },
    {
        let mut list: Vec<CodecDescriptor> = Vec::new();
        list.push(describe(PcmCodec::S32Le));
        list.push(describe(PcmCodec::S32Be));
        list.push(describe(PcmCodec::S24Le));
        list.push(describe(PcmCodec::S24Be));
        list.push(describe(PcmCodec::S16Le));
        list.push(describe(PcmCodec::S16Be));
        list.push(describe(PcmCodec::S8));
        list.push(describe(PcmCodec::U32Le));
        list.push(describe(PcmCodec::U32Be));
        list.push(describe(PcmCodec::U24Le));
        list.push(describe(PcmCodec::U24Be));
        list.push(describe(PcmCodec::U16Le));
        list.push(describe(PcmCodec::U16Be));
        list.push(describe(PcmCodec::U8));
        list.push(describe(PcmCodec::F32Le));
        list.push(describe(PcmCodec::F32Be));
        list.push(describe(PcmCodec::F64Le));
        list.push(describe(PcmCodec::F64Be));
        list.push(describe(PcmCodec::ALaw));
        list.push(describe(PcmCodec::MuLaw));
        list
    }

    /// The parameters that the decoder was made with.
    pub fn codec_params(&self) -> (p: &CodecParameters)
        ensures
            *p == self.params(),
    {
        &self.params
    }

    /// The signal of the track, where the parameters give it.
    pub fn spec(&self) -> (r: Option<SignalSpec>)
        ensures
            r == self.params().signal(),
    {
        if let Some(rate) = self.params.sample_rate {
            // Prefer the channel layout over a list of channels.
            if let Some(layout) = self.params.channel_layout {
                return Some(SignalSpec { rate, channels: ChannelSpec::Layout(layout) });
            } else if let Some(channels) = self.params.channels {
                return Some(SignalSpec { rate, channels: ChannelSpec::Channels(channels) });
            }
        }
        None
    }

    /// Decodes a packet of `frames` frames of `channels` samples each, read
    /// from `stream`, into one plane of samples for each channel.
    ///
    /// Sample `f` of channel `c` is the sample number `f * channels + c` of
    /// the packet. Integer words are moved up by 32 less the coded width.
    /// A failure of the stream within the packet is the result; what was
    /// read until then stays consumed.
    pub fn decode<S: MediaSource>(
        &self,
        stream: &mut MediaSourceStream<S>,
        channels: usize,
        frames: usize,
    ) -> (r: Result<Vec<Vec<i32>>, PcmError>)
        requires
            old(stream).wf(),
            channels * frames <= usize::MAX,
        ensures
            final(stream).source().requested().len() >= old(
                stream).source().requested().len(),
            r matches Err(PcmError::Stream(e)) && e != StreamError::EndOfStream ==> final(
                stream).source().requested().len() > old(stream).source().requested().len(),
            decode_refused(self.params()) is Some ==> final(stream).source() == old(
                stream).source(),
            decode_refused(self.params()) is None && old(stream)@.buffered() >= channels * frames
                * self.params().codec.word_len() ==> r is Ok && final(stream)@ == old(
                stream)@.skipped((channels * frames * self.params().codec.word_len()) as nat)
                && final(stream).source() == old(stream).source(),
            decode_refused(self.params()) is None && old(stream)@.unfailing ==> {
                &&& r is Ok <==> channels * frames * self.params().codec.word_len() <= old(
                    stream)@.remaining()
                &&& r is Err ==> r == Err::<Vec<Vec<i32>>, PcmError>(
                    PcmError::Stream(StreamError::EndOfStream),
                )
            },
            final(stream).wf(),
            decode_refused(self.params()) matches Some(e) ==> r == Err::<Vec<Vec<i32>>, PcmError>(e)
                && final(stream)@ == old(stream)@,
            decode_refused(self.params()) is None ==> match r {
                Ok(planes) => {
                    &&& planes@.len() == channels
                    &&& forall|c: int|
                        0 <= c < channels ==> (#[trigger] planes@[c])@.len() == frames
                    &&& forall|c: int, f: int|
                        0 <= c < channels && 0 <= f < frames ==> planes@[c]@[f] == sample_at(
                            old(stream)@,
                            self.params().codec,
                            (32 - self.params().coded_width()) as u32,
                            (f * channels + c) as nat,
                        )
                    &&& old(stream)@.advances_to(
                        final(stream)@,
                        (channels * frames * self.params().codec.word_len()) as nat,
                    )
                },
                Err(PcmError::Stream(e)) => {
                    &&& e != StreamError::Interrupted
                    &&& old(stream)@.stops_within(
                        final(stream)@,
                        (channels * frames * self.params().codec.word_len()) as nat,
                    )
                    &&& e == StreamError::EndOfStream ==> final(stream)@.remaining() == 0
                },
                Err(_) => false,
            },
    {
        let width: u32 = match self.params.bits_per_coded_sample {
            Some(w) => w,
            None => match self.params.bits_per_sample {
                Some(w) => w,
                None => 0,
            },
        };
        if width == 0 || width > 32 {
            return Err(PcmError::UnknownWidth);
        }
        let codec: PcmCodec = self.params.codec;
        if let SampleKind::Floating = codec.sample_kind() {
            return Err(PcmError::UnsupportedCodec);
        }
        let shift: u32 = 32 - width;
        let total: usize = channels * frames;
        let ghost wl: nat = codec.word_len();
        let ghost start = stream@;

        // Read the samples in the order of the packet.
        let mut interleaved: Vec<i32> = Vec::new();
        let mut k: usize = 0;
        while k < total
            invariant
                stream.wf(),
                k <= total,
                interleaved@.len() == k,
                !(codec.kind() is Floating),
                shift < 32,
                wl == codec.word_len(),
                decode_refused(self.params()) is None,
                codec == self.params().codec,
                total == channels * frames,
                start == old(stream)@,
                start.wf(),
                stream.source().requested().len() >= old(stream).source().requested().len(),
                start.advances_to(stream@, (k * wl) as nat),
                start.unfailing ==> (k * wl) as nat <= start.remaining(),
                start.buffered() >= total * wl ==> stream@ == start.skipped((k * wl) as nat)
                    && stream.source() == old(stream).source(),
                forall|j: int|
                    0 <= j < k ==> interleaved@[j] == sample_at(start, codec, shift, j as nat),
            decreases total - k,
        {
            let ghost before = stream@;
            proof {
                assert((k + 1) * wl == k * wl + wl) by (nonlinear_arith);
                assert((k + 1) * wl <= total * wl) by (nonlinear_arith)
                    requires
                        k + 1 <= total,
                ;
                assert(total * wl == channels * frames * wl);
                assert(before.skipped(0nat * wl).upcoming(wl) =~= start.skipped(
                    (k as nat) * wl,
                ).upcoming(wl));
            }
            let sample: i32 = match read_sample(stream, codec, shift) {
                Ok(sample) => sample,
                Err(e) => {
                    return Err(e);
                },
            };
            interleaved.push(sample);
            k += 1;
        }

        // Hand each channel its samples.
        let mut planes: Vec<Vec<i32>> = Vec::new();
        let mut c: usize = 0;
        while c < channels
            invariant
                c <= channels,
                planes@.len() == c,
                interleaved@.len() == total,
                total == channels * frames,
                forall|i: int| 0 <= i < c ==> (#[trigger] planes@[i])@.len() == frames,
                forall|i: int, f: int|
                    0 <= i < c && 0 <= f < frames ==> planes@[i]@[f] == interleaved@[f * channels
                        + i],
            decreases channels - c,
        {
            let mut plane: Vec<i32> = Vec::new();
            let mut f: usize = 0;
            while f < frames
                invariant
                    f <= frames,
                    c < channels,
                    plane@.len() == f,
                    interleaved@.len() == total,
                    total == channels * frames,
                    forall|g: int| 0 <= g < f ==> plane@[g] == interleaved@[g * channels + c],
                decreases frames - f,
            {
                proof {
                    assert(f * channels + c < channels * frames) by (nonlinear_arith)
                        requires
                            f < frames,
                            c < channels,
                    ;
                    assert(f * channels >= 0) by (nonlinear_arith);
                }
                plane.push(interleaved[f * channels + c]);
                f += 1;
            }
            planes.push(plane);
            c += 1;
        }
        proof {
            assert forall|i: int, f: int| 0 <= i < channels && 0 <= f < frames implies planes@[i]@[f]
                == sample_at(start, codec, shift, (f * channels + i) as nat) by {
                assert(0 <= f * channels + i < channels * frames) by (nonlinear_arith)
                    requires
                        0 <= f < frames,
                        0 <= i < channels,
                ;
            }
            assert(total * wl == channels * frames * wl);
        }
        Ok(planes)
    }
}

} // verus!
