//! The PCM encodings and the names they go by.

use vstd::prelude::*;

verus! {

/// The PCM encodings: signedness or companding law, word width, byte order.
#[derive(Clone, Copy, Debug, PartialEq, Eq, Structural)]
pub enum PcmCodec {
    S32Le,
    S32Be,
    S24Le,
    S24Be,
    S16Le,
    S16Be,
    S8,
    U32Le,
    U32Be,
    U24Le,
    U24Be,
    U16Le,
    U16Be,
    U8,
    F32Le,
    F32Be,
    F64Le,
    F64Be,
    ALaw,
    MuLaw,
}

/// How the word of a sample is to be read.
#[derive(Clone, Copy, Debug, PartialEq, Eq, Structural)]
pub enum SampleKind {
    Signed,
    Unsigned,
    Floating,
    ALaw,
    MuLaw,
}

impl PcmCodec {
    /// The number of bytes in the word of one sample.
    pub open spec fn word_len(self) -> nat {
        match self {
            PcmCodec::F64Le | PcmCodec::F64Be => 8,
            PcmCodec::S32Le
            | PcmCodec::S32Be
            | PcmCodec::U32Le
            | PcmCodec::U32Be
            | PcmCodec::F32Le
            | PcmCodec::F32Be => 4,
            PcmCodec::S24Le | PcmCodec::S24Be | PcmCodec::U24Le | PcmCodec::U24Be => 3,
            PcmCodec::S16Le | PcmCodec::S16Be | PcmCodec::U16Le | PcmCodec::U16Be => 2,
            PcmCodec::S8 | PcmCodec::U8 | PcmCodec::ALaw | PcmCodec::MuLaw => 1,
        }
    }

    /// Whether the most significant byte of a word comes first.
    pub open spec fn big_endian(self) -> bool {
        match self {
            PcmCodec::S32Be
            | PcmCodec::S24Be
            | PcmCodec::S16Be
            | PcmCodec::U32Be
            | PcmCodec::U24Be
            | PcmCodec::U16Be
            | PcmCodec::F32Be
            | PcmCodec::F64Be => true,
            _ => false,
        }
    }

    /// How the word of a sample is to be read.
    pub open spec fn kind(self) -> SampleKind {
        match self {
            PcmCodec::S32Le
            | PcmCodec::S32Be
            | PcmCodec::S24Le
            | PcmCodec::S24Be
            | PcmCodec::S16Le
            | PcmCodec::S16Be
            | PcmCodec::S8 => SampleKind::Signed,
            PcmCodec::U32Le
            | PcmCodec::U32Be
            | PcmCodec::U24Le
            | PcmCodec::U24Be
            | PcmCodec::U16Le
            | PcmCodec::U16Be
            | PcmCodec::U8 => SampleKind::Unsigned,
            PcmCodec::F32Le | PcmCodec::F32Be | PcmCodec::F64Le | PcmCodec::F64Be => {
                SampleKind::Floating
            },
            PcmCodec::ALaw => SampleKind::ALaw,
            PcmCodec::MuLaw => SampleKind::MuLaw,
        }
    }

    /// The number of bytes in the word of one sample.
    pub fn word_bytes(self) -> (r: usize)
        ensures
            r == self.word_len(),
    {
        match self {
            PcmCodec::F64Le | PcmCodec::F64Be => 8,
            PcmCodec::S32Le
            | PcmCodec::S32Be
            | PcmCodec::U32Le
            | PcmCodec::U32Be
            | PcmCodec::F32Le
            | PcmCodec::F32Be => 4,
            PcmCodec::S24Le | PcmCodec::S24Be | PcmCodec::U24Le | PcmCodec::U24Be => 3,
            PcmCodec::S16Le | PcmCodec::S16Be | PcmCodec::U16Le | PcmCodec::U16Be => 2,
            PcmCodec::S8 | PcmCodec::U8 | PcmCodec::ALaw | PcmCodec::MuLaw => 1,
        }
    }

    /// Whether the most significant byte of a word comes first.
    pub fn is_big_endian(self) -> (r: bool)
        ensures
            r == self.big_endian(),
    {
        match self {
            PcmCodec::S32Be
            | PcmCodec::S24Be
            | PcmCodec::S16Be
            | PcmCodec::U32Be
            | PcmCodec::U24Be
            | PcmCodec::U16Be
            | PcmCodec::F32Be
            | PcmCodec::F64Be => true,
            _ => false,
        }
    }

    /// How the word of a sample is to be read.
    pub fn sample_kind(self) -> (r: SampleKind)
        ensures
            r == self.kind(),
    {
        match self {
            PcmCodec::S32Le
            | PcmCodec::S32Be
            | PcmCodec::S24Le
            | PcmCodec::S24Be
            | PcmCodec::S16Le
            | PcmCodec::S16Be
            | PcmCodec::S8 => SampleKind::Signed,
            PcmCodec::U32Le
            | PcmCodec::U32Be
            | PcmCodec::U24Le
            | PcmCodec::U24Be
            | PcmCodec::U16Le
            | PcmCodec::U16Be
            | PcmCodec::U8 => SampleKind::Unsigned,
            PcmCodec::F32Le | PcmCodec::F32Be | PcmCodec::F64Le | PcmCodec::F64Be => {
                SampleKind::Floating
            },
            PcmCodec::ALaw => SampleKind::ALaw,
            PcmCodec::MuLaw => SampleKind::MuLaw,
        }
    }
}

/// A codec with the names it goes by.
#[derive(Clone, Copy, Debug)]
pub struct CodecDescriptor {
    pub codec: PcmCodec,
    pub short_name: &'static str,
    pub long_name: &'static str,
}

/// The short name of a codec.
pub open spec fn short_name(codec: PcmCodec) -> Seq<char> {
    match codec {
        PcmCodec::S32Le => "pcm_s32le"@,
        PcmCodec::S32Be => "pcm_s32be"@,
        PcmCodec::S24Le => "pcm_s24le"@,
        PcmCodec::S24Be => "pcm_s24be"@,
        PcmCodec::S16Le => "pcm_s16le"@,
        PcmCodec::S16Be => "pcm_s16be"@,
        PcmCodec::S8 => "pcm_s8"@,
        PcmCodec::U32Le => "pcm_u32le"@,
        PcmCodec::U32Be => "pcm_u32be"@,
        PcmCodec::U24Le => "pcm_u24le"@,
        PcmCodec::U24Be => "pcm_u24be"@,
        PcmCodec::U16Le => "pcm_u16le"@,
        PcmCodec::U16Be => "pcm_u16be"@,
        PcmCodec::U8 => "pcm_u8"@,
        PcmCodec::F32Le => "pcm_f32le"@,
        PcmCodec::F32Be => "pcm_f32be"@,
        PcmCodec::F64Le => "pcm_f64le"@,
        PcmCodec::F64Be => "pcm_f64be"@,
        PcmCodec::ALaw => "pcm_alaw"@,
        PcmCodec::MuLaw => "pcm_mulaw"@,
    }
}

/// The descriptive name of a codec.
pub open spec fn long_name(codec: PcmCodec) -> Seq<char> {
    match codec {
        PcmCodec::S32Le => "PCM Signed 32-bit Little-Endian Interleaved"@,
        PcmCodec::S32Be => "PCM Signed 32-bit Big-Endian Interleaved"@,
        PcmCodec::S24Le => "PCM Signed 24-bit Little-Endian Interleaved"@,
        PcmCodec::S24Be => "PCM Signed 24-bit Big-Endian Interleaved"@,
        PcmCodec::S16Le => "PCM Signed 16-bit Little-Endian Interleaved"@,
        PcmCodec::S16Be => "PCM Signed 16-bit Big-Endian Interleaved"@,
        PcmCodec::S8 => "PCM Signed 8-bit Interleaved"@,
        PcmCodec::U32Le => "PCM Unsigned 32-bit Little-Endian Interleaved"@,
        PcmCodec::U32Be => "PCM Unsigned 32-bit Big-Endian Interleaved"@,
        PcmCodec::U24Le => "PCM Unsigned 24-bit Little-Endian Interleaved"@,
        PcmCodec::U24Be => "PCM Unsigned 24-bit Big-Endian Interleaved"@,
        PcmCodec::U16Le => "PCM Unsigned 16-bit Little-Endian Interleaved"@,
        PcmCodec::U16Be => "PCM Unsigned 16-bit Big-Endian Interleaved"@,
        PcmCodec::U8 => "PCM Unsigned 8-bit Interleaved"@,
        PcmCodec::F32Le => "PCM 32-bit Little-Endian Floating Point Interleaved"@,
        PcmCodec::F32Be => "PCM 32-bit Big-Endian Floating Point Interleaved"@,
        PcmCodec::F64Le => "PCM 64-bit Little-Endian Floating Point Interleaved"@,
        PcmCodec::F64Be => "PCM 64-bit Big-Endian Floating Point Interleaved"@,
        PcmCodec::ALaw => "PCM A-law"@,
        PcmCodec::MuLaw => "PCM Mu-law"@,
    }
}

/// The codecs of this decoder, in the order in which it lists them.
pub open spec fn codec_list() -> Seq<PcmCodec> {
    seq![
        PcmCodec::S32Le,
        PcmCodec::S32Be,
        PcmCodec::S24Le,
        PcmCodec::S24Be,
        PcmCodec::S16Le,
        PcmCodec::S16Be,
        PcmCodec::S8,
        PcmCodec::U32Le,
        PcmCodec::U32Be,
        PcmCodec::U24Le,
        PcmCodec::U24Be,
        PcmCodec::U16Le,
        PcmCodec::U16Be,
        PcmCodec::U8,
        PcmCodec::F32Le,
        PcmCodec::F32Be,
        PcmCodec::F64Le,
        PcmCodec::F64Be,
        PcmCodec::ALaw,
        PcmCodec::MuLaw,
    ]
}

/// The descriptor of `codec`.
pub fn describe(codec: PcmCodec) -> (d: CodecDescriptor)
    ensures
        d.codec == codec,
        d.short_name@ == short_name(codec),
        d.long_name@ == long_name(codec),
{
    match codec {
        PcmCodec::S32Le => CodecDescriptor {
            codec,
            short_name: "pcm_s32le",
            long_name: "PCM Signed 32-bit Little-Endian Interleaved",
        },
        PcmCodec::S32Be => CodecDescriptor {
            codec,
            short_name: "pcm_s32be",
            long_name: "PCM Signed 32-bit Big-Endian Interleaved",
        },
        PcmCodec::S24Le => CodecDescriptor {
            codec,
            short_name: "pcm_s24le",
            long_name: "PCM Signed 24-bit Little-Endian Interleaved",
        },
        PcmCodec::S24Be => CodecDescriptor {
            codec,
            short_name: "pcm_s24be",
            long_name: "PCM Signed 24-bit Big-Endian Interleaved",
        },
        PcmCodec::S16Le => CodecDescriptor {
            codec,
            short_name: "pcm_s16le",
            long_name: "PCM Signed 16-bit Little-Endian Interleaved",
        },
        PcmCodec::S16Be => CodecDescriptor {
            codec,
            short_name: "pcm_s16be",
            long_name: "PCM Signed 16-bit Big-Endian Interleaved",
        },
        PcmCodec::S8 => CodecDescriptor {
            codec,
            short_name: "pcm_s8",
            long_name: "PCM Signed 8-bit Interleaved",
        },
        PcmCodec::U32Le => CodecDescriptor {
            codec,
            short_name: "pcm_u32le",
            long_name: "PCM Unsigned 32-bit Little-Endian Interleaved",
        },
        PcmCodec::U32Be => CodecDescriptor {
            codec,
            short_name: "pcm_u32be",
            long_name: "PCM Unsigned 32-bit Big-Endian Interleaved",
        },
        PcmCodec::U24Le => CodecDescriptor {
            codec,
            short_name: "pcm_u24le",
            long_name: "PCM Unsigned 24-bit Little-Endian Interleaved",
        },
        PcmCodec::U24Be => CodecDescriptor {
            codec,
            short_name: "pcm_u24be",
            long_name: "PCM Unsigned 24-bit Big-Endian Interleaved",
        },
        PcmCodec::U16Le => CodecDescriptor {
            codec,
            short_name: "pcm_u16le",
            long_name: "PCM Unsigned 16-bit Little-Endian Interleaved",
        },
        PcmCodec::U16Be => CodecDescriptor {
            codec,
            short_name: "pcm_u16be",
            long_name: "PCM Unsigned 16-bit Big-Endian Interleaved",
        },
        PcmCodec::U8 => CodecDescriptor {
            codec,
            short_name: "pcm_u8",
            long_name: "PCM Unsigned 8-bit Interleaved",
        },
        PcmCodec::F32Le => CodecDescriptor {
            codec,
            short_name: "pcm_f32le",
            long_name: "PCM 32-bit Little-Endian Floating Point Interleaved",
        },
        PcmCodec::F32Be => CodecDescriptor {
            codec,
            short_name: "pcm_f32be",
            long_name: "PCM 32-bit Big-Endian Floating Point Interleaved",
        },
        PcmCodec::F64Le => CodecDescriptor {
            codec,
            short_name: "pcm_f64le",
            long_name: "PCM 64-bit Little-Endian Floating Point Interleaved",
        },
        PcmCodec::F64Be => CodecDescriptor {
            codec,
            short_name: "pcm_f64be",
            long_name: "PCM 64-bit Big-Endian Floating Point Interleaved",
        },
        PcmCodec::ALaw => CodecDescriptor {
            codec,
            short_name: "pcm_alaw",
            long_name: "PCM A-law",
        },
        PcmCodec::MuLaw => CodecDescriptor {
            codec,
            short_name: "pcm_mulaw",
            long_name: "PCM Mu-law",
        },
    }
}

} // verus!
