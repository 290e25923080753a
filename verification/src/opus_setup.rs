//! What an Opus decoder accepts of a track's parameters.

use vstd::prelude::*;

verus! {

/// The channel arrangements that the decoder handles.
#[derive(Clone, Copy, Debug, PartialEq, Eq, Structural)]
pub enum OpusChannels {
    Mono,
    Stereo,
}

/// Why no decoder can be made for a track.
#[derive(Clone, Copy, Debug, PartialEq, Eq, Structural)]
pub enum OpusSetupError {
    /// The track carries no codec header.
    MissingExtraData,
    /// The track has neither one nor two channels.
    UnsupportedChannels,
    /// The track is not sampled at 48 kHz.
    UnsupportedSampleRate,
}

/// The sample rate that the decoder works at.
pub const OPUS_SAMPLE_RATE: u32 = 48000;

/// The outcome of the checks on a track's parameters, made in this order:
/// the codec header is there, the channels are one or two, the rate is 48 kHz.
pub open spec fn setup_outcome(
    has_extra_data: bool,
    channel_count: Option<usize>,
    sample_rate: Option<u32>,
) -> Result<OpusChannels, OpusSetupError> {
    if !has_extra_data {
        Err(OpusSetupError::MissingExtraData)
    } else if channel_count != Some(1usize) && channel_count != Some(2usize) {
        Err(OpusSetupError::UnsupportedChannels)
    } else if sample_rate != Some(OPUS_SAMPLE_RATE) {
        Err(OpusSetupError::UnsupportedSampleRate)
    } else if channel_count == Some(1usize) {
        Ok(OpusChannels::Mono)
    } else {
        Ok(OpusChannels::Stereo)
    }
}

/// Checks a track's parameters and picks the channel arrangement.
pub fn opus_setup(
    has_extra_data: bool,
    channel_count: Option<usize>,
    sample_rate: Option<u32>,
) -> (r: Result<OpusChannels, OpusSetupError>)
    ensures
        r == setup_outcome(has_extra_data, channel_count, sample_rate),
{
    if !has_extra_data {
        return Err(OpusSetupError::MissingExtraData);
    }
    let channels: OpusChannels = match channel_count {
        Some(1) => OpusChannels::Mono,
        Some(2) => OpusChannels::Stereo,
        _ => {
            return Err(OpusSetupError::UnsupportedChannels);
        },
    };
    match sample_rate {
        Some(rate) => {
            if rate != OPUS_SAMPLE_RATE {
                return Err(OpusSetupError::UnsupportedSampleRate);
            }
        },
        None => {
            return Err(OpusSetupError::UnsupportedSampleRate);
        },
    }
    Ok(channels)
}

} // verus!
