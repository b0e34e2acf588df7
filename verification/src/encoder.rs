//! The configuration of the encoder, derived once from what the input reports.

use vstd::prelude::*;
use crate::error::ErrorKind;
use crate::source::PixelFormat;
use crate::source::SourceInfo;
use crate::timing::Rational;
use crate::timing::frame_rate_or_default;
use crate::timing::nominal_rate;

verus! {

/// The bit rate that the encoder aims at where none is asked for: one megabit
/// per second.
pub const DEFAULT_BIT_RATE: u64 = 1_000_000;

/// How the encoder is set up. One configuration serves one output stream.
#[derive(Clone, Copy, Debug, PartialEq, Eq, Structural)]
pub struct EncoderConfig {
    pub width: u32,
    pub height: u32,
    pub pixel_format: PixelFormat,
    pub aspect_ratio: Rational,
    pub frame_rate: Rational,
    /// The length of one tick of a timestamp: the reciprocal of the frame rate.
    pub time_base: Rational,
    /// The greatest number of frames in a row that are predicted from frames on
    /// both sides. It is zero: packets leave the encoder in the order in which
    /// the frames went in, and each is decoded when it is shown.
    pub max_b_frames: u32,
    /// Whether the codec's setup data goes into the container's header.
    pub global_header: bool,
    /// The target bit rate in bits per second.
    pub bit_rate: u64,
}

/// The input can be composited: its pictures are in planar YUV 4:2:0, with an
/// even width and an even height.
pub open spec fn supported(source: SourceInfo) -> bool {
    source.pixel_format == PixelFormat::Yuv420p && source.width % 2 == 0 && source.height % 2 == 0
}

/// The configuration that mirrors a source: its geometry, pixel format and
/// aspect ratio, its frame rate or 30 frames per second, the reciprocal of
/// that rate as time base, no reordered frames, a global header, and the bit
/// rate asked for or the default.
pub open spec fn config_for(source: SourceInfo, bit_rate: Option<u64>) -> EncoderConfig {
    EncoderConfig {
        width: source.width,
        height: source.height,
        pixel_format: source.pixel_format,
        aspect_ratio: source.aspect_ratio,
        frame_rate: nominal_rate(source.frame_rate),
        time_base: nominal_rate(source.frame_rate).inverse(),
        max_b_frames: 0,
        global_header: true,
        bit_rate: match bit_rate {
            Some(rate) => rate,
            None => DEFAULT_BIT_RATE,
        },
    }
}

/// Derives the encoder's configuration from the source. Fails with
/// `CodecError` where the source's pictures are not in planar YUV 4:2:0 with
/// an even width and height: no conversion is made.
pub fn configure(source: &SourceInfo, bit_rate: Option<u64>) -> (r: Result<
    EncoderConfig,
    ErrorKind,
>)
    ensures
        r == (if supported(*source) {
            Ok::<EncoderConfig, ErrorKind>(config_for(*source, bit_rate))
        } else {
            Err::<EncoderConfig, ErrorKind>(ErrorKind::CodecError)
        }),
        r matches Ok(config) ==> config.time_base.positive() && config.frame_rate.positive()
            && config.max_b_frames == 0,
{
    let is_yuv420p = match source.pixel_format {
        PixelFormat::Yuv420p => true,
        PixelFormat::Other => false,
    };
    if !is_yuv420p || source.width % 2 != 0 || source.height % 2 != 0 {
        return Err(ErrorKind::CodecError);
    }
    let frame_rate = frame_rate_or_default(source.frame_rate);
    Ok(
        EncoderConfig {
            width: source.width,
            height: source.height,
            pixel_format: source.pixel_format,
            aspect_ratio: source.aspect_ratio,
            frame_rate,
            time_base: frame_rate.reciprocal(),
            max_b_frames: 0,
            global_header: true,
            bit_rate: match bit_rate {
                Some(rate) => rate,
                None => DEFAULT_BIT_RATE,
            },
        },
    )
}

} // verus!
