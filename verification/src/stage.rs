//! Setup arithmetic and decisions for the video and audio stages: the
//! downscale target that never upscales, the declared-frame-rate sanity
//! check, the output sample formats the audio stage accepts, and the
//! terminal-fit gate that holds playback until the terminal is large
//! enough.

use vstd::prelude::*;
use crate::round_div;
use crate::lemma_round_div_le;

verus! {

/// Frame rate substituted when a stream declares none, or declares a
/// corrupt value.
pub const DEFAULT_FRAME_RATE: i32 = 24;

/// Highest declared frame rate still taken at face value; anything above
/// is treated as corrupt metadata.
pub const FRAME_RATE_SANITY_BOUND: i32 = 1000;

/// The frame rate a stream is played or encoded at: the declared rational's
/// numerator, unless it is absent or exceeds the sanity bound.
pub open spec fn effective_fps_of(declared: Option<i32>) -> int {
    match declared {
        Option::None => DEFAULT_FRAME_RATE as int,
        Option::Some(n) => if n > FRAME_RATE_SANITY_BOUND {
            DEFAULT_FRAME_RATE as int
        } else {
            n as int
        },
    }
}

/// The frame rate used for a stream that declares the given rational
/// numerator, with the default substituted for absent or corrupt metadata.
pub fn effective_fps(declared: Option<i32>) -> (fps: i32)
    ensures
        fps == effective_fps_of(declared),
{
    match declared {
        None => DEFAULT_FRAME_RATE,
        Some(n) => if n > FRAME_RATE_SANITY_BOUND {
            DEFAULT_FRAME_RATE
        } else {
            n
        },
    }
}

/// The scale target for a native frame size under an optional maximum
/// width: unchanged when it already fits, else clamped to the maximum with
/// the height scaled by the same factor, rounded to the nearest integer.
pub open spec fn scaled_dims_of(native_w: u32, native_h: u32, max_width: Option<u32>) -> (
    int,
    int,
) {
    match max_width {
        Option::None => (native_w as int, native_h as int),
        Option::Some(mw) => if native_w <= mw {
            (native_w as int, native_h as int)
        } else {
            (mw as int, round_div(native_h as int * mw as int, native_w as int))
        },
    }
}

/// Compute the scale-stage target size: aspect ratio preserved, and never
/// an upscale.
pub fn scaled_dims(native_w: u32, native_h: u32, max_width: Option<u32>) -> (dims: (u32, u32))
    ensures
        (dims.0 as int, dims.1 as int) == scaled_dims_of(native_w, native_h, max_width),
        dims.0 <= native_w,
        dims.1 <= native_h,
        match max_width {
            Option::None => dims == (native_w, native_h),
            Option::Some(mw) => native_w <= mw ==> dims == (native_w, native_h),
        },
{
    match max_width {
        None => (native_w, native_h),
        Some(mw) => {
            if native_w <= mw {
                (native_w, native_h)
            } else {
                proof {
                    assert(native_h as int * mw as int <= native_h as int * native_w as int)
                        by (nonlinear_arith)
                        requires
                            mw <= native_w,
                            native_h >= 0,
                    ;
                    lemma_round_div_le(
                        native_h as int * mw as int,
                        native_w as int,
                        native_h as int,
                    );
                    assert(native_h as int * mw as int <= 0xffff_ffff_ffff_ffff)
                        by (nonlinear_arith)
                        requires
                            native_h <= u32::MAX,
                            mw <= u32::MAX,
                    ;
                }
                let n: u128 = native_h as u128 * mw as u128;
                let h: u128 = (2 * n + native_w as u128) / (2 * native_w as u128);
                (mw, h as u32)
            }
        },
    }
}

/// Sample formats an output audio device may negotiate, as far as the
/// pipeline tells them apart.
#[derive(Debug, Clone, Copy, PartialEq, Eq, Structural)]
pub enum SampleFormat {
    /// Signed 16-bit integer samples.
    I16,
    /// 32-bit floating-point samples.
    F32,
    /// Any other negotiated format.
    Unsupported,
}

/// Packed sample layouts the resampler can be asked to produce.
#[derive(Debug, Clone, Copy, PartialEq, Eq, Structural)]
pub enum ResampleFormat {
    /// Interleaved signed 16-bit integer samples.
    PackedI16,
    /// Interleaved 32-bit floating-point samples.
    PackedF32,
}

/// Fatal audio configuration errors.
#[derive(Debug, Clone, Copy, PartialEq, Eq, Structural)]
pub enum AudioConfigError {
    /// The device negotiated a sample format the pipeline cannot produce.
    UnsupportedSampleFormat,
}

/// The resampler output layout for a device sample format; a format the
/// resampler cannot produce is refused.
pub fn resample_format_for(format: SampleFormat) -> (r: Result<ResampleFormat, AudioConfigError>)
    ensures
        format == SampleFormat::I16 ==> r == Ok::<ResampleFormat, AudioConfigError>(
            ResampleFormat::PackedI16,
        ),
        format == SampleFormat::F32 ==> r == Ok::<ResampleFormat, AudioConfigError>(
            ResampleFormat::PackedF32,
        ),
        format == SampleFormat::Unsupported ==> r == Err::<ResampleFormat, AudioConfigError>(
            AudioConfigError::UnsupportedSampleFormat,
        ),
{
    match format {
        SampleFormat::I16 => Ok(ResampleFormat::PackedI16),
        SampleFormat::F32 => Ok(ResampleFormat::PackedF32),
        SampleFormat::Unsupported => Err(AudioConfigError::UnsupportedSampleFormat),
    }
}

/// Whether the audio stage may start for a negotiated device format: only
/// floating-point interleaved output is supported, anything else is a fatal
/// configuration error, refused before any sample is resampled.
pub fn validate_playback_format(format: SampleFormat) -> (r: Result<(), AudioConfigError>)
    ensures
        r is Ok <==> format == SampleFormat::F32,
        r is Err ==> r == Err::<(), AudioConfigError>(AudioConfigError::UnsupportedSampleFormat),
{
    match format {
        SampleFormat::F32 => Ok(()),
        _ => Err(AudioConfigError::UnsupportedSampleFormat),
    }
}

/// What the terminal-fit gate does after one poll.
#[derive(Debug, Clone, Copy, PartialEq, Eq, Structural)]
pub enum GateAction {
    /// The terminal is large enough: start playback.
    Proceed,
    /// The terminal is too small: report the shortfall and poll again
    /// after a delay.
    Wait,
    /// The dimensions cannot be determined at all: report once and proceed
    /// without waiting.
    ProceedDegraded,
}

/// What the terminal-fit gate does for one set of polled dimensions.
pub open spec fn gate_action_of(
    dims: Option<(usize, usize)>,
    min_width: usize,
    min_height: usize,
) -> GateAction {
    match dims {
        Option::None => GateAction::ProceedDegraded,
        Option::Some(d) => if d.0 < min_width || d.1 < min_height {
            GateAction::Wait
        } else {
            GateAction::Proceed
        },
    }
}

/// Decide what the terminal-fit gate does, given the dimensions one poll
/// returned.
pub fn gate_step(dims: Option<(usize, usize)>, min_width: usize, min_height: usize) -> (a:
    GateAction)
    ensures
        a == gate_action_of(dims, min_width, min_height),
{
    match dims {
        None => GateAction::ProceedDegraded,
        Some((w, h)) => {
            if w < min_width || h < min_height {
                GateAction::Wait
            } else {
                GateAction::Proceed
            }
        },
    }
}

/// Relies on term_size::dimensions: reads the current terminal size from
/// the environment, or nothing when it cannot be determined.  Nothing can
/// be promised of the result.
#[verifier::external_body]
fn terminal_dimensions() -> Option<(usize, usize)> {
    term_size::dimensions()
}

/// Poll the terminal once and decide whether playback may start: whatever
/// dimensions came back, the returned action is exactly the terminal-fit
/// rule applied to them.  The caller sleeps and polls again while the action is `Wait`.
pub fn poll_terminal_gate(min_width: usize, min_height: usize) -> (r: (
    Option<(usize, usize)>,
    GateAction,
))
    ensures
        r.1 == gate_action_of(r.0, min_width, min_height),
{
    let dims = terminal_dimensions();
    let action = gate_step(dims, min_width, min_height);
    (dims, action)
}

} // verus!
