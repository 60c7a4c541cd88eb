use vstd::prelude::*;

use crate::timing::{round_div, rounded_div, Framerate};

verus! {

/// Playlist time stamps count periods of a 45 kHz clock.
pub const PLAYLIST_CLOCK_HZ: i128 = 45000;

/// The number of video frames that a play item from `in_time` to `out_time`
/// (in 45 kHz periods) spans at frame rate `rate`, rounded to the nearest
/// frame; none where the rate has no positive denominator or a negative
/// numerator, or the count does not fit an `i32`.
pub open spec fn spec_expected_video_frames(in_time: u32, out_time: u32, rate: Framerate) -> Option<
    i32,
> {
    if rate.denominator <= 0 || rate.numerator < 0 {
        None
    } else {
        let n = round_div(
            (out_time - in_time) * rate.numerator,
            PLAYLIST_CLOCK_HZ * rate.denominator,
        );
        if i32::MIN <= n <= i32::MAX {
            Some(n as i32)
        } else {
            None
        }
    }
}

pub fn expected_video_frames(in_time: u32, out_time: u32, rate: Framerate) -> (r: Option<i32>)
    ensures
        r == spec_expected_video_frames(in_time, out_time, rate),
{
    if rate.denominator <= 0 || rate.numerator < 0 {
        return None;
    }
    let span: i128 = out_time as i128 - in_time as i128;
    proof {
        assert(-0x1_0000_0000 * 0x8000_0000 <= span * rate.numerator <= 0x1_0000_0000 * 0x8000_0000) by (
        nonlinear_arith)
            requires
                -0x1_0000_0000 <= span <= 0x1_0000_0000,
                0 <= rate.numerator <= 0x7fff_ffff,
        ;
    }
    let n = rounded_div(span * rate.numerator as i128, PLAYLIST_CLOCK_HZ * rate.denominator as i128);
    if n < i32::MIN as i128 || n > i32::MAX as i128 {
        None
    } else {
        Some(n as i32)
    }
}

} // verus!
