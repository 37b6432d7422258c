//! Two beings side by side: what one gives, the other reads as reciprocity.
use vstd::prelude::*;
use crate::q88::{clamp_int, sat16};

verus! {

/// Warmth given (raw Q8.8) read by the partner as a reciprocation rate:
/// twice what was given, in [0, 1], so a generous hand (~0.5 given) is felt
/// as full reciprocity.
pub fn rate_from_gave(gave: i16) -> (r: i16)
    ensures
        r == clamp_int(sat16(2 * gave) as int, 0, 256),
        0 <= r <= 256,
{
    let twice: i32 = 2 * (gave as i32);
    let s: i16 = if twice > i16::MAX as i32 {
        i16::MAX
    } else if twice < i16::MIN as i32 {
        i16::MIN
    } else {
        twice as i16
    };
    if s < 0 {
        0
    } else if s > 256 {
        256
    } else {
        s
    }
}

} // verus!
