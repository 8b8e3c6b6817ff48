use vstd::prelude::*;

verus! {

/// Highest frame rate the Star Rail and Wuthering Waves settings accept.
pub const CAPPED_FPS: u32 = 120;

/// Requests at or above this make Honkai Impact 3rd fall back to its
/// built-in pair of limits.
pub const HI3_FALLBACK_FROM: u32 = 300;

/// Honkai Impact 3rd's in-level limit in the fallback.
pub const HI3_FALLBACK_IN_LEVEL: u32 = 60;

/// Honkai Impact 3rd's limit elsewhere in the fallback.
pub const HI3_FALLBACK_OTHERS: u32 = 600;

/// The frame rate to store for a request, where the setting tops out at
/// `CAPPED_FPS`.
pub fn capped_fps(target_fps: u32) -> (r: u32)
    ensures
        r == if target_fps >= CAPPED_FPS { CAPPED_FPS } else { target_fps },
{
    if target_fps >= CAPPED_FPS { CAPPED_FPS } else { target_fps }
}

/// Honkai Impact 3rd's in-level and other limits for a request.
pub fn hi3_limits(target_fps: u32) -> (r: (u32, u32))
    ensures
        target_fps >= HI3_FALLBACK_FROM ==> r == (HI3_FALLBACK_IN_LEVEL, HI3_FALLBACK_OTHERS),
        target_fps < HI3_FALLBACK_FROM ==> r == (target_fps, target_fps),
{
    if target_fps >= HI3_FALLBACK_FROM {
        (HI3_FALLBACK_IN_LEVEL, HI3_FALLBACK_OTHERS)
    } else {
        (target_fps, target_fps)
    }
}

} // verus!
