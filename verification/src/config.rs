use vstd::prelude::*;

verus! {

/// An inclusive RGB colour box: a pixel is in it when each channel lies
/// between that channel's minimum and maximum.
#[derive(Debug, Clone, Copy, PartialEq, Eq)]
pub struct ColorRange {
    pub r_min: u8,
    pub r_max: u8,
    pub g_min: u8,
    pub g_max: u8,
    pub b_min: u8,
    pub b_max: u8,
}

/// The pixel `(r, g, b)` lies inside `target`.
pub open spec fn spec_in_range(pixel: (u8, u8, u8), target: ColorRange) -> bool {
    &&& target.r_min <= pixel.0 <= target.r_max
    &&& target.g_min <= pixel.1 <= target.g_max
    &&& target.b_min <= pixel.2 <= target.b_max
}

/// Whether the pixel's channels all lie within the colour box.
pub fn is_in_range(pixel: &(u8, u8, u8), target: &ColorRange) -> (res: bool)
    ensures
        res == spec_in_range(*pixel, *target),
{
    pixel.0 >= target.r_min && pixel.0 <= target.r_max && pixel.1 >= target.g_min
        && pixel.1 <= target.g_max && pixel.2 >= target.b_min && pixel.2 <= target.b_max
}

/// The gem's colours before calibration: a bright blue.
pub fn default_gem_color() -> (res: ColorRange)
    ensures
        res == (ColorRange { r_min: 0, r_max: 80, g_min: 100, g_max: 200, b_min: 180, b_max: 255 }),
{
    ColorRange { r_min: 0, r_max: 80, g_min: 100, g_max: 200, b_min: 180, b_max: 255 }
}

/// How often the confirmation page is polled by default, in milliseconds.
pub const DEFAULT_POLL_INTERVAL_MS: u64 = 500;

} // verus!
