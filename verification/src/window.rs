use crate::config::{is_in_range, spec_in_range, ColorRange};
use vstd::prelude::*;

verus! {

/// The most pixels that a gem check samples.
pub const SAMPLE_COUNT: usize = 5;

/// How many pixels must fall in the gem's colours for the gem to count as
/// shown.
pub const GEM_MATCHES_NEEDED: usize = 3;

/// The pixel whose BGRA bytes start at `i`, as `(r, g, b)`.
pub open spec fn pixel_at(data: Seq<u8>, i: int) -> (u8, u8, u8) {
    (data[i + 2], data[i + 1], data[i])
}

/// The pixels sampled from the `t`-th on: pixel `t` starts at byte
/// `4 * step * t`; sampling stops after five pixels or when a pixel no
/// longer fits in the data.
pub open spec fn samples_from(data: Seq<u8>, step: int, t: int) -> Seq<(u8, u8, u8)>
    decreases SAMPLE_COUNT - t,
{
    if t < 0 || t >= SAMPLE_COUNT || step < 1 || 4 * step * t + 3 >= data.len() {
        Seq::empty()
    } else {
        seq![pixel_at(data, 4 * step * t)] + samples_from(data, step, t + 1)
    }
}

/// The sampling step of a `w` by `h` capture: a fifth of its pixels, at
/// least one.
pub open spec fn sample_step(w: int, h: int) -> int {
    if w * h / 5 >= 1 {
        w * h / 5
    } else {
        1
    }
}

/// Samples up to five pixels, spread over the captured BGRA bytes of a
/// `w` by `h` region.
pub fn sample_pixels(data: &[u8], w: i32, h: i32) -> (res: Vec<(u8, u8, u8)>)
    requires
        1 <= w,
        1 <= h,
        w * h * 4 <= i32::MAX,
    ensures
        res@ == samples_from(data@, sample_step(w as int, h as int), 0),
{
    assert(w * h >= 1) by (nonlinear_arith)
        requires
            1 <= w,
            1 <= h,
    ;
    let area = w * h;
    let step: usize = if area / 5 >= 1 {
        (area / 5) as usize
    } else {
        1
    };
    let ghost st = step as int;
    assert(st == sample_step(w as int, h as int));
    assert(step * 20 <= i32::MAX) by (nonlinear_arith)
        requires
            step as int == sample_step(w as int, h as int),
            w * h * 4 <= i32::MAX,
            w * h >= 1,
    ;
    let mut pixels: Vec<(u8, u8, u8)> = Vec::new();
    let mut t: usize = 0;
    let n = data.len();
    loop
        invariant
            t <= SAMPLE_COUNT,
            st == step as int,
            step >= 1,
            step * 20 <= i32::MAX,
            n == data@.len(),
            samples_from(data@, st, 0) == pixels@ + samples_from(data@, st, t as int),
        ensures
            samples_from(data@, st, t as int) == Seq::<(u8, u8, u8)>::empty(),
            samples_from(data@, st, 0) == pixels@ + samples_from(data@, st, t as int),
        decreases SAMPLE_COUNT - t,
    {
        if t >= SAMPLE_COUNT {
            break;
        }
        assert(4 * step * t <= 16 * step) by (nonlinear_arith)
            requires
                t < 5,
                step >= 1,
        ;
        let i = 4 * step * t;
        if i + 3 >= n {
            break;
        }
        pixels.push((data[i + 2], data[i + 1], data[i]));
        assert(samples_from(data@, st, t as int) == seq![pixel_at(data@, i as int)] + samples_from(
            data@,
            st,
            t + 1,
        ));
        assert(pixels@.drop_last() + (seq![pixel_at(data@, i as int)] + samples_from(data@, st, t + 1))
            == pixels@ + samples_from(data@, st, t + 1));
        t = t + 1;
    }
    assert(pixels@ + Seq::<(u8, u8, u8)>::empty() == pixels@);
    pixels
}

/// How many of the pixels lie in the colour box.
pub open spec fn count_in_range(pixels: Seq<(u8, u8, u8)>, target: ColorRange) -> nat
    decreases pixels.len(),
{
    if pixels.len() == 0 {
        0
    } else {
        count_in_range(pixels.drop_last(), target) + if spec_in_range(pixels.last(), target) {
            1nat
        } else {
            0nat
        }
    }
}

/// The gem shows when at least three sampled pixels are in its colours.
pub fn gem_detected(pixels: &[(u8, u8, u8)], target: &ColorRange) -> (res: bool)
    ensures
        res == (count_in_range(pixels@, *target) >= GEM_MATCHES_NEEDED),
{
    let mut matches: usize = 0;
    let mut i: usize = 0;
    while i < pixels.len()
        invariant
            i <= pixels@.len(),
            matches <= i,
            matches == count_in_range(pixels@.take(i as int), *target),
        decreases pixels@.len() - i,
    {
        assert(pixels@.take(i + 1).drop_last() == pixels@.take(i as int));
        if is_in_range(&pixels[i], target) {
            matches = matches + 1;
        }
        i = i + 1;
    }
    assert(pixels@.take(pixels@.len() as int) == pixels@);
    matches >= GEM_MATCHES_NEEDED
}

} // verus!
