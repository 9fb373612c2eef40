use vstd::prelude::*;
use crate::escape::CalcResult;
use crate::math::clamp;

verus! {

/// An 8-bit-per-channel RGB colour.
#[derive(Debug, PartialEq, Eq, Structural, Clone, Copy)]
pub struct Color {
    pub red: u8,
    pub green: u8,
    pub blue: u8,
}

/// Black, the colour of every point that never escapes.
pub open spec fn black() -> Color {
    Color { red: 0, green: 0, blue: 0 }
}

/// Position of escape index `index` on the three-band ramp, in whole steps of
/// 0 to 765: `3 * 255 * index / max_iterations`, rounded down.
pub open spec fn ramp_position(index: int, max_iterations: int) -> int {
    (765 * index) / max_iterations
}

/// The part of `t` that falls in the band starting at `offset`, limited to a
/// channel's range of 0 to 255.
pub open spec fn band(t: int, offset: int) -> int {
    if t - offset < 0 {
        0
    } else if t - offset > 255 {
        255
    } else {
        t - offset
    }
}

/// The banded-linear colour of escape index `index`: red fills first, then
/// green, then blue, as the index climbs towards `max_iterations`.
pub open spec fn banded(index: int, max_iterations: int) -> Color {
    let t = ramp_position(index, max_iterations);
    Color { red: band(t, 0) as u8, green: band(t, 255) as u8, blue: band(t, 510) as u8 }
}

/// The colour of a classification under the banded-linear map.
pub open spec fn result_color(result: CalcResult, max_iterations: int) -> Color {
    match result {
        CalcResult::Bounded => black(),
        CalcResult::BailedOut(i) => banded(i as int, max_iterations),
    }
}

/// Maps escape index `index` onto the banded black-red-yellow-white ramp.
pub fn rgb_from_index(index: u16, max_iters: u16) -> (c: Color)
    requires
        index < max_iters,
    ensures
        c == banded(index as int, max_iters as int),
{
    let t: i64 = (765 * index as i64) / max_iters as i64;
    let red = clamp(t, 0, 255);
    let green = clamp(t - 255, 0, 255);
    let blue = clamp(t - 510, 0, 255);
    Color { red: red as u8, green: green as u8, blue: blue as u8 }
}

/// Colours one classification: black inside the set, the banded ramp outside.
pub fn color_from_result(result: CalcResult, max_iters: u16) -> (c: Color)
    requires
        result.within_budget(max_iters),
    ensures
        c == result_color(result, max_iters as int),
        result == CalcResult::Bounded ==> c == black(),
{
    match result {
        CalcResult::Bounded => Color { red: 0, green: 0, blue: 0 },
        CalcResult::BailedOut(i) => rgb_from_index(i, max_iters),
    }
}

/// A colour as one display word: red in bits 16 to 23, green in bits 8 to
/// 15, blue in bits 0 to 7.
pub open spec fn packed(c: Color) -> int {
    c.red * 65536 + c.green * 256 + c.blue
}

/// Packs a colour into the `0RGB` word a frame buffer holds per pixel.
pub fn pack_rgb(c: Color) -> (w: u32)
    ensures
        w == packed(c),
{
    let r = c.red as u32;
    let g = c.green as u32;
    let b = c.blue as u32;
    assert((r << 16u32) | (g << 8u32) | b == r * 65536 + g * 256 + b) by (bit_vector)
        requires
            r < 256,
            g < 256,
            b < 256,
    ;
    (r << 16u32) | (g << 8u32) | b
}

/// The ends of the banded ramp: the first escape index is black, and the last
/// index of a budget of three or more has red and green full and blue short
/// of full by `765 / max_iterations` rounded up, so that blue nears 255 as the
/// budget grows and never passes it.
pub proof fn lemma_banded_ends(max_iterations: int)
    requires
        max_iterations >= 1,
    ensures
        banded(0, max_iterations) == black(),
        max_iterations >= 3 ==> {
            let c = banded(max_iterations - 1, max_iterations);
            &&& c.red == 255
            &&& c.green == 255
            &&& c.blue == 255 - (765 + max_iterations - 1) / max_iterations
            &&& c.blue <= 255
        },
{
    let m = max_iterations;
    assert(ramp_position(0, m) == 0);
    if m >= 3 {
        let t = ramp_position(m - 1, m);
        let q = (765 + m - 1) / m;
        assert(t == 765 - q) by (nonlinear_arith)
            requires
                t == (765 * (m - 1)) / m,
                q == (765 + m - 1) / m,
                m >= 3,
        ;
        assert(1 <= q <= 255) by (nonlinear_arith)
            requires
                q == (765 + m - 1) / m,
                m >= 3,
        ;
    }
}

} // verus!
