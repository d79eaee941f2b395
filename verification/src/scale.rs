//! The size of a thumbnail.

use vstd::prelude::*;
use vstd::arithmetic::div_mod::lemma_fundamental_div_mod;

verus! {

/// The edge, in pixels, that thumbnails are scaled to by default.
pub const THUMB_SIZE: u32 = 200;

/// The longer of the two sides.
pub open spec fn longer_side(width: u32, height: u32) -> u32 {
    if width >= height {
        width
    } else {
        height
    }
}

/// One side of a picture scaled by `max_dimension / longer`: rounded down,
/// but to no less than one pixel where the side has pixels and
/// `max_dimension` is not 0. A side without pixels scales to nothing.
pub open spec fn scaled_side(side: u32, longer: u32, max_dimension: u32) -> int {
    if longer == 0 {
        0
    } else if side > 0 && max_dimension > 0 && (side * max_dimension) / (longer as int) == 0 {
        1
    } else {
        (side * max_dimension) / (longer as int)
    }
}

/// The size that a `width` x `height` picture is resized to so that its
/// longer side becomes `max_dimension`.
pub open spec fn scaled_dimensions(width: u32, height: u32, max_dimension: u32) -> (int, int) {
    (
        scaled_side(width, longer_side(width, height), max_dimension),
        scaled_side(height, longer_side(width, height), max_dimension),
    )
}

/// A scaled side never exceeds `max_dimension`, the longer side reaches it
/// exactly, a side with pixels keeps at least one, and the rounding moves a
/// side by less than one pixel.
pub proof fn lemma_scaled_side(side: u32, longer: u32, max_dimension: u32)
    requires
        side <= longer,
    ensures
        0 <= scaled_side(side, longer, max_dimension) <= max_dimension,
        longer > 0 && side == longer ==> scaled_side(side, longer, max_dimension) == max_dimension,
        side > 0 && max_dimension > 0 ==> scaled_side(side, longer, max_dimension) >= 1,
        longer > 0 ==> -(longer as int) < scaled_side(side, longer, max_dimension) * longer - side
            * max_dimension < longer,
{
    if longer > 0 {
        let x: int = side * max_dimension;
        let d: int = longer as int;
        let q: int = x / d;
        lemma_fundamental_div_mod(x, d);
        assert(0 <= x) by (nonlinear_arith)
            requires
                x == side * max_dimension,
        ;
        assert(x <= d * max_dimension) by (nonlinear_arith)
            requires
                x == side * max_dimension,
                side <= d,
        ;
        assert(0 <= q <= max_dimension) by (nonlinear_arith)
            requires
                x == d * q + x % d,
                0 <= x % d < d,
                0 <= x <= d * max_dimension,
                d > 0,
        ;
        let scaled = scaled_side(side, longer, max_dimension);
        if scaled == q {
            assert(scaled * d == x - x % d) by (nonlinear_arith)
                requires
                    scaled == q,
                    x == d * q + x % d,
            ;
        } else {
            assert(scaled * d == d) by (nonlinear_arith)
                requires
                    scaled == 1,
            ;
        }
        if side == longer {
            assert(q == max_dimension) by (nonlinear_arith)
                requires
                    d * max_dimension == d * q + x % d,
                    0 <= x % d < d,
                    d > 0,
            ;
        }
        if side > 0 && max_dimension > 0 {
            assert(x >= 1) by (nonlinear_arith)
                requires
                    x == side * max_dimension,
                    side >= 1,
                    max_dimension >= 1,
            ;
        }
    }
}

/// Scaling keeps the aspect ratio within rounding: the cross products of the
/// old and the new sides differ by less than the longer old side.
pub proof fn lemma_aspect_ratio_kept(width: u32, height: u32, max_dimension: u32)
    ensures
        ({
            let (w, h) = scaled_dimensions(width, height, max_dimension);
            &&& -(longer_side(width, height) as int) < w * height - h * width
            &&& w * height - h * width < longer_side(width, height)
        }) || longer_side(width, height) == 0,
{
    let longer = longer_side(width, height);
    if longer > 0 {
        let (w, h) = scaled_dimensions(width, height, max_dimension);
        lemma_scaled_side(width, longer, max_dimension);
        lemma_scaled_side(height, longer, max_dimension);
        let l: int = longer as int;
        let m: int = max_dimension as int;
        let wi: int = width as int;
        let hi: int = height as int;
        let x: int = w * hi - h * wi;
        // The longer side is scaled exactly, so the cross products differ by
        // what the rounding moved the shorter side.
        if width >= height {
            assert(x * l == -((h * l - hi * m) * l)) by (nonlinear_arith)
                requires
                    x == w * hi - h * wi,
                    w == m,
                    wi == l,
            ;
            assert(x == -(h * l - hi * m)) by (nonlinear_arith)
                requires
                    x * l == -((h * l - hi * m) * l),
                    l > 0,
            ;
        } else {
            assert(x * l == (w * l - wi * m) * l) by (nonlinear_arith)
                requires
                    x == w * hi - h * wi,
                    h == m,
                    hi == l,
            ;
            assert(x == w * l - wi * m) by (nonlinear_arith)
                requires
                    x * l == (w * l - wi * m) * l,
                    l > 0,
            ;
        }
    }
}

/// One side of the size of a thumbnail.
fn scale_side(side: u32, longer: u32, max_dimension: u32) -> (scaled: u32)
    requires
        side <= longer,
        longer > 0,
    ensures
        scaled == scaled_side(side, longer, max_dimension),
{
    proof {
        lemma_scaled_side(side, longer, max_dimension);
    }
    assert(side as u64 * max_dimension as u64 <= u64::MAX) by (nonlinear_arith)
        requires
            side <= u32::MAX,
            max_dimension <= u32::MAX,
    ;
    let exact: u64 = (side as u64 * max_dimension as u64) / (longer as u64);
    if exact == 0 && side > 0 && max_dimension > 0 {
        1
    } else {
        exact as u32
    }
}

/// Computes the size of the thumbnail of a `width` x `height` picture: both
/// sides scaled by `max_dimension / longer side`, so that the longer side
/// becomes `max_dimension` and the shorter keeps the aspect ratio. The
/// shorter side is rounded down, but keeps one pixel.
pub fn thumbnail_dimensions(width: u32, height: u32, max_dimension: u32) -> (r: (u32, u32))
    ensures
        (r.0 as int, r.1 as int) == scaled_dimensions(width, height, max_dimension),
        r.0 <= max_dimension,
        r.1 <= max_dimension,
        longer_side(width, height) > 0 ==> longer_side(r.0, r.1) == max_dimension,
        width > 0 && max_dimension > 0 ==> r.0 >= 1,
        height > 0 && max_dimension > 0 ==> r.1 >= 1,
{
    let longer: u32 = if width >= height {
        width
    } else {
        height
    };
    proof {
        lemma_scaled_side(width, longer, max_dimension);
        lemma_scaled_side(height, longer, max_dimension);
    }
    if longer == 0 {
        return (0, 0);
    }
    (scale_side(width, longer, max_dimension), scale_side(height, longer, max_dimension))
}

} // verus!
