//! The copies of the image that are printed and previewed.

use vstd::prelude::*;

verus! {

/// The preview redraws on every option change; resampling a full 4K screenshot each time is
/// wasted work, so it draws from a copy capped at this edge length. The printed image is always
/// the full one.
pub const PREVIEW_MAX_EDGE: i32 = 1600;

/// White, fully opaque, as red, green, blue and alpha bytes.
pub const PAPER_WHITE: u32 = 0xffff_ffff;

pub open spec fn longest_edge(width: int, height: int) -> int {
    if width < height {
        height
    } else {
        width
    }
}

/// One edge of the preview copy: the edge in proportion to the longest one, to the nearest
/// pixel, and never less than a pixel.
pub open spec fn preview_edge(edge: int, longest: int) -> int {
    let exact = ((edge * PREVIEW_MAX_EDGE) as real) / (longest as real);
    let nearest = (exact + (1 as real) / (2 as real)).floor();
    if nearest < 1 {
        1
    } else {
        nearest
    }
}

fn preview_edge_of(edge: i32, longest: i32) -> (res: i32)
    requires
        edge <= longest,
        PREVIEW_MAX_EDGE < longest,
    ensures
        res == preview_edge(edge as int, longest as int),
{
    if edge < 1 {
        proof {
            let e = (edge * PREVIEW_MAX_EDGE) as real;
            let l = longest as real;
            let exact = e / l;
            assert(exact <= 0 as real) by (nonlinear_arith)
                requires
                    exact == e / l,
                    e <= 0 as real,
                    l > 0 as real,
            ;
        }
        return 1;
    }
    let twice: i64 = 2 * (longest as i64);
    let sum: i64 = 2 * (edge as i64) * (PREVIEW_MAX_EDGE as i64) + longest as i64;
    let nearest: i64 = sum / twice;
    proof {
        lemma_nearest(edge as int, longest as int);
        assert(nearest <= PREVIEW_MAX_EDGE) by (nonlinear_arith)
            requires
                nearest == sum / twice,
                twice == 2 * longest,
                sum == 2 * edge * 1600 + longest,
                edge <= longest,
                longest > 0,
                PREVIEW_MAX_EDGE == 1600,
        ;
    }
    if nearest < 1 {
        1
    } else {
        nearest as i32
    }
}

/// Rounding to the nearest integer by dividing integers.
proof fn lemma_nearest(edge: int, longest: int)
    requires
        longest > 0,
    ensures
        (((edge * PREVIEW_MAX_EDGE) as real) / (longest as real) + (1 as real) / (2 as real)).floor()
            == (2 * edge * (PREVIEW_MAX_EDGE as int) + longest) / (2 * longest),
{
    let n = edge * PREVIEW_MAX_EDGE;
    let sum = 2 * n + longest;
    let q = sum / (2 * longest);
    vstd::arithmetic::div_mod::lemma_fundamental_div_mod(sum, 2 * longest);
    let rest = sum % (2 * longest);
    let (a, l, f, r) = (n as real, longest as real, q as real, rest as real);
    let exact = a / l;
    let half = (1 as real) / (2 as real);
    assert((2 * longest * q) as real == (2 as real) * l * f) by (nonlinear_arith)
        requires
            l == longest as real,
            f == q as real,
    ;
    assert((2 as real) * a + l == (2 as real) * l * f + r);
    assert(f <= exact + half && exact + half < f + (1 as real)) by (nonlinear_arith)
        requires
            exact == a / l,
            half + half == 1 as real,
            (2 as real) * a + l == (2 as real) * l * f + r,
            r >= 0 as real,
            r < (2 as real) * l,
            l > 0 as real,
    ;
}

/// The size of the preview copy, where there is one.
pub open spec fn preview_size(width: int, height: int) -> Option<(int, int)> {
    let longest = longest_edge(width, height);
    if longest <= PREVIEW_MAX_EDGE {
        None
    } else {
        Some((preview_edge(width, longest), preview_edge(height, longest)))
    }
}

/// The size of the preview copy of an image; `None` where the image itself is small enough.
pub fn preview_copy(width: i32, height: i32) -> (res: Option<(i32, i32)>)
    ensures
        preview_size(width as int, height as int) == match res {
            Some((w, h)) => Some((w as int, h as int)),
            None => None,
        },
        ({
            let longest = longest_edge(width as int, height as int);
            &&& res is None <==> longest <= PREVIEW_MAX_EDGE
            &&& res matches Some((w, h)) ==> w == preview_edge(width as int, longest) && h
                == preview_edge(height as int, longest)
        }),
{
    let longest: i32 = if width < height { height } else { width };
    if longest <= PREVIEW_MAX_EDGE {
        return None;
    }
    Some((preview_edge_of(width, longest), preview_edge_of(height, longest)))
}

/// The longest edge of a preview copy is as long as it may be, the other is no longer, and no
/// edge vanishes.
pub proof fn law_preview_copy_is_capped(width: int, height: int)
    requires
        longest_edge(width, height) > PREVIEW_MAX_EDGE,
    ensures
        ({
            let longest = longest_edge(width, height);
            let (w, h) = (preview_edge(width, longest), preview_edge(height, longest));
            &&& 1 <= w <= PREVIEW_MAX_EDGE
            &&& 1 <= h <= PREVIEW_MAX_EDGE
            &&& width == longest ==> w == PREVIEW_MAX_EDGE
            &&& height == longest ==> h == PREVIEW_MAX_EDGE
        }),
{
    let longest = longest_edge(width, height);
    lemma_edge_capped(width, longest);
    lemma_edge_capped(height, longest);
}

proof fn lemma_edge_capped(edge: int, longest: int)
    requires
        edge <= longest,
        longest > PREVIEW_MAX_EDGE,
    ensures
        1 <= preview_edge(edge, longest) <= PREVIEW_MAX_EDGE,
        edge == longest ==> preview_edge(edge, longest) == PREVIEW_MAX_EDGE,
{
    let e = (edge * PREVIEW_MAX_EDGE) as real;
    let l = longest as real;
    let exact = e / l;
    assert(e <= l * (1600 as real));
    assert(exact <= 1600 as real && (e == l * (1600 as real) ==> exact == 1600 as real))
        by (nonlinear_arith)
        requires
            exact == e / l,
            e <= l * (1600 as real),
            l > 0 as real,
    ;
}

/// The copy keeps the proportions to half a pixel, wherever an edge does not vanish.
pub proof fn law_preview_copy_keeps_proportions(edge: int, longest: int)
    requires
        0 < edge <= longest,
        longest > PREVIEW_MAX_EDGE,
        2 * edge * PREVIEW_MAX_EDGE >= longest,
    ensures
        2 * preview_edge(edge, longest) * longest <= 2 * edge * PREVIEW_MAX_EDGE + longest,
        2 * preview_edge(edge, longest) * longest >= 2 * edge * PREVIEW_MAX_EDGE - longest,
{
    lemma_nearest(edge, longest);
    let sum = 2 * edge * (PREVIEW_MAX_EDGE as int) + longest;
    let q = sum / (2 * longest);
    vstd::arithmetic::div_mod::lemma_fundamental_div_mod(sum, 2 * longest);
    assert(q >= 1) by (nonlinear_arith)
        requires
            q == sum / (2 * longest),
            sum >= 2 * longest,
            longest > 0,
    ;
    assert(2 * longest * q == 2 * q * longest) by (nonlinear_arith);
}

/// How an image is composited onto an opaque copy of its own size.
#[derive(Clone, Copy, PartialEq, Eq, Structural, Debug)]
pub struct Flattening {
    pub width: i32,
    pub height: i32,
    /// What the copy is filled with first.
    pub fill: u32,
    /// The opacity at which the image is laid over it, of 255.
    pub opacity: i32,
}

/// How an image is laid on white, where it has to be.
pub open spec fn flattening_of(has_alpha: bool, width: i32, height: i32) -> Option<Flattening> {
    if has_alpha {
        Some(Flattening { width, height, fill: PAPER_WHITE, opacity: 255 })
    } else {
        None
    }
}

/// Paper is white, and print backends vary in how they handle an alpha channel; compositing onto
/// white keeps that out of the job entirely. `None` where the image has no alpha channel and is
/// printed as it is.
pub fn flatten_on_white(has_alpha: bool, width: i32, height: i32) -> (res: Option<Flattening>)
    ensures
        res == flattening_of(has_alpha, width, height),
        res == if has_alpha {
            Some(Flattening { width, height, fill: PAPER_WHITE, opacity: 255 })
        } else {
            None
        },
{
    if !has_alpha {
        return None;
    }
    Some(Flattening { width, height, fill: PAPER_WHITE, opacity: 255 })
}

/// The longest edge is one of the two, and neither is longer.
pub proof fn law_longest_edge(width: int, height: int)
    ensures
        longest_edge(width, height) >= width && longest_edge(width, height) >= height,
        longest_edge(width, height) == width || longest_edge(width, height) == height,
{
}

/// Each edge of the copy relates to the image as 1600 pixels do to its longest edge, rounded to
/// the nearest pixel and up from the middle. Where that leaves no pixel, there is one.
pub proof fn law_preview_edge_is_the_nearest(edge: int, longest: int)
    requires
        edge <= longest,
        longest > 1600,
    ensures
        ({
            let e = preview_edge(edge, longest);
            &&& 2 * edge * 1600 < longest ==> e == 1
            &&& 2 * edge * 1600 >= longest ==> {
                &&& e >= 1
                &&& 2 * e * longest <= 2 * edge * 1600 + longest
                &&& 2 * e * longest > 2 * edge * 1600 - longest
            }
        }),
{
    lemma_nearest(edge, longest);
    let sum = 2 * edge * (PREVIEW_MAX_EDGE as int) + longest;
    let q = sum / (2 * longest);
    vstd::arithmetic::div_mod::lemma_fundamental_div_mod(sum, 2 * longest);
    if 2 * edge * 1600 < longest {
        assert(q < 1) by (nonlinear_arith)
            requires
                q == sum / (2 * longest),
                sum < 2 * longest,
                longest > 0,
        ;
    } else {
        assert(q >= 1) by (nonlinear_arith)
            requires
                q == sum / (2 * longest),
                sum >= 2 * longest,
                longest > 0,
        ;
        assert(2 * longest * q == 2 * q * longest) by (nonlinear_arith);
    }
}

/// Paper is white: all four bytes are full.
pub proof fn law_paper_is_white()
    ensures
        PAPER_WHITE == 255 * 0x100_0000 + 255 * 0x1_0000 + 255 * 0x100 + 255,
{
}

/// An image is copied for the preview where an edge is longer than 1600 pixels, and only there.
/// The longest edge of the copy has 1600 then, and each other one as many as keep the proportions
/// to the nearest pixel, but at least one.
pub proof fn law_preview_copy_of_large_images(width: int, height: int)
    ensures
        ({
            let copy = preview_size(width, height);
            &&& copy is None <==> width <= 1600 && height <= 1600
            &&& copy matches Some((w, h)) ==> {
                &&& 1 <= w <= 1600 && 1 <= h <= 1600
                &&& width >= height ==> w == 1600 && is_nearest_edge(h, height, width)
                &&& height >= width ==> h == 1600 && is_nearest_edge(w, width, height)
            }
        }),
{
    let longest = longest_edge(width, height);
    if longest > 1600 {
        law_preview_copy_is_capped(width, height);
        law_preview_edge_is_the_nearest(width, longest);
        law_preview_edge_is_the_nearest(height, longest);
    }
}

/// Whether `e` pixels are to 1600 as `edge` is to `longest`, to the nearest pixel and at least
/// one.
pub open spec fn is_nearest_edge(e: int, edge: int, longest: int) -> bool {
    if 2 * edge * 1600 < longest {
        e == 1
    } else {
        2 * edge * 1600 - longest < 2 * e * longest <= 2 * edge * 1600 + longest
    }
}

/// A transparent image is laid fully opaque over white of its own size, and no other is.
pub proof fn law_flattening_keeps_size_and_colors(has_alpha: bool, width: i32, height: i32)
    ensures
        flattening_of(has_alpha, width, height) is Some <==> has_alpha,
        flattening_of(has_alpha, width, height) matches Some(plan) ==> {
            &&& plan.width == width
            &&& plan.height == height
            &&& plan.fill == 0xffff_ffff
            &&& plan.opacity == 255
        },
{
}

} // verus!
