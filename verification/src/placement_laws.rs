//! What holds of every placement.

use vstd::prelude::*;

use crate::fit::Fit;
use crate::number::{max_of, min_of};
use crate::placement::{min_on_page, pt_per_mm, reference_dpi, PlacementModel};

verus! {

/// `a / b` is the number that gives `a` when it is multiplied by `b`.
proof fn lemma_over(a: real, b: real)
    requires
        b > 0 as real,
    ensures
        (a / b) * b == a,
        b * (a / b) == a,
{
    assert((a / b) * b == a) by (nonlinear_arith)
        requires
            b > 0 as real,
    ;
    let q = a / b;
    assert(b * q == q * b) by (nonlinear_arith);
}

/// Comparing with a quotient is comparing with its numerator.
proof fn lemma_compare_over(s: real, a: real, b: real)
    requires
        b > 0 as real,
    ensures
        s <= a / b <==> b * s <= a,
        s >= a / b <==> b * s >= a,
{
    let q = a / b;
    lemma_over(a, b);
    assert((s <= q <==> b * s <= b * q) && (s >= q <==> b * s >= b * q)) by (nonlinear_arith)
        requires
            b > 0 as real,
    ;
}

/// Pixels at 96 dpi, in points.
proof fn lemma_points_of_pixels(px: real)
    ensures
        (px * ((72 as real) / reference_dpi())) * reference_dpi() == px * (72 as real),
        px > 0 as real <==> px * ((72 as real) / reference_dpi()) > 0 as real,
{
    let r = reference_dpi();
    let k = (72 as real) / r;
    assert(k * r == 72 as real && k > 0 as real);
    assert((px * k) * r == px * (72 as real) && (px > 0 as real <==> px * k > 0 as real))
        by (nonlinear_arith)
        requires
            k * r == 72 as real,
            k > 0 as real,
    ;
}

/// The printable area is never empty, and inside a sheet that is larger than its margins it is
/// the sheet without them.
pub proof fn law_area(p: PlacementModel, page_w: real, page_h: real)
    ensures
        p.area(page_w, page_h).2 >= 1 as real,
        p.area(page_w, page_h).3 >= 1 as real,
        p.area(page_w, page_h).0 + p.area(page_w, page_h).2 + p.margin_mm * pt_per_mm() >= page_w,
        p.area(page_w, page_h).1 + p.area(page_w, page_h).3 + p.margin_mm * pt_per_mm() >= page_h,
        page_w >= (2 as real) * (p.margin_mm * pt_per_mm()) + (1 as real) ==> p.area(
            page_w,
            page_h,
        ).0 + p.area(page_w, page_h).2 + p.margin_mm * pt_per_mm() == page_w,
        page_h >= (2 as real) * (p.margin_mm * pt_per_mm()) + (1 as real) ==> p.area(
            page_w,
            page_h,
        ).1 + p.area(page_w, page_h).3 + p.margin_mm * pt_per_mm() == page_h,
{
}

/// `Fit::Page` is the largest size that fits entirely inside the margins.
pub proof fn law_page_is_the_largest_that_fits(
    p: PlacementModel,
    page_w: real,
    page_h: real,
    scale: real,
)
    requires
        p.has_extent(),
        p.fit == Fit::Page,
    ensures
        p.image_rect(page_w, page_h).2 <= p.area(page_w, page_h).2,
        p.image_rect(page_w, page_h).3 <= p.area(page_w, page_h).3,
        p.natural().0 * scale <= p.area(page_w, page_h).2 && p.natural().1 * scale <= p.area(
            page_w,
            page_h,
        ).3 ==> scale <= p.scale_for(page_w, page_h),
{
    let (nw, nh) = p.natural();
    let (_, _, aw, ah) = p.area(page_w, page_h);
    let s = p.scale_for(page_w, page_h);
    lemma_compare_over(s, aw, nw);
    lemma_compare_over(s, ah, nh);
    lemma_compare_over(scale, aw, nw);
    lemma_compare_over(scale, ah, nh);
}

/// `Fit::Fill` is the smallest size that covers the printable area.
pub proof fn law_fill_is_the_smallest_that_covers(
    p: PlacementModel,
    page_w: real,
    page_h: real,
    scale: real,
)
    requires
        p.has_extent(),
        p.fit == Fit::Fill,
    ensures
        p.image_rect(page_w, page_h).2 >= p.area(page_w, page_h).2,
        p.image_rect(page_w, page_h).3 >= p.area(page_w, page_h).3,
        p.natural().0 * scale >= p.area(page_w, page_h).2 && p.natural().1 * scale >= p.area(
            page_w,
            page_h,
        ).3 ==> scale >= p.scale_for(page_w, page_h),
{
    let (nw, nh) = p.natural();
    let (_, _, aw, ah) = p.area(page_w, page_h);
    let s = p.scale_for(page_w, page_h);
    lemma_compare_over(s, aw, nw);
    lemma_compare_over(s, ah, nh);
    lemma_compare_over(scale, aw, nw);
    lemma_compare_over(scale, ah, nh);
}

/// Fitting and filling both make one side of the image as long as that side of the area.
pub proof fn law_one_side_binds(p: PlacementModel, page_w: real, page_h: real)
    requires
        p.has_extent(),
        p.fit == Fit::Page || p.fit == Fit::Fill,
    ensures
        p.image_rect(page_w, page_h).2 == p.area(page_w, page_h).2 || p.image_rect(
            page_w,
            page_h,
        ).3 == p.area(page_w, page_h).3,
{
    let (nw, nh) = p.natural();
    let (_, _, aw, ah) = p.area(page_w, page_h);
    lemma_over(aw, nw);
    lemma_over(ah, nh);
}

/// `Fit::Actual` prints 96 pixels to the inch of 72 points.
pub proof fn law_actual_is_the_size_on_screen(p: PlacementModel, page_w: real, page_h: real)
    requires
        p.fit == Fit::Actual,
    ensures
        p.image_rect(page_w, page_h).2 * reference_dpi() == (if p.rotate {
            p.image_px.1
        } else {
            p.image_px.0
        }) * (72 as real),
        p.image_rect(page_w, page_h).3 * reference_dpi() == (if p.rotate {
            p.image_px.0
        } else {
            p.image_px.1
        }) * (72 as real),
{
    let (nw, nh) = p.natural();
    assert(nw * (1 as real) == nw) by (nonlinear_arith);
    assert(nh * (1 as real) == nh) by (nonlinear_arith);
    lemma_points_of_pixels(p.image_px.0);
    lemma_points_of_pixels(p.image_px.1);
}

/// `Fit::Custom` follows the scale field.
pub proof fn law_custom_follows_the_scale(p: PlacementModel, page_w: real, page_h: real)
    requires
        p.fit == Fit::Custom,
        p.has_extent(),
    ensures
        p.image_rect(page_w, page_h).2 == p.natural().0 * p.scale,
        p.image_rect(page_w, page_h).3 == p.natural().1 * p.scale,
{
}

/// No mode distorts the image: on paper its sides relate as its pixels do.
pub proof fn law_aspect_ratio_is_kept(p: PlacementModel, page_w: real, page_h: real)
    ensures
        p.rotate ==> p.image_rect(page_w, page_h).2 * p.image_px.0 == p.image_rect(
            page_w,
            page_h,
        ).3 * p.image_px.1,
        !p.rotate ==> p.image_rect(page_w, page_h).2 * p.image_px.1 == p.image_rect(
            page_w,
            page_h,
        ).3 * p.image_px.0,
{
    let (a, b) = p.image_px;
    let s = p.scale_for(page_w, page_h);
    let k = (72 as real) / reference_dpi();
    assert(((a * k) * s) * b == ((b * k) * s) * a) by (nonlinear_arith);
}

/// The position has no say in the size.
pub proof fn law_size_does_not_depend_on_position(
    p: PlacementModel,
    q: PlacementModel,
    page_w: real,
    page_h: real,
)
    requires
        p == (PlacementModel { offset: p.offset, align: p.align, ..q }),
    ensures
        p.scale_for(page_w, page_h) == q.scale_for(page_w, page_h),
        p.image_rect(page_w, page_h).2 == q.image_rect(page_w, page_h).2,
        p.image_rect(page_w, page_h).3 == q.image_rect(page_w, page_h).3,
{
}

/// An explicit offset wins over the anchor.
pub proof fn law_offset_wins(p: PlacementModel, page_w: real, page_h: real, x: real, y: real)
    requires
        p.offset == Some((x, y)),
    ensures
        p.image_rect(page_w, page_h).0 == x,
        p.image_rect(page_w, page_h).1 == y,
{
}

/// An anchored image touches the start of the printable area at 0, the end of it at 1, and at
/// 1/2 what is left of the area is split evenly.
pub proof fn law_anchors(p: PlacementModel, page_w: real, page_h: real)
    requires
        p.offset is None,
    ensures
        ({
            let (x, y, w, h) = p.image_rect(page_w, page_h);
            let (ax, ay, aw, ah) = p.area(page_w, page_h);
            let half = (1 as real) / (2 as real);
            &&& p.align.0 == 0 as real ==> x == ax
            &&& p.align.1 == 0 as real ==> y == ay
            &&& p.align.0 == half ==> x - ax == (ax + aw) - (x + w)
            &&& p.align.1 == half ==> y - ay == (ay + ah) - (y + h)
            &&& p.align.0 == 1 as real ==> x + w == ax + aw
            &&& p.align.1 == 1 as real ==> y + h == ay + ah
        }),
{
    let (x, y, w, h) = p.image_rect(page_w, page_h);
    let (ax, ay, aw, ah) = p.area(page_w, page_h);
    let (a, b) = p.align;
    let g = aw - w;
    let k = ah - h;
    assert(g * (0 as real) == 0 as real && g * (1 as real) == g) by (nonlinear_arith);
    assert(k * (0 as real) == 0 as real && k * (1 as real) == k) by (nonlinear_arith);
    assert(a + a == 1 as real ==> g * a + g * a == g) by (nonlinear_arith);
    assert(b + b == 1 as real ==> k * b + k * b == k) by (nonlinear_arith);
}

proof fn lemma_fraction_of(g: real, a: real)
    requires
        0 as real <= a,
        a <= 1 as real,
    ensures
        g >= 0 as real ==> 0 as real <= g * a && g * a <= g,
        g <= 0 as real ==> g <= g * a && g * a <= 0 as real,
{
    assert(g >= 0 as real ==> 0 as real <= g * a && g * a <= g) by (nonlinear_arith)
        requires
            0 as real <= a,
            a <= 1 as real,
    ;
    assert(g <= 0 as real ==> g <= g * a && g * a <= 0 as real) by (nonlinear_arith)
        requires
            0 as real <= a,
            a <= 1 as real,
    ;
}

/// Anchored anywhere, a fitted image lies inside the printable area and a filling one covers it.
pub proof fn law_anchored_inside_or_over_the_area(p: PlacementModel, page_w: real, page_h: real)
    requires
        p.offset is None,
        p.has_extent(),
        0 as real <= p.align.0 && p.align.0 <= 1 as real,
        0 as real <= p.align.1 && p.align.1 <= 1 as real,
    ensures
        ({
            let (x, y, w, h) = p.image_rect(page_w, page_h);
            let (ax, ay, aw, ah) = p.area(page_w, page_h);
            &&& p.fit == Fit::Page ==> ax <= x && x + w <= ax + aw && ay <= y && y + h <= ay + ah
            &&& p.fit == Fit::Fill ==> x <= ax && ax + aw <= x + w && y <= ay && ay + ah <= y + h
        }),
{
    let (x, y, w, h) = p.image_rect(page_w, page_h);
    let (ax, ay, aw, ah) = p.area(page_w, page_h);
    if p.fit == Fit::Page {
        law_page_is_the_largest_that_fits(p, page_w, page_h, 0 as real);
    } else if p.fit == Fit::Fill {
        law_fill_is_the_smallest_that_covers(p, page_w, page_h, 0 as real);
    }
    lemma_fraction_of(aw - w, p.align.0);
    lemma_fraction_of(ah - h, p.align.1);
}

/// Clamping moves the image and changes nothing else of it.
pub proof fn law_clamping_only_moves(p: PlacementModel, page_w: real, page_h: real)
    ensures
        p.clamped(page_w, page_h) == (PlacementModel {
            offset: p.clamped(page_w, page_h).offset,
            ..p
        }),
        p.offset is None <==> p.clamped(page_w, page_h).offset is None,
        p.clamped(page_w, page_h).image_rect(page_w, page_h).2 == p.image_rect(page_w, page_h).2,
        p.clamped(page_w, page_h).image_rect(page_w, page_h).3 == p.image_rect(page_w, page_h).3,
{
}

/// A dragged image reaches far enough onto the sheet: its far edges are 20 points past the near
/// edges of the sheet, and its near edges 20 points before the far ones, wherever image and
/// sheet together are that long.
pub open spec fn on_sheet(p: PlacementModel, page_w: real, page_h: real) -> bool {
    let (x, y, w, h) = p.image_rect(page_w, page_h);
    p.offset is Some ==> {
        &&& x + w >= min_on_page()
        &&& y + h >= min_on_page()
        &&& x <= max_of(page_w - min_on_page(), min_on_page() - w)
        &&& y <= max_of(page_h - min_on_page(), min_on_page() - h)
    }
}

/// Clamping keeps a dragged image on the sheet.
pub proof fn law_clamping_keeps_on_sheet(p: PlacementModel, page_w: real, page_h: real)
    ensures
        on_sheet(p.clamped(page_w, page_h), page_w, page_h),
{
}

/// Of a dragged image on the sheet, 20 points can be seen along each axis, or as much as image
/// and sheet have. Only where both are shorter than that need they not meet.
pub proof fn law_on_sheet_is_visible(p: PlacementModel, page_w: real, page_h: real)
    requires
        p.offset is Some,
        on_sheet(p, page_w, page_h),
    ensures
        ({
            let (x, y, w, h) = p.image_rect(page_w, page_h);
            &&& page_w >= min_on_page() || w >= min_on_page() ==> min_of(x + w, page_w) - max_of(
                x,
                0 as real,
            ) >= min_of(min_on_page(), min_of(w, page_w))
            &&& page_h >= min_on_page() || h >= min_on_page() ==> min_of(y + h, page_h) - max_of(
                y,
                0 as real,
            ) >= min_of(min_on_page(), min_of(h, page_h))
        }),
{
}

/// An image that is on the sheet stays where it is, so clamping twice is clamping once.
pub proof fn law_clamping_leaves_what_is_on_sheet(p: PlacementModel, page_w: real, page_h: real)
    ensures
        on_sheet(p, page_w, page_h) ==> p.clamped(page_w, page_h) == p,
        p.clamped(page_w, page_h).clamped(page_w, page_h) == p.clamped(page_w, page_h),
{
}

/// The resolution is 96 dpi at 100 % and falls as the scale rises: half the size packs the same
/// pixels into half the paper. Rotation plays no part in it, for the side that is measured is
/// the one that runs across the page. What has no width on paper has no resolution.
pub proof fn law_effective_dpi(p: PlacementModel, page_w: real, page_h: real)
    ensures
        p.image_rect(page_w, page_h).2 > 0 as real ==> {
            &&& p.effective_dpi(page_w, page_h) == reference_dpi() / p.scale_for(page_w, page_h)
            &&& p.effective_dpi(page_w, page_h) * p.scale_for(page_w, page_h) == reference_dpi()
            &&& p.fit == Fit::Actual ==> p.effective_dpi(page_w, page_h) == reference_dpi()
        },
        p.image_rect(page_w, page_h).2 <= 0 as real ==> p.effective_dpi(page_w, page_h)
            == 0 as real,
{
    if p.image_rect(page_w, page_h).2 > 0 as real {
        lemma_effective_dpi(p, page_w, page_h);
    }
}

proof fn lemma_effective_dpi(p: PlacementModel, page_w: real, page_h: real)
    requires
        p.image_rect(page_w, page_h).2 > 0 as real,
    ensures
        p.effective_dpi(page_w, page_h) == reference_dpi() / p.scale_for(page_w, page_h),
        p.effective_dpi(page_w, page_h) * p.scale_for(page_w, page_h) == reference_dpi(),
        p.fit == Fit::Actual ==> p.effective_dpi(page_w, page_h) == reference_dpi(),
{
    let s = p.scale_for(page_w, page_h);
    let (_, _, w, _) = p.image_rect(page_w, page_h);
    let px = if p.rotate {
        p.image_px.1
    } else {
        p.image_px.0
    };
    let k = (72 as real) / reference_dpi();
    lemma_points_of_pixels(px);
    let n = px * k;
    assert(w == n * s);
    if p.has_extent() {
        assert(s > 0 as real) by (nonlinear_arith)
            requires
                w == n * s,
                w > 0 as real,
                n > 0 as real,
        ;
    } else {
        assert(n * (1 as real) == n) by (nonlinear_arith);
    }
    let inches = w / (72 as real);
    let d = px / inches;
    lemma_over(px, inches);
    assert(inches * reference_dpi() == px * s) by (nonlinear_arith)
        requires
            inches * (72 as real) == w,
            w == (px * k) * s,
            k * reference_dpi() == 72 as real,
    ;
    let r = reference_dpi();
    assert(d * s == r) by (nonlinear_arith)
        requires
            d * inches == px,
            inches * r == px * s,
            px > 0 as real,
            inches > 0 as real,
    ;
    assert(d == r / s) by (nonlinear_arith)
        requires
            d * s == r,
            s > 0 as real,
    ;
    assert(d * (1 as real) == d) by (nonlinear_arith);
}

/// A quarter turn swaps the sides of the image: on a sheet that is turned with it the image
/// lands at the same place, turned.
pub proof fn law_rotation_swaps_the_sides(p: PlacementModel, page_w: real, page_h: real)
    ensures
        ({
            let turned = PlacementModel {
                rotate: !p.rotate,
                align: (p.align.1, p.align.0),
                offset: match p.offset {
                    Some((x, y)) => Some((y, x)),
                    None => None,
                },
                ..p
            };
            let (x, y, w, h) = p.image_rect(page_w, page_h);
            &&& turned.natural() == (p.natural().1, p.natural().0)
            &&& turned.scale_for(page_h, page_w) == p.scale_for(page_w, page_h)
            &&& turned.image_rect(page_h, page_w) == (y, x, h, w)
        }),
{
}

/// An image that is wider than high prints at least as large on a sheet turned to landscape.
pub proof fn law_landscape_prints_a_wide_image_larger(
    p: PlacementModel,
    page_w: real,
    page_h: real,
)
    requires
        p.has_extent(),
        p.fit == Fit::Page,
        p.natural().0 >= p.natural().1,
        page_w <= page_h,
    ensures
        p.scale_for(page_h, page_w) >= p.scale_for(page_w, page_h),
        p.image_rect(page_h, page_w).2 >= p.image_rect(page_w, page_h).2,
        p.image_rect(page_h, page_w).3 >= p.image_rect(page_w, page_h).3,
{
    let (nw, nh) = p.natural();
    let (_, _, aw, ah) = p.area(page_w, page_h);
    let s = p.scale_for(page_w, page_h);
    let t = p.scale_for(page_h, page_w);
    lemma_compare_over(s, aw, nw);
    lemma_compare_over(s, ah, nh);
    lemma_compare_over(s, ah, nw);
    lemma_compare_over(s, aw, nh);
    lemma_compare_over(0 as real, aw, nw);
    lemma_compare_over(0 as real, ah, nh);
    assert(nh * s <= nw * s) by (nonlinear_arith)
        requires
            nh <= nw,
            s >= 0 as real,
    ;
    assert(nw * t >= nw * s && nh * t >= nh * s) by (nonlinear_arith)
        requires
            t >= s,
            nw > 0 as real,
            nh > 0 as real,
    ;
}

/// An inch is 25.4 millimeters and 72 points, the screen has 96 pixels to it, and 20 points of a
/// dragged image stay on the sheet.
pub proof fn law_units()
    ensures
        pt_per_mm() * ((254 as real) / (10 as real)) == 72 as real,
        reference_dpi() == 96 as real,
        min_on_page() == 20 as real,
{
}

/// The printable area lies as far inside every edge of the sheet as the margin says, in points.
/// Where the margins leave less than a point between them, that point is the area.
pub proof fn law_area_keeps_the_margins(p: PlacementModel, page_w: real, page_h: real)
    ensures
        ({
            let (x, y, w, h) = p.area(page_w, page_h);
            let margin = p.margin_mm * (720 as real) / (254 as real);
            &&& x == margin
            &&& y == margin
            &&& page_w - margin - margin >= 1 as real ==> page_w - (x + w) == margin
            &&& page_h - margin - margin >= 1 as real ==> page_h - (y + h) == margin
            &&& page_w - margin - margin < 1 as real ==> w == 1 as real
            &&& page_h - margin - margin < 1 as real ==> h == 1 as real
        }),
{
    let (m, k) = (p.margin_mm, pt_per_mm());
    assert(m * k == m * (720 as real) / (254 as real)) by (nonlinear_arith)
        requires
            k * (127 as real) == 360 as real,
    ;
}

/// At 100 % the image has 72 points to 96 pixels; turned, its height runs across the page and
/// its width down it. It has an extent where it has pixels both ways.
pub proof fn law_natural_size(p: PlacementModel)
    ensures
        ({
            let (across, down) = if p.rotate {
                (p.image_px.1, p.image_px.0)
            } else {
                p.image_px
            };
            &&& p.natural().0 * (96 as real) == across * (72 as real)
            &&& p.natural().1 * (96 as real) == down * (72 as real)
        }),
        p.has_extent() <==> p.image_px.0 > 0 as real && p.image_px.1 > 0 as real,
{
    lemma_points_of_pixels(p.image_px.0);
    lemma_points_of_pixels(p.image_px.1);
}

/// The size of the image in every mode. Fitted, it stays within the printable area and reaches
/// it one way; filling, it covers the area and goes no further than it one way; else it has its
/// own size times one, or times the scale that was set. Without extent the scale is one.
pub proof fn law_size_in_every_mode(p: PlacementModel, page_w: real, page_h: real)
    ensures
        ({
            let (_, _, w, h) = p.image_rect(page_w, page_h);
            let (_, _, aw, ah) = p.area(page_w, page_h);
            let (nw, nh) = p.natural();
            let s = p.scale_for(page_w, page_h);
            let (px, py) = p.image_px;
            &&& w == nw * s
            &&& h == nh * s
            &&& px <= 0 as real || py <= 0 as real ==> s == 1 as real
            &&& px > 0 as real && py > 0 as real ==> match p.fit {
                Fit::Page => w <= aw && h <= ah && (w == aw || h == ah),
                Fit::Fill => w >= aw && h >= ah && (w == aw || h == ah),
                Fit::Actual => s == 1 as real,
                Fit::Custom => s == p.scale,
            }
        }),
{
    law_natural_size(p);
    if p.has_extent() {
        if p.fit == Fit::Page {
            law_page_is_the_largest_that_fits(p, page_w, page_h, 0 as real);
            law_one_side_binds(p, page_w, page_h);
        } else if p.fit == Fit::Fill {
            law_fill_is_the_smallest_that_covers(p, page_w, page_h, 0 as real);
            law_one_side_binds(p, page_w, page_h);
        }
    }
}

/// The alignment says how what is left of the printable area is split between the two sides of
/// an anchored image: that many parts before it, and the rest of one behind it.
pub proof fn law_alignment_splits_what_is_left(p: PlacementModel, page_w: real, page_h: real)
    requires
        p.offset is None,
    ensures
        ({
            let (x, y, w, h) = p.image_rect(page_w, page_h);
            let (ax, ay, aw, ah) = p.area(page_w, page_h);
            let (a, b) = p.align;
            &&& (x - ax) * ((1 as real) - a) == ((ax + aw) - (x + w)) * a
            &&& (y - ay) * ((1 as real) - b) == ((ay + ah) - (y + h)) * b
        }),
{
    let (_, _, w, h) = p.image_rect(page_w, page_h);
    let (_, _, aw, ah) = p.area(page_w, page_h);
    lemma_split(aw - w, p.align.0);
    lemma_split(ah - h, p.align.1);
    lemma_alignment_in_parts(p, page_w, page_h);
}

proof fn lemma_split(g: real, a: real)
    ensures
        (g * a) * ((1 as real) - a) == (g - g * a) * a,
{
    assert((g * a) * ((1 as real) - a) == (g - g * a) * a) by (nonlinear_arith);
}

proof fn lemma_alignment_in_parts(p: PlacementModel, page_w: real, page_h: real)
    requires
        p.offset is None,
    ensures
        ({
            let (x, y, w, h) = p.image_rect(page_w, page_h);
            let (ax, ay, aw, ah) = p.area(page_w, page_h);
            &&& x - ax == (aw - w) * p.align.0
            &&& (ax + aw) - (x + w) == (aw - w) - (aw - w) * p.align.0
            &&& y - ay == (ah - h) * p.align.1
            &&& (ay + ah) - (y + h) == (ah - h) - (ah - h) * p.align.1
        }),
{
}

/// Whether an edge that was at `from` is at `to` after it was pulled back, for an image of the
/// length `extent` on a page of the length `page`: it stays where at least 20 points of the image
/// are on the page, and otherwise goes to the nearest place where they are. On a page too short
/// for that, the far edge of the image is 20 points in.
pub open spec fn edge_pulled_back(from: real, to: real, extent: real, page: real) -> bool {
    let low = (20 as real) - extent;
    let high = if page - (20 as real) < low {
        low
    } else {
        page - (20 as real)
    };
    &&& low <= from && from <= high ==> to == from
    &&& from < low ==> to == low
    &&& from > high ==> to == high
}

/// Whether an image of the given size that was at `from` is at `to` after it was pulled back onto
/// the page. An anchored image has no place to be pulled back from.
pub open spec fn is_pulled_back(
    from: Option<(real, real)>,
    to: Option<(real, real)>,
    size: (real, real),
    page: (real, real),
) -> bool {
    match (from, to) {
        (None, None) => true,
        (Some((x, y)), Some((a, b))) => {
            &&& edge_pulled_back(x, a, size.0, page.0)
            &&& edge_pulled_back(y, b, size.1, page.1)
        },
        _ => false,
    }
}

/// Clamping pulls a dragged image back to the nearest place on the sheet and changes nothing else
/// of it.
pub proof fn law_clamping_pulls_back(p: PlacementModel, page_w: real, page_h: real)
    ensures
        ({
            let next = p.clamped(page_w, page_h);
            let (_, _, w, h) = p.image_rect(page_w, page_h);
            &&& next == (PlacementModel { offset: next.offset, ..p })
            &&& is_pulled_back(p.offset, next.offset, (w, h), (page_w, page_h))
        }),
{
}

/// Smaller print, more dots: at every scale the same pixels lie on as many inches as the printed
/// width has 72 points.
pub proof fn law_dots_times_inches_are_pixels(p: PlacementModel, page_w: real, page_h: real)
    requires
        p.image_rect(page_w, page_h).2 > 0 as real,
    ensures
        ({
            let inches = p.image_rect(page_w, page_h).2 / (72 as real);
            p.effective_dpi(page_w, page_h) * inches == if p.rotate {
                p.image_px.1
            } else {
                p.image_px.0
            }
        }),
{
    let w = p.image_rect(page_w, page_h).2;
    let inches = w / (72 as real);
    lemma_over(
        if p.rotate {
            p.image_px.1
        } else {
            p.image_px.0
        },
        inches,
    );
}

} // verus!
