//! The image on its page, and the page in the preview.

use vstd::prelude::*;

use crate::dialog::{EventModel, Ui, UiModel};
use crate::dialog_laws::law_dragging_follows_the_pointer;
use crate::fit::Fit;
use crate::number::{max_of, min_of, Number};
use crate::painting::{
    draw_image, image_steps, is_visible, law_image_is_painted_once, law_pixels_land_in_place, put,
    to_page, transform_steps, PaintModel, PaintOp,
};
use crate::placement::{Placement, PlacementModel};
use crate::placement_laws::{law_area_keeps_the_margins, on_sheet};
use crate::sheet::LayoutModel;

verus! {

impl PlacementModel {
    /// The steps that paint the image on a page of the given size. An image that fills the page
    /// is clipped to the printable area.
    pub open spec fn page_steps(
        self,
        page_w: real,
        page_h: real,
        image_w: real,
        image_h: real,
    ) -> Seq<PaintModel> {
        image_steps(
            image_w,
            image_h,
            self.image_rect(page_w, page_h),
            self.rotate,
            if self.fit == Fit::Fill {
                Some(self.area(page_w, page_h))
            } else {
                None
            },
        )
    }
}

impl Placement {
    /// Paint an image of the given size in pixels on a page of the given size in points.
    pub fn draw_on_page(
        &self,
        ops: &mut Vec<PaintOp>,
        page_w: &Number,
        page_h: &Number,
        image_w: i32,
        image_h: i32,
    )
        ensures
            final(ops).deep_view() == old(ops).deep_view() + self@.page_steps(
                page_w@,
                page_h@,
                image_w as real,
                image_h as real,
            ),
    {
        let place = self.image_rect(page_w, page_h);
        let clip = if self.fit == Fit::Fill { Some(self.area(page_w, page_h)) } else { None };
        draw_image(ops, image_w, image_h, place, self.rotate, clip);
    }
}

/// The space that is left free on each side of the sheet, in widget coordinates.
pub open spec fn preview_pad() -> real {
    20 as real
}

/// What a widget leaves for the sheet on one axis.
pub open spec fn available(extent: real) -> real {
    max_of(extent - (2 as real) * preview_pad(), 1 as real)
}

/// Where the sheet lies in the preview: its origin in widget coordinates and its scale.
pub open spec fn preview_view(page: (real, real), width: real, height: real) -> (real, real, real) {
    let scale = min_of(available(width) / page.0, available(height) / page.1);
    (
        (width - page.0 * scale) / (2 as real),
        (height - page.1 * scale) / (2 as real),
        scale,
    )
}

pub open spec fn hundredths(n: int) -> real {
    (n as real) / (100 as real)
}

/// The sheet: a soft drop shadow, then white paper. Paper is white in either theme - it is
/// paper, not a UI surface.
pub open spec fn paper_steps(page: (real, real), view: (real, real, real)) -> Seq<PaintModel> {
    let scale = view.2;
    let none = 0 as real;
    let full = 1 as real;
    seq![
        PaintModel::Save,
        PaintModel::Translate(view.0, view.1),
        PaintModel::Scale(scale, scale),
        PaintModel::SourceColor(none, none, none, hundredths(18)),
        PaintModel::Rectangle((3 as real) / scale, (3 as real) / scale, page.0, page.1),
        PaintModel::Fill,
        PaintModel::SourceColor(full, full, full, full),
        PaintModel::Rectangle(none, none, page.0, page.1),
        PaintModel::Fill,
    ]
}

/// The printable area as a dashed frame, and the edge of the sheet.
pub open spec fn frame_steps(
    page: (real, real),
    area: (real, real, real, real),
    scale: real,
) -> Seq<PaintModel> {
    let none = 0 as real;
    seq![
        PaintModel::LineWidth((1 as real) / scale),
        PaintModel::Dash((5 as real) / scale, (4 as real) / scale),
        PaintModel::SourceColor(hundredths(25), hundredths(50), hundredths(95), hundredths(70)),
        PaintModel::Rectangle(area.0, area.1, area.2, area.3),
        PaintModel::Stroke,
        PaintModel::NoDash,
        PaintModel::SourceColor(none, none, none, hundredths(45)),
        PaintModel::Rectangle(none, none, page.0, page.1),
        PaintModel::Stroke,
        PaintModel::Restore,
    ]
}

impl LayoutModel {
    /// The steps that paint the preview into a widget of the given size.
    pub open spec fn preview_steps(
        self,
        width: real,
        height: real,
        image_w: real,
        image_h: real,
    ) -> Seq<PaintModel> {
        let page = self.page_size();
        let view = preview_view(page, width, height);
        paper_steps(page, view) + self.image.page_steps(page.0, page.1, image_w, image_h)
            + frame_steps(page, self.area(), view.2)
    }
}

fn hundredths_of(n: i64) -> (res: Number)
    ensures
        res@ == hundredths(n as int),
{
    Number::ratio(n, 100)
}

/// What a widget leaves for the sheet on one axis.
fn available_of(extent: &Number) -> (res: Number)
    ensures
        res@ == available(extent@),
{
    let pad = Number::from_int(20);
    extent.minus(&Number::from_int(2).times(&pad)).larger(&Number::from_int(1))
}

/// Paint the empty sheet and leave the coordinates of the page in effect.
fn draw_paper(ops: &mut Vec<PaintOp>, page: &(Number, Number), view: &(Number, Number, Number))
    requires
        view.2@ > 0 as real,
    ensures
        final(ops).deep_view() == old(ops).deep_view() + paper_steps(page@, view@),
{
    let scale = &view.2;
    put(ops, PaintOp::Save);
    put(ops, PaintOp::Translate(view.0.clone(), view.1.clone()));
    put(ops, PaintOp::Scale(scale.clone(), scale.clone()));
    let shadow = Number::from_int(3).over(scale);
    put(
        ops,
        PaintOp::SourceColor(
            Number::from_int(0),
            Number::from_int(0),
            Number::from_int(0),
            hundredths_of(18),
        ),
    );
    put(
        ops,
        PaintOp::Rectangle(shadow.clone(), shadow, page.0.clone(), page.1.clone()),
    );
    put(ops, PaintOp::Fill);
    put(
        ops,
        PaintOp::SourceColor(
            Number::from_int(1),
            Number::from_int(1),
            Number::from_int(1),
            Number::from_int(1),
        ),
    );
    put(
        ops,
        PaintOp::Rectangle(
            Number::from_int(0),
            Number::from_int(0),
            page.0.clone(),
            page.1.clone(),
        ),
    );
    put(ops, PaintOp::Fill);
    assert(ops.deep_view() =~= old(ops).deep_view() + paper_steps(page@, view@));
}

/// Paint the frames of the printable area and of the sheet, and leave the page coordinates.
fn draw_frames(
    ops: &mut Vec<PaintOp>,
    page: &(Number, Number),
    area: (Number, Number, Number, Number),
    scale: &Number,
)
    requires
        scale@ > 0 as real,
    ensures
        final(ops).deep_view() == old(ops).deep_view() + frame_steps(page@, area@, scale@),
{
    put(ops, PaintOp::LineWidth(Number::from_int(1).over(scale)));
    put(ops, PaintOp::Dash(Number::from_int(5).over(scale), Number::from_int(4).over(scale)));
    put(
        ops,
        PaintOp::SourceColor(
            hundredths_of(25),
            hundredths_of(50),
            hundredths_of(95),
            hundredths_of(70),
        ),
    );
    let (ax, ay, aw, ah) = area;
    put(ops, PaintOp::Rectangle(ax, ay, aw, ah));
    put(ops, PaintOp::Stroke);
    put(ops, PaintOp::NoDash);
    put(
        ops,
        PaintOp::SourceColor(
            Number::from_int(0),
            Number::from_int(0),
            Number::from_int(0),
            hundredths_of(45),
        ),
    );
    put(
        ops,
        PaintOp::Rectangle(
            Number::from_int(0),
            Number::from_int(0),
            page.0.clone(),
            page.1.clone(),
        ),
    );
    put(ops, PaintOp::Stroke);
    put(ops, PaintOp::Restore);
    assert(ops.deep_view() =~= old(ops).deep_view() + frame_steps(page@, area@, scale@));
}

impl UiModel {
    /// The state after the preview was painted into a widget of the given size, and the steps
    /// that painted it. A sheet without extent is not painted.
    pub open spec fn previewed(
        self,
        width: real,
        height: real,
        image_w: real,
        image_h: real,
    ) -> (UiModel, Seq<PaintModel>) {
        let page = self.layout.page_size();
        if page.0 <= 0 as real || page.1 <= 0 as real {
            (self, Seq::empty())
        } else {
            (
                UiModel { view: preview_view(page, width, height), ..self },
                self.layout.preview_steps(width, height, image_w, image_h),
            )
        }
    }
}

impl Ui {
    /// Paint the preview into a widget of the given size, with an image of the given size in
    /// pixels, and remember where the sheet lies in it. A sheet without extent is not painted.
    pub fn draw_preview(&mut self, width: i32, height: i32, image_w: i32, image_h: i32) -> (res:
        Vec<PaintOp>)
        ensures
            (final(self)@, res.deep_view()) == old(self)@.previewed(
                width as real,
                height as real,
                image_w as real,
                image_h as real,
            ),
            ({
                let layout = old(self)@.layout;
                let page = layout.page_size();
                let (w, h) = (width as real, height as real);
                if page.0 <= 0 as real || page.1 <= 0 as real {
                    &&& final(self)@ == old(self)@
                    &&& res.deep_view() == Seq::<PaintModel>::empty()
                } else {
                    &&& final(self)@ == (UiModel {
                        view: preview_view(page, w, h),
                        ..old(self)@
                    })
                    &&& res.deep_view() == layout.preview_steps(
                        w,
                        h,
                        image_w as real,
                        image_h as real,
                    )
                }
            }),
    {
        let mut ops: Vec<PaintOp> = Vec::new();
        assert(ops.deep_view() =~= Seq::<PaintModel>::empty());
        let page = self.layout.page_size();
        if !page.0.is_positive() || !page.1.is_positive() {
            return ops;
        }
        let extent_w = Number::from_int(width as i64);
        let extent_h = Number::from_int(height as i64);
        let scale = available_of(&extent_w).over(&page.0).smaller(
            &available_of(&extent_h).over(&page.1),
        );
        proof {
            law_preview_scale_is_positive(page@, width as real, height as real);
        }
        let two = Number::from_int(2);
        let origin_x = extent_w.minus(&page.0.times(&scale)).over(&two);
        let origin_y = extent_h.minus(&page.1.times(&scale)).over(&two);
        let view = (origin_x, origin_y, scale);
        draw_paper(&mut ops, &page, &view);
        self.layout.image.draw_on_page(&mut ops, &page.0, &page.1, image_w, image_h);
        let area = self.layout.image.area(&page.0, &page.1);
        draw_frames(&mut ops, &page, area, &view.2);
        self.view = view;
        assert(ops.deep_view() =~= self@.layout.preview_steps(
            width as real,
            height as real,
            image_w as real,
            image_h as real,
        ));
        ops
    }
}

/// The sheet is shown at some size, however small the widget.
pub proof fn law_preview_scale_is_positive(page: (real, real), width: real, height: real)
    requires
        page.0 > 0 as real,
        page.1 > 0 as real,
    ensures
        preview_view(page, width, height).2 > 0 as real,
{
    let (a, b) = (available(width), available(height));
    let (pw, ph) = page;
    assert(a / pw > 0 as real) by (nonlinear_arith)
        requires
            a >= 1 as real,
            pw > 0 as real,
    ;
    assert(b / ph > 0 as real) by (nonlinear_arith)
        requires
            b >= 1 as real,
            ph > 0 as real,
    ;
}

/// The whole sheet lies centered in the preview, with the pad free around it wherever the widget
/// leaves a pixel between the pads.
pub proof fn law_sheet_is_centered_in_the_preview(page: (real, real), width: real, height: real)
    requires
        page.0 > 0 as real,
        page.1 > 0 as real,
    ensures
        ({
            let (x, y, scale) = preview_view(page, width, height);
            &&& x + page.0 * scale == width - x
            &&& y + page.1 * scale == height - y
            &&& width >= (2 as real) * preview_pad() + (1 as real) ==> x >= preview_pad()
            &&& height >= (2 as real) * preview_pad() + (1 as real) ==> y >= preview_pad()
        }),
{
    let (x, y, scale) = preview_view(page, width, height);
    let (a, b) = (available(width), available(height));
    let (pw, ph) = page;
    let (q, r) = (a / pw, b / ph);
    assert(pw * scale <= a) by (nonlinear_arith)
        requires
            scale <= q,
            q == a / pw,
            pw > 0 as real,
    ;
    assert(ph * scale <= b) by (nonlinear_arith)
        requires
            scale <= r,
            r == b / ph,
            ph > 0 as real,
    ;
}

/// The preview paints on its sheet the very steps that paint the placed image on a page of the
/// same size.
pub proof fn law_preview_shows_the_printed_page(
    layout: LayoutModel,
    width: real,
    height: real,
    image_w: real,
    image_h: real,
)
    ensures
        ({
            let page = layout.page_size();
            let printed = layout.image.page_steps(page.0, page.1, image_w, image_h);
            let shown = layout.preview_steps(width, height, image_w, image_h);
            let start = paper_steps(page, preview_view(page, width, height)).len() as int;
            shown.subrange(start, start + printed.len()) == printed
        }),
{
    let page = layout.page_size();
    let printed = layout.image.page_steps(page.0, page.1, image_w, image_h);
    let shown = layout.preview_steps(width, height, image_w, image_h);
    let start = paper_steps(page, preview_view(page, width, height)).len() as int;
    assert(shown.subrange(start, start + printed.len()) =~= printed);
}

/// A smaller copy of the image is painted over the same part of the page: a point at some
/// fraction of the width and height lands at one place whatever the number of pixels.
pub proof fn law_resolution_does_not_move_the_image(
    place: (real, real, real, real),
    rotate: bool,
    image: (real, real),
    copy: (real, real),
    fraction: (real, real),
)
    requires
        is_visible(place, image.0, image.1),
        is_visible(place, copy.0, copy.1),
    ensures
        to_page(
            transform_steps(place, rotate, image.0, image.1),
            (fraction.0 * image.0, fraction.1 * image.1),
        ) == to_page(
            transform_steps(place, rotate, copy.0, copy.1),
            (fraction.0 * copy.0, fraction.1 * copy.1),
        ),
{
    let (x, y, w, h) = place;
    let (f, g) = fraction;
    law_pixels_land_in_place(place, rotate, image.0, image.1, (f * image.0, g * image.1));
    law_pixels_land_in_place(place, rotate, copy.0, copy.1, (f * copy.0, g * copy.1));
    lemma_fraction_cancels(f, image.0, w);
    lemma_fraction_cancels(f, image.0, h);
    lemma_fraction_cancels(g, image.1, w);
    lemma_fraction_cancels(g, image.1, h);
    lemma_fraction_cancels(f, copy.0, w);
    lemma_fraction_cancels(f, copy.0, h);
    lemma_fraction_cancels(g, copy.1, w);
    lemma_fraction_cancels(g, copy.1, h);
}

proof fn lemma_fraction_cancels(f: real, n: real, w: real)
    requires
        n > 0 as real,
    ensures
        (f * n) * (w / n) == f * w,
{
    let q = w / n;
    assert(n * q == w) by (nonlinear_arith)
        requires
            q == w / n,
            n > 0 as real,
    ;
    assert((f * n) * q == f * (n * q)) by (nonlinear_arith);
}

/// A dragged image stays under the pointer: in the preview its corner moves as far as the
/// pointer does, as long as no edge of the sheet stops it.
pub proof fn law_image_stays_under_the_pointer(ui: UiModel, dx: real, dy: real)
    requires
        ui.view.2 > 0 as real,
    ensures
        ({
            let scale = ui.view.2;
            let (x, y, w, h) = ui.layout.image_rect();
            let held = ui.after(EventModel::DragBegin).0;
            let next = held.after(EventModel::DragUpdate(dx, dy)).0.layout.image_rect();
            let free = PlacementModel {
                offset: Some((x + dx / scale, y + dy / scale)),
                ..ui.layout.image
            };
            on_sheet(
                free,
                ui.layout.page_size().0,
                ui.layout.page_size().1,
            ) ==> next.0 * scale == x * scale + dx && next.1 * scale == y * scale + dy
        }),
{
    let scale = ui.view.2;
    let (x, y, w, h) = ui.layout.image_rect();
    law_dragging_follows_the_pointer(ui, dx, dy);
    let (a, b) = (dx / scale, dy / scale);
    assert((x + a) * scale == x * scale + dx && (y + b) * scale == y * scale + dy)
        by (nonlinear_arith)
        requires
            a == dx / scale,
            b == dy / scale,
            scale > 0 as real,
    ;
}

/// Each pixel of the image is painted on the page where the placement puts it: as far along the
/// rectangle of the image as it lies along the image, turned where the image is turned. An image
/// or a rectangle without extent paints nothing.
pub proof fn law_page_shows_each_pixel_in_place(
    p: PlacementModel,
    page_w: real,
    page_h: real,
    image_w: real,
    image_h: real,
    point: (real, real),
)
    ensures
        ({
            let steps = p.page_steps(page_w, page_h, image_w, image_h);
            let n = steps.len() as int;
            let (x, y, w, h) = p.image_rect(page_w, page_h);
            if image_w <= 0 as real || image_h <= 0 as real || w <= 0 as real || h <= 0 as real {
                n == 0
            } else {
                &&& n >= 4
                &&& steps[n - 4] == PaintModel::SourceImage
                &&& steps[n - 3] == PaintModel::Rectangle(0 as real, 0 as real, image_w, image_h)
                &&& steps[n - 2] == PaintModel::Fill
                &&& to_page(steps.take(n - 2), point) == if p.rotate {
                    (x + w - point.1 * (w / image_h), y + point.0 * (h / image_w))
                } else {
                    (x + point.0 * (w / image_w), y + point.1 * (h / image_h))
                }
            }
        }),
{
    law_image_is_painted_once(
        image_w,
        image_h,
        p.image_rect(page_w, page_h),
        p.rotate,
        if p.fit == Fit::Fill {
            Some(p.area(page_w, page_h))
        } else {
            None
        },
        point,
    );
}

/// A filling image leaves the margins white: before it is painted, and still when it is, painting
/// is clipped to a rectangle that keeps the margin from every edge of the page, where the page
/// has that much room.
pub proof fn law_filling_image_leaves_the_margins_white(
    p: PlacementModel,
    page_w: real,
    page_h: real,
    image_w: real,
    image_h: real,
    painting: int,
)
    requires
        p.fit == Fit::Fill,
        0 <= painting < p.page_steps(page_w, page_h, image_w, image_h).len(),
        p.page_steps(page_w, page_h, image_w, image_h)[painting] is Fill,
    ensures
        ({
            let steps = p.page_steps(page_w, page_h, image_w, image_h);
            let margin = p.margin_mm * (720 as real) / (254 as real);
            &&& painting > 2
            &&& steps[0] == PaintModel::Save
            &&& steps[2] == PaintModel::Clip
            &&& forall|i: int|
                2 < i < painting ==> !((#[trigger] steps[i]) is Restore)
            &&& steps[1] matches PaintModel::Rectangle(x, y, w, h) && {
                &&& x == margin
                &&& y == margin
                &&& page_w - margin - margin >= 1 as real ==> x + w == page_w - margin
                &&& page_h - margin - margin >= 1 as real ==> y + h == page_h - margin
                &&& page_w - margin - margin < 1 as real ==> w == 1 as real
                &&& page_h - margin - margin < 1 as real ==> h == 1 as real
            }
        }),
{
    law_area_keeps_the_margins(p, page_w, page_h);
    law_image_is_painted_once(
        image_w,
        image_h,
        p.image_rect(page_w, page_h),
        p.rotate,
        Some(p.area(page_w, page_h)),
        (0 as real, 0 as real),
    );
}

/// No other image is clipped: all of it is painted.
pub proof fn law_only_a_filling_image_is_clipped(
    p: PlacementModel,
    page_w: real,
    page_h: real,
    image_w: real,
    image_h: real,
    i: int,
)
    requires
        p.fit != Fit::Fill,
        0 <= i < p.page_steps(page_w, page_h, image_w, image_h).len(),
    ensures
        !(p.page_steps(page_w, page_h, image_w, image_h)[i] is Clip),
{
    law_image_is_painted_once(
        image_w,
        image_h,
        p.image_rect(page_w, page_h),
        p.rotate,
        None,
        (0 as real, 0 as real),
    );
}

/// The sheet is shown as large as the widget allows with 20 pixels around it: it fits between the
/// pads both ways and reaches them one way. A widget smaller than its pads leaves a pixel.
pub proof fn law_preview_is_as_large_as_it_fits(page: (real, real), width: real, height: real)
    requires
        page.0 > 0 as real,
        page.1 > 0 as real,
    ensures
        ({
            let scale = preview_view(page, width, height).2;
            let room_w = if width < 41 as real {
                1 as real
            } else {
                width - (40 as real)
            };
            let room_h = if height < 41 as real {
                1 as real
            } else {
                height - (40 as real)
            };
            &&& page.0 * scale <= room_w
            &&& page.1 * scale <= room_h
            &&& page.0 * scale == room_w || page.1 * scale == room_h
        }),
{
    let scale = preview_view(page, width, height).2;
    let (a, b) = (available(width), available(height));
    let (pw, ph) = page;
    let (q, r) = (a / pw, b / ph);
    assert(pw * scale <= a && (scale == q ==> pw * scale == a)) by (nonlinear_arith)
        requires
            scale <= q,
            q == a / pw,
            pw > 0 as real,
    ;
    assert(ph * scale <= b && (scale == r ==> ph * scale == b)) by (nonlinear_arith)
        requires
            scale <= r,
            r == b / ph,
            ph > 0 as real,
    ;
}

/// What the preview paints, from the bottom up: a shadow three widget pixels off the sheet, the
/// sheet in white, the page as it is printed, a dashed frame around the printable area and a
/// plain one around the sheet, both a widget pixel thick.
pub proof fn law_preview_paints_sheet_page_and_frames(
    layout: LayoutModel,
    width: real,
    height: real,
    image_w: real,
    image_h: real,
)
    requires
        layout.page.size_pt.0 > 0 as real,
        layout.page.size_pt.1 > 0 as real,
    ensures
        ({
            let (pw, ph) = layout.page.size_pt;
            let (left, top, scale) = preview_view((pw, ph), width, height);
            let (ax, ay, aw, ah) = layout.image.area(pw, ph);
            let printed = layout.image.page_steps(pw, ph, image_w, image_h);
            let shown = layout.preview_steps(width, height, image_w, image_h);
            let n = 9 + printed.len() as int;
            let o = 0 as real;
            let one = 1 as real;
            let hundred = 100 as real;
            &&& shown.len() == n + 10
            &&& shown[0] == PaintModel::Save
            &&& shown[1] == PaintModel::Translate(left, top)
            &&& shown[2] == PaintModel::Scale(scale, scale)
            &&& shown[3] == PaintModel::SourceColor(o, o, o, (18 as real) / hundred)
            &&& shown[4] matches PaintModel::Rectangle(x, y, w, h) && x * scale == 3 as real && y
                * scale == 3 as real && w == pw && h == ph
            &&& shown[5] == PaintModel::Fill
            &&& shown[6] == PaintModel::SourceColor(one, one, one, one)
            &&& shown[7] == PaintModel::Rectangle(o, o, pw, ph)
            &&& shown[8] == PaintModel::Fill
            &&& shown.subrange(9, n) == printed
            &&& shown[n] matches PaintModel::LineWidth(w) && w * scale == one
            &&& shown[n + 1] matches PaintModel::Dash(on, off) && on * scale == 5 as real && off
                * scale == 4 as real
            &&& shown[n + 2] == PaintModel::SourceColor(
                (25 as real) / hundred,
                (50 as real) / hundred,
                (95 as real) / hundred,
                (70 as real) / hundred,
            )
            &&& shown[n + 3] == PaintModel::Rectangle(ax, ay, aw, ah)
            &&& shown[n + 4] == PaintModel::Stroke
            &&& shown[n + 5] == PaintModel::NoDash
            &&& shown[n + 6] == PaintModel::SourceColor(o, o, o, (45 as real) / hundred)
            &&& shown[n + 7] == PaintModel::Rectangle(o, o, pw, ph)
            &&& shown[n + 8] == PaintModel::Stroke
            &&& shown[n + 9] == PaintModel::Restore
        }),
{
    let (pw, ph) = layout.page.size_pt;
    let scale = preview_view((pw, ph), width, height).2;
    law_preview_scale_is_positive((pw, ph), width, height);
    lemma_length_in_widget(3 as real, scale);
    lemma_length_in_widget(1 as real, scale);
    lemma_length_in_widget(5 as real, scale);
    lemma_length_in_widget(4 as real, scale);
    let printed = layout.image.page_steps(pw, ph, image_w, image_h);
    let shown = layout.preview_steps(width, height, image_w, image_h);
    assert(shown.subrange(9, 9 + printed.len() as int) =~= printed);
}

proof fn lemma_length_in_widget(length: real, scale: real)
    requires
        scale > 0 as real,
    ensures
        (length / scale) * scale == length,
{
    assert((length / scale) * scale == length) by (nonlinear_arith)
        requires
            scale > 0 as real,
    ;
}

/// A point of the page is shown in the widget as far from the corner of the sheet as the scale of
/// the preview makes it.
pub proof fn law_preview_shows_the_page_to_scale(
    layout: LayoutModel,
    width: real,
    height: real,
    image_w: real,
    image_h: real,
    point: (real, real),
)
    ensures
        ({
            let (left, top, scale) = preview_view(layout.page.size_pt, width, height);
            let shown = layout.preview_steps(width, height, image_w, image_h);
            to_page(shown.take(9), point) == (left + point.0 * scale, top + point.1 * scale)
        }),
{
    let view = preview_view(layout.page.size_pt, width, height);
    let paper = paper_steps(layout.page.size_pt, view);
    let shown = layout.preview_steps(width, height, image_w, image_h);
    assert(shown.take(9) =~= paper);
    reveal_with_fuel(to_page, 10);
    assert(paper.drop_last().drop_last().drop_last().drop_last().drop_last().drop_last().last()
        == PaintModel::Scale(view.2, view.2));
}

/// Painting the preview takes note of where the sheet lies in it and changes nothing else. A
/// sheet without extent is not painted, and what was noted before stays.
pub proof fn law_preview_notes_where_the_sheet_lies(
    ui: UiModel,
    width: real,
    height: real,
    image_w: real,
    image_h: real,
)
    ensures
        ({
            let (pw, ph) = ui.layout.page.size_pt;
            let (next, steps) = ui.previewed(width, height, image_w, image_h);
            &&& next.layout == ui.layout
            &&& next.syncing == ui.syncing
            &&& next.drag_start == ui.drag_start
            &&& pw <= 0 as real || ph <= 0 as real ==> next.view == ui.view && steps.len() == 0
            &&& pw > 0 as real && ph > 0 as real ==> {
                let (left, top, scale) = next.view;
                &&& steps.len() >= 19
                &&& scale > 0 as real
                &&& steps[1] == PaintModel::Translate(left, top)
                &&& steps[2] == PaintModel::Scale(scale, scale)
                &&& left + pw * scale == width - left
                &&& top + ph * scale == height - top
            }
        }),
{
    let page = ui.layout.page_size();
    if page.0 > 0 as real && page.1 > 0 as real {
        law_preview_scale_is_positive(page, width, height);
        law_sheet_is_centered_in_the_preview(page, width, height);
    }
}

/// What is dragged follows the pointer in the preview that was painted last: where no edge of the
/// sheet stops it, the corner of the image is shown as far from where it was as the pointer is.
pub proof fn law_dragging_in_the_painted_preview(
    ui: UiModel,
    width: real,
    height: real,
    image_w: real,
    image_h: real,
    dx: real,
    dy: real,
)
    requires
        ui.layout.page.size_pt.0 > 0 as real,
        ui.layout.page.size_pt.1 > 0 as real,
    ensures
        ({
            let seen = ui.previewed(width, height, image_w, image_h).0;
            let scale = seen.view.2;
            let (x, y, _, _) = ui.layout.image_rect();
            let held = seen.after(EventModel::DragBegin).0;
            let next = held.after(EventModel::DragUpdate(dx, dy)).0.layout.image_rect();
            let free = PlacementModel {
                offset: Some((x + dx / scale, y + dy / scale)),
                ..ui.layout.image
            };
            on_sheet(
                free,
                ui.layout.page.size_pt.0,
                ui.layout.page.size_pt.1,
            ) ==> next.0 * scale - x * scale == dx && next.1 * scale - y * scale == dy
        }),
{
    let page = ui.layout.page_size();
    law_preview_scale_is_positive(page, width, height);
    law_image_stays_under_the_pointer(ui.previewed(width, height, image_w, image_h).0, dx, dy);
}

} // verus!
