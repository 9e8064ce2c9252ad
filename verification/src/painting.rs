//! Painting as a list of steps for a canvas that starts in page coordinates: x runs right, y
//! runs down, and each change of coordinates acts before the ones that were made earlier.

use vstd::prelude::*;

use crate::number::Number;

verus! {

/// What a step stands for.
pub enum PaintModel {
    Save,
    Restore,
    Translate(real, real),
    QuarterTurn,
    Scale(real, real),
    Rectangle(real, real, real, real),
    Clip,
    SourceImage,
    SourceColor(real, real, real, real),
    LineWidth(real),
    Dash(real, real),
    NoDash,
    Fill,
    Stroke,
}

/// One step on the canvas.
#[derive(Debug)]
pub enum PaintOp {
    /// Keep the coordinates, the clip and the pen for the matching `Restore`.
    Save,
    Restore,
    Translate(Number, Number),
    /// Turn the coordinates clockwise by 90 degrees.
    QuarterTurn,
    Scale(Number, Number),
    /// Add a rectangle (x, y, width, height) to the path.
    Rectangle(Number, Number, Number, Number),
    /// Paint only inside the path from here on.
    Clip,
    /// Paint with the image, its top-left corner at the origin, smoothly resampled.
    SourceImage,
    /// Paint with a color: red, green, blue, opacity.
    SourceColor(Number, Number, Number, Number),
    LineWidth(Number),
    /// Draw lines as dashes of the first length with gaps of the second.
    Dash(Number, Number),
    NoDash,
    /// Paint the inside of the path.
    Fill,
    /// Paint along the path.
    Stroke,
}

impl DeepView for PaintOp {
    type V = PaintModel;

    open spec fn deep_view(&self) -> PaintModel {
        match self {
            PaintOp::Save => PaintModel::Save,
            PaintOp::Restore => PaintModel::Restore,
            PaintOp::Translate(x, y) => PaintModel::Translate(x@, y@),
            PaintOp::QuarterTurn => PaintModel::QuarterTurn,
            PaintOp::Scale(x, y) => PaintModel::Scale(x@, y@),
            PaintOp::Rectangle(x, y, w, h) => PaintModel::Rectangle(x@, y@, w@, h@),
            PaintOp::Clip => PaintModel::Clip,
            PaintOp::SourceImage => PaintModel::SourceImage,
            PaintOp::SourceColor(r, g, b, a) => PaintModel::SourceColor(r@, g@, b@, a@),
            PaintOp::LineWidth(width) => PaintModel::LineWidth(width@),
            PaintOp::Dash(on, off) => PaintModel::Dash(on@, off@),
            PaintOp::NoDash => PaintModel::NoDash,
            PaintOp::Fill => PaintModel::Fill,
            PaintOp::Stroke => PaintModel::Stroke,
        }
    }
}

/// The steps that keep the image inside a rectangle.
pub open spec fn clip_steps(clip: Option<(real, real, real, real)>) -> Seq<PaintModel> {
    match clip {
        Some((x, y, w, h)) => seq![PaintModel::Rectangle(x, y, w, h), PaintModel::Clip],
        None => seq![],
    }
}

/// The steps that carry image pixels onto the rectangle `place`. A turned image pivots around
/// the top-right corner: after a clockwise quarter turn its own width runs down the page, so it
/// spans the height, and its height spans the width.
pub open spec fn transform_steps(
    place: (real, real, real, real),
    rotate: bool,
    image_w: real,
    image_h: real,
) -> Seq<PaintModel> {
    let (x, y, w, h) = place;
    if rotate {
        seq![
            PaintModel::Translate(x + w, y),
            PaintModel::QuarterTurn,
            PaintModel::Scale(h / image_w, w / image_h),
        ]
    } else {
        seq![PaintModel::Translate(x, y), PaintModel::Scale(w / image_w, h / image_h)]
    }
}

/// Whether there is anything to paint: neither the image nor its place is empty.
pub open spec fn is_visible(
    place: (real, real, real, real),
    image_w: real,
    image_h: real,
) -> bool {
    image_w > 0 as real && image_h > 0 as real && place.2 > 0 as real && place.3 > 0 as real
}

/// The steps that paint an image of the given size in pixels into `place`.
pub open spec fn image_steps(
    image_w: real,
    image_h: real,
    place: (real, real, real, real),
    rotate: bool,
    clip: Option<(real, real, real, real)>,
) -> Seq<PaintModel> {
    if !is_visible(place, image_w, image_h) {
        seq![]
    } else {
        seq![PaintModel::Save] + clip_steps(clip) + transform_steps(place, rotate, image_w, image_h)
            + seq![
            PaintModel::SourceImage,
            PaintModel::Rectangle(0 as real, 0 as real, image_w, image_h),
            PaintModel::Fill,
            PaintModel::Restore,
        ]
    }
}

/// Append a step.
pub fn put(ops: &mut Vec<PaintOp>, op: PaintOp)
    ensures
        final(ops).deep_view() == old(ops).deep_view().push(op.deep_view()),
{
    ops.push(op);
    assert(ops.deep_view() =~= old(ops).deep_view().push(op.deep_view()));
}

/// Paint an image into the (x, y, w, h) rectangle, optionally rotated a quarter turn and clipped
/// to `clip`. Shared by the preview and the printed page so what is on screen is what comes out
/// of the printer.
pub fn draw_image(
    ops: &mut Vec<PaintOp>,
    image_w: i32,
    image_h: i32,
    place: (Number, Number, Number, Number),
    rotate: bool,
    clip: Option<(Number, Number, Number, Number)>,
)
    ensures
        final(ops).deep_view() == old(ops).deep_view() + image_steps(
            image_w as real,
            image_h as real,
            place@,
            rotate,
            clip.deep_view(),
        ),
{
    let (x, y, w, h) = place;
    let iw = Number::from_int(image_w as i64);
    let ih = Number::from_int(image_h as i64);
    if !iw.is_positive() || !ih.is_positive() || !w.is_positive() || !h.is_positive() {
        assert(ops.deep_view() =~= old(ops).deep_view() + Seq::<PaintModel>::empty());
        return ;
    }
    put(ops, PaintOp::Save);
    if let Some((cx, cy, cw, ch)) = clip {
        put(ops, PaintOp::Rectangle(cx, cy, cw, ch));
        put(ops, PaintOp::Clip);
    }
    if rotate {
        put(ops, PaintOp::Translate(x.plus(&w), y));
        put(ops, PaintOp::QuarterTurn);
        put(ops, PaintOp::Scale(h.over(&iw), w.over(&ih)));
    } else {
        put(ops, PaintOp::Translate(x, y));
        put(ops, PaintOp::Scale(w.over(&iw), h.over(&ih)));
    }
    put(ops, PaintOp::SourceImage);
    put(ops, PaintOp::Rectangle(Number::from_int(0), Number::from_int(0), iw, ih));
    put(ops, PaintOp::Fill);
    put(ops, PaintOp::Restore);
    assert(ops.deep_view() =~= old(ops).deep_view() + image_steps(
        image_w as real,
        image_h as real,
        place@,
        rotate,
        clip.deep_view(),
    ));
}

/// Where a point lies in page coordinates once `steps` have changed the coordinates. A point
/// goes through the latest change first.
pub open spec fn to_page(steps: Seq<PaintModel>, point: (real, real)) -> (real, real)
    decreases steps.len(),
{
    if steps.len() == 0 {
        point
    } else {
        let moved = match steps.last() {
            PaintModel::Translate(x, y) => (point.0 + x, point.1 + y),
            PaintModel::QuarterTurn => (-point.1, point.0),
            PaintModel::Scale(x, y) => (point.0 * x, point.1 * y),
            _ => point,
        };
        to_page(steps.drop_last(), moved)
    }
}

proof fn lemma_to_page_step(steps: Seq<PaintModel>, step: PaintModel, point: (real, real))
    ensures
        to_page(steps.push(step), point) == to_page(
            steps,
            match step {
                PaintModel::Translate(x, y) => (point.0 + x, point.1 + y),
                PaintModel::QuarterTurn => (-point.1, point.0),
                PaintModel::Scale(x, y) => (point.0 * x, point.1 * y),
                _ => point,
            },
        ),
{
    assert(steps.push(step).drop_last() =~= steps);
}

/// Each image pixel lands on the page where the placement says: the upright image runs right and
/// down the rectangle with its own width and height, the turned one runs down it with its width
/// and left with its height.
pub proof fn law_pixels_land_in_place(
    place: (real, real, real, real),
    rotate: bool,
    image_w: real,
    image_h: real,
    point: (real, real),
)
    requires
        is_visible(place, image_w, image_h),
    ensures
        ({
            let (x, y, w, h) = place;
            let (u, v) = point;
            to_page(transform_steps(place, rotate, image_w, image_h), point) == if rotate {
                (x + w - v * (w / image_h), y + u * (h / image_w))
            } else {
                (x + u * (w / image_w), y + v * (h / image_h))
            }
        }),
{
    let (x, y, w, h) = place;
    let (u, v) = point;
    let none = Seq::<PaintModel>::empty();
    let steps = transform_steps(place, rotate, image_w, image_h);
    if rotate {
        let a = none.push(PaintModel::Translate(x + w, y));
        let b = a.push(PaintModel::QuarterTurn);
        assert(steps =~= b.push(PaintModel::Scale(h / image_w, w / image_h)));
        lemma_to_page_step(b, PaintModel::Scale(h / image_w, w / image_h), point);
        let p = (u * (h / image_w), v * (w / image_h));
        lemma_to_page_step(a, PaintModel::QuarterTurn, p);
        lemma_to_page_step(none, PaintModel::Translate(x + w, y), (-p.1, p.0));
    } else {
        let a = none.push(PaintModel::Translate(x, y));
        assert(steps =~= a.push(PaintModel::Scale(w / image_w, h / image_h)));
        lemma_to_page_step(a, PaintModel::Scale(w / image_w, h / image_h), point);
        let p = (u * (w / image_w), v * (h / image_h));
        lemma_to_page_step(none, PaintModel::Translate(x, y), p);
    }
}

/// The corners of the image land on the corners of its rectangle.
pub proof fn law_corners_land_on_corners(
    place: (real, real, real, real),
    rotate: bool,
    image_w: real,
    image_h: real,
)
    requires
        is_visible(place, image_w, image_h),
    ensures
        ({
            let (x, y, w, h) = place;
            let steps = transform_steps(place, rotate, image_w, image_h);
            let o = 0 as real;
            &&& to_page(steps, (o, o)) == if rotate {
                (x + w, y)
            } else {
                (x, y)
            }
            &&& to_page(steps, (image_w, o)) == if rotate {
                (x + w, y + h)
            } else {
                (x + w, y)
            }
            &&& to_page(steps, (o, image_h)) == if rotate {
                (x, y)
            } else {
                (x, y + h)
            }
            &&& to_page(steps, (image_w, image_h)) == if rotate {
                (x, y + h)
            } else {
                (x + w, y + h)
            }
        }),
{
    let (x, y, w, h) = place;
    let o = 0 as real;
    law_pixels_land_in_place(place, rotate, image_w, image_h, (o, o));
    law_pixels_land_in_place(place, rotate, image_w, image_h, (image_w, o));
    law_pixels_land_in_place(place, rotate, image_w, image_h, (o, image_h));
    law_pixels_land_in_place(place, rotate, image_w, image_h, (image_w, image_h));
    assert(image_w * (w / image_w) == w && image_w * (h / image_w) == h) by (nonlinear_arith)
        requires
            image_w > 0 as real,
    ;
    assert(image_h * (w / image_h) == w && image_h * (h / image_h) == h) by (nonlinear_arith)
        requires
            image_h > 0 as real,
    ;
    let a = w / image_w;
    let b = h / image_w;
    let c = w / image_h;
    let d = h / image_h;
    assert(o * a == o && o * b == o && o * c == o && o * d == o) by (nonlinear_arith)
        requires
            o == 0 as real,
    ;
}

proof fn lemma_to_page_concat(a: Seq<PaintModel>, b: Seq<PaintModel>, point: (real, real))
    ensures
        to_page(a + b, point) == to_page(a, to_page(b, point)),
    decreases b.len(),
{
    if b.len() == 0 {
        assert(a + b =~= a);
    } else {
        assert((a + b).drop_last() =~= a + b.drop_last());
        let moved = match b.last() {
            PaintModel::Translate(x, y) => (point.0 + x, point.1 + y),
            PaintModel::QuarterTurn => (-point.1, point.0),
            PaintModel::Scale(x, y) => (point.0 * x, point.1 * y),
            _ => point,
        };
        lemma_to_page_concat(a, b.drop_last(), moved);
    }
}

/// The last thing that is painted is the whole image, in the coordinates that the placement set
/// up; the clip has no part in where a pixel lands.
pub proof fn law_image_is_painted_in_its_coordinates(
    image_w: real,
    image_h: real,
    place: (real, real, real, real),
    rotate: bool,
    clip: Option<(real, real, real, real)>,
    point: (real, real),
)
    requires
        is_visible(place, image_w, image_h),
    ensures
        ({
            let steps = image_steps(image_w, image_h, place, rotate, clip);
            let n = steps.len() - 2;
            &&& n >= 2
            &&& steps[n] == PaintModel::Fill
            &&& steps[n - 1] == PaintModel::Rectangle(0 as real, 0 as real, image_w, image_h)
            &&& steps[n - 2] == PaintModel::SourceImage
            &&& to_page(steps.take(n), point) == to_page(
                transform_steps(place, rotate, image_w, image_h),
                point,
            )
        }),
{
    let steps = image_steps(image_w, image_h, place, rotate, clip);
    let n = steps.len() - 2;
    let front = seq![PaintModel::Save] + clip_steps(clip);
    let middle = transform_steps(place, rotate, image_w, image_h);
    let image = seq![
        PaintModel::SourceImage,
        PaintModel::Rectangle(0 as real, 0 as real, image_w, image_h),
    ];
    assert(steps.take(n) =~= front + (middle + image));
    lemma_to_page_concat(front, middle + image, point);
    lemma_to_page_concat(middle, image, point);
    reveal_with_fuel(to_page, 4);
    assert(to_page(image, point) == point);
    let landed = to_page(middle, point);
    assert(to_page(front, landed) == landed);
}

/// What painting an image comes to. Nothing is painted where image or place is empty. Else the
/// whole image is painted once, between a `Save` and its `Restore`; the clip, where there is one,
/// is set before anything else, in the coordinates of the page; and a pixel of the image lands as
/// far along the place as it lies along the image - turned, its way right leads down and its way
/// down leads left.
pub proof fn law_image_is_painted_once(
    image_w: real,
    image_h: real,
    place: (real, real, real, real),
    rotate: bool,
    clip: Option<(real, real, real, real)>,
    point: (real, real),
)
    ensures
        ({
            let steps = image_steps(image_w, image_h, place, rotate, clip);
            let n = steps.len() as int;
            let (x, y, w, h) = place;
            let first = if clip is Some {
                3int
            } else {
                1int
            };
            if image_w <= 0 as real || image_h <= 0 as real || w <= 0 as real || h <= 0 as real {
                n == 0
            } else {
                &&& first <= n - 4
                &&& steps[0] == PaintModel::Save
                &&& clip matches Some((cx, cy, cw, ch)) ==> steps[1] == PaintModel::Rectangle(
                    cx,
                    cy,
                    cw,
                    ch,
                ) && steps[2] == PaintModel::Clip
                &&& forall|i: int|
                    first <= i < n - 4 ==> {
                        ||| (#[trigger] steps[i]) is Translate
                        ||| steps[i] is QuarterTurn
                        ||| steps[i] is Scale
                    }
                &&& steps[n - 4] == PaintModel::SourceImage
                &&& steps[n - 3] == PaintModel::Rectangle(0 as real, 0 as real, image_w, image_h)
                &&& steps[n - 2] == PaintModel::Fill
                &&& steps[n - 1] == PaintModel::Restore
                &&& to_page(steps.take(n - 2), point) == if rotate {
                    (x + w - point.1 * (w / image_h), y + point.0 * (h / image_w))
                } else {
                    (x + point.0 * (w / image_w), y + point.1 * (h / image_h))
                }
            }
        }),
{
    if is_visible(place, image_w, image_h) {
        law_image_is_painted_in_its_coordinates(image_w, image_h, place, rotate, clip, point);
        law_pixels_land_in_place(place, rotate, image_w, image_h, point);
    }
}

} // verus!
