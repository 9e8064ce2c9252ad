//! Where the image goes on a sheet.

use vstd::prelude::*;

use crate::fit::Fit;
use crate::number::{clamp_of, max_of, min_of, Number};

verus! {

/// A millimeter in points: 72 points to the inch of 25.4 millimeters.
pub open spec fn pt_per_mm() -> real {
    (360 as real) / (127 as real)
}

/// Screenshot pixels are screen pixels and the desktop draws at 96 dpi, so "100 %" puts the
/// image on paper at the size it had on screen.
pub open spec fn reference_dpi() -> real {
    96 as real
}

/// Keep a dragged image at least this many points on the sheet - one parked entirely off-page
/// prints a blank sheet with no hint why.
pub open spec fn min_on_page() -> real {
    20 as real
}

/// What a placement stands for.
pub struct PlacementModel {
    pub margin_mm: real,
    pub fit: Fit,
    pub scale: real,
    pub rotate: bool,
    pub offset: Option<(real, real)>,
    pub align: (real, real),
    pub image_px: (real, real),
}

impl PlacementModel {
    /// The printable rectangle (x, y, width, height) in points: the sheet without its margins,
    /// and never narrower or lower than a point.
    pub open spec fn area(self, page_w: real, page_h: real) -> (real, real, real, real) {
        let margin = self.margin_mm * pt_per_mm();
        (
            margin,
            margin,
            max_of(page_w - (2 as real) * margin, 1 as real),
            max_of(page_h - (2 as real) * margin, 1 as real),
        )
    }

    /// The image at 100 %, in points, with rotation applied.
    pub open spec fn natural(self) -> (real, real) {
        let (w, h) = self.image_px;
        let points = (72 as real) / reference_dpi();
        if self.rotate {
            (h * points, w * points)
        } else {
            (w * points, h * points)
        }
    }

    /// Whether the image has any extent at all.
    pub open spec fn has_extent(self) -> bool {
        self.natural().0 > 0 as real && self.natural().1 > 0 as real
    }

    /// The scale at which the image is printed; 1 is the size it had on screen.
    pub open spec fn scale_for(self, page_w: real, page_h: real) -> real {
        let (nw, nh) = self.natural();
        let (_, _, aw, ah) = self.area(page_w, page_h);
        if !self.has_extent() {
            1 as real
        } else {
            match self.fit {
                Fit::Page => min_of(aw / nw, ah / nh),
                Fit::Fill => max_of(aw / nw, ah / nh),
                Fit::Actual => 1 as real,
                Fit::Custom => self.scale,
            }
        }
    }

    /// Where the image lands on the page: (x, y, width, height) in points.
    pub open spec fn image_rect(self, page_w: real, page_h: real) -> (real, real, real, real) {
        let scale = self.scale_for(page_w, page_h);
        let w = self.natural().0 * scale;
        let h = self.natural().1 * scale;
        let (ax, ay, aw, ah) = self.area(page_w, page_h);
        match self.offset {
            Some((x, y)) => (x, y, w, h),
            None => (ax + (aw - w) * self.align.0, ay + (ah - h) * self.align.1, w, h),
        }
    }

    /// The placement with a dragged image pulled back onto the sheet.
    pub open spec fn clamped(self, page_w: real, page_h: real) -> PlacementModel {
        let (_, _, w, h) = self.image_rect(page_w, page_h);
        match self.offset {
            None => self,
            Some((x, y)) => PlacementModel {
                offset: Some(
                    (
                        clamp_of(
                            x,
                            min_on_page() - w,
                            max_of(page_w - min_on_page(), min_on_page() - w),
                        ),
                        clamp_of(
                            y,
                            min_on_page() - h,
                            max_of(page_h - min_on_page(), min_on_page() - h),
                        ),
                    ),
                ),
                ..self
            },
        }
    }

    /// Dots per inch the printer is asked for: pixels across the page over inches across it.
    pub open spec fn effective_dpi(self, page_w: real, page_h: real) -> real {
        let (_, _, w, _) = self.image_rect(page_w, page_h);
        let px = if self.rotate {
            self.image_px.1
        } else {
            self.image_px.0
        };
        if w <= 0 as real {
            0 as real
        } else {
            px / (w / (72 as real))
        }
    }
}

/// Where the image goes on a sheet of a given size. The page it is measured against is always
/// passed in, which is what lets the printed page use the paper the print dialog settled on
/// rather than the one the preview was drawn with.
#[derive(Debug)]
pub struct Placement {
    /// One margin on all four sides, in millimeters.
    pub margin_mm: Number,
    pub fit: Fit,
    /// 1 = the image at 96 dpi. Only read for `Fit::Custom`.
    pub scale: Number,
    /// Turn the image 90 degrees clockwise on the sheet (the paper keeps its own orientation).
    pub rotate: bool,
    /// Top-left corner on the page, in points. `None` = follow `align`.
    pub offset: Option<(Number, Number)>,
    /// Horizontal and vertical alignment inside the printable area: 0 = start, 1/2 = center,
    /// 1 = end.
    pub align: (Number, Number),
    pub image_px: (Number, Number),
}

impl View for Placement {
    type V = PlacementModel;

    open spec fn view(&self) -> PlacementModel {
        PlacementModel {
            margin_mm: self.margin_mm@,
            fit: self.fit,
            scale: self.scale@,
            rotate: self.rotate,
            offset: self.offset.deep_view(),
            align: self.align@,
            image_px: self.image_px@,
        }
    }
}

impl Clone for Placement {
    fn clone(&self) -> (res: Self)
        ensures
            res@ == self@,
    {
        Placement {
            margin_mm: self.margin_mm.clone(),
            fit: self.fit,
            scale: self.scale.clone(),
            rotate: self.rotate,
            offset: match &self.offset {
                Some(p) => Some((p.0.clone(), p.1.clone())),
                None => None,
            },
            align: (self.align.0.clone(), self.align.1.clone()),
            image_px: (self.image_px.0.clone(), self.image_px.1.clone()),
        }
    }
}

/// Millimeters to points.
pub fn mm_to_points(mm: &Number) -> (res: Number)
    ensures
        res@ == mm@ * pt_per_mm(),
{
    mm.times(&Number::ratio(360, 127))
}

/// Points to millimeters.
pub fn points_to_mm(points: &Number) -> (res: Number)
    ensures
        res@ == points@ / pt_per_mm(),
{
    points.over(&Number::ratio(360, 127))
}

impl Placement {
    /// The printable rectangle (x, y, width, height) in points.
    pub fn area(&self, page_w: &Number, page_h: &Number) -> (res: (Number, Number, Number, Number))
        ensures
            res@ == self@.area(page_w@, page_h@),
    {
        let margin = mm_to_points(&self.margin_mm);
        let both = Number::from_int(2).times(&margin);
        let one = Number::from_int(1);
        let width = page_w.minus(&both).larger(&one);
        let height = page_h.minus(&both).larger(&one);
        (margin.clone(), margin, width, height)
    }

    /// The image at 100 %, in points, with rotation applied.
    pub fn natural(&self) -> (res: (Number, Number))
        ensures
            res@ == self@.natural(),
    {
        let points = Number::from_int(72).over(&Number::from_int(96));
        let w = self.image_px.0.times(&points);
        let h = self.image_px.1.times(&points);
        if self.rotate {
            (h, w)
        } else {
            (w, h)
        }
    }

    /// The scale at which the image is printed.
    pub fn scale_for(&self, page_w: &Number, page_h: &Number) -> (res: Number)
        ensures
            res@ == self@.scale_for(page_w@, page_h@),
    {
        let (nw, nh) = self.natural();
        if !nw.is_positive() || !nh.is_positive() {
            return Number::from_int(1);
        }
        let (_, _, aw, ah) = self.area(page_w, page_h);
        match self.fit {
            Fit::Page => aw.over(&nw).smaller(&ah.over(&nh)),
            Fit::Fill => aw.over(&nw).larger(&ah.over(&nh)),
            Fit::Actual => Number::from_int(1),
            Fit::Custom => self.scale.clone(),
        }
    }

    /// Where the image lands on the page: (x, y, width, height) in points.
    pub fn image_rect(&self, page_w: &Number, page_h: &Number) -> (res: (
        Number,
        Number,
        Number,
        Number,
    ))
        ensures
            res@ == self@.image_rect(page_w@, page_h@),
    {
        let scale = self.scale_for(page_w, page_h);
        let (nw, nh) = self.natural();
        let w = nw.times(&scale);
        let h = nh.times(&scale);
        let (ax, ay, aw, ah) = self.area(page_w, page_h);
        match &self.offset {
            Some(offset) => (offset.0.clone(), offset.1.clone(), w, h),
            None => (
                ax.plus(&aw.minus(&w).times(&self.align.0)),
                ay.plus(&ah.minus(&h).times(&self.align.1)),
                w,
                h,
            ),
        }
    }

    /// Pull a dragged image back onto the sheet.
    pub fn clamp_offset(&mut self, page_w: &Number, page_h: &Number)
        ensures
            final(self)@ == old(self)@.clamped(page_w@, page_h@),
    {
        let (_, _, w, h) = self.image_rect(page_w, page_h);
        let kept = Number::from_int(20);
        let left = kept.minus(&w);
        let right = page_w.minus(&kept).larger(&left);
        let top = kept.minus(&h);
        let bottom = page_h.minus(&kept).larger(&top);
        let offset = match &self.offset {
            Some(p) => Some(
                (
                    p.0.clamped(&left, &right).reduced(),
                    p.1.clamped(&top, &bottom).reduced(),
                ),
            ),
            None => None,
        };
        self.offset = offset;
    }

    /// Dots per inch the printer is asked for at the current size.
    pub fn effective_dpi(&self, page_w: &Number, page_h: &Number) -> (res: Number)
        ensures
            res@ == self@.effective_dpi(page_w@, page_h@),
    {
        let (_, _, w, _) = self.image_rect(page_w, page_h);
        if !w.is_positive() {
            return Number::from_int(0);
        }
        let px = if self.rotate { self.image_px.1.clone() } else { self.image_px.0.clone() };
        let inches = w.over(&Number::from_int(72));
        px.over(&inches)
    }
}

} // verus!
