//! The sheet of paper, as the page setup describes it, and the placement bound to it.

use vstd::prelude::*;

use crate::number::{max_of, Number};
use crate::placement::{Placement, PlacementModel};

verus! {

/// Which way the paper is turned.
#[derive(Clone, Copy, PartialEq, Eq, Structural, Debug)]
pub enum Orientation {
    Portrait,
    Landscape,
    ReversePortrait,
    ReverseLandscape,
}

impl Orientation {
    pub open spec fn is_landscape(self) -> bool {
        self == Orientation::Landscape || self == Orientation::ReverseLandscape
    }

    /// The place of an orientation in the dialog's list of "Portrait" and "Landscape".
    pub open spec fn index_of(self) -> u32 {
        if self.is_landscape() {
            1
        } else {
            0
        }
    }

    /// The orientation that a place of that list asks for.
    pub open spec fn at_index(index: u32) -> Orientation {
        if index == 1 {
            Orientation::Landscape
        } else {
            Orientation::Portrait
        }
    }

    /// The orientation that suits an image of the given size.
    pub open spec fn suiting(width: int, height: int) -> Orientation {
        if width > height {
            Orientation::Landscape
        } else {
            Orientation::Portrait
        }
    }

    pub fn index(self) -> (res: u32)
        ensures
            res == self.index_of(),
    {
        match self {
            Orientation::Landscape | Orientation::ReverseLandscape => 1,
            _ => 0,
        }
    }

    pub fn from_index(index: u32) -> (res: Orientation)
        ensures
            res == Orientation::at_index(index),
    {
        if index == 1 {
            Orientation::Landscape
        } else {
            Orientation::Portrait
        }
    }

    /// A wide screenshot on portrait paper wastes half the sheet, so the first sheet starts from
    /// the orientation that matches the image.
    pub fn matching(width: i32, height: i32) -> (res: Orientation)
        ensures
            res == Orientation::suiting(width as int, height as int),
    {
        if width > height {
            Orientation::Landscape
        } else {
            Orientation::Portrait
        }
    }
}

/// What a sheet stands for.
pub struct SheetModel {
    pub name: Seq<char>,
    pub orientation: Orientation,
    pub size_pt: (real, real),
    pub size_mm: (real, real),
    pub top_mm: real,
    pub right_mm: real,
    pub bottom_mm: real,
    pub left_mm: real,
}

impl SheetModel {
    /// The widest margin the page setup asks for.
    pub open spec fn uniform_margin(self) -> real {
        max_of(
            max_of(max_of(max_of(0 as real, self.top_mm), self.right_mm), self.bottom_mm),
            self.left_mm,
        )
    }
}

/// A sheet of paper as a page setup describes it: sizes and margins are those of the sheet as it
/// is turned.
#[derive(Debug)]
pub struct Sheet {
    /// The name that is shown for the paper size.
    pub name: String,
    pub orientation: Orientation,
    /// Width and height in points.
    pub size_pt: (Number, Number),
    /// Width and height in millimeters.
    pub size_mm: (Number, Number),
    pub top_mm: Number,
    pub right_mm: Number,
    pub bottom_mm: Number,
    pub left_mm: Number,
}

impl View for Sheet {
    type V = SheetModel;

    open spec fn view(&self) -> SheetModel {
        SheetModel {
            name: self.name@,
            orientation: self.orientation,
            size_pt: self.size_pt@,
            size_mm: self.size_mm@,
            top_mm: self.top_mm@,
            right_mm: self.right_mm@,
            bottom_mm: self.bottom_mm@,
            left_mm: self.left_mm@,
        }
    }
}

impl Clone for Sheet {
    fn clone(&self) -> (res: Self)
        ensures
            res@ == self@,
    {
        Sheet {
            name: self.name.clone(),
            orientation: self.orientation,
            size_pt: (self.size_pt.0.clone(), self.size_pt.1.clone()),
            size_mm: (self.size_mm.0.clone(), self.size_mm.1.clone()),
            top_mm: self.top_mm.clone(),
            right_mm: self.right_mm.clone(),
            bottom_mm: self.bottom_mm.clone(),
            left_mm: self.left_mm.clone(),
        }
    }
}

/// The widest margin the page setup asks for, in millimeters - applied to all four sides.
/// Shrinking any side to match a narrower one could push the image into the printer's
/// unprintable border.
pub fn uniform_margin(page: &Sheet) -> (res: Number)
    ensures
        res@ == page@.uniform_margin(),
{
    Number::from_int(0).larger(&page.top_mm).larger(&page.right_mm).larger(
        &page.bottom_mm,
    ).larger(&page.left_mm)
}

/// What a layout stands for.
pub struct LayoutModel {
    pub page: SheetModel,
    pub image: PlacementModel,
}

impl LayoutModel {
    pub open spec fn page_size(self) -> (real, real) {
        self.page.size_pt
    }

    pub open spec fn scale_for(self) -> real {
        self.image.scale_for(self.page_size().0, self.page_size().1)
    }

    pub open spec fn area(self) -> (real, real, real, real) {
        self.image.area(self.page_size().0, self.page_size().1)
    }

    pub open spec fn image_rect(self) -> (real, real, real, real) {
        self.image.image_rect(self.page_size().0, self.page_size().1)
    }

    pub open spec fn effective_dpi(self) -> real {
        self.image.effective_dpi(self.page_size().0, self.page_size().1)
    }

    pub open spec fn clamped(self) -> LayoutModel {
        LayoutModel {
            image: self.image.clamped(self.page_size().0, self.page_size().1),
            ..self
        }
    }

    /// The sheet that a later dialog starts from: this one, and where another margin than its own
    /// is in effect, with that one on all four sides.
    pub open spec fn remembered(self) -> SheetModel {
        if self.image.margin_mm == self.page.uniform_margin() {
            self.page
        } else {
            SheetModel {
                top_mm: self.image.margin_mm,
                right_mm: self.image.margin_mm,
                bottom_mm: self.image.margin_mm,
                left_mm: self.image.margin_mm,
                ..self.page
            }
        }
    }
}

/// A `Placement` bound to the sheet it is currently shown on. Cloned into the print job, so the
/// dialog may close while the job runs.
#[derive(Debug)]
pub struct Layout {
    pub page: Sheet,
    pub image: Placement,
}

impl View for Layout {
    type V = LayoutModel;

    open spec fn view(&self) -> LayoutModel {
        LayoutModel { page: self.page@, image: self.image@ }
    }
}

impl Clone for Layout {
    fn clone(&self) -> (res: Self)
        ensures
            res@ == self@,
    {
        Layout { page: self.page.clone(), image: self.image.clone() }
    }
}

impl Layout {
    /// Width and height of the sheet in points.
    pub fn page_size(&self) -> (res: (Number, Number))
        ensures
            res@ == self@.page_size(),
    {
        (self.page.size_pt.0.clone(), self.page.size_pt.1.clone())
    }

    pub fn clamp_offset(&mut self)
        ensures
            final(self)@ == old(self)@.clamped(),
    {
        let (pw, ph) = self.page_size();
        self.image.clamp_offset(&pw, &ph);
    }

    /// The sheet that a later dialog starts from. The margin field does not write to the page
    /// setup, so a margin that was typed is put on all four sides here. Where the field still
    /// shows the margin of the sheet, the four sides stay as they are.
    pub fn remembered(&self) -> (res: Sheet)
        ensures
            res@ == self@.remembered(),
    {
        let margin = &self.image.margin_mm;
        let page = self.page.clone();
        if margin.equals(&uniform_margin(&self.page)) {
            return page;
        }
        Sheet {
            name: page.name,
            orientation: page.orientation,
            size_pt: page.size_pt,
            size_mm: page.size_mm,
            top_mm: margin.clone(),
            right_mm: margin.clone(),
            bottom_mm: margin.clone(),
            left_mm: margin.clone(),
        }
    }
}

/// The uniform margin is no narrower than any side, and no wider than it has to be.
pub proof fn law_uniform_margin_is_the_widest(page: SheetModel)
    ensures
        page.uniform_margin() >= 0 as real,
        page.uniform_margin() >= page.top_mm,
        page.uniform_margin() >= page.right_mm,
        page.uniform_margin() >= page.bottom_mm,
        page.uniform_margin() >= page.left_mm,
        page.uniform_margin() == 0 as real || page.uniform_margin() == page.top_mm
            || page.uniform_margin() == page.right_mm || page.uniform_margin() == page.bottom_mm
            || page.uniform_margin() == page.left_mm,
{
}

/// The list shows the orientation that was chosen from it.
pub proof fn law_orientation_is_shown_as_chosen(index: u32)
    requires
        index < 2,
    ensures
        Orientation::at_index(index).index_of() == index,
{
}

/// An orientation is shown as landscape where it is one, either way up, and the list asks for
/// landscape at its second place alone.
pub proof fn law_orientation_list(orientation: Orientation, index: u32)
    ensures
        orientation.index_of() == match orientation {
            Orientation::Portrait => 0u32,
            Orientation::ReversePortrait => 0u32,
            Orientation::Landscape => 1u32,
            Orientation::ReverseLandscape => 1u32,
        },
        index == 1 ==> Orientation::at_index(index) == Orientation::Landscape,
        index != 1 ==> Orientation::at_index(index) == Orientation::Portrait,
{
}

/// A sheet is turned to landscape for an image that is wider than high, and for no other.
pub proof fn law_sheet_suits_the_image(width: int, height: int)
    ensures
        width > height ==> Orientation::suiting(width, height) == Orientation::Landscape,
        width <= height ==> Orientation::suiting(width, height) == Orientation::Portrait,
{
}

/// A layout is measured on the sheet it is shown on.
pub proof fn law_layout_is_measured_on_its_sheet(layout: LayoutModel)
    ensures
        ({
            let (w, h) = layout.page.size_pt;
            &&& layout.page_size() == (w, h)
            &&& layout.scale_for() == layout.image.scale_for(w, h)
            &&& layout.area() == layout.image.area(w, h)
            &&& layout.image_rect() == layout.image.image_rect(w, h)
            &&& layout.effective_dpi() == layout.image.effective_dpi(w, h)
            &&& layout.clamped().page == layout.page
            &&& layout.clamped().image == layout.image.clamped(w, h)
        }),
{
}

/// A remembered sheet has the margin that is in effect as its widest one. It differs from the
/// sheet in its margins alone, and only where another margin than the sheet's own is in effect;
/// then all four sides have it.
pub proof fn law_remembered_sheet(layout: LayoutModel)
    ensures
        ({
            let kept = layout.remembered();
            let margin = layout.image.margin_mm;
            &&& kept.name == layout.page.name
            &&& kept.orientation == layout.page.orientation
            &&& kept.size_pt == layout.page.size_pt
            &&& kept.size_mm == layout.page.size_mm
            &&& margin >= 0 as real ==> kept.uniform_margin() == margin
            &&& margin == layout.page.uniform_margin() ==> kept == layout.page
            &&& margin != layout.page.uniform_margin() ==> kept.top_mm == margin && kept.right_mm
                == margin && kept.bottom_mm == margin && kept.left_mm == margin
        }),
{
}

} // verus!
