//! The ways to size an image against the printable area.

use vstd::prelude::*;

verus! {

/// How the image is sized against the printable area.
#[derive(Clone, Copy, PartialEq, Eq, Structural, Debug)]
pub enum Fit {
    /// Largest size that fits entirely inside the margins.
    Page,
    /// Cover the printable area; the overflowing edges are clipped.
    Fill,
    /// 100 % - one image pixel per 1/96 inch of paper.
    Actual,
    /// Whatever the scale / width / height fields say.
    Custom,
}

impl Fit {
    /// The names of the modes, as the dialog lists them.
    pub const LABELS: [&'static str; 4] = ["Fit to page", "Fill page", "Actual size", "Custom"];

    /// The place of this mode in the list that the dialog shows.
    pub open spec fn index_of(self) -> u32 {
        match self {
            Fit::Page => 0,
            Fit::Fill => 1,
            Fit::Actual => 2,
            Fit::Custom => 3,
        }
    }

    /// The mode at a place of that list. What is in no place of it means `Fit::Page`.
    pub open spec fn at_index(index: u32) -> Fit {
        if index == 1 {
            Fit::Fill
        } else if index == 2 {
            Fit::Actual
        } else if index == 3 {
            Fit::Custom
        } else {
            Fit::Page
        }
    }

    /// The name that the dialog shows for this mode.
    pub open spec fn label_of(self) -> Seq<char> {
        match self {
            Fit::Page => "Fit to page"@,
            Fit::Fill => "Fill page"@,
            Fit::Actual => "Actual size"@,
            Fit::Custom => "Custom"@,
        }
    }

    pub fn index(self) -> (res: u32)
        ensures
            res == self.index_of(),
    {
        match self {
            Fit::Page => 0,
            Fit::Fill => 1,
            Fit::Actual => 2,
            Fit::Custom => 3,
        }
    }

    pub fn from_index(index: u32) -> (res: Fit)
        ensures
            res == Fit::at_index(index),
    {
        match index {
            1 => Fit::Fill,
            2 => Fit::Actual,
            3 => Fit::Custom,
            _ => Fit::Page,
        }
    }
}

/// The list names each mode at its place.
pub proof fn law_labels_stand_in_order(fit: Fit)
    ensures
        Fit::LABELS@.len() == 4,
        Fit::LABELS@[fit.index_of() as int]@ == fit.label_of(),
{
}

/// A mode is found again at its place in the list.
pub proof fn law_index_round_trip(fit: Fit)
    ensures
        fit.index_of() < 4,
        Fit::at_index(fit.index_of()) == fit,
{
}

/// The first four places hold four different modes.
pub proof fn law_places_hold_their_modes(index: u32)
    requires
        index < 4,
    ensures
        Fit::at_index(index).index_of() == index,
{
}

/// The places of the list: the whole image, the whole area, the size on screen, any size. Any
/// other place stands for the first.
pub proof fn law_list_of_modes(index: u32)
    ensures
        Fit::Page.index_of() == 0 && Fit::Fill.index_of() == 1 && Fit::Actual.index_of() == 2
            && Fit::Custom.index_of() == 3,
        index == 1 <==> Fit::at_index(index) == Fit::Fill,
        index == 2 <==> Fit::at_index(index) == Fit::Actual,
        index == 3 <==> Fit::at_index(index) == Fit::Custom,
{
}

} // verus!
