//! What the controls of the dialog show.

use vstd::prelude::*;
use vstd::string::*;

use crate::decimal::{append_tenths, append_whole, tenths_text, whole_text};
use crate::dialog::{anchor, anchor_of, EventModel, Reply, Ui, UiModel};
use crate::dialog_laws::{has_anchor, law_anchors_differ};
use crate::fit::Fit;
use crate::number::Number;
use crate::placement::{points_to_mm, pt_per_mm};
use crate::sheet::{Layout, LayoutModel, Orientation, SheetModel};

verus! {

/// What the controls stand for.
pub struct ControlsModel {
    pub fit: u32,
    pub scale_percent: real,
    pub width_mm: real,
    pub height_mm: real,
    pub margin_mm: real,
    pub rotate: bool,
    pub orientation: u32,
    pub paper: Seq<char>,
    pub anchors: Seq<bool>,
    pub info: Seq<char>,
}

impl SheetModel {
    /// The paper, by its name and its size in whole millimeters.
    pub open spec fn paper_text(self) -> Seq<char> {
        self.name + " — "@ + whole_text(self.size_mm.0) + " × "@ + whole_text(self.size_mm.1)
            + " mm"@
    }
}

impl LayoutModel {
    /// Whether the anchor with this index is in effect.
    pub open spec fn anchor_active(self, index: nat) -> bool {
        self.image.offset is None && self.image.align == anchor_of(index)
    }

    /// The size of the image in pixels and on paper, and the resolution that comes of them.
    pub open spec fn info_text(self) -> Seq<char> {
        whole_text(self.image.image_px.0) + " × "@ + whole_text(self.image.image_px.1)
            + " px  →  "@ + tenths_text(self.image_rect().2 / pt_per_mm()) + " × "@ + tenths_text(
            self.image_rect().3 / pt_per_mm(),
        ) + " mm at "@ + whole_text(self.effective_dpi()) + " dpi"@
    }

    pub open spec fn controls(self) -> ControlsModel {
        ControlsModel {
            fit: self.image.fit.index_of(),
            scale_percent: self.scale_for() * (100 as real),
            width_mm: self.image_rect().2 / pt_per_mm(),
            height_mm: self.image_rect().3 / pt_per_mm(),
            margin_mm: self.image.margin_mm,
            rotate: self.image.rotate,
            orientation: self.page.orientation.index_of(),
            paper: self.page.paper_text(),
            anchors: Seq::new(9, |i: int| self.anchor_active(i as nat)),
            info: self.info_text(),
        }
    }
}

/// What each control of the dialog shows.
#[derive(Debug)]
pub struct Controls {
    /// The selected place of the scaling list.
    pub fit: u32,
    pub scale_percent: Number,
    pub width_mm: Number,
    pub height_mm: Number,
    pub margin_mm: Number,
    pub rotate: bool,
    /// The selected place of the orientation list.
    pub orientation: u32,
    /// The label of the paper button.
    pub paper: String,
    /// Which of the nine anchor buttons is down.
    pub anchors: Vec<bool>,
    /// The line below the controls.
    pub info: String,
}

impl View for Controls {
    type V = ControlsModel;

    open spec fn view(&self) -> ControlsModel {
        ControlsModel {
            fit: self.fit,
            scale_percent: self.scale_percent@,
            width_mm: self.width_mm@,
            height_mm: self.height_mm@,
            margin_mm: self.margin_mm@,
            rotate: self.rotate,
            orientation: self.orientation,
            paper: self.paper@,
            anchors: self.anchors@,
            info: self.info@,
        }
    }
}

impl Layout {
    fn paper_text(&self) -> (res: String)
        ensures
            res@ == self@.page.paper_text(),
    {
        let mut text = self.page.name.clone();
        text.append(" — ");
        append_whole(&mut text, &self.page.size_mm.0);
        text.append(" × ");
        append_whole(&mut text, &self.page.size_mm.1);
        text.append(" mm");
        text
    }

    fn info_text(&self, width_mm: &Number, height_mm: &Number, dpi: &Number) -> (res: String)
        requires
            width_mm@ == self@.image_rect().2 / pt_per_mm(),
            height_mm@ == self@.image_rect().3 / pt_per_mm(),
            dpi@ == self@.effective_dpi(),
        ensures
            res@ == self@.info_text(),
    {
        let mut text = String::new();
        append_whole(&mut text, &self.image.image_px.0);
        assert(text@ =~= whole_text(self.image.image_px.0@));
        text.append(" × ");
        append_whole(&mut text, &self.image.image_px.1);
        text.append(" px  →  ");
        append_tenths(&mut text, width_mm);
        text.append(" × ");
        append_tenths(&mut text, height_mm);
        text.append(" mm at ");
        append_whole(&mut text, dpi);
        text.append(" dpi");
        text
    }

    fn active_anchors(&self) -> (res: Vec<bool>)
        ensures
            res@ == Seq::new(9, |i: int| self@.anchor_active(i as nat)),
    {
        let mut anchors: Vec<bool> = Vec::new();
        let mut i: u32 = 0;
        while i < 9
            invariant
                i <= 9,
                anchors@.len() == i,
                forall|j: int|
                    0 <= j < i ==> #[trigger] anchors@[j] == self@.anchor_active(j as nat),
            decreases 9 - i,
        {
            let (x, y) = anchor(i);
            let anchored: bool = self.image.offset.is_none();
            anchors.push(
                anchored && self.image.align.0.equals(&x) && self.image.align.1.equals(&y),
            );
            i += 1;
        }
        assert(anchors@ =~= Seq::new(9, |i: int| self@.anchor_active(i as nat)));
        anchors
    }

    /// What the controls show of this layout.
    pub fn controls(&self) -> (res: Controls)
        ensures
            res@ == self@.controls(),
    {
        let (pw, ph) = self.page_size();
        let (_, _, w, h) = self.image.image_rect(&pw, &ph);
        let width_mm = points_to_mm(&w);
        let height_mm = points_to_mm(&h);
        let dpi = self.image.effective_dpi(&pw, &ph);
        let info = self.info_text(&width_mm, &height_mm, &dpi);
        Controls {
            fit: self.image.fit.index(),
            scale_percent: self.image.scale_for(&pw, &ph).times(&Number::from_int(100)),
            width_mm,
            height_mm,
            margin_mm: self.image.margin_mm.clone(),
            rotate: self.image.rotate,
            orientation: self.page.orientation.index(),
            paper: self.paper_text(),
            anchors: self.active_anchors(),
            info,
        }
    }
}

impl UiModel {
    /// The state while a refresh runs, or when it is over.
    pub open spec fn refreshing(self, on: bool) -> UiModel {
        UiModel { syncing: on, ..self }
    }
}

impl Ui {
    /// Begin to push the layout into every control. The single direction - layout to controls,
    /// never control to control - is what keeps the four coupled size fields (fit, scale, width,
    /// height) from chasing each other.
    pub fn refresh(&mut self) -> (res: Controls)
        ensures
            final(self)@ == old(self)@.refreshing(true),
            final(self)@ == (UiModel { syncing: true, ..old(self)@ }),
            res@ == old(self)@.layout.controls(),
    {
        self.syncing = true;
        self.layout.controls()
    }

    /// All controls are written.
    pub fn finish_refresh(&mut self)
        ensures
            final(self)@ == old(self)@.refreshing(false),
            final(self)@ == (UiModel { syncing: false, ..old(self)@ }),
    {
        self.syncing = false;
    }
}

/// No more than one anchor is down, and none while the image is where it was dragged.
pub proof fn law_one_anchor_at_most(layout: LayoutModel, i: int, j: int)
    requires
        0 <= i < 9,
        0 <= j < 9,
        layout.controls().anchors[i],
        layout.controls().anchors[j],
    ensures
        i == j,
        layout.image.offset is None,
{
    law_anchors_differ(i as nat, j as nat);
}

/// An anchored image shows its anchor: one button is down unless the image was dragged.
pub proof fn law_anchored_image_shows_its_anchor(layout: LayoutModel)
    requires
        has_anchor(layout),
        layout.image.offset is None,
    ensures
        exists|i: int| 0 <= i < 9 && #[trigger] layout.controls().anchors[i],
{
    let i = choose|i: nat| i < 9 && layout.image.align == #[trigger] anchor_of(i);
    assert(layout.controls().anchors[i as int]);
}

/// The anchor that was clicked is the one that is down, whether or not it was down before.
pub proof fn law_clicked_anchor_is_down(ui: UiModel, index: u32, other: int)
    requires
        !ui.syncing,
        index < 9,
        0 <= other < 9,
    ensures
        ui.after(EventModel::AnchorToggled(index, true)).0.layout.controls().anchors[other]
            == (other == index as int),
{
    law_anchors_differ(index as nat, other as nat);
}

/// Releasing an anchor changes nothing: the refresh that follows shows what was shown.
pub proof fn law_released_anchor_stays(ui: UiModel, index: u32)
    ensures
        ui.after(EventModel::AnchorToggled(index, false)).0 == ui,
{
}

/// What each control shows. The lists show the mode and the way the sheet lies, the scale field
/// the percentage of its size on screen at which the image is printed, the width and height
/// fields how far it reaches across and down the page in millimeters, whichever way it is turned,
/// and an anchor is down where the image is at it.
pub proof fn law_controls_show_the_layout(layout: LayoutModel)
    ensures
        ({
            let shown = layout.controls();
            let image = layout.image;
            let (pw, ph) = layout.page.size_pt;
            let (_, _, w, h) = image.image_rect(pw, ph);
            &&& shown.fit == match image.fit {
                Fit::Page => 0u32,
                Fit::Fill => 1u32,
                Fit::Actual => 2u32,
                Fit::Custom => 3u32,
            }
            &&& shown.scale_percent == (100 as real) * image.scale_for(pw, ph)
            &&& shown.width_mm * (720 as real) == w * (254 as real)
            &&& shown.height_mm * (720 as real) == h * (254 as real)
            &&& shown.margin_mm == image.margin_mm
            &&& shown.rotate == image.rotate
            &&& shown.orientation == match layout.page.orientation {
                Orientation::Portrait => 0u32,
                Orientation::ReversePortrait => 0u32,
                Orientation::Landscape => 1u32,
                Orientation::ReverseLandscape => 1u32,
            }
            &&& shown.anchors.len() == 9
            &&& forall|row: int, column: int|
                #![trigger shown.anchors[3 * row + column]]
                0 <= row < 3 && 0 <= column < 3 ==> (shown.anchors[3 * row + column] <==> {
                    &&& image.offset is None
                    &&& (2 as real) * image.align.0 == column as real
                    &&& (2 as real) * image.align.1 == row as real
                })
        }),
{
    let shown = layout.controls();
    let (w, h, k) = (layout.image_rect().2, layout.image_rect().3, pt_per_mm());
    lemma_millimeters(w);
    lemma_millimeters(h);
    assert forall|row: int, column: int|
        #![trigger shown.anchors[3 * row + column]]
        0 <= row < 3 && 0 <= column < 3 implies (shown.anchors[3 * row + column] <==> {
        &&& layout.image.offset is None
        &&& (2 as real) * layout.image.align.0 == column as real
        &&& (2 as real) * layout.image.align.1 == row as real
    }) by {
        let i = (3 * row + column) as nat;
        assert(i % 3 == column && i / 3 == row);
        assert(shown.anchors[3 * row + column] == layout.anchor_active(i));
    }
}

proof fn lemma_millimeters(points: real)
    ensures
        (points / pt_per_mm()) * (720 as real) == points * (254 as real),
{
    let k = pt_per_mm();
    assert((points / k) * (720 as real) == points * (254 as real)) by (nonlinear_arith)
        requires
            k * (127 as real) == 360 as real,
    ;
}

/// What a control shows and reports back has no effect on where and how large the image is
/// printed. The size and margin fields and the list of orientations change nothing at all.
pub proof fn law_shown_values_are_no_change(ui: UiModel)
    ensures
        ({
            let shown = ui.layout.controls();
            &&& ui.after(EventModel::ScaleChanged(shown.scale_percent)) == (ui, Reply::Ignore)
            &&& ui.after(EventModel::WidthChanged(shown.width_mm)) == (ui, Reply::Ignore)
            &&& ui.after(EventModel::HeightChanged(shown.height_mm)) == (ui, Reply::Ignore)
            &&& ui.after(EventModel::MarginChanged(shown.margin_mm)) == (ui, Reply::Ignore)
            &&& ui.after(EventModel::OrientationSelected(shown.orientation)).0 == ui
            &&& ui.layout.image.offset is None ==> {
                &&& ui.after(EventModel::RotateToggled(shown.rotate)).0 == ui
                &&& ui.after(EventModel::FitSelected(shown.fit)).0.layout.image_rect()
                    == ui.layout.image_rect()
            }
        }),
{
}

/// The label of the paper button names the paper and gives its width and height in whole
/// millimeters.
pub proof fn law_paper_is_named_with_its_size(layout: LayoutModel)
    ensures
        layout.controls().paper == layout.page.name + " — "@ + whole_text(layout.page.size_mm.0)
            + " × "@ + whole_text(layout.page.size_mm.1) + " mm"@,
{
}

/// The line below the controls agrees with the fields: it gives the pixels of the image as it is,
/// the width and height that the fields show to one place, and the resolution that the printer is
/// asked for.
pub proof fn law_info_agrees_with_the_fields(layout: LayoutModel)
    ensures
        ({
            let shown = layout.controls();
            let (pw, ph) = layout.page.size_pt;
            shown.info == whole_text(layout.image.image_px.0) + " × "@ + whole_text(
                layout.image.image_px.1,
            ) + " px  →  "@ + tenths_text(shown.width_mm) + " × "@ + tenths_text(shown.height_mm)
                + " mm at "@ + whole_text(layout.image.effective_dpi(pw, ph)) + " dpi"@
        }),
{
}

/// A refresh leaves no trace: whatever its controls report while it runs, the dialog is
/// afterwards what it was before.
pub proof fn law_refresh_leaves_no_trace(ui: UiModel, event: EventModel)
    requires
        !ui.syncing,
        event is OrientationSelected || event is FitSelected || event is ScaleChanged
            || event is WidthChanged || event is HeightChanged || event is MarginChanged
            || event is RotateToggled || event is AnchorToggled,
    ensures
        ui.refreshing(true).after(event) == (ui.refreshing(true), Reply::Ignore),
        ui.refreshing(true).refreshing(false) == ui,
        ui.refreshing(true).layout == ui.layout,
{
}

} // verus!
