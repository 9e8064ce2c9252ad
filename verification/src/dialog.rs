//! The print dialog as a state that events change.

use vstd::prelude::*;

use crate::fit::Fit;
use crate::number::{abs_of, max_of, Number};
use crate::placement::{mm_to_points, points_to_mm, pt_per_mm, Placement, PlacementModel};
use crate::sheet::{uniform_margin, Layout, LayoutModel, Orientation, Sheet, SheetModel};

verus! {

/// Half of a spin button's last displayed digit. A spin button re-snaps its value to the shown
/// precision whenever focus leaves it and reports a change doing so, which would otherwise read
/// as the user typing a size and flip the mode to `Fit::Custom` just for tabbing past the field.
/// A change smaller than this is that echo.
pub open spec fn spin_epsilon() -> real {
    (1 as real) / (20 as real)
}

/// Whether a field reports back what it shows.
pub open spec fn is_echo(value: real, shown: real) -> bool {
    abs_of(value - shown) < spin_epsilon()
}

/// The smallest scale that a field can set.
pub open spec fn min_scale() -> real {
    (1 as real) / (1000 as real)
}

/// The alignment of an anchor button. The nine of them are laid out the way they sit on the
/// sheet, three to a row.
pub open spec fn anchor_of(index: nat) -> (real, real) {
    (((index % 3) as real) / (2 as real), ((index / 3) as real) / (2 as real))
}

pub fn anchor(index: u32) -> (res: (Number, Number))
    ensures
        res@ == anchor_of(index as nat),
{
    (Number::ratio((index % 3) as i64, 2), Number::ratio((index / 3) as i64, 2))
}

fn echoes(value: &Number, shown: &Number) -> (res: bool)
    ensures
        res == is_echo(value@, shown@),
{
    value.minus(shown).magnitude().less(&Number::ratio(1, 20))
}

/// What an event stands for.
pub enum EventModel {
    DragBegin,
    DragUpdate(real, real),
    PaperChosen(SheetModel),
    OrientationSelected(u32),
    PageTurned(SheetModel),
    FitSelected(u32),
    ScaleChanged(real),
    WidthChanged(real),
    HeightChanged(real),
    MarginChanged(real),
    RotateToggled(bool),
    AnchorToggled(u32, bool),
}

/// What can happen to the dialog.
#[derive(Debug)]
pub enum Event {
    /// The pointer went down on the preview.
    DragBegin,
    /// The pointer has moved this far, in preview coordinates, since it went down.
    DragUpdate(Number, Number),
    /// The page setup dialog settled on a sheet.
    PaperChosen(Sheet),
    /// A place of the orientation list was selected.
    OrientationSelected(u32),
    /// The page setup was turned as asked, and this is the sheet now.
    PageTurned(Sheet),
    /// A place of the scaling list was selected.
    FitSelected(u32),
    /// The scale field holds this many percent.
    ScaleChanged(Number),
    /// The width field holds this many millimeters.
    WidthChanged(Number),
    /// The height field holds this many millimeters.
    HeightChanged(Number),
    /// The margin field holds this many millimeters.
    MarginChanged(Number),
    RotateToggled(bool),
    /// The anchor button with this index went down (`true`) or up.
    AnchorToggled(u32, bool),
}

impl View for Event {
    type V = EventModel;

    open spec fn view(&self) -> EventModel {
        match self {
            Event::DragBegin => EventModel::DragBegin,
            Event::DragUpdate(dx, dy) => EventModel::DragUpdate(dx@, dy@),
            Event::PaperChosen(page) => EventModel::PaperChosen(page@),
            Event::OrientationSelected(index) => EventModel::OrientationSelected(*index),
            Event::PageTurned(page) => EventModel::PageTurned(page@),
            Event::FitSelected(index) => EventModel::FitSelected(*index),
            Event::ScaleChanged(value) => EventModel::ScaleChanged(value@),
            Event::WidthChanged(value) => EventModel::WidthChanged(value@),
            Event::HeightChanged(value) => EventModel::HeightChanged(value@),
            Event::MarginChanged(value) => EventModel::MarginChanged(value@),
            Event::RotateToggled(active) => EventModel::RotateToggled(*active),
            Event::AnchorToggled(index, active) => EventModel::AnchorToggled(*index, *active),
        }
    }
}

/// What the dialog has to do after an event.
#[derive(Clone, Copy, PartialEq, Eq, Structural, Debug)]
pub enum Reply {
    /// Nothing.
    Ignore,
    /// Push the layout into every control and repaint the sheet.
    Refresh,
    /// Turn the page setup this way, and report the sheet with `Event::PageTurned`.
    Turn(Orientation),
}

/// What the state of the dialog stands for.
pub struct UiModel {
    pub layout: LayoutModel,
    pub syncing: bool,
    pub view: (real, real, real),
    pub drag_start: (real, real),
}

impl LayoutModel {
    pub open spec fn with_image(self, image: PlacementModel) -> LayoutModel {
        LayoutModel { image, ..self }
    }

    /// The layout at a scale that a field asks for.
    pub open spec fn custom(self, scale: real) -> LayoutModel {
        self.with_image(
            PlacementModel { fit: Fit::Custom, scale: max_of(scale, min_scale()), ..self.image },
        ).clamped()
    }
}

impl UiModel {
    pub open spec fn with_layout(self, layout: LayoutModel) -> UiModel {
        UiModel { layout, ..self }
    }

    pub open spec fn with_image(self, image: PlacementModel) -> UiModel {
        self.with_layout(self.layout.with_image(image))
    }

    /// Whether an event comes from a control that reports back what a refresh has just put into
    /// it. Dragging and the page setup dialog are no such control.
    pub open spec fn is_own_echo(self, event: EventModel) -> bool {
        self.syncing && match event {
            EventModel::DragBegin => false,
            EventModel::DragUpdate(_, _) => false,
            EventModel::PaperChosen(_) => false,
            EventModel::PageTurned(_) => false,
            _ => true,
        }
    }

    /// The state after an event, and what has to be done then.
    pub open spec fn after(self, event: EventModel) -> (UiModel, Reply) {
        let layout = self.layout;
        let image = layout.image;
        if self.is_own_echo(event) {
            (self, Reply::Ignore)
        } else {
            match event {
                EventModel::DragBegin => (
                    UiModel {
                        drag_start: (layout.image_rect().0, layout.image_rect().1),
                        ..self
                    },
                    Reply::Ignore,
                ),
                EventModel::DragUpdate(dx, dy) => {
                    let scale = self.view.2;
                    if scale <= 0 as real {
                        (self, Reply::Ignore)
                    } else {
                        let offset = (
                            self.drag_start.0 + dx / scale,
                            self.drag_start.1 + dy / scale,
                        );
                        (
                            self.with_layout(
                                layout.with_image(
                                    PlacementModel { offset: Some(offset), ..image },
                                ).clamped(),
                            ),
                            Reply::Refresh,
                        )
                    }
                },
                EventModel::PaperChosen(page) => (
                    self.with_layout(
                        (LayoutModel {
                            page,
                            image: PlacementModel { margin_mm: page.uniform_margin(), ..image },
                        }).clamped(),
                    ),
                    Reply::Refresh,
                ),
                EventModel::OrientationSelected(index) => (
                    self,
                    Reply::Turn(Orientation::at_index(index)),
                ),
                // The sheet changed shape under it; re-anchor rather than leave the image
                // hanging off the new edge.
                EventModel::PageTurned(page) => (
                    self.with_layout(
                        LayoutModel { page, image: PlacementModel { offset: None, ..image } },
                    ),
                    Reply::Refresh,
                ),
                // Switching to Custom keeps the size it had, so the image doesn't jump the
                // moment the mode changes.
                EventModel::FitSelected(index) => {
                    let fit = Fit::at_index(index);
                    let scale = if fit == Fit::Custom {
                        layout.scale_for()
                    } else {
                        image.scale
                    };
                    (
                        self.with_image(PlacementModel { fit, scale, offset: None, ..image }),
                        Reply::Refresh,
                    )
                },
                EventModel::ScaleChanged(value) => {
                    if is_echo(value, layout.scale_for() * (100 as real)) {
                        (self, Reply::Ignore)
                    } else {
                        (self.with_layout(layout.custom(value / (100 as real))), Reply::Refresh)
                    }
                },
                EventModel::WidthChanged(value) => {
                    let natural = image.natural().0;
                    if is_echo(value, layout.image_rect().2 / pt_per_mm()) {
                        (self, Reply::Ignore)
                    } else if natural > 0 as real {
                        (
                            self.with_layout(layout.custom(value * pt_per_mm() / natural)),
                            Reply::Refresh,
                        )
                    } else {
                        (self, Reply::Refresh)
                    }
                },
                EventModel::HeightChanged(value) => {
                    let natural = image.natural().1;
                    if is_echo(value, layout.image_rect().3 / pt_per_mm()) {
                        (self, Reply::Ignore)
                    } else if natural > 0 as real {
                        (
                            self.with_layout(layout.custom(value * pt_per_mm() / natural)),
                            Reply::Refresh,
                        )
                    } else {
                        (self, Reply::Refresh)
                    }
                },
                EventModel::MarginChanged(value) => {
                    if is_echo(value, image.margin_mm) {
                        (self, Reply::Ignore)
                    } else {
                        (
                            self.with_layout(
                                layout.with_image(
                                    PlacementModel { margin_mm: value, ..image },
                                ).clamped(),
                            ),
                            Reply::Refresh,
                        )
                    }
                },
                EventModel::RotateToggled(active) => (
                    self.with_image(PlacementModel { rotate: active, offset: None, ..image }),
                    Reply::Refresh,
                ),
                // Clicking the active anchor again changes nothing: the refresh puts it straight
                // back, since one anchor is always in effect unless the image was dragged
                // somewhere custom.
                EventModel::AnchorToggled(index, active) => {
                    if active {
                        (
                            self.with_image(
                                PlacementModel {
                                    align: anchor_of(index as nat),
                                    offset: None,
                                    ..image
                                },
                            ),
                            Reply::Refresh,
                        )
                    } else {
                        (self, Reply::Refresh)
                    }
                },
            }
        }
    }
}

/// The state of the dialog.
#[derive(Debug)]
pub struct Ui {
    pub layout: Layout,
    /// True while a refresh writes the controls from the layout, so the events that they report
    /// don't read their own echo back.
    pub syncing: bool,
    /// Page origin and scale of the last preview, in widget coordinates. The drag handler
    /// converts pointer motion with it.
    pub view: (Number, Number, Number),
    pub drag_start: (Number, Number),
}

impl View for Ui {
    type V = UiModel;

    open spec fn view(&self) -> UiModel {
        UiModel {
            layout: self.layout@,
            syncing: self.syncing,
            view: self.view@,
            drag_start: self.drag_start@,
        }
    }
}

/// The state in which the dialog opens: the whole image in the middle of the printable area.
pub open spec fn opened(image_w: real, image_h: real, page: SheetModel) -> UiModel {
    let half = (1 as real) / (2 as real);
    UiModel {
        layout: LayoutModel {
            page,
            image: PlacementModel {
                margin_mm: page.uniform_margin(),
                fit: Fit::Page,
                scale: 1 as real,
                rotate: false,
                offset: None,
                align: (half, half),
                image_px: (image_w, image_h),
            },
        },
        syncing: false,
        view: (0 as real, 0 as real, 1 as real),
        drag_start: (0 as real, 0 as real),
    }
}

/// Open the print dialog for an image of the given size in pixels.
pub fn open(image_w: i32, image_h: i32, page: Sheet) -> (res: Ui)
    ensures
        res@ == opened(image_w as real, image_h as real, page@),
{
    let margin_mm = uniform_margin(&page);
    Ui {
        layout: Layout {
            page,
            image: Placement {
                margin_mm,
                fit: Fit::Page,
                scale: Number::from_int(1),
                rotate: false,
                offset: None,
                align: (Number::ratio(1, 2), Number::ratio(1, 2)),
                image_px: (Number::from_int(image_w as i64), Number::from_int(image_h as i64)),
            },
        },
        syncing: false,
        view: (Number::from_int(0), Number::from_int(0), Number::from_int(1)),
        drag_start: (Number::from_int(0), Number::from_int(0)),
    }
}

impl Ui {
    fn drag_begin(&mut self) -> (res: Reply)
        ensures
            (final(self)@, res) == old(self)@.after(EventModel::DragBegin),
    {
        let (pw, ph) = self.layout.page_size();
        let (x, y, _, _) = self.layout.image.image_rect(&pw, &ph);
        self.drag_start = (x, y);
        Reply::Ignore
    }

    fn drag_update(&mut self, dx: &Number, dy: &Number) -> (res: Reply)
        ensures
            (final(self)@, res) == old(self)@.after(EventModel::DragUpdate(dx@, dy@)),
    {
        let scale = self.view.2.clone();
        if !scale.is_positive() {
            return Reply::Ignore;
        }
        let x = self.drag_start.0.plus(&dx.over(&scale));
        let y = self.drag_start.1.plus(&dy.over(&scale));
        self.layout.image.offset = Some((x, y));
        self.layout.clamp_offset();
        Reply::Refresh
    }

    fn paper_chosen(&mut self, page: Sheet) -> (res: Reply)
        ensures
            (final(self)@, res) == old(self)@.after(EventModel::PaperChosen(page@)),
    {
        self.layout.image.margin_mm = uniform_margin(&page);
        self.layout.page = page;
        self.layout.clamp_offset();
        Reply::Refresh
    }

    fn orientation_selected(&mut self, index: u32) -> (res: Reply)
        ensures
            (final(self)@, res) == old(self)@.after(EventModel::OrientationSelected(index)),
    {
        if self.syncing {
            return Reply::Ignore;
        }
        Reply::Turn(Orientation::from_index(index))
    }

    fn page_turned(&mut self, page: Sheet) -> (res: Reply)
        ensures
            (final(self)@, res) == old(self)@.after(EventModel::PageTurned(page@)),
    {
        self.layout.page = page;
        self.layout.image.offset = None;
        Reply::Refresh
    }

    fn fit_selected(&mut self, index: u32) -> (res: Reply)
        ensures
            (final(self)@, res) == old(self)@.after(EventModel::FitSelected(index)),
    {
        if self.syncing {
            return Reply::Ignore;
        }
        let (pw, ph) = self.layout.page_size();
        let current = self.layout.image.scale_for(&pw, &ph);
        self.layout.image.fit = Fit::from_index(index);
        if self.layout.image.fit == Fit::Custom {
            self.layout.image.scale = current.reduced();
        }
        self.layout.image.offset = None;
        Reply::Refresh
    }

    /// Take over a scale that a field asks for.
    fn set_custom_scale(&mut self, scale: &Number)
        ensures
            final(self)@ == old(self)@.with_layout(old(self)@.layout.custom(scale@)),
    {
        self.layout.image.fit = Fit::Custom;
        self.layout.image.scale = scale.larger(&Number::ratio(1, 1000)).reduced();
        self.layout.clamp_offset();
    }

    fn scale_changed(&mut self, value: &Number) -> (res: Reply)
        ensures
            (final(self)@, res) == old(self)@.after(EventModel::ScaleChanged(value@)),
    {
        if self.syncing {
            return Reply::Ignore;
        }
        let (pw, ph) = self.layout.page_size();
        let hundred = Number::from_int(100);
        let shown = self.layout.image.scale_for(&pw, &ph).times(&hundred);
        if echoes(value, &shown) {
            return Reply::Ignore;
        }
        self.set_custom_scale(&value.over(&hundred));
        Reply::Refresh
    }

    fn width_changed(&mut self, value: &Number) -> (res: Reply)
        ensures
            (final(self)@, res) == old(self)@.after(EventModel::WidthChanged(value@)),
    {
        if self.syncing {
            return Reply::Ignore;
        }
        let (pw, ph) = self.layout.page_size();
        let (_, _, shown, _) = self.layout.image.image_rect(&pw, &ph);
        if echoes(value, &points_to_mm(&shown)) {
            return Reply::Ignore;
        }
        let (nw, _) = self.layout.image.natural();
        if nw.is_positive() {
            self.set_custom_scale(&mm_to_points(value).over(&nw));
        }
        Reply::Refresh
    }

    fn height_changed(&mut self, value: &Number) -> (res: Reply)
        ensures
            (final(self)@, res) == old(self)@.after(EventModel::HeightChanged(value@)),
    {
        if self.syncing {
            return Reply::Ignore;
        }
        let (pw, ph) = self.layout.page_size();
        let (_, _, _, shown) = self.layout.image.image_rect(&pw, &ph);
        if echoes(value, &points_to_mm(&shown)) {
            return Reply::Ignore;
        }
        let (_, nh) = self.layout.image.natural();
        if nh.is_positive() {
            self.set_custom_scale(&mm_to_points(value).over(&nh));
        }
        Reply::Refresh
    }

    fn margin_changed(&mut self, value: &Number) -> (res: Reply)
        ensures
            (final(self)@, res) == old(self)@.after(EventModel::MarginChanged(value@)),
    {
        if self.syncing || echoes(value, &self.layout.image.margin_mm) {
            return Reply::Ignore;
        }
        self.layout.image.margin_mm = value.clone();
        self.layout.clamp_offset();
        Reply::Refresh
    }

    fn rotate_toggled(&mut self, active: bool) -> (res: Reply)
        ensures
            (final(self)@, res) == old(self)@.after(EventModel::RotateToggled(active)),
    {
        if self.syncing {
            return Reply::Ignore;
        }
        self.layout.image.rotate = active;
        self.layout.image.offset = None;
        Reply::Refresh
    }

    fn anchor_toggled(&mut self, index: u32, active: bool) -> (res: Reply)
        ensures
            (final(self)@, res) == old(self)@.after(EventModel::AnchorToggled(index, active)),
    {
        if self.syncing {
            return Reply::Ignore;
        }
        if active {
            self.layout.image.align = anchor(index);
            self.layout.image.offset = None;
        }
        Reply::Refresh
    }

    /// Take in an event and say what has to be done.
    pub fn handle(&mut self, event: Event) -> (res: Reply)
        ensures
            (final(self)@, res) == old(self)@.after(event@),
    {
        match event {
            Event::DragBegin => self.drag_begin(),
            Event::DragUpdate(dx, dy) => self.drag_update(&dx, &dy),
            Event::PaperChosen(page) => self.paper_chosen(page),
            Event::OrientationSelected(index) => self.orientation_selected(index),
            Event::PageTurned(page) => self.page_turned(page),
            Event::FitSelected(index) => self.fit_selected(index),
            Event::ScaleChanged(value) => self.scale_changed(&value),
            Event::WidthChanged(value) => self.width_changed(&value),
            Event::HeightChanged(value) => self.height_changed(&value),
            Event::MarginChanged(value) => self.margin_changed(&value),
            Event::RotateToggled(active) => self.rotate_toggled(active),
            Event::AnchorToggled(index, active) => self.anchor_toggled(index, active),
        }
    }
}

} // verus!
