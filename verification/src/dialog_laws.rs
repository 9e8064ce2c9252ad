//! What holds of every state of the dialog and of every event.

use vstd::prelude::*;

use crate::dialog::{anchor_of, is_echo, min_scale, opened, EventModel, Reply, UiModel};
use crate::fit::Fit;
use crate::number::{clamp_of, max_of, round_half_even};
use crate::placement::{min_on_page, pt_per_mm, PlacementModel};
use crate::placement_laws::{
    law_anchored_inside_or_over_the_area, law_area, law_clamping_keeps_on_sheet, on_sheet,
};
use crate::sheet::{LayoutModel, SheetModel};

verus! {

/// A dragged image reaches onto the sheet it is shown on.
pub open spec fn layout_on_sheet(layout: LayoutModel) -> bool {
    on_sheet(layout.image, layout.page_size().0, layout.page_size().1)
}

/// A fresh dialog shows an anchored image.
pub proof fn law_opens_on_sheet(image_w: real, image_h: real, page: SheetModel)
    ensures
        layout_on_sheet(opened(image_w, image_h, page).layout),
        opened(image_w, image_h, page).layout.image.offset is None,
{
}

proof fn lemma_clamped_on_sheet(layout: LayoutModel)
    ensures
        layout_on_sheet(layout.clamped()),
{
    law_clamping_keeps_on_sheet(layout.image, layout.page_size().0, layout.page_size().1);
}

proof fn lemma_custom_on_sheet(layout: LayoutModel, scale: real)
    ensures
        layout_on_sheet(layout.custom(scale)),
{
    lemma_clamped_on_sheet(
        layout.with_image(
            PlacementModel {
                fit: Fit::Custom,
                scale: max_of(scale, min_scale()),
                ..layout.image
            },
        ),
    );
}

/// No event loses a dragged image off the sheet that it is shown on.
pub proof fn law_events_keep_the_image_on_sheet(ui: UiModel, event: EventModel)
    requires
        layout_on_sheet(ui.layout),
    ensures
        layout_on_sheet(ui.after(event).0.layout),
{
    let layout = ui.layout;
    let image = layout.image;
    if !ui.is_own_echo(event) {
        match event {
            EventModel::DragUpdate(dx, dy) => {
                let scale = ui.view.2;
                let offset = (ui.drag_start.0 + dx / scale, ui.drag_start.1 + dy / scale);
                lemma_clamped_on_sheet(
                    layout.with_image(PlacementModel { offset: Some(offset), ..image }),
                );
            },
            EventModel::PaperChosen(page) => {
                lemma_clamped_on_sheet(
                    LayoutModel {
                        page,
                        image: PlacementModel { margin_mm: page.uniform_margin(), ..image },
                    },
                );
            },
            EventModel::ScaleChanged(value) => {
                lemma_custom_on_sheet(layout, value / (100 as real));
            },
            EventModel::WidthChanged(value) => {
                lemma_custom_on_sheet(layout, value * pt_per_mm() / image.natural().0);
            },
            EventModel::HeightChanged(value) => {
                lemma_custom_on_sheet(layout, value * pt_per_mm() / image.natural().1);
            },
            EventModel::MarginChanged(value) => {
                lemma_clamped_on_sheet(
                    layout.with_image(PlacementModel { margin_mm: value, ..image }),
                );
            },
            _ => {},
        }
    }
}

/// No event changes the image itself, and none but a refresh starts or ends syncing.
pub proof fn law_events_keep_the_image(ui: UiModel, event: EventModel)
    ensures
        ui.after(event).0.layout.image.image_px == ui.layout.image.image_px,
        ui.after(event).0.syncing == ui.syncing,
        ui.after(event).0.view == ui.view,
{
}

/// What the controls show is up to date: a layout changes only where a refresh follows.
pub proof fn law_changes_are_refreshed(ui: UiModel, event: EventModel)
    requires
        ui.after(event).1 != Reply::Refresh,
    ensures
        ui.after(event).0.layout == ui.layout,
{
}

/// While a refresh writes the controls, nothing that they report has any effect.
pub proof fn law_refresh_does_not_read_its_echo(ui: UiModel, event: EventModel)
    requires
        ui.syncing,
        event is OrientationSelected || event is FitSelected || event is ScaleChanged
            || event is WidthChanged || event is HeightChanged || event is MarginChanged
            || event is RotateToggled || event is AnchorToggled,
    ensures
        ui.after(event) == (ui, Reply::Ignore),
{
}

/// A field that reports back what it shows, up to half of its last digit, has no effect.
pub proof fn law_fields_do_not_read_their_echo(ui: UiModel, value: real)
    ensures
        is_echo(value, ui.layout.scale_for() * (100 as real)) ==> ui.after(
            EventModel::ScaleChanged(value),
        ) == (ui, Reply::Ignore),
        is_echo(value, ui.layout.image_rect().2 / pt_per_mm()) ==> ui.after(
            EventModel::WidthChanged(value),
        ) == (ui, Reply::Ignore),
        is_echo(value, ui.layout.image_rect().3 / pt_per_mm()) ==> ui.after(
            EventModel::HeightChanged(value),
        ) == (ui, Reply::Ignore),
        is_echo(value, ui.layout.image.margin_mm) ==> ui.after(EventModel::MarginChanged(value))
            == (ui, Reply::Ignore),
{
}

/// Switching to `Fit::Custom` keeps the size the image had; an anchored image does not move
/// either.
pub proof fn law_custom_keeps_the_size(ui: UiModel)
    requires
        !ui.syncing,
    ensures
        ({
            let next = ui.after(EventModel::FitSelected(Fit::Custom.index_of())).0;
            &&& next.layout.image.fit == Fit::Custom
            &&& next.layout.scale_for() == ui.layout.scale_for()
            &&& next.layout.image_rect().2 == ui.layout.image_rect().2
            &&& next.layout.image_rect().3 == ui.layout.image_rect().3
            &&& ui.layout.image.offset is None ==> next.layout.image_rect()
                == ui.layout.image_rect()
        }),
{
}

/// The list shows the mode that was chosen from it.
pub proof fn law_fit_is_shown_as_chosen(ui: UiModel, index: u32)
    requires
        !ui.syncing,
        index < 4,
    ensures
        ui.after(EventModel::FitSelected(index)).0.layout.image.fit.index_of() == index,
{
}

/// The scale field takes effect as it reads, down to the smallest scale.
pub proof fn law_typed_scale_is_printed(ui: UiModel, value: real)
    requires
        !ui.syncing,
        ui.layout.image.has_extent(),
        !is_echo(value, ui.layout.scale_for() * (100 as real)),
        value / (100 as real) >= min_scale(),
    ensures
        ({
            let next = ui.after(EventModel::ScaleChanged(value)).0;
            &&& next.layout.image.fit == Fit::Custom
            &&& next.layout.scale_for() * (100 as real) == value
        }),
{
}

proof fn lemma_scaled_natural(value: real, natural: real)
    requires
        natural > 0 as real,
    ensures
        natural * (value * pt_per_mm() / natural) / pt_per_mm() == value,
{
    let t = value * pt_per_mm();
    let s = t / natural;
    assert(natural * s == t) by (nonlinear_arith)
        requires
            s == t / natural,
            natural > 0 as real,
    ;
    let k = pt_per_mm();
    assert(t / k == value) by (nonlinear_arith)
        requires
            t == value * k,
            k > 0 as real,
    ;
}

/// The width field takes effect as it reads, down to the smallest scale.
pub proof fn law_typed_width_is_printed(ui: UiModel, value: real)
    requires
        !ui.syncing,
        ui.layout.image.has_extent(),
        !is_echo(value, ui.layout.image_rect().2 / pt_per_mm()),
        value * pt_per_mm() / ui.layout.image.natural().0 >= min_scale(),
    ensures
        ({
            let next = ui.after(EventModel::WidthChanged(value)).0;
            &&& next.layout.image.fit == Fit::Custom
            &&& next.layout.image_rect().2 / pt_per_mm() == value
        }),
{
    lemma_scaled_natural(value, ui.layout.image.natural().0);
}

/// The height field takes effect as it reads, down to the smallest scale.
pub proof fn law_typed_height_is_printed(ui: UiModel, value: real)
    requires
        !ui.syncing,
        ui.layout.image.has_extent(),
        !is_echo(value, ui.layout.image_rect().3 / pt_per_mm()),
        value * pt_per_mm() / ui.layout.image.natural().1 >= min_scale(),
    ensures
        ({
            let next = ui.after(EventModel::HeightChanged(value)).0;
            &&& next.layout.image.fit == Fit::Custom
            &&& next.layout.image_rect().3 / pt_per_mm() == value
        }),
{
    lemma_scaled_natural(value, ui.layout.image.natural().1);
}

/// The margin field takes effect as it reads.
pub proof fn law_typed_margin_is_kept(ui: UiModel, value: real)
    requires
        !ui.syncing,
        !is_echo(value, ui.layout.image.margin_mm),
    ensures
        ui.after(EventModel::MarginChanged(value)).0.layout.image.margin_mm == value,
{
}

/// Where the sheet or the image changes shape, the image goes back to its anchor.
pub proof fn law_reshaping_anchors_again(ui: UiModel, event: EventModel)
    requires
        !ui.syncing,
        event is PageTurned || event is FitSelected || event is RotateToggled,
    ensures
        ui.after(event).0.layout.image.offset is None,
        ui.after(event).0.layout.image.align == ui.layout.image.align,
{
}

/// Dragging moves the image by the distance that the pointer has moved on the sheet, as far as
/// the image stays on it.
pub proof fn law_dragging_follows_the_pointer(ui: UiModel, dx: real, dy: real)
    requires
        ui.view.2 > 0 as real,
    ensures
        ({
            let (x, y, w, h) = ui.layout.image_rect();
            let (pw, ph) = ui.layout.page_size();
            let held = ui.after(EventModel::DragBegin).0;
            let next = held.after(EventModel::DragUpdate(dx, dy)).0;
            next.layout.image_rect() == (
                clamp_of(
                    x + dx / ui.view.2,
                    min_on_page() - w,
                    max_of(pw - min_on_page(), min_on_page() - w),
                ),
                clamp_of(
                    y + dy / ui.view.2,
                    min_on_page() - h,
                    max_of(ph - min_on_page(), min_on_page() - h),
                ),
                w,
                h,
            )
        }),
{
}

/// Where a drag ends depends on where it began and where the pointer is, not on its way.
pub proof fn law_dragging_forgets_its_way(ui: UiModel, via: (real, real), to: (real, real))
    requires
        ui.view.2 > 0 as real,
    ensures
        ui.after(EventModel::DragUpdate(via.0, via.1)).0.after(
            EventModel::DragUpdate(to.0, to.1),
        ) == ui.after(EventModel::DragUpdate(to.0, to.1)),
{
}

/// Turning the image and turning it back restores its size.
pub proof fn law_turning_back_restores_the_size(ui: UiModel)
    requires
        !ui.syncing,
    ensures
        ({
            let turned = ui.after(EventModel::RotateToggled(!ui.layout.image.rotate)).0;
            let back = turned.after(EventModel::RotateToggled(ui.layout.image.rotate)).0;
            &&& turned.layout.image.natural() == (
                ui.layout.image.natural().1,
                ui.layout.image.natural().0,
            )
            &&& back.layout.image_rect().2 == ui.layout.image_rect().2
            &&& back.layout.image_rect().3 == ui.layout.image_rect().3
            &&& ui.layout.image.offset is None ==> back == ui
        }),
{
}

/// The nine anchors are nine different alignments, each inside the printable area.
pub proof fn law_anchors_differ(i: nat, j: nat)
    requires
        i < 9,
        j < 9,
    ensures
        anchor_of(i) == anchor_of(j) <==> i == j,
        0 as real <= anchor_of(i).0 && anchor_of(i).0 <= 1 as real,
        0 as real <= anchor_of(i).1 && anchor_of(i).1 <= 1 as real,
{
    assert(i == 3 * (i / 3) + i % 3);
    assert(j == 3 * (j / 3) + j % 3);
}

/// A new sheet brings its own margin.
pub proof fn law_paper_brings_its_margin(ui: UiModel, page: SheetModel)
    ensures
        ui.after(EventModel::PaperChosen(page)).0.layout.page == page,
        ui.after(EventModel::PaperChosen(page)).0.layout.image.margin_mm == page.uniform_margin(),
{
}

/// Opening the dialog again on the remembered sheet throws away neither the paper nor the margin
/// that were set up, and where the margin is that of the sheet, the whole sheet comes back with
/// each of its four margins. The margin field holds no negative number.
pub proof fn law_reopening_keeps_paper_and_margin(layout: LayoutModel, image_w: real, image_h: real)
    requires
        layout.image.margin_mm >= 0 as real,
    ensures
        ({
            let next = opened(image_w, image_h, layout.remembered()).layout;
            &&& next.image.margin_mm == layout.image.margin_mm
            &&& next.page.name == layout.page.name
            &&& next.page.orientation == layout.page.orientation
            &&& next.page.size_pt == layout.page.size_pt
            &&& next.page.size_mm == layout.page.size_mm
            &&& next.area() == layout.area()
            &&& layout.image.margin_mm == layout.page.uniform_margin() ==> next.page == layout.page
        }),
{
}

/// A margin that the margin field can hold.
pub open spec fn margin_in_range(event: EventModel) -> bool {
    event matches EventModel::MarginChanged(value) ==> value >= 0 as real
}

/// No margin ever becomes negative: sheets bring none, and the field holds none.
pub proof fn law_margin_is_never_negative(
    image_w: real,
    image_h: real,
    page: SheetModel,
    events: Seq<EventModel>,
)
    requires
        forall|i: int| 0 <= i < events.len() ==> margin_in_range(#[trigger] events[i]),
    ensures
        after_all(opened(image_w, image_h, page), events).layout.image.margin_mm >= 0 as real,
    decreases events.len(),
{
    if events.len() > 0 {
        let earlier = events.drop_last();
        assert forall|i: int| 0 <= i < earlier.len() implies margin_in_range(
            #[trigger] earlier[i],
        ) by {
            assert(earlier[i] == events[i]);
        }
        law_margin_is_never_negative(image_w, image_h, page, earlier);
        assert(margin_in_range(events[events.len() - 1]));
    }
}

/// Whatever happened to a dialog, the next one starts with the margin that was in effect, on the
/// same sheet.
pub proof fn law_reopening_after_any_events(
    image_w: real,
    image_h: real,
    page: SheetModel,
    events: Seq<EventModel>,
    next_w: real,
    next_h: real,
)
    requires
        forall|i: int| 0 <= i < events.len() ==> margin_in_range(#[trigger] events[i]),
    ensures
        ({
            let layout = after_all(opened(image_w, image_h, page), events).layout;
            let next = opened(next_w, next_h, layout.remembered()).layout;
            &&& next.image.margin_mm == layout.image.margin_mm
            &&& next.page.orientation == layout.page.orientation
            &&& next.page.size_pt == layout.page.size_pt
            &&& layout.image.margin_mm == layout.page.uniform_margin() ==> next.page == layout.page
        }),
{
    let layout = after_all(opened(image_w, image_h, page), events).layout;
    law_margin_is_never_negative(image_w, image_h, page, events);
    law_reopening_keeps_paper_and_margin(layout, next_w, next_h);
}

/// The image is anchored, or was before it was dragged, at one of the nine anchors.
pub open spec fn has_anchor(layout: LayoutModel) -> bool {
    exists|i: nat| i < 9 && layout.image.align == #[trigger] anchor_of(i)
}

/// One anchor is always in effect unless the image was dragged somewhere custom: the dialog
/// opens at the middle one, and every event keeps an anchor.
pub proof fn law_an_anchor_is_in_effect(ui: UiModel, event: EventModel)
    requires
        has_anchor(ui.layout),
        event matches EventModel::AnchorToggled(index, _) ==> index < 9,
    ensures
        has_anchor(ui.after(event).0.layout),
{
    let next = ui.after(event).0.layout.image.align;
    if next == ui.layout.image.align {
        let i = choose|i: nat| i < 9 && ui.layout.image.align == #[trigger] anchor_of(i);
        assert(next == anchor_of(i));
    } else {
        assert(event is AnchorToggled);
    }
}

pub proof fn law_opens_at_the_middle_anchor(image_w: real, image_h: real, page: SheetModel)
    ensures
        has_anchor(opened(image_w, image_h, page).layout),
        opened(image_w, image_h, page).layout.image.align == anchor_of(4),
{
    assert(opened(image_w, image_h, page).layout.image.align == anchor_of(4));
}

/// No event makes the image vanish: a scale above zero stays above zero, in every mode.
pub proof fn law_scale_stays_positive(ui: UiModel, event: EventModel)
    requires
        ui.layout.image.scale > 0 as real,
    ensures
        ui.after(event).0.layout.image.scale > 0 as real,
        ui.after(event).0.layout.scale_for() > 0 as real,
{
    lemma_printed_scale_is_positive(ui.layout);
    lemma_printed_scale_is_positive(ui.after(event).0.layout);
}

proof fn lemma_printed_scale_is_positive(layout: LayoutModel)
    ensures
        layout.image.scale > 0 as real ==> layout.scale_for() > 0 as real,
{
    let (nw, nh) = layout.image.natural();
    let (_, _, aw, ah) = layout.area();
    if layout.image.has_extent() {
        assert(aw / nw > 0 as real) by (nonlinear_arith)
            requires
                aw >= 1 as real,
                nw > 0 as real,
        ;
        assert(ah / nh > 0 as real) by (nonlinear_arith)
            requires
                ah >= 1 as real,
                nh > 0 as real,
        ;
    }
}

/// A fitted image never lands inside a margin the printer cannot reach: with the margin that a
/// sheet brings, it keeps its distance from every edge that the sheet asks for.
pub proof fn law_fitted_image_keeps_the_margins_of_the_sheet(layout: LayoutModel)
    requires
        layout.image.margin_mm == layout.page.uniform_margin(),
        layout.image.fit == Fit::Page,
        layout.image.offset is None,
        layout.image.has_extent(),
        has_anchor(layout),
        layout.page_size().0 >= (2 as real) * (layout.image.margin_mm * pt_per_mm()) + (1 as real),
        layout.page_size().1 >= (2 as real) * (layout.image.margin_mm * pt_per_mm()) + (1 as real),
    ensures
        ({
            let (x, y, w, h) = layout.image_rect();
            let page = layout.page;
            &&& x >= page.left_mm * pt_per_mm()
            &&& y >= page.top_mm * pt_per_mm()
            &&& x + w <= page.size_pt.0 - page.right_mm * pt_per_mm()
            &&& y + h <= page.size_pt.1 - page.bottom_mm * pt_per_mm()
        }),
{
    let page = layout.page;
    let (pw, ph) = layout.page_size();
    let i = choose|i: nat| i < 9 && layout.image.align == #[trigger] anchor_of(i);
    law_anchors_differ(i, i);
    law_anchored_inside_or_over_the_area(layout.image, pw, ph);
    law_area(layout.image, pw, ph);
    lemma_margin_in_points(page.left_mm, layout.image.margin_mm);
    lemma_margin_in_points(page.top_mm, layout.image.margin_mm);
    lemma_margin_in_points(page.right_mm, layout.image.margin_mm);
    lemma_margin_in_points(page.bottom_mm, layout.image.margin_mm);
}

proof fn lemma_margin_in_points(side: real, margin: real)
    requires
        side <= margin,
    ensures
        side * pt_per_mm() <= margin * pt_per_mm(),
{
    let k = pt_per_mm();
    assert(side * k <= margin * k) by (nonlinear_arith)
        requires
            side <= margin,
            k > 0 as real,
    ;
}

/// What is true of every state of the dialog.
pub open spec fn is_sound(layout: LayoutModel) -> bool {
    &&& layout_on_sheet(layout)
    &&& has_anchor(layout)
    &&& layout.image.scale > 0 as real
}

/// An event that the dialog can report: it has nine anchor buttons.
pub open spec fn is_possible(event: EventModel) -> bool {
    event matches EventModel::AnchorToggled(index, _) ==> index < 9
}

/// The state after a whole row of events.
pub open spec fn after_all(ui: UiModel, events: Seq<EventModel>) -> UiModel
    decreases events.len(),
{
    if events.len() == 0 {
        ui
    } else {
        after_all(ui, events.drop_last()).after(events.last()).0
    }
}

/// Whatever happens to a dialog after it was opened, a dragged image stays on the sheet, the
/// image has an anchor to go back to, and it is printed at some size.
pub proof fn law_every_state_is_sound(
    image_w: real,
    image_h: real,
    page: SheetModel,
    events: Seq<EventModel>,
)
    requires
        forall|i: int| 0 <= i < events.len() ==> is_possible(#[trigger] events[i]),
    ensures
        is_sound(after_all(opened(image_w, image_h, page), events).layout),
        after_all(opened(image_w, image_h, page), events).layout.scale_for() > 0 as real,
        after_all(opened(image_w, image_h, page), events).layout.image.image_px == (
            image_w,
            image_h,
        ),
    decreases events.len(),
{
    let start = opened(image_w, image_h, page);
    if events.len() == 0 {
        law_opens_on_sheet(image_w, image_h, page);
        law_opens_at_the_middle_anchor(image_w, image_h, page);
        lemma_printed_scale_is_positive(start.layout);
    } else {
        let earlier = events.drop_last();
        assert forall|i: int| 0 <= i < earlier.len() implies is_possible(#[trigger] earlier[i]) by {
            assert(earlier[i] == events[i]);
        }
        law_every_state_is_sound(image_w, image_h, page, earlier);
        let before = after_all(start, earlier);
        let event = events.last();
        assert(is_possible(events[events.len() - 1]));
        law_events_keep_the_image_on_sheet(before, event);
        law_an_anchor_is_in_effect(before, event);
        law_scale_stays_positive(before, event);
        law_events_keep_the_image(before, event);
    }
}

/// A value as a field with one decimal place shows it.
pub open spec fn snapped(value: real) -> real {
    (round_half_even(value * (10 as real)) as real) / (10 as real)
}

/// A field that snaps to the digit it shows, when the focus leaves it, changes nothing, unless
/// the value lies halfway between two digits.
pub proof fn law_snapping_is_an_echo(value: real)
    requires
        value * (10 as real) - ((value * (10 as real)).floor() as real) != (1 as real) / (
        2 as real),
    ensures
        is_echo(snapped(value), value),
{
}

} // verus!
