//! What each event does to the dialog, and what it leaves alone.

use vstd::prelude::*;

use crate::dialog::{min_scale, opened, EventModel, Reply, UiModel};
use crate::fit::Fit;
use crate::number::max_of;
use crate::placement::{pt_per_mm, PlacementModel};
use crate::placement_laws::{
    is_pulled_back, law_anchors, law_area_keeps_the_margins, law_aspect_ratio_is_kept,
    law_clamping_pulls_back, law_natural_size, law_size_in_every_mode,
};
use crate::sheet::{LayoutModel, Orientation, SheetModel};

verus! {

/// Whether two values of a field are at least half of its last digit apart, so that going from
/// the one to the other is a change.
pub open spec fn differs(value: real, shown: real) -> bool {
    value - shown >= (1 as real) / (20 as real) || shown - value >= (1 as real) / (20 as real)
}

/// The event of typing into one of the three size fields.
pub open spec fn typed_size(field: int, value: real) -> EventModel {
    if field == 0 {
        EventModel::ScaleChanged(value)
    } else if field == 1 {
        EventModel::WidthChanged(value)
    } else {
        EventModel::HeightChanged(value)
    }
}

/// What the three size fields show: percent of the size on screen, and millimeters across and
/// down the page.
pub open spec fn shown_size(layout: LayoutModel, field: int) -> real {
    let (_, _, w, h) = layout.image_rect();
    if field == 0 {
        layout.scale_for() * (100 as real)
    } else if field == 1 {
        w * (254 as real) / (720 as real)
    } else {
        h * (254 as real) / (720 as real)
    }
}

/// The length in points that a size field measures at 100 %.
pub open spec fn measured_side(image: PlacementModel, field: int) -> real {
    if field == 2 {
        image.natural().1
    } else {
        image.natural().0
    }
}

/// A fresh dialog shows the image upright, whole, in the middle of the printable area and on the
/// sheet it was given, with the widest margin of that sheet. Nothing is being dragged, and no
/// refresh runs.
pub proof fn law_opens_upright_and_whole(image_w: real, image_h: real, page: SheetModel)
    ensures
        ({
            let ui = opened(image_w, image_h, page);
            let image = ui.layout.image;
            let (x, y, w, h) = ui.layout.image_rect();
            let (ax, ay, aw, ah) = ui.layout.area();
            &&& ui.layout.page == page
            &&& image.image_px == (image_w, image_h)
            &&& !image.rotate
            &&& image.fit == Fit::Page
            &&& image.scale == 1 as real
            &&& image.offset is None
            &&& image.margin_mm >= 0 as real
            &&& image.margin_mm >= page.top_mm && image.margin_mm >= page.right_mm
            &&& image.margin_mm >= page.bottom_mm && image.margin_mm >= page.left_mm
            &&& image.margin_mm == 0 as real || image.margin_mm == page.top_mm || image.margin_mm
                == page.right_mm || image.margin_mm == page.bottom_mm || image.margin_mm
                == page.left_mm
            &&& image.align.0 + image.align.0 == 1 as real
            &&& image.align.1 + image.align.1 == 1 as real
            &&& x - ax == (ax + aw) - (x + w)
            &&& y - ay == (ay + ah) - (y + h)
            &&& image_w > 0 as real && image_h > 0 as real ==> {
                &&& w <= aw && h <= ah
                &&& w == aw || h == ah
                &&& w * image_h == h * image_w
            }
            &&& !ui.syncing
            &&& ui.view == (0 as real, 0 as real, 1 as real)
            &&& ui.drag_start == (0 as real, 0 as real)
        }),
{
    let ui = opened(image_w, image_h, page);
    let (pw, ph) = ui.layout.page_size();
    law_size_in_every_mode(ui.layout.image, pw, ph);
    law_aspect_ratio_is_kept(ui.layout.image, pw, ph);
    law_anchors(ui.layout.image, pw, ph);
}

/// Pressing the pointer takes note of the corner of the image and does nothing else.
pub proof fn law_drag_begin(ui: UiModel)
    ensures
        ({
            let (next, reply) = ui.after(EventModel::DragBegin);
            let (x, y, _, _) = ui.layout.image_rect();
            &&& next == (UiModel { drag_start: (x, y), ..ui })
            &&& reply == Reply::Ignore
        }),
{
}

/// Moving the pointer moves the image from where it was pressed by as much of the sheet as the
/// pointer has gone over, pulls it back onto the sheet, and does nothing else. Without a preview
/// nothing moves.
pub proof fn law_drag_update(ui: UiModel, dx: real, dy: real)
    ensures
        ({
            let (next, reply) = ui.after(EventModel::DragUpdate(dx, dy));
            let (_, _, w, h) = ui.layout.image_rect();
            let scale = ui.view.2;
            &&& scale <= 0 as real ==> next == ui && reply == Reply::Ignore
            &&& scale > 0 as real ==> {
                let to = (ui.drag_start.0 + dx / scale, ui.drag_start.1 + dy / scale);
                let moved = PlacementModel {
                    offset: next.layout.image.offset,
                    ..ui.layout.image
                };
                &&& next == (UiModel {
                    layout: LayoutModel { page: ui.layout.page, image: moved },
                    ..ui
                })
                &&& is_pulled_back(Some(to), moved.offset, (w, h), ui.layout.page.size_pt)
                &&& reply == Reply::Refresh
            }
        }),
{
    let scale = ui.view.2;
    let (pw, ph) = ui.layout.page_size();
    law_clamping_pulls_back(
        PlacementModel {
            offset: Some((ui.drag_start.0 + dx / scale, ui.drag_start.1 + dy / scale)),
            ..ui.layout.image
        },
        pw,
        ph,
    );
}

/// A chosen paper becomes the sheet, and its widest margin the margin. A dragged image is pulled
/// back onto it; all else of the image stays.
pub proof fn law_paper_chosen(ui: UiModel, page: SheetModel)
    ensures
        ({
            let (next, reply) = ui.after(EventModel::PaperChosen(page));
            let image = next.layout.image;
            let (_, _, w, h) = image.image_rect(page.size_pt.0, page.size_pt.1);
            &&& next == (UiModel { layout: LayoutModel { page, image }, ..ui })
            &&& image == (PlacementModel {
                margin_mm: image.margin_mm,
                offset: image.offset,
                ..ui.layout.image
            })
            &&& image.margin_mm >= 0 as real
            &&& image.margin_mm >= page.top_mm && image.margin_mm >= page.right_mm
            &&& image.margin_mm >= page.bottom_mm && image.margin_mm >= page.left_mm
            &&& image.margin_mm == 0 as real || image.margin_mm == page.top_mm || image.margin_mm
                == page.right_mm || image.margin_mm == page.bottom_mm || image.margin_mm
                == page.left_mm
            &&& is_pulled_back(ui.layout.image.offset, image.offset, (w, h), page.size_pt)
            &&& reply == Reply::Refresh
        }),
{
    law_clamping_pulls_back(
        PlacementModel { margin_mm: page.uniform_margin(), ..ui.layout.image },
        page.size_pt.0,
        page.size_pt.1,
    );
}

/// Selecting an orientation asks for the sheet to be turned that way, and waits for it.
pub proof fn law_orientation_selected(ui: UiModel, index: u32)
    requires
        !ui.syncing,
    ensures
        ui.after(EventModel::OrientationSelected(index)).0 == ui,
        ui.after(EventModel::OrientationSelected(1)).1 == Reply::Turn(Orientation::Landscape),
        index != 1 ==> ui.after(EventModel::OrientationSelected(index)).1 == Reply::Turn(
            Orientation::Portrait,
        ),
{
}

/// A turned sheet is the sheet from then on, with its own size, and the image goes back to its
/// anchor on it. All else of the image stays.
pub proof fn law_page_turned(ui: UiModel, page: SheetModel)
    ensures
        ({
            let (next, reply) = ui.after(EventModel::PageTurned(page));
            &&& next.layout.page == page
            &&& next.layout.page_size() == page.size_pt
            &&& next.layout.image == (PlacementModel { offset: None, ..ui.layout.image })
            &&& next == (UiModel { layout: next.layout, ..ui })
            &&& reply == Reply::Refresh
        }),
{
}

/// On a turned sheet a fitted image is as large as that sheet lets it be, within the same margin.
pub proof fn law_turned_sheet_sizes_the_image(ui: UiModel, page: SheetModel)
    requires
        ui.layout.image.fit == Fit::Page,
        ui.layout.image.image_px.0 > 0 as real,
        ui.layout.image.image_px.1 > 0 as real,
        page.size_pt.0 >= (2 as real) * (ui.layout.image.margin_mm * (720 as real) / (254 as real))
            + (1 as real),
        page.size_pt.1 >= (2 as real) * (ui.layout.image.margin_mm * (720 as real) / (254 as real))
            + (1 as real),
    ensures
        ({
            let (_, _, w, h) = ui.after(EventModel::PageTurned(page)).0.layout.image_rect();
            let margin = ui.layout.image.margin_mm * (720 as real) / (254 as real);
            let room_w = page.size_pt.0 - margin - margin;
            let room_h = page.size_pt.1 - margin - margin;
            &&& w <= room_w && h <= room_h
            &&& w == room_w || h == room_h
        }),
{
    let image = ui.after(EventModel::PageTurned(page)).0.layout.image;
    law_area_keeps_the_margins(image, page.size_pt.0, page.size_pt.1);
    law_size_in_every_mode(image, page.size_pt.0, page.size_pt.1);
}

/// A selected mode is the mode from then on, and the image goes back to its anchor. Its scale is
/// kept, but for `Fit::Custom`, which takes over the scale that the image was printed at. All else
/// stays.
pub proof fn law_fit_selected(ui: UiModel, index: u32)
    requires
        !ui.syncing,
    ensures
        ({
            let (next, reply) = ui.after(EventModel::FitSelected(index));
            let image = next.layout.image;
            &&& next == (UiModel { layout: LayoutModel { page: ui.layout.page, image }, ..ui })
            &&& image == (PlacementModel {
                fit: image.fit,
                scale: image.scale,
                offset: None,
                ..ui.layout.image
            })
            &&& image.fit == Fit::Fill <==> index == 1
            &&& image.fit == Fit::Actual <==> index == 2
            &&& image.fit == Fit::Custom <==> index == 3
            &&& index != 3 ==> image.scale == ui.layout.image.scale
            &&& index == 3 ==> image.scale == ui.layout.scale_for() && next.layout.scale_for()
                == ui.layout.scale_for()
            &&& reply == Reply::Refresh
        }),
{
}

/// Typing a size sets the mode to `Fit::Custom` and the scale, and pulls a dragged image back
/// onto the sheet. The image stays turned as it is, at its anchor, with its margin, on its sheet.
pub proof fn law_typing_a_size_leaves_the_rest(ui: UiModel, field: int, value: real)
    requires
        0 <= field < 3,
    ensures
        ({
            let (next, reply) = ui.after(typed_size(field, value));
            let image = next.layout.image;
            let (pw, ph) = ui.layout.page.size_pt;
            let (_, _, w, h) = image.image_rect(pw, ph);
            &&& next == (UiModel { layout: LayoutModel { page: ui.layout.page, image }, ..ui })
            &&& image.rotate == ui.layout.image.rotate
            &&& image.align == ui.layout.image.align
            &&& image.margin_mm == ui.layout.image.margin_mm
            &&& image.image_px == ui.layout.image.image_px
            &&& image == ui.layout.image || {
                &&& image.fit == Fit::Custom
                &&& is_pulled_back(ui.layout.image.offset, image.offset, (w, h), (pw, ph))
                &&& reply == Reply::Refresh
            }
        }),
{
    lemma_fields_show_millimeters(ui.layout);
    let image = ui.layout.image;
    let layout = ui.layout;
    let (pw, ph) = layout.page_size();
    let scale = if field == 0 {
        value / (100 as real)
    } else if field == 1 {
        value * pt_per_mm() / image.natural().0
    } else {
        value * pt_per_mm() / image.natural().1
    };
    lemma_custom(layout, scale);
}

proof fn lemma_custom(layout: LayoutModel, scale: real)
    ensures
        ({
            let next = layout.custom(scale);
            let (pw, ph) = layout.page.size_pt;
            let (_, _, w, h) = next.image.image_rect(pw, ph);
            &&& next.page == layout.page
            &&& next.image == (PlacementModel {
                fit: Fit::Custom,
                scale: next.image.scale,
                offset: next.image.offset,
                ..layout.image
            })
            &&& scale >= (1 as real) / (1000 as real) ==> next.image.scale == scale
            &&& scale < (1 as real) / (1000 as real) ==> next.image.scale == (1 as real) / (
            1000 as real)
            &&& is_pulled_back(layout.image.offset, next.image.offset, (w, h), (pw, ph))
        }),
{
    let (pw, ph) = layout.page_size();
    law_clamping_pulls_back(
        PlacementModel {
            fit: Fit::Custom,
            scale: max_of(scale, min_scale()),
            ..layout.image
        },
        pw,
        ph,
    );
}

proof fn lemma_fields_show_millimeters(layout: LayoutModel)
    ensures
        shown_size(layout, 1) == layout.image_rect().2 / pt_per_mm(),
        shown_size(layout, 2) == layout.image_rect().3 / pt_per_mm(),
{
    let (w, h, k) = (layout.image_rect().2, layout.image_rect().3, pt_per_mm());
    assert(w / k == w * (254 as real) / (720 as real) && h / k == h * (254 as real) / (720 as real))
        by (nonlinear_arith)
        requires
            k * (127 as real) == 360 as real,
    ;
}

/// A size that is typed is what is printed. Where a field goes to a value that differs from what
/// it shows by half of its last digit or more, it shows that value afterwards, unless that is
/// under a thousandth of the size on screen; then it is that thousandth. Where it differs by
/// less, nothing happens at all.
pub proof fn law_typed_size_is_printed(ui: UiModel, field: int, value: real)
    requires
        0 <= field < 3,
        !ui.syncing,
        ui.layout.image.image_px.0 > 0 as real,
        ui.layout.image.image_px.1 > 0 as real,
    ensures
        ({
            let (next, reply) = ui.after(typed_size(field, value));
            let smallest = if field == 0 {
                (1 as real) / (10 as real)
            } else {
                measured_side(ui.layout.image, field) * (254 as real) / (720000 as real)
            };
            &&& !differs(value, shown_size(ui.layout, field)) ==> next == ui && reply
                == Reply::Ignore
            &&& differs(value, shown_size(ui.layout, field)) ==> {
                &&& reply == Reply::Refresh
                &&& next.layout.image.fit == Fit::Custom
                &&& shown_size(next.layout, field) == if value < smallest {
                    smallest
                } else {
                    value
                }
            }
        }),
{
    let layout = ui.layout;
    let image = layout.image;
    law_natural_size(image);
    lemma_fields_show_millimeters(layout);
    if differs(value, shown_size(layout, field)) {
        let (next, reply) = ui.after(typed_size(field, value));
        let n = measured_side(image, field);
        let k = pt_per_mm();
        let scale = if field == 0 {
            value / (100 as real)
        } else {
            value * k / n
        };
        assert(next.layout == layout.custom(scale));
        lemma_custom(layout, scale);
        law_natural_size(next.layout.image);
        lemma_fields_show_millimeters(next.layout);
        let s = next.layout.image.scale;
        assert(next.layout.scale_for() == s);
        if field != 0 {
            let t = value * k;
            let least = (1 as real) / (1000 as real);
            assert((scale < least <==> t < n * least) && n * scale == t) by (nonlinear_arith)
                requires
                    scale == t / n,
                    n > 0 as real,
            ;
            assert((t < n * least <==> value < n * (254 as real) / (720000 as real)) && t * (
            254 as real) / (720 as real) == value && (n * least) * (254 as real) / (720 as real)
                == n * (254 as real) / (720000 as real)) by (nonlinear_arith)
                requires
                    t == value * k,
                    k * (127 as real) == 360 as real,
                    least * (1000 as real) == 1 as real,
            ;
        }
    }
}

/// The scale that a typed size comes to, also where the image has no pixels the other way: a
/// hundredth of the percentage, or the typed length in points over the length at 100 %, and never
/// less than a thousandth.
pub proof fn law_typed_scale(ui: UiModel, field: int, value: real)
    requires
        0 <= field < 3,
        !ui.syncing,
        differs(value, shown_size(ui.layout, field)),
        field == 0 || measured_side(ui.layout.image, field) > 0 as real,
    ensures
        ({
            let (next, reply) = ui.after(typed_size(field, value));
            let image = next.layout.image;
            let (asked, whole) = if field == 0 {
                (value, 100 as real)
            } else {
                (value * (720 as real) / (254 as real), measured_side(ui.layout.image, field))
            };
            &&& reply == Reply::Refresh
            &&& image.fit == Fit::Custom
            &&& asked >= whole / (1000 as real) ==> image.scale * whole == asked
            &&& asked < whole / (1000 as real) ==> image.scale == (1 as real) / (1000 as real)
        }),
{
    let layout = ui.layout;
    lemma_fields_show_millimeters(layout);
    let next = ui.after(typed_size(field, value)).0.layout;
    let k = pt_per_mm();
    let (t, n) = if field == 0 {
        (value, 100 as real)
    } else {
        (value * k, measured_side(layout.image, field))
    };
    let scale = t / n;
    assert(next == layout.custom(scale));
    lemma_custom(layout, scale);
    assert(value * k == value * (720 as real) / (254 as real)) by (nonlinear_arith)
        requires
            k * (127 as real) == 360 as real,
    ;
    let least = (1 as real) / (1000 as real);
    assert((scale < least <==> t < n / (1000 as real)) && scale * n == t) by (nonlinear_arith)
        requires
            scale == t / n,
            n > 0 as real,
            least * (1000 as real) == 1 as real,
    ;
}

/// An image without pixels across takes no width, and one without pixels down no height; the
/// field is put back by a refresh.
pub proof fn law_no_size_without_pixels(ui: UiModel, field: int, value: real)
    requires
        1 <= field < 3,
        measured_side(ui.layout.image, field) <= 0 as real,
    ensures
        ui.after(typed_size(field, value)).0 == ui,
        !ui.syncing && differs(value, shown_size(ui.layout, field)) ==> ui.after(
            typed_size(field, value),
        ).1 == Reply::Refresh,
{
    lemma_fields_show_millimeters(ui.layout);
}

/// A margin that is typed is the margin from then on, where it differs from what the field shows;
/// a dragged image is pulled back onto the sheet, and all else stays.
pub proof fn law_margin_changed(ui: UiModel, value: real)
    requires
        !ui.syncing,
    ensures
        ({
            let (next, reply) = ui.after(EventModel::MarginChanged(value));
            let image = next.layout.image;
            let (pw, ph) = ui.layout.page.size_pt;
            let (_, _, w, h) = image.image_rect(pw, ph);
            &&& !differs(value, ui.layout.image.margin_mm) ==> next == ui && reply == Reply::Ignore
            &&& differs(value, ui.layout.image.margin_mm) ==> {
                &&& next == (UiModel { layout: LayoutModel { page: ui.layout.page, image }, ..ui })
                &&& image == (PlacementModel {
                    margin_mm: value,
                    offset: image.offset,
                    ..ui.layout.image
                })
                &&& is_pulled_back(ui.layout.image.offset, image.offset, (w, h), (pw, ph))
                &&& reply == Reply::Refresh
            }
        }),
{
    let (pw, ph) = ui.layout.page_size();
    law_clamping_pulls_back(PlacementModel { margin_mm: value, ..ui.layout.image }, pw, ph);
}

/// Turning the image turns it, puts it back to its anchor, and does nothing else.
pub proof fn law_rotate_toggled(ui: UiModel, active: bool)
    requires
        !ui.syncing,
    ensures
        ({
            let (next, reply) = ui.after(EventModel::RotateToggled(active));
            let image = PlacementModel { rotate: active, offset: None, ..ui.layout.image };
            &&& next == (UiModel { layout: LayoutModel { page: ui.layout.page, image }, ..ui })
            &&& reply == Reply::Refresh
        }),
{
}

/// Clicking an anchor puts the image there: the three of a row go from the left edge of the
/// printable area over its middle to the right edge, the three rows from the top down. All else
/// stays. Releasing one shows what was shown.
pub proof fn law_anchor_toggled(ui: UiModel, row: u32, column: u32, active: bool)
    requires
        !ui.syncing,
        row < 3,
        column < 3,
    ensures
        ({
            let index = (3 * row + column) as u32;
            let (next, reply) = ui.after(EventModel::AnchorToggled(index, active));
            let image = next.layout.image;
            let (x, y, w, h) = next.layout.image_rect();
            let (ax, ay, aw, ah) = ui.layout.area();
            &&& reply == Reply::Refresh
            &&& !active ==> next == ui
            &&& active ==> {
                &&& next == (UiModel { layout: LayoutModel { page: ui.layout.page, image }, ..ui })
                &&& image == (PlacementModel {
                    align: image.align,
                    offset: None,
                    ..ui.layout.image
                })
                &&& (2 as real) * image.align.0 == column as real
                &&& (2 as real) * image.align.1 == row as real
                &&& column == 0 ==> x == ax
                &&& column == 1 ==> x - ax == (ax + aw) - (x + w)
                &&& column == 2 ==> x + w == ax + aw
                &&& row == 0 ==> y == ay
                &&& row == 1 ==> y - ay == (ay + ah) - (y + h)
                &&& row == 2 ==> y + h == ay + ah
            }
        }),
{
    let index = (3 * row + column) as u32;
    assert(index % 3 == column && index / 3 == row);
    if active {
        let next = ui.after(EventModel::AnchorToggled(index, active)).0.layout;
        let (pw, ph) = next.page_size();
        law_anchors(next.image, pw, ph);
    }
}

} // verus!
