use tensaku_print::dialog::{anchor, open, Event, Reply, Ui};
use tensaku_print::fit::Fit;
use tensaku_print::number::Number;
use tensaku_print::placement::{mm_to_points, points_to_mm};
use tensaku_print::sheet::{uniform_margin, Orientation, Sheet};

fn n(value: i64) -> Number {
    Number::from_int(value)
}

fn sheet(width: i64, height: i64, margins: [i64; 4], orientation: Orientation) -> Sheet {
    Sheet {
        name: String::from("A4"),
        orientation,
        size_pt: (mm_to_points(&n(width)), mm_to_points(&n(height))),
        size_mm: (n(width), n(height)),
        top_mm: n(margins[0]),
        right_mm: n(margins[1]),
        bottom_mm: n(margins[2]),
        left_mm: n(margins[3]),
    }
}

fn a4() -> Sheet {
    sheet(210, 297, [10, 10, 10, 10], Orientation::Portrait)
}

fn ui() -> Ui {
    open(1000, 500, a4())
}

fn rect(ui: &Ui) -> (Number, Number, Number, Number) {
    let (w, h) = ui.layout.page_size();
    ui.layout.image.image_rect(&w, &h)
}

fn same(a: &(Number, Number, Number, Number), b: &(Number, Number, Number, Number)) -> bool {
    a.0.equals(&b.0) && a.1.equals(&b.1) && a.2.equals(&b.2) && a.3.equals(&b.3)
}

#[test]
fn opens_with_the_image_centered_on_the_page() {
    let ui = ui();
    assert!(!ui.syncing);
    assert_eq!(ui.layout.image.fit, Fit::Page);
    assert!(ui.layout.image.margin_mm.equals(&n(10)));
    let (x, y, w, h) = rect(&ui);
    assert!(points_to_mm(&x).equals(&n(10)));
    assert!(points_to_mm(&y).equals(&n(101)));
    assert!(points_to_mm(&w).equals(&n(190)));
    assert!(points_to_mm(&h).equals(&n(95)));
}

#[test]
fn the_widest_margin_is_the_margin() {
    let page = sheet(210, 297, [3, 4, 15, 6], Orientation::Portrait);
    assert!(uniform_margin(&page).equals(&n(15)));
    let bare = sheet(210, 297, [-3, -4, -1, -6], Orientation::Portrait);
    assert!(uniform_margin(&bare).equals(&n(0)));
    let left = sheet(210, 297, [1, 2, 3, 4], Orientation::Portrait);
    assert!(uniform_margin(&left).equals(&n(4)));
}

#[test]
fn orientations_and_their_list() {
    assert_eq!(Orientation::from_index(0), Orientation::Portrait);
    assert_eq!(Orientation::from_index(1), Orientation::Landscape);
    assert_eq!(Orientation::from_index(2), Orientation::Portrait);
    assert_eq!(Orientation::Portrait.index(), 0);
    assert_eq!(Orientation::ReversePortrait.index(), 0);
    assert_eq!(Orientation::Landscape.index(), 1);
    assert_eq!(Orientation::ReverseLandscape.index(), 1);
    assert_eq!(Orientation::matching(1000, 500), Orientation::Landscape);
    assert_eq!(Orientation::matching(500, 500), Orientation::Portrait);
}

#[test]
fn nothing_is_read_back_during_a_refresh() {
    let mut ui = ui();
    let before = rect(&ui);
    ui.refresh();
    assert!(ui.syncing);
    for event in [
        Event::OrientationSelected(1),
        Event::FitSelected(1),
        Event::ScaleChanged(n(50)),
        Event::WidthChanged(n(50)),
        Event::HeightChanged(n(50)),
        Event::MarginChanged(n(50)),
        Event::RotateToggled(true),
        Event::AnchorToggled(0, true),
    ] {
        assert_eq!(ui.handle(event), Reply::Ignore);
        assert!(same(&rect(&ui), &before));
        assert_eq!(ui.layout.image.fit, Fit::Page);
    }
    ui.finish_refresh();
    assert!(!ui.syncing);
}

#[test]
fn fields_that_report_what_they_show_change_nothing() {
    let mut ui = ui();
    let shown = ui.refresh();
    ui.finish_refresh();
    let nudge = Number::ratio(49, 1000);
    assert_eq!(ui.handle(Event::ScaleChanged(shown.scale_percent.plus(&nudge))), Reply::Ignore);
    assert_eq!(ui.handle(Event::WidthChanged(shown.width_mm.minus(&nudge))), Reply::Ignore);
    assert_eq!(ui.handle(Event::HeightChanged(shown.height_mm.plus(&nudge))), Reply::Ignore);
    assert_eq!(ui.handle(Event::MarginChanged(shown.margin_mm.minus(&nudge))), Reply::Ignore);
    assert_eq!(ui.layout.image.fit, Fit::Page);
    let half = Number::ratio(1, 20);
    assert_eq!(ui.handle(Event::WidthChanged(shown.width_mm.plus(&half))), Reply::Refresh);
    assert_eq!(ui.layout.image.fit, Fit::Custom);
}

#[test]
fn typed_sizes_are_printed() {
    let mut ui = ui();
    assert_eq!(ui.handle(Event::WidthChanged(n(100))), Reply::Refresh);
    assert_eq!(ui.layout.image.fit, Fit::Custom);
    let shown = ui.refresh();
    ui.finish_refresh();
    assert!(shown.width_mm.equals(&n(100)));
    assert!(shown.height_mm.equals(&n(50)));
    assert_eq!(ui.handle(Event::HeightChanged(n(100))), Reply::Refresh);
    let shown = ui.refresh();
    ui.finish_refresh();
    assert!(shown.width_mm.equals(&n(200)));
    assert_eq!(ui.handle(Event::ScaleChanged(n(50))), Reply::Refresh);
    assert!(ui.layout.image.scale.equals(&Number::ratio(1, 2)));
    assert_eq!(ui.handle(Event::ScaleChanged(n(0))), Reply::Refresh);
    assert!(ui.layout.image.scale.equals(&Number::ratio(1, 1000)));
    assert_eq!(ui.handle(Event::MarginChanged(n(25))), Reply::Refresh);
    assert!(ui.layout.image.margin_mm.equals(&n(25)));
}

#[test]
fn an_image_without_width_takes_no_width() {
    let mut ui = open(0, 500, a4());
    assert_eq!(ui.handle(Event::WidthChanged(n(100))), Reply::Refresh);
    assert_eq!(ui.layout.image.fit, Fit::Page);
    let mut ui = open(500, 0, a4());
    assert_eq!(ui.handle(Event::HeightChanged(n(100))), Reply::Refresh);
    assert_eq!(ui.layout.image.fit, Fit::Page);
}

#[test]
fn switching_to_custom_keeps_the_size() {
    let mut ui = ui();
    let before = rect(&ui);
    assert_eq!(ui.handle(Event::FitSelected(3)), Reply::Refresh);
    assert_eq!(ui.layout.image.fit, Fit::Custom);
    assert!(same(&rect(&ui), &before));
    ui.handle(Event::FitSelected(1));
    assert_eq!(ui.layout.image.fit, Fit::Fill);
    let filled = rect(&ui);
    assert!(points_to_mm(&filled.3).equals(&n(277)));
    ui.handle(Event::FitSelected(3));
    assert!(same(&rect(&ui), &filled));
}

#[test]
fn dragging_follows_the_pointer_and_stops_at_the_edge() {
    let mut ui = ui();
    ui.view = (n(0), n(0), Number::ratio(1, 2));
    let (x, y, w, h) = rect(&ui);
    assert_eq!(ui.handle(Event::DragBegin), Reply::Ignore);
    assert_eq!(ui.handle(Event::DragUpdate(n(5), n(-7))), Reply::Refresh);
    let moved = rect(&ui);
    assert!(moved.0.equals(&x.plus(&n(10))));
    assert!(moved.1.equals(&y.minus(&n(14))));
    // The way does not matter, only where the pointer is.
    ui.handle(Event::DragUpdate(n(-100_000), n(100_000)));
    let stopped = rect(&ui);
    assert!(stopped.0.equals(&n(20).minus(&w)));
    assert!(stopped.1.equals(&ui.layout.page_size().1.minus(&n(20))));
    ui.handle(Event::DragUpdate(n(5), n(-7)));
    assert!(same(&rect(&ui), &moved));
    assert!(moved.2.equals(&w) && moved.3.equals(&h));
    // Without a preview there is nothing to measure with.
    ui.view = (n(0), n(0), n(0));
    assert_eq!(ui.handle(Event::DragUpdate(n(1), n(1))), Reply::Ignore);
    assert!(same(&rect(&ui), &moved));
}

#[test]
fn changing_shape_anchors_the_image_again() {
    let drag = |ui: &mut Ui| {
        ui.handle(Event::DragBegin);
        ui.handle(Event::DragUpdate(n(30), n(30)));
        assert!(ui.layout.image.offset.is_some());
    };
    let mut ui = ui();
    drag(&mut ui);
    assert_eq!(ui.handle(Event::RotateToggled(true)), Reply::Refresh);
    assert!(ui.layout.image.offset.is_none() && ui.layout.image.rotate);
    drag(&mut ui);
    assert_eq!(ui.handle(Event::FitSelected(2)), Reply::Refresh);
    assert!(ui.layout.image.offset.is_none());
    drag(&mut ui);
    assert_eq!(
        ui.handle(Event::OrientationSelected(1)),
        Reply::Turn(Orientation::Landscape)
    );
    assert!(ui.layout.image.offset.is_some());
    let turned = sheet(297, 210, [10, 10, 10, 10], Orientation::Landscape);
    assert_eq!(ui.handle(Event::PageTurned(turned)), Reply::Refresh);
    assert!(ui.layout.image.offset.is_none());
    assert_eq!(ui.layout.page.orientation, Orientation::Landscape);
    drag(&mut ui);
    assert_eq!(ui.handle(Event::AnchorToggled(8, false)), Reply::Refresh);
    assert!(ui.layout.image.offset.is_some());
    assert_eq!(ui.handle(Event::AnchorToggled(8, true)), Reply::Refresh);
    assert!(ui.layout.image.offset.is_none());
}

#[test]
fn a_smaller_sheet_pulls_the_image_back() {
    let mut ui = ui();
    ui.handle(Event::DragBegin);
    ui.handle(Event::DragUpdate(n(500), n(700)));
    let small = sheet(100, 150, [5, 12, 5, 5], Orientation::Portrait);
    assert_eq!(ui.handle(Event::PaperChosen(small)), Reply::Refresh);
    assert!(ui.layout.image.margin_mm.equals(&n(12)));
    let (x, y, _, _) = rect(&ui);
    let (pw, ph) = ui.layout.page_size();
    assert!(x.equals(&pw.minus(&n(20))));
    assert!(y.equals(&ph.minus(&n(20))));
}

#[test]
fn anchors_sit_as_on_the_sheet() {
    let halves = [(0, 0), (1, 0), (2, 0), (0, 1), (1, 1), (2, 1), (0, 2), (1, 2), (2, 2)];
    for (index, (x, y)) in halves.into_iter().enumerate() {
        let (a, b) = anchor(index as u32);
        assert!(a.equals(&Number::ratio(x, 2)) && b.equals(&Number::ratio(y, 2)));
    }
    let mut ui = ui();
    ui.handle(Event::AnchorToggled(8, true));
    let (x, y, w, h) = rect(&ui);
    assert!(points_to_mm(&x.plus(&w)).equals(&n(200)));
    assert!(points_to_mm(&y.plus(&h)).equals(&n(287)));
}

#[test]
fn controls_show_the_layout() {
    let mut ui = ui();
    let shown = ui.refresh();
    ui.finish_refresh();
    assert_eq!((shown.fit, shown.orientation, shown.rotate), (0, 0, false));
    assert_eq!(shown.paper, "A4 — 210 × 297 mm");
    assert_eq!(shown.info, "1000 × 500 px  →  190.0 × 95.0 mm at 134 dpi");
    assert_eq!(
        shown.anchors,
        [false, false, false, false, true, false, false, false, false]
    );
    // 190 mm of 750 pt at 100 %.
    let percent = mm_to_points(&n(190)).over(&n(750)).times(&n(100));
    assert!(shown.scale_percent.equals(&percent));
    ui.handle(Event::FitSelected(2));
    let shown = ui.refresh();
    ui.finish_refresh();
    assert_eq!(shown.info, "1000 × 500 px  →  264.6 × 132.3 mm at 96 dpi");
    assert!(shown.scale_percent.equals(&n(100)));
    ui.handle(Event::DragBegin);
    ui.handle(Event::DragUpdate(n(1), n(1)));
    let shown = ui.refresh();
    ui.finish_refresh();
    assert_eq!(shown.anchors, [false; 9]);
    ui.handle(Event::AnchorToggled(2, true));
    let shown = ui.refresh();
    assert!(shown.anchors[2] && !shown.anchors[4]);
    assert_eq!(shown.fit, 2);
}

#[test]
fn many_drags_go_through() {
    let mut ui = ui();
    ui.draw_preview(613, 457, 1000, 500);
    for i in 0..200 {
        ui.handle(Event::DragBegin);
        ui.handle(Event::DragUpdate(Number::ratio(i % 7 - 3, 4), Number::ratio(3 - i % 5, 8)));
        ui.refresh();
        ui.finish_refresh();
    }
    assert!(ui.layout.image.offset.is_some());
}

#[test]
fn a_fitted_image_keeps_the_margins_of_the_sheet() {
    let page = sheet(210, 297, [3, 4, 15, 6], Orientation::Portrait);
    let mut ui = open(1000, 500, page);
    for index in 0..9 {
        ui.handle(Event::AnchorToggled(index, true));
        let (x, y, w, h) = rect(&ui);
        assert!(!points_to_mm(&x).less(&n(6)) && !points_to_mm(&y).less(&n(3)));
        assert!(!n(210 - 4).less(&points_to_mm(&x.plus(&w))));
        assert!(!n(297 - 15).less(&points_to_mm(&y.plus(&h))));
    }
}

#[test]
fn turning_the_image_and_back_restores_it() {
    let mut ui = ui();
    let before = rect(&ui);
    ui.handle(Event::RotateToggled(true));
    let turned = rect(&ui);
    assert!(points_to_mm(&turned.3).equals(&n(277)));
    assert!(turned.2.times(&n(2)).equals(&turned.3));
    ui.handle(Event::RotateToggled(false));
    assert!(same(&rect(&ui), &before));
}

#[test]
fn a_turned_image_on_a_turned_sheet_lands_at_the_turned_place() {
    let mut upright = ui();
    upright.handle(Event::AnchorToggled(1, true));
    let mut turned = open(1000, 500, sheet(297, 210, [10, 10, 10, 10], Orientation::Landscape));
    turned.handle(Event::RotateToggled(true));
    turned.handle(Event::AnchorToggled(3, true));
    let (x, y, w, h) = rect(&upright);
    assert!(same(&rect(&turned), &(y, x, h, w)));
}

#[test]
fn no_row_of_events_makes_the_image_vanish() {
    let mut ui = ui();
    ui.handle(Event::ScaleChanged(n(-500)));
    ui.handle(Event::DragBegin);
    ui.handle(Event::DragUpdate(n(10_000), n(-10_000)));
    ui.handle(Event::MarginChanged(n(500)));
    ui.handle(Event::WidthChanged(n(-1)));
    let (x, y, w, h) = rect(&ui);
    assert!(w.is_positive() && h.is_positive());
    let (pw, _) = ui.layout.page_size();
    assert!(x.equals(&pw.minus(&n(20))));
    assert!(y.plus(&h).equals(&n(20)));
}

#[test]
fn a_value_halfway_between_two_digits_is_no_echo() {
    // Shown as 10.0 or 10.1, half a digit away from either.
    let halfway = Number::ratio(1005, 100);
    let mut ui = ui();
    ui.handle(Event::MarginChanged(halfway.clone()));
    assert!(ui.layout.image.margin_mm.equals(&halfway));
    assert_eq!(ui.handle(Event::MarginChanged(Number::ratio(101, 10))), Reply::Refresh);
    assert_eq!(ui.handle(Event::MarginChanged(Number::ratio(1014, 100))), Reply::Ignore);
}
