use tensaku_print::dialog::{open, Event, Ui};
use tensaku_print::job::{build_operation, run_print, LengthUnit, PrintOutcome, Session};
use tensaku_print::number::Number;
use tensaku_print::painting::{draw_image, PaintOp};
use tensaku_print::picture::{flatten_on_white, preview_copy, Flattening};
use tensaku_print::sheet::{Orientation, Sheet};

fn n(value: i64) -> Number {
    Number::from_int(value)
}

fn float(x: &Number) -> f64 {
    f64::from_bits(x.to_double())
}

fn show(op: &PaintOp) -> String {
    let list = |numbers: &[&Number]| {
        let texts: Vec<String> = numbers.iter().map(|x| format!("{}", float(x))).collect();
        texts.join(" ")
    };
    match op {
        PaintOp::Save => format!("save"),
        PaintOp::Restore => format!("restore"),
        PaintOp::Translate(x, y) => format!("translate {}", list(&[x, y])),
        PaintOp::QuarterTurn => format!("turn"),
        PaintOp::Scale(x, y) => format!("scale {}", list(&[x, y])),
        PaintOp::Rectangle(x, y, w, h) => format!("rectangle {}", list(&[x, y, w, h])),
        PaintOp::Clip => format!("clip"),
        PaintOp::SourceImage => format!("image"),
        PaintOp::SourceColor(r, g, b, a) => format!("color {}", list(&[r, g, b, a])),
        PaintOp::LineWidth(w) => format!("width {}", list(&[w])),
        PaintOp::Dash(a, b) => format!("dash {}", list(&[a, b])),
        PaintOp::NoDash => format!("no dash"),
        PaintOp::Fill => format!("fill"),
        PaintOp::Stroke => format!("stroke"),
    }
}

fn shown(ops: &[PaintOp]) -> Vec<String> {
    ops.iter().map(show).collect()
}

/// 400 x 800 points without margins.
fn page() -> Sheet {
    Sheet {
        name: String::from("Test"),
        orientation: Orientation::Portrait,
        size_pt: (n(400), n(800)),
        size_mm: (n(141), n(282)),
        top_mm: n(0),
        right_mm: n(0),
        bottom_mm: n(0),
        left_mm: n(0),
    }
}

fn ui() -> Ui {
    open(200, 100, page())
}

#[test]
fn an_upright_image_is_moved_and_scaled() {
    let mut ops = Vec::new();
    let place = (n(10), n(20), n(300), n(150));
    draw_image(&mut ops, 200, 100, place, false, None);
    assert_eq!(
        shown(&ops),
        [
            "save",
            "translate 10 20",
            "scale 1.5 1.5",
            "image",
            "rectangle 0 0 200 100",
            "fill",
            "restore"
        ]
    );
}

#[test]
fn a_turned_image_pivots_around_the_top_right_corner() {
    let mut ops = Vec::new();
    let place = (n(10), n(20), n(150), n(300));
    let clip = Some((n(1), n(2), n(3), n(4)));
    draw_image(&mut ops, 200, 100, place, true, clip);
    assert_eq!(
        shown(&ops),
        [
            "save",
            "rectangle 1 2 3 4",
            "clip",
            "translate 160 20",
            "turn",
            "scale 1.5 1.5",
            "image",
            "rectangle 0 0 200 100",
            "fill",
            "restore"
        ]
    );
}

#[test]
fn what_has_no_extent_is_not_painted() {
    let place = || (n(10), n(20), n(150), n(300));
    let mut ops = Vec::new();
    draw_image(&mut ops, 0, 100, place(), false, None);
    draw_image(&mut ops, 100, -1, place(), false, None);
    draw_image(&mut ops, 100, 100, (n(0), n(0), n(0), n(1)), false, None);
    draw_image(&mut ops, 100, 100, (n(0), n(0), n(1), n(-1)), false, None);
    assert!(ops.is_empty());
}

#[test]
fn the_preview_paints_sheet_image_and_frames() {
    let mut ui = ui();
    // 240 - 40 over 400 points binds, so the sheet is shown at half its size.
    let ops = ui.draw_preview(240, 640, 200, 100);
    assert_eq!(
        (float(&ui.view.0), float(&ui.view.1), float(&ui.view.2)),
        (20.0, 120.0, 0.5)
    );
    assert_eq!(
        shown(&ops),
        [
            "save",
            "translate 20 120",
            "scale 0.5 0.5",
            "color 0 0 0 0.18",
            "rectangle 6 6 400 800",
            "fill",
            "color 1 1 1 1",
            "rectangle 0 0 400 800",
            "fill",
            "save",
            "translate 0 300",
            "scale 2 2",
            "image",
            "rectangle 0 0 200 100",
            "fill",
            "restore",
            "width 2",
            "dash 10 8",
            "color 0.25 0.5 0.95 0.7",
            "rectangle 0 0 400 800",
            "stroke",
            "no dash",
            "color 0 0 0 0.45",
            "rectangle 0 0 400 800",
            "stroke",
            "restore"
        ]
    );
}

#[test]
fn a_tiny_widget_still_shows_the_sheet() {
    let mut ui = ui();
    let ops = ui.draw_preview(0, 0, 200, 100);
    assert!(!ops.is_empty());
    assert_eq!(float(&ui.view.2), 1.0 / 800.0);
}

#[test]
fn a_sheet_without_extent_is_not_painted() {
    let mut flat = page();
    flat.size_pt = (n(400), n(0));
    let mut ui = open(200, 100, flat);
    assert!(ui.draw_preview(240, 640, 200, 100).is_empty());
    assert_eq!(float(&ui.view.2), 1.0);
}

#[test]
fn the_job_prints_what_the_preview_shows() {
    let mut ui = ui();
    ui.handle(Event::FitSelected(1));
    let preview = shown(&ui.draw_preview(240, 640, 200, 100));
    let job = build_operation(&ui.layout);
    let printed = shown(&job.draw_page(&n(400), &n(800), 200, 100));
    assert_eq!(printed[1..3], ["rectangle 0 0 400 800", "clip"]);
    assert_eq!(preview[9..9 + printed.len()], printed);
    assert_eq!((job.pages, job.name.as_str()), (1, "Tensaku screenshot"));
    assert_eq!(job.unit, LengthUnit::Points);
    assert!(job.use_full_page && job.embed_page_setup);
    assert_eq!(job.page.name, "Test");
}

#[test]
fn the_job_follows_the_paper_of_the_print_dialog() {
    let job = build_operation(&ui().layout);
    let printed = shown(&job.draw_page(&n(800), &n(400), 200, 100));
    assert_eq!(printed[1..3], ["translate 0 0", "scale 4 4"]);
}

#[test]
fn a_dragged_image_lands_on_the_paper_of_the_print_dialog() {
    let mut sheet = page();
    sheet.size_pt = (n(595), n(842));
    let mut ui = open(200, 100, sheet);
    ui.handle(Event::FitSelected(2));
    ui.layout.image.offset = Some((n(500), n(700)));
    ui.layout.clamp_offset();
    let job = build_operation(&ui.layout);
    // On the sheet of the dialog the image stays where it was dragged.
    let printed = shown(&job.draw_page(&n(595), &n(842), 200, 100));
    assert_eq!(printed[1..3], ["translate 500 700", "scale 0.75 0.75"]);
    // Smaller paper pulls it back, 20 points from the far edges.
    let printed = shown(&job.draw_page(&n(420), &n(595), 200, 100));
    assert_eq!(printed[1..3], ["translate 400 575", "scale 0.75 0.75"]);
    // The job itself keeps the place: on the first paper it prints as before.
    let printed = shown(&job.draw_page(&n(595), &n(842), 200, 100));
    assert_eq!(printed[1], "translate 500 700");
}

#[test]
fn a_dragged_image_past_the_near_edge_lands_on_the_paper() {
    let mut ui = ui();
    // On the sheet of 400 points the image is 400 wide, on half the paper 200.
    ui.layout.image.offset = Some((n(-380), n(-180)));
    ui.layout.clamp_offset();
    let job = build_operation(&ui.layout);
    let printed = shown(&job.draw_page(&n(400), &n(800), 200, 100));
    assert_eq!(printed[1..3], ["translate -380 -180", "scale 2 2"]);
    let printed = shown(&job.draw_page(&n(200), &n(400), 200, 100));
    assert_eq!(printed[1..3], ["translate -180 -80", "scale 1 1"]);
}

#[test]
fn only_a_printed_job_closes_the_dialog() {
    for outcome in [PrintOutcome::Apply, PrintOutcome::InProgress] {
        let report = run_print(outcome, false);
        assert!(report.sent && report.failure.is_none());
        assert_eq!(report.log, Some((String::from("Sent to printer."), true)));
    }
    assert_eq!(run_print(PrintOutcome::Apply, true).log.unwrap().1, false);
    for outcome in [PrintOutcome::Cancel, PrintOutcome::Error] {
        let report = run_print(outcome, false);
        assert!(!report.sent && report.log.is_none() && report.failure.is_none());
    }
    let report = run_print(PrintOutcome::Failed(String::from("no paper")), false);
    assert!(!report.sent && report.log.is_none());
    assert_eq!(
        report.failure,
        Some((String::from("Could not print the image"), String::from("no paper")))
    );
}

#[test]
fn a_session_remembers_the_last_print() {
    let mut session: Session<u32, u32> = Session::new();
    assert!(session.settings.is_none() && session.page.is_none());
    session.remember(Some(1), 2);
    assert_eq!((session.settings, session.page), (Some(1), Some(2)));
    session.remember(None, 3);
    assert_eq!((session.settings, session.page), (Some(1), Some(3)));
}

#[test]
fn only_the_first_sheet_of_a_session_is_turned() {
    let mut session: Session<u32, u32> = Session::new();
    assert_eq!(session.first_orientation(1000, 500), Some(Orientation::Landscape));
    assert_eq!(session.first_orientation(500, 500), Some(Orientation::Portrait));
    assert_eq!(session.first_orientation(500, 1000), Some(Orientation::Portrait));
    session.remember(None, 1);
    assert_eq!(session.first_orientation(1000, 500), None);
    assert_eq!(session.first_orientation(500, 1000), None);
}

#[test]
fn reopening_keeps_the_paper_and_the_margin() {
    let mut sheet = page();
    sheet.orientation = Orientation::Landscape;
    sheet.left_mm = n(6);
    let mut ui = open(200, 100, sheet);
    ui.handle(Event::MarginChanged(n(25)));
    let mut session: Session<u32, Sheet> = Session::new();
    session.remember(Some(1), ui.layout.remembered());
    // The sheet of the dialog itself still has the margins of its page setup.
    assert!(ui.layout.page.left_mm.equals(&n(6)) && ui.layout.page.top_mm.equals(&n(0)));
    let kept = session.page.unwrap();
    for side in [&kept.top_mm, &kept.right_mm, &kept.bottom_mm, &kept.left_mm] {
        assert!(side.equals(&n(25)));
    }
    let next = open(300, 300, kept);
    assert!(next.layout.image.margin_mm.equals(&n(25)));
    assert_eq!(next.layout.page.name, "Test");
    assert_eq!(next.layout.page.orientation, Orientation::Landscape);
    let (w, h) = next.layout.page_size();
    assert!(w.equals(&n(400)) && h.equals(&n(800)));
    // A narrower margin is kept as well.
    ui.handle(Event::MarginChanged(n(0)));
    assert!(open(200, 100, ui.layout.remembered()).layout.image.margin_mm.equals(&n(0)));
}

#[test]
fn margins_that_nobody_changed_come_back_as_they_were() {
    let margins = |sheet: &Sheet| {
        let sides = [&sheet.top_mm, &sheet.right_mm, &sheet.bottom_mm, &sheet.left_mm];
        sides.map(float)
    };
    let mut sheet = page();
    sheet.top_mm = n(6);
    sheet.right_mm = n(7);
    sheet.bottom_mm = n(14);
    sheet.left_mm = n(5);
    let mut ui = open(200, 100, sheet);
    assert_eq!(margins(&ui.layout.remembered()), [6.0, 7.0, 14.0, 5.0]);
    // What the field reports of itself is no change.
    ui.handle(Event::MarginChanged(Number::ratio(1404, 100)));
    assert_eq!(margins(&ui.layout.remembered()), [6.0, 7.0, 14.0, 5.0]);
    let next = open(200, 100, ui.layout.remembered());
    assert!(next.layout.image.margin_mm.equals(&n(14)));
    assert_eq!(margins(&next.layout.page), [6.0, 7.0, 14.0, 5.0]);
    // A margin that was typed goes on all four sides, until the field is put back.
    ui.handle(Event::MarginChanged(n(10)));
    assert_eq!(margins(&ui.layout.remembered()), [10.0; 4]);
    ui.handle(Event::MarginChanged(n(14)));
    assert_eq!(margins(&ui.layout.remembered()), [6.0, 7.0, 14.0, 5.0]);
}

#[test]
fn every_state_prints_what_it_shows() {
    let mut ui = ui();
    for event in [
        Event::DragBegin,
        Event::DragUpdate(n(10_000), n(-10_000)),
        Event::MarginChanged(n(30)),
        Event::ScaleChanged(n(40)),
        Event::RotateToggled(true),
        Event::DragUpdate(n(-3), n(4)),
        Event::AnchorToggled(6, true),
    ] {
        ui.handle(event);
        let preview = shown(&ui.draw_preview(240, 640, 200, 100));
        let printed = shown(&build_operation(&ui.layout).draw_page(&n(400), &n(800), 200, 100));
        assert!(!printed.is_empty());
        assert_eq!(preview[9..9 + printed.len()], printed);
    }
}

#[test]
fn large_images_are_previewed_from_a_copy() {
    assert_eq!(preview_copy(1600, 900), None);
    assert_eq!(preview_copy(900, 1600), None);
    assert_eq!(preview_copy(0, 0), None);
    assert_eq!(preview_copy(3840, 2160), Some((1600, 900)));
    assert_eq!(preview_copy(2160, 3840), Some((900, 1600)));
    assert_eq!(preview_copy(3200, 3), Some((1600, 2)));
    assert_eq!(preview_copy(100_000, 1), Some((1600, 1)));
    assert_eq!(preview_copy(i32::MAX, i32::MAX), Some((1600, 1600)));
    assert_eq!(preview_copy(1601, -5), Some((1600, 1)));
}

#[test]
fn only_a_transparent_image_is_flattened() {
    assert_eq!(flatten_on_white(false, 400, 200), None);
    assert_eq!(
        flatten_on_white(true, 400, 200),
        Some(Flattening { width: 400, height: 200, fill: 0xffffffff, opacity: 255 })
    );
}

#[test]
fn a_smaller_copy_covers_the_same_part_of_the_page() {
    let place = || (n(10), n(20), n(300), n(150));
    let (mut full, mut copy) = (Vec::new(), Vec::new());
    draw_image(&mut full, 200, 100, place(), false, None);
    draw_image(&mut copy, 50, 25, place(), false, None);
    assert_eq!(shown(&full)[1], shown(&copy)[1]);
    // 200 * 1.5 = 50 * 6, and so on for the height.
    assert_eq!(shown(&full)[2], "scale 1.5 1.5");
    assert_eq!(shown(&copy)[2], "scale 6 6");
}
