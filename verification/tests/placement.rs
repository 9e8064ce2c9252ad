use tensaku_print::fit::Fit;
use tensaku_print::number::Number;
use tensaku_print::placement::{mm_to_points, points_to_mm, Placement};

const PT_PER_MM: f64 = 72.0 / 25.4;
const MIN_ON_PAGE: f64 = 20.0;

/// A4 in points: 595.276 x 841.89.
const A4_W: f64 = 210.0 * PT_PER_MM;
const A4_H: f64 = 297.0 * PT_PER_MM;

fn num(x: f64) -> Number {
    Number::from_double(x.to_bits()).unwrap()
}

fn float(x: &Number) -> f64 {
    f64::from_bits(x.to_double())
}

fn floats(r: (Number, Number, Number, Number)) -> (f64, f64, f64, f64) {
    (float(&r.0), float(&r.1), float(&r.2), float(&r.3))
}

fn area(image: &Placement, w: f64, h: f64) -> (f64, f64, f64, f64) {
    floats(image.area(&num(w), &num(h)))
}

fn image_rect(image: &Placement, w: f64, h: f64) -> (f64, f64, f64, f64) {
    floats(image.image_rect(&num(w), &num(h)))
}

fn effective_dpi(image: &Placement, w: f64, h: f64) -> f64 {
    float(&image.effective_dpi(&num(w), &num(h)))
}

/// 10 mm margins and a 1000 x 500 px image.
fn placement() -> Placement {
    Placement {
        margin_mm: num(10.0),
        fit: Fit::Page,
        scale: num(1.0),
        rotate: false,
        offset: None,
        align: (num(0.5), num(0.5)),
        image_px: (num(1000.0), num(500.0)),
    }
}

fn mm(points: f64) -> f64 {
    points / PT_PER_MM
}

#[test]
fn fit_modes_size_the_image_against_the_printable_area() {
    let mut image = placement();
    // A4 portrait, 10 mm all round: 190 x 277 mm printable.
    let (ax, ay, aw, ah) = area(&image, A4_W, A4_H);
    assert!((mm(ax) - 10.0).abs() < 0.01 && (mm(ay) - 10.0).abs() < 0.01);
    assert!((mm(aw) - 190.0).abs() < 0.01, "{}", mm(aw));
    assert!((mm(ah) - 277.0).abs() < 0.01, "{}", mm(ah));

    // A 2:1 image in a taller area - the width binds, and what is
    // left of the height is split above and below.
    let (x, y, w, h) = image_rect(&image, A4_W, A4_H);
    assert!((mm(w) - 190.0).abs() < 0.01, "{}", mm(w));
    assert!((mm(h) - 95.0).abs() < 0.01, "{}", mm(h));
    assert!((mm(x) - 10.0).abs() < 0.01);
    assert!(
        (mm(y) - (10.0 + (277.0 - 95.0) / 2.0)).abs() < 0.01,
        "{}",
        mm(y)
    );

    // Fill covers the area instead, overflowing the other axis.
    image.fit = Fit::Fill;
    let (_, _, w, h) = image_rect(&image, A4_W, A4_H);
    assert!((mm(w) - 554.0).abs() < 0.01, "{}", mm(w));
    assert!((mm(h) - 277.0).abs() < 0.01, "{}", mm(h));

    // Actual size: 1000 px at 96 dpi.
    image.fit = Fit::Actual;
    let (_, _, w, _) = image_rect(&image, A4_W, A4_H);
    assert!((mm(w) - 1000.0 * 25.4 / 96.0).abs() < 0.01, "{}", mm(w));

    // Custom follows the scale field.
    image.fit = Fit::Custom;
    image.scale = num(0.5);
    let (_, _, w, h) = image_rect(&image, A4_W, A4_H);
    assert!((mm(w) - 500.0 * 25.4 / 96.0).abs() < 0.01, "{}", mm(w));
    assert!((mm(h) - 250.0 * 25.4 / 96.0).abs() < 0.01, "{}", mm(h));
}

#[test]
fn rotating_swaps_the_binding_side_and_keeps_the_aspect_ratio() {
    let mut image = placement();
    image.rotate = true;
    let (_, _, w, h) = image_rect(&image, A4_W, A4_H);
    // The 2:1 image stands on its side, so it reads 1:2 on the page
    // and the binding side flips with it: the 277 mm height now
    // limits the fit, where unrotated the 190 mm width did.
    assert!((mm(h) - 277.0).abs() < 0.01, "{}", mm(h));
    assert!((mm(w) - 138.5).abs() < 0.01, "{}", mm(w));
    assert!((w / h - 0.5).abs() < 0.001);
}

#[test]
fn a_landscape_sheet_prints_the_same_image_larger() {
    let image = placement();
    let (_, _, portrait_w, _) = image_rect(&image, A4_W, A4_H);
    let (_, _, landscape_w, _) = image_rect(&image, A4_H, A4_W);
    assert!((mm(portrait_w) - 190.0).abs() < 0.01);
    assert!(
        (mm(landscape_w) - 277.0).abs() < 0.01,
        "{}",
        mm(landscape_w)
    );
}

#[test]
fn alignment_and_dragging_place_the_image_and_keep_it_on_the_sheet() {
    let mut image = placement();

    image.align = (num(0.0), num(0.0));
    let (x, y, _, _) = image_rect(&image, A4_W, A4_H);
    assert!((mm(x) - 10.0).abs() < 0.01 && (mm(y) - 10.0).abs() < 0.01);

    image.align = (num(1.0), num(1.0));
    let (x, y, w, h) = image_rect(&image, A4_W, A4_H);
    assert!((mm(x + w) - 200.0).abs() < 0.01, "{}", mm(x + w));
    assert!((mm(y + h) - 287.0).abs() < 0.01, "{}", mm(y + h));

    // An explicit offset wins over the anchor...
    image.offset = Some((num(50.0), num(60.0)));
    let (x, y, _, _) = image_rect(&image, A4_W, A4_H);
    assert_eq!((x, y), (50.0, 60.0));

    // ...but dragging it clean off the sheet is pulled back to an
    // edge, so a job can never come out as an unexplained blank page.
    image.offset = Some((num(-10_000.0), num(10_000.0)));
    image.clamp_offset(&num(A4_W), &num(A4_H));
    let (x, y, w, _) = image_rect(&image, A4_W, A4_H);
    assert!((x - (MIN_ON_PAGE - w)).abs() < 0.01, "{x}");
    assert!((y - (A4_H - MIN_ON_PAGE)).abs() < 0.01, "{y}");
}

#[test]
fn effective_dpi_reports_what_the_printer_is_asked_for() {
    let mut image = placement();
    // Actual size is 96 dpi by definition.
    image.fit = Fit::Actual;
    assert!((effective_dpi(&image, A4_W, A4_H) - 96.0).abs() < 0.01);
    // Half the size packs the same pixels into half the paper.
    image.fit = Fit::Custom;
    image.scale = num(0.5);
    assert!((effective_dpi(&image, A4_W, A4_H) - 192.0).abs() < 0.01);
    // Rotation measures the side that actually runs across the page.
    image.rotate = true;
    assert!((effective_dpi(&image, A4_W, A4_H) - 192.0).abs() < 0.01);
}

#[test]
fn fit_modes_keep_their_places_in_the_list() {
    for fit in [Fit::Page, Fit::Fill, Fit::Actual, Fit::Custom] {
        assert_eq!(Fit::from_index(fit.index()), fit);
    }
    assert_eq!(Fit::LABELS[Fit::Actual.index() as usize], "Actual size");
    assert_eq!(Fit::LABELS, ["Fit to page", "Fill page", "Actual size", "Custom"]);
    assert_eq!(Fit::from_index(4), Fit::Page);
    assert_eq!(Fit::from_index(u32::MAX), Fit::Page);
}

#[test]
fn lengths_are_exact() {
    assert!(mm_to_points(&Number::from_int(127)).equals(&Number::from_int(360)));
    assert!(points_to_mm(&Number::from_int(72)).equals(&Number::ratio(254, 10)));
    let mut image = placement();
    let page = (mm_to_points(&Number::from_int(210)), mm_to_points(&Number::from_int(297)));
    let (ax, ay, aw, ah) = image.area(&page.0, &page.1);
    assert!(points_to_mm(&ax).equals(&Number::from_int(10)));
    assert!(points_to_mm(&ay).equals(&Number::from_int(10)));
    assert!(points_to_mm(&aw).equals(&Number::from_int(190)));
    assert!(points_to_mm(&ah).equals(&Number::from_int(277)));
    let (nw, nh) = image.natural();
    assert!(nw.equals(&Number::from_int(750)) && nh.equals(&Number::from_int(375)));
    let (_, _, w, h) = image.image_rect(&page.0, &page.1);
    assert!(points_to_mm(&w).equals(&Number::from_int(190)));
    assert!(points_to_mm(&h).equals(&Number::from_int(95)));
    image.rotate = true;
    let (nw, nh) = image.natural();
    assert!(nw.equals(&Number::from_int(375)) && nh.equals(&Number::from_int(750)));
}

#[test]
fn margins_that_meet_leave_a_point() {
    let mut image = placement();
    image.margin_mm = num(200.0);
    let (_, _, aw, ah) = area(&image, A4_W, A4_H);
    assert_eq!((aw, ah), (1.0, 1.0));
}

#[test]
fn an_image_without_extent_keeps_its_scale() {
    let mut image = placement();
    image.image_px = (num(0.0), num(500.0));
    assert!(image.scale_for(&num(A4_W), &num(A4_H)).equals(&Number::from_int(1)));
    let (_, _, w, h) = image_rect(&image, A4_W, A4_H);
    assert_eq!((w, h), (0.0, 375.0));
    assert_eq!(effective_dpi(&image, A4_W, A4_H), 0.0);
    // Without height it still has a width, at 100 %.
    image.image_px = (num(1000.0), num(0.0));
    assert_eq!(effective_dpi(&image, A4_W, A4_H), 96.0);
}

#[test]
fn a_short_image_stays_visible_on_a_large_sheet() {
    let mut image = placement();
    image.fit = Fit::Custom;
    image.scale = num(0.01);
    image.offset = Some((num(10_000.0), num(-10_000.0)));
    image.clamp_offset(&num(400.0), &num(30.0));
    let (x, y, w, h) = image_rect(&image, 400.0, 30.0);
    assert_eq!((x, y, w, h), (380.0, 20.0 - 3.75, 7.5, 3.75));
    // All of it lies on the sheet, both ways.
    assert!(x + w <= 400.0 && y >= 0.0 && y + h <= 30.0);
}

#[test]
fn clamping_leaves_what_is_on_the_sheet() {
    let mut image = placement();
    image.clamp_offset(&num(A4_W), &num(A4_H));
    assert!(image.offset.is_none());
    image.offset = Some((num(50.0), num(60.0)));
    image.clamp_offset(&num(A4_W), &num(A4_H));
    let (x, y) = image.offset.clone().unwrap();
    assert_eq!((float(&x), float(&y)), (50.0, 60.0));
    // A page too small to keep its distance: the near edge wins.
    image.fit = Fit::Custom;
    image.scale = num(0.01);
    image.offset = Some((num(1000.0), num(-1000.0)));
    image.clamp_offset(&num(10.0), &num(10.0));
    let (x, y) = image.offset.clone().unwrap();
    assert_eq!((float(&x), float(&y)), (20.0 - 7.5, 20.0 - 3.75));
}
