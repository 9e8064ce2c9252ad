//! The print job, its outcome, and what one job leaves for the next.

use vstd::prelude::*;

use crate::dialog::{opened, EventModel};
use crate::dialog_laws::{after_all, is_possible, law_every_state_is_sound, layout_on_sheet};
use crate::fit::Fit;
use crate::number::{max_of, min_of, Number};
use crate::painting::{image_steps, is_visible, to_page, PaintModel, PaintOp};
use crate::placement::{min_on_page, Placement, PlacementModel};
use crate::placement_laws::{
    is_pulled_back, law_clamping_keeps_on_sheet, law_clamping_leaves_what_is_on_sheet,
    law_clamping_only_moves, law_clamping_pulls_back, law_on_sheet_is_visible, on_sheet,
};
use crate::preview::{
    law_filling_image_leaves_the_margins_white, law_page_shows_each_pixel_in_place,
    law_preview_shows_the_printed_page, paper_steps, preview_view,
};
use crate::sheet::{Layout, LayoutModel, Orientation, Sheet, SheetModel};

verus! {

/// What a length on a page is measured in.
#[derive(Clone, Copy, PartialEq, Eq, Structural, Debug)]
pub enum LengthUnit {
    Points,
    Millimeters,
}

/// What a job stands for.
pub struct PrintJobModel {
    pub pages: i32,
    pub unit: LengthUnit,
    pub use_full_page: bool,
    pub embed_page_setup: bool,
    pub name: Seq<char>,
    pub page: SheetModel,
    pub image: PlacementModel,
}

/// A print job: how the print operation is set up, and what it draws.
#[derive(Debug)]
pub struct PrintJob {
    pub pages: i32,
    /// What the page that the job draws on is measured in. The placement computes in points.
    pub unit: LengthUnit,
    /// Lay out against the full sheet: the placement applies its own margins, and the page
    /// setup's margins must not inset the page on top of them.
    pub use_full_page: bool,
    pub embed_page_setup: bool,
    pub name: String,
    /// The sheet that the print dialog starts from.
    pub page: Sheet,
    pub image: Placement,
}

impl View for PrintJob {
    type V = PrintJobModel;

    open spec fn view(&self) -> PrintJobModel {
        PrintJobModel {
            pages: self.pages,
            unit: self.unit,
            use_full_page: self.use_full_page,
            embed_page_setup: self.embed_page_setup,
            name: self.name@,
            page: self.page@,
            image: self.image@,
        }
    }
}

impl LayoutModel {
    /// The one-page job of a layout.
    pub open spec fn job(self) -> PrintJobModel {
        PrintJobModel {
            pages: 1,
            unit: LengthUnit::Points,
            use_full_page: true,
            embed_page_setup: true,
            name: "Tensaku screenshot"@,
            page: self.page,
            image: self.image,
        }
    }
}

/// Build the one-page job.
pub fn build_operation(layout: &Layout) -> (res: PrintJob)
    ensures
        res@ == layout@.job(),
{
    PrintJob {
        pages: 1,
        unit: LengthUnit::Points,
        use_full_page: true,
        embed_page_setup: true,
        name: "Tensaku screenshot".to_owned(),
        page: layout.page.clone(),
        image: layout.image.clone(),
    }
}

impl PrintJobModel {
    /// The steps that the job draws on a page of the given size, with an image of the given size
    /// in pixels.
    pub open spec fn drawn_steps(
        self,
        width: real,
        height: real,
        image_w: real,
        image_h: real,
    ) -> Seq<PaintModel> {
        self.image.clamped(width, height).page_steps(width, height, image_w, image_h)
    }
}

impl PrintJob {
    /// Draw the page. The print dialog may have moved the job onto different paper, so it is
    /// laid out against the size of the page it settled on rather than that of the preview, and
    /// a dragged image is pulled back onto that page.
    pub fn draw_page(&self, width: &Number, height: &Number, image_w: i32, image_h: i32) -> (res:
        Vec<PaintOp>)
        ensures
            res.deep_view() == self@.drawn_steps(
                width@,
                height@,
                image_w as real,
                image_h as real,
            ),
            res.deep_view() == self@.image.clamped(width@, height@).page_steps(
                width@,
                height@,
                image_w as real,
                image_h as real,
            ),
    {
        let mut image = self.image.clone();
        image.clamp_offset(width, height);
        let mut ops: Vec<PaintOp> = Vec::new();
        image.draw_on_page(&mut ops, width, height, image_w, image_h);
        assert(ops.deep_view() =~= image@.page_steps(
            width@,
            height@,
            image_w as real,
            image_h as real,
        ));
        ops
    }
}

/// How the system print dialog came back.
#[derive(Debug)]
pub enum PrintOutcome {
    /// The job was handed to the printer.
    Apply,
    /// The job is being handed to the printer.
    InProgress,
    Cancel,
    /// The operation ended with an error of its own.
    Error,
    /// The operation could not be run, for the reason that is given.
    Failed(String),
}

/// What is to be done after printing.
#[derive(Debug)]
pub struct PrintReport {
    /// Whether the job was handed to the printer, so the dialog may close.
    pub sent: bool,
    /// What to log, and whether to notify the user of it.
    pub log: Option<(String, bool)>,
    /// What to tell the user of a failure: the message and the reason.
    pub failure: Option<(String, String)>,
}

/// What a report stands for.
pub struct PrintReportModel {
    pub sent: bool,
    pub log: Option<(Seq<char>, bool)>,
    pub failure: Option<(Seq<char>, Seq<char>)>,
}

impl View for PrintReport {
    type V = PrintReportModel;

    open spec fn view(&self) -> PrintReportModel {
        PrintReportModel {
            sent: self.sent,
            log: match self.log {
                Some((text, notify)) => Some((text@, notify)),
                None => None,
            },
            failure: match self.failure {
                Some((text, why)) => Some((text@, why@)),
                None => None,
            },
        }
    }
}

/// The report on an outcome.
pub open spec fn report_of(outcome: PrintOutcome, disable_notifications: bool) -> PrintReportModel {
    PrintReportModel {
        sent: was_sent(outcome),
        log: if was_sent(outcome) {
            Some(("Sent to printer."@, !disable_notifications))
        } else {
            None
        },
        failure: match outcome {
            PrintOutcome::Failed(why) => Some(("Could not print the image"@, why@)),
            _ => None,
        },
    }
}

pub open spec fn was_sent(outcome: PrintOutcome) -> bool {
    outcome is Apply || outcome is InProgress
}

/// Whether a log entry has this text and is shown to the user or not.
pub open spec fn reports(report: Option<(String, bool)>, text: Seq<char>, notify: bool) -> bool {
    match report {
        Some((t, n)) => t@ == text && n == notify,
        None => false,
    }
}

/// Whether a failure is told with this message and this reason.
pub open spec fn explains(
    failure: Option<(String, String)>,
    text: Seq<char>,
    why: Seq<char>,
) -> bool {
    match failure {
        Some((t, w)) => t@ == text && w@ == why,
        None => false,
    }
}

/// What follows from the outcome of a print job.
pub fn run_print(outcome: PrintOutcome, disable_notifications: bool) -> (res: PrintReport)
    ensures
        res@ == report_of(outcome, disable_notifications),
        res.sent == was_sent(outcome),
        if was_sent(outcome) {
            reports(res.log, "Sent to printer."@, !disable_notifications)
        } else {
            res.log is None
        },
        match outcome {
            PrintOutcome::Failed(why) => explains(
                res.failure,
                "Could not print the image"@,
                why@,
            ),
            _ => res.failure is None,
        },
{
    match outcome {
        PrintOutcome::Apply | PrintOutcome::InProgress => PrintReport {
            sent: true,
            log: Some(("Sent to printer.".to_owned(), !disable_notifications)),
            failure: None,
        },
        PrintOutcome::Cancel | PrintOutcome::Error => PrintReport {
            sent: false,
            log: None,
            failure: None,
        },
        PrintOutcome::Failed(why) => PrintReport {
            sent: false,
            log: None,
            failure: Some(("Could not print the image".to_owned(), why)),
        },
    }
}

/// What carries across prints in one session: the printer, copies and quality of the settings,
/// and the sheet of `Layout::remembered` - re-opening the dialog should not throw away the paper
/// and margins the user just set up.
#[derive(Debug)]
pub struct Session<S, P> {
    pub settings: Option<S>,
    pub page: Option<P>,
}

impl<S, P> Session<S, P> {
    pub fn new() -> (res: Self)
        ensures
            res.settings is None,
            res.page is None,
    {
        Session { settings: None, page: None }
    }

    /// The session after a print that left these settings and this sheet behind.
    pub open spec fn remembering(self, settings: Option<S>, page: P) -> Session<S, P> {
        Session {
            settings: if settings is Some {
                settings
            } else {
                self.settings
            },
            page: Some(page),
        }
    }

    /// The way to turn the first sheet of a dialog.
    pub open spec fn turn_for(self, width: int, height: int) -> Option<Orientation> {
        if self.page is Some {
            None
        } else {
            Some(Orientation::suiting(width, height))
        }
    }

    /// Keep what a print leaves behind. Without new settings the earlier ones stay.
    pub fn remember(&mut self, settings: Option<S>, page: P)
        ensures
            *final(self) == old(self).remembering(settings, page),
            final(self).settings == if settings is Some {
                settings
            } else {
                old(self).settings
            },
            final(self).page == Some(page),
    {
        if settings.is_some() {
            self.settings = settings;
        }
        self.page = Some(page);
    }

    /// The way to turn the sheet for an image of the given size. Only the first sheet of a
    /// session is turned; after that the remembered one stays as it is.
    pub fn first_orientation(&self, width: i32, height: i32) -> (res: Option<Orientation>)
        ensures
            res == self.turn_for(width as int, height as int),
            res == if self.page is Some {
                None
            } else {
                Some(Orientation::suiting(width as int, height as int))
            },
    {
        if self.page.is_some() {
            None
        } else {
            Some(Orientation::matching(width, height))
        }
    }
}

/// The job prints what the dialog shows: on a page of the size of the sheet, the steps of the
/// page are those of the preview.
pub proof fn law_job_prints_the_preview(
    layout: LayoutModel,
    width: real,
    height: real,
    image_w: real,
    image_h: real,
)
    requires
        layout_on_sheet(layout),
    ensures
        ({
            let page = layout.page_size();
            let printed = layout.job().drawn_steps(page.0, page.1, image_w, image_h);
            let shown = layout.preview_steps(width, height, image_w, image_h);
            exists|start: int|
                0 <= start <= shown.len() - printed.len() && #[trigger] shown.subrange(
                    start,
                    start + printed.len(),
                ) == printed
        }),
{
    let page = layout.page_size();
    let printed = layout.image.page_steps(page.0, page.1, image_w, image_h);
    let shown = layout.preview_steps(width, height, image_w, image_h);
    let start = paper_steps(
        page,
        preview_view(page, width, height),
    ).len() as int;
    law_clamping_leaves_what_is_on_sheet(layout.image, page.0, page.1);
    law_preview_shows_the_printed_page(layout, width, height, image_w, image_h);
    assert(layout.job().drawn_steps(page.0, page.1, image_w, image_h) == printed);
    assert(shown.subrange(start, start + printed.len()) == printed);
}

/// Whatever happened to the dialog, its job prints what it shows.
pub proof fn law_every_job_prints_the_preview(
    image_w: real,
    image_h: real,
    page: SheetModel,
    events: Seq<EventModel>,
    width: real,
    height: real,
    pixels_w: real,
    pixels_h: real,
)
    requires
        forall|i: int| 0 <= i < events.len() ==> is_possible(#[trigger] events[i]),
    ensures
        ({
            let layout = after_all(opened(image_w, image_h, page), events).layout;
            let size = layout.page_size();
            let printed = layout.job().drawn_steps(size.0, size.1, pixels_w, pixels_h);
            let shown = layout.preview_steps(width, height, pixels_w, pixels_h);
            exists|start: int|
                0 <= start <= shown.len() - printed.len() && #[trigger] shown.subrange(
                    start,
                    start + printed.len(),
                ) == printed
        }),
{
    let layout = after_all(opened(image_w, image_h, page), events).layout;
    law_every_state_is_sound(image_w, image_h, page, events);
    law_job_prints_the_preview(layout, width, height, pixels_w, pixels_h);
}

/// Whatever paper the print dialog settles on, a dragged image lands on that page, at the size
/// that the placement gives it there.
pub proof fn law_job_lands_on_the_page(layout: LayoutModel, width: real, height: real)
    ensures
        on_sheet(layout.job().image.clamped(width, height), width, height),
        layout.job().image.clamped(width, height).image_rect(width, height).2
            == layout.image.image_rect(width, height).2,
        layout.job().image.clamped(width, height).image_rect(width, height).3
            == layout.image.image_rect(width, height).3,
{
    law_clamping_keeps_on_sheet(layout.image, width, height);
    law_clamping_only_moves(layout.image, width, height);
}

/// The job of a dragged image does not come out as a blank page, on any paper: the image is
/// painted, and part of it lies on the page. One that fills the page is clipped to the printable
/// area and can be dragged out of that; the preview shows it so. Image or page has to be as long
/// as what is kept on the sheet.
pub proof fn law_dragged_image_is_printed(
    layout: LayoutModel,
    width: real,
    height: real,
    image_w: real,
    image_h: real,
)
    requires
        layout.image.offset is Some,
        layout.image.fit != Fit::Fill,
        is_visible(layout.image.image_rect(width, height), image_w, image_h),
        width > 0 as real,
        height > 0 as real,
        width >= min_on_page() || layout.image.image_rect(width, height).2 >= min_on_page(),
        height >= min_on_page() || layout.image.image_rect(width, height).3 >= min_on_page(),
    ensures
        ({
            let image = layout.job().image.clamped(width, height);
            let place = image.image_rect(width, height);
            let (x, y, w, h) = place;
            &&& layout.job().drawn_steps(width, height, image_w, image_h) == image_steps(
                image_w,
                image_h,
                place,
                layout.image.rotate,
                None,
            )
            &&& is_visible(place, image_w, image_h)
            &&& max_of(x, 0 as real) < min_of(x + w, width)
            &&& max_of(y, 0 as real) < min_of(y + h, height)
        }),
{
    let image = layout.job().image.clamped(width, height);
    law_job_lands_on_the_page(layout, width, height);
    law_on_sheet_is_visible(image, width, height);
}

/// The job of a layout is one page of the full sheet, measured in points, on the paper of the
/// layout and with the image placed as in it.
pub proof fn law_job_is_one_full_page_in_points(layout: LayoutModel)
    ensures
        ({
            let job = layout.job();
            &&& job.pages == 1
            &&& job.unit == LengthUnit::Points
            &&& job.use_full_page
            &&& job.embed_page_setup
            &&& job.name == "Tensaku screenshot"@
            &&& job.page == layout.page
            &&& job.image == layout.image
        }),
{
}

/// The job of a filling image leaves the margins white, whatever paper it is printed on: it is
/// painted while painting is clipped to what lies inside the margin of the layout.
pub proof fn law_job_leaves_the_margins_white(
    layout: LayoutModel,
    width: real,
    height: real,
    image_w: real,
    image_h: real,
    painting: int,
)
    requires
        layout.image.fit == Fit::Fill,
        ({
            let steps = layout.job().drawn_steps(width, height, image_w, image_h);
            0 <= painting < steps.len() && steps[painting] is Fill
        }),
    ensures
        ({
            let steps = layout.job().drawn_steps(width, height, image_w, image_h);
            let margin = layout.image.margin_mm * (720 as real) / (254 as real);
            &&& painting > 2
            &&& steps[2] == PaintModel::Clip
            &&& forall|i: int| 2 < i < painting ==> !((#[trigger] steps[i]) is Restore)
            &&& steps[1] matches PaintModel::Rectangle(x, y, w, h) && {
                &&& x == margin
                &&& y == margin
                &&& width - margin - margin >= 1 as real ==> x + w == width - margin
                &&& height - margin - margin >= 1 as real ==> y + h == height - margin
            }
        }),
{
    law_clamping_only_moves(layout.image, width, height);
    law_filling_image_leaves_the_margins_white(
        layout.job().image.clamped(width, height),
        width,
        height,
        image_w,
        image_h,
        painting,
    );
}

/// Each pixel of the image is printed where the dialog put it, at the size and turned as there:
/// a dragged image lies where it was dragged to, pulled back onto the page.
pub proof fn law_job_prints_each_pixel_in_place(
    layout: LayoutModel,
    width: real,
    height: real,
    image_w: real,
    image_h: real,
    point: (real, real),
)
    requires
        is_visible(layout.image.image_rect(width, height), image_w, image_h),
    ensures
        ({
            let image = layout.job().image.clamped(width, height);
            let steps = layout.job().drawn_steps(width, height, image_w, image_h);
            let n = steps.len() as int;
            let (x, y, w, h) = image.image_rect(width, height);
            let (a, b, c, d) = layout.image.image_rect(width, height);
            &&& w == c && h == d
            &&& layout.image.offset is None ==> x == a && y == b
            &&& is_pulled_back(layout.image.offset, image.offset, (w, h), (width, height))
            &&& n >= 4
            &&& steps[n - 4] == PaintModel::SourceImage
            &&& steps[n - 3] == PaintModel::Rectangle(0 as real, 0 as real, image_w, image_h)
            &&& steps[n - 2] == PaintModel::Fill
            &&& to_page(steps.take(n - 2), point) == if layout.image.rotate {
                (x + w - point.1 * (w / image_h), y + point.0 * (h / image_w))
            } else {
                (x + point.0 * (w / image_w), y + point.1 * (h / image_h))
            }
        }),
{
    let image = layout.job().image.clamped(width, height);
    law_clamping_pulls_back(layout.image, width, height);
    law_page_shows_each_pixel_in_place(image, width, height, image_w, image_h, point);
}

/// A job was sent where it was handed over or is being handed over, and in no other case.
pub proof fn law_sent_outcomes(outcome: PrintOutcome)
    ensures
        was_sent(outcome) == match outcome {
            PrintOutcome::Apply => true,
            PrintOutcome::InProgress => true,
            PrintOutcome::Cancel => false,
            PrintOutcome::Error => false,
            PrintOutcome::Failed(_) => false,
        },
{
}

/// A job that was sent is logged, and the user notified of it unless notifications are off. A job
/// that could not be run is explained with its reason. Nothing else is logged or explained: who
/// cancels knows.
pub proof fn law_report_follows_the_outcome(outcome: PrintOutcome, disable_notifications: bool)
    ensures
        ({
            let report = report_of(outcome, disable_notifications);
            match outcome {
                PrintOutcome::Apply | PrintOutcome::InProgress => {
                    &&& report.sent
                    &&& report.log == Some(("Sent to printer."@, !disable_notifications))
                    &&& report.failure is None
                },
                PrintOutcome::Failed(why) => {
                    &&& !report.sent
                    &&& report.log is None
                    &&& report.failure == Some(("Could not print the image"@, why@))
                },
                PrintOutcome::Cancel | PrintOutcome::Error => {
                    &&& !report.sent
                    &&& report.log is None
                    &&& report.failure is None
                },
            }
        }),
{
}

/// After two prints a session holds the sheet of the second, and the settings of the last print
/// that left any. Once it holds a sheet, no sheet is turned any more; before that it is turned to
/// landscape for a wide image and to portrait for any other.
pub proof fn law_session_keeps_the_last_print<S, P>(
    session: Session<S, P>,
    first: (Option<S>, P),
    second: (Option<S>, P),
    width: int,
    height: int,
)
    ensures
        ({
            let next = session.remembering(first.0, first.1);
            let last = next.remembering(second.0, second.1);
            &&& last.page == Some(second.1)
            &&& second.0 is Some ==> last.settings == second.0
            &&& second.0 is None && first.0 is Some ==> last.settings == first.0
            &&& second.0 is None && first.0 is None ==> last.settings == session.settings
            &&& next.turn_for(width, height) is None
            &&& session.page is Some ==> session.turn_for(width, height) is None
            &&& session.page is None && width > height ==> session.turn_for(width, height) == Some(
                Orientation::Landscape,
            )
            &&& session.page is None && width <= height ==> session.turn_for(width, height) == Some(
                Orientation::Portrait,
            )
        }),
{
}

/// What is reported has the very text, and is shown to the user exactly where it says so.
pub proof fn law_reports_are_exact(
    log: (String, bool),
    failure: (String, String),
    text: Seq<char>,
    why: Seq<char>,
    notify: bool,
)
    ensures
        reports(Some(log), text, notify) <==> log.0@ == text && log.1 == notify,
        !reports(None, text, notify),
        explains(Some(failure), text, why) <==> failure.0@ == text && failure.1@ == why,
        !explains(None, text, why),
{
}

} // verus!
