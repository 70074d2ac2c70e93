//! Print jobs: the page raster, how a page is planned and sent, and what a failure
//! means to the job's owner.

use vstd::prelude::*;

use crate::buffer;
use crate::buffer::{split_into_buffers, BufferModel, ESeriesBufOpts};
use crate::error::{Error, ErrorModel};
use crate::flow::{Op, Wait, WaitKind, WaitStep, COMPLETION_POLLS, POLL_MS};
use crate::printer;
use crate::printer::{plan_page, Printer};
use crate::raster;
use crate::raster::eseries_pack;
use crate::status;
use crate::status::PrinterStatus;
use crate::text;
use crate::text::{decimal_text, join2, join3, same_text};
use crate::wire;

verus! {

/// Largest print density; a darkness of 100 % asks for it.
pub const JOB_MAX_DENSITY: i32 = 15;

/// Largest burn energy of the E-series; a darkness of 100 % asks for it.
pub const ESERIES_MAX_ENERGY: i32 = 31;

/// Name of the driver whose printers take the E-series path.
pub const ESERIES_DRIVER: &'static str = "supvan_e10pro";

/// Why a printer is stopped, for the job's owner.
#[derive(Debug, Clone, Copy, PartialEq, Eq, Structural)]
pub struct Reasons {
    /// The cover is open.
    pub cover_open: bool,
    /// There is no label left, or none at all.
    pub media_empty: bool,
    /// A label or ribbon cannot be handled.
    pub media_jam: bool,
    /// The ribbon has ended.
    pub media_needed: bool,
    /// The printer cannot be reached.
    pub offline: bool,
    /// Something else.
    pub other: bool,
}

/// No reason at all.
pub open spec fn no_reasons() -> Reasons {
    Reasons {
        cover_open: false,
        media_empty: false,
        media_jam: false,
        media_needed: false,
        offline: false,
        other: false,
    }
}

/// Something else, and nothing more.
pub open spec fn other_reason() -> Reasons {
    Reasons { other: true, ..no_reasons() }
}

/// The reasons that a status gives.
pub open spec fn status_reasons(s: PrinterStatus) -> Reasons {
    Reasons {
        cover_open: s.cover_open,
        media_empty: s.label_end || s.label_not_installed,
        media_jam: s.label_rw_error || s.label_mode_error || s.ribbon_rw_error,
        media_needed: s.ribbon_end,
        offline: false,
        other: s.head_temp_high,
    }
}

/// A failed job: why, and in words.
#[derive(Debug, PartialEq, Eq)]
pub struct Failure {
    /// Why.
    pub reasons: Reasons,
    /// In words.
    pub message: String,
}

/// The reasons that a status gives; none if nothing is wrong.
pub fn reasons_from_status(s: &PrinterStatus) -> (r: Reasons)
    ensures
        r == status_reasons(*s),
{
    Reasons {
        cover_open: s.cover_open,
        media_empty: s.label_end || s.label_not_installed,
        media_jam: s.label_rw_error || s.label_mode_error || s.ribbon_rw_error,
        media_needed: s.ribbon_end,
        offline: false,
        other: s.head_temp_high,
    }
}

/// The reasons of a failure with this status: those of the status, or something
/// else if it gives none.
pub open spec fn failure_reasons(s: PrinterStatus) -> Reasons {
    if status_reasons(s) == no_reasons() {
        other_reason()
    } else {
        status_reasons(s)
    }
}

/// What a failing status says in words.
pub open spec fn failure_words(s: PrinterStatus) -> Seq<char> {
    match s.error_description {
        Some(d) => d@,
        None => "unknown"@,
    }
}

/// The failure of a job whose printer reports this status.
pub fn failure_from_status(s: &PrinterStatus, context: &str) -> (f: Failure)
    ensures
        f.reasons == failure_reasons(*s),
        f.message@ == context@ + ": "@ + failure_words(*s),
{
    let mut reasons = reasons_from_status(s);
    if !reasons.cover_open && !reasons.media_empty && !reasons.media_jam && !reasons.media_needed
        && !reasons.other {
        reasons.other = true;
    }
    let message = match &s.error_description {
        Some(d) => join3(context, ": ", d.as_str()),
        None => join3(context, ": ", "unknown"),
    };
    Failure { reasons, message }
}

/// The reasons of a failed transfer.
pub open spec fn error_reasons(e: ErrorModel) -> Reasons {
    if e is Io {
        Reasons { offline: true, ..no_reasons() }
    } else {
        other_reason()
    }
}

/// The failure of a job whose transfer failed; `shown` is the error as it is shown
/// to the user.
pub fn failure_from_proto(e: &Error, shown: &str, context: &str) -> (f: Failure)
    ensures
        f.reasons == error_reasons(e@),
        f.message@ == context@ + ": "@ + shown@,
{
    let offline: bool = match e {
        Error::Io(_) => true,
        _ => false,
    };
    Failure {
        reasons: Reasons {
            cover_open: false,
            media_empty: false,
            media_jam: false,
            media_needed: false,
            offline,
            other: !offline,
        },
        message: join3(context, ": ", shown),
    }
}

/// A failure for some other reason.
pub fn other_failure(message: String) -> (f: Failure)
    ensures
        f.reasons == other_reason(),
        f.message == message,
{
    Failure {
        reasons: Reasons {
            cover_open: false,
            media_empty: false,
            media_jam: false,
            media_needed: false,
            offline: false,
            other: true,
        },
        message,
    }
}

/// The failure of a job whose page could not be compressed; `shown` is the error as
/// it is shown to the user.
pub fn refusal_failure(shown: &str) -> (f: Failure)
    ensures
        f.reasons == other_reason(),
        f.message@ == "compression: "@ + shown@,
{
    other_failure(join2("compression: ", shown))
}

/// A job and the page it is at.
#[derive(Debug, PartialEq, Eq)]
pub struct KsJob {
    /// Dots per line.
    pub width: u32,
    /// Lines per page.
    pub height: u32,
    /// Bytes per line.
    pub bytes_per_line: u32,
    /// The lines of the page, one behind the other.
    pub raster_data: Vec<u8>,
    /// Lines written to the page.
    pub lines_received: u32,
    /// Print density.
    pub density: u8,
    /// Dots across the printhead.
    pub printhead_width_dots: u32,
    /// Burn energy; `Some` takes the E-series path, `None` that of the T50.
    pub eseries_energy: Option<u8>,
}

/// A job, as plain values.
pub struct JobModel {
    /// Dots per line.
    pub width: u32,
    /// Lines per page.
    pub height: u32,
    /// Bytes per line.
    pub bytes_per_line: u32,
    /// The lines of the page.
    pub raster: Seq<u8>,
    /// Lines written to the page.
    pub lines_received: u32,
    /// Print density.
    pub density: u8,
    /// Dots across the printhead.
    pub printhead_width_dots: u32,
    /// Burn energy.
    pub eseries_energy: Option<u8>,
}

impl View for KsJob {
    type V = JobModel;

    open spec fn view(&self) -> JobModel {
        JobModel {
            width: self.width,
            height: self.height,
            bytes_per_line: self.bytes_per_line,
            raster: self.raster_data@,
            lines_received: self.lines_received,
            density: self.density,
            printhead_width_dots: self.printhead_width_dots,
            eseries_energy: self.eseries_energy,
        }
    }
}

/// The page of a job holds all its lines.
pub open spec fn job_wf(j: JobModel) -> bool {
    &&& j.raster.len() == j.height * j.bytes_per_line
    &&& j.height * j.bytes_per_line <= u32::MAX
}

/// A job with a blank page.
pub open spec fn blank_job(
    width: u32,
    height: u32,
    bytes_per_line: u32,
    density: u8,
    printhead_width_dots: u32,
    eseries_energy: Option<u8>,
) -> JobModel {
    JobModel {
        width,
        height,
        bytes_per_line,
        raster: wire::zeros((height * bytes_per_line) as nat),
        lines_received: 0,
        density,
        printhead_width_dots,
        eseries_energy,
    }
}

/// A page with line `y` written: the line's bytes, as far as they fit, replace the
/// first bytes of that line of the page.
pub open spec fn with_line(page: Seq<u8>, bpl: int, y: int, line: Seq<u8>) -> Seq<u8> {
    Seq::new(
        page.len(),
        |i: int|
            if y * bpl <= i < y * bpl + bpl && i - y * bpl < line.len() {
                line[i - y * bpl]
            } else {
                page[i]
            },
    )
}

/// Why a page cannot even be sent.
#[derive(Debug, PartialEq, Eq)]
pub enum PageRefusal {
    /// The page could not be compressed.
    Compression(Error),
    /// The print could not be planned.
    Print(Error),
}

/// The buffers of an E-series page with this canvas.
pub open spec fn eseries_page(
    canvas: Seq<u8>,
    canvas_bpl: u32,
    num_cols: u32,
    energy: u8,
) -> Seq<BufferModel> {
    buffer::page_parts(
        canvas,
        (canvas_bpl % 256) as u8,
        0,
        num_cols as int % 65536,
        buffer::eseries_style(ESeriesBufOpts { energy, ..buffer::default_eseries_opts() }),
    )
}

/// The buffers of a T50 page with this canvas.
pub open spec fn t50_page(
    canvas: Seq<u8>,
    canvas_bpl: u32,
    num_cols: u32,
    margin_dots: u16,
    density: u8,
) -> Seq<BufferModel> {
    buffer::page_parts(
        canvas,
        (canvas_bpl % 256) as u8,
        margin_dots as int,
        num_cols % 65536 - 2 * margin_dots,
        buffer::t50_style(margin_dots, margin_dots, density, 1),
    )
}

/// Bytes per line of a job's page.
pub open spec fn job_bytes_per_line(width: u32, bits_per_pixel: u32, bytes_per_line: u32) -> int {
    if bits_per_pixel == 8 {
        raster::dot_bytes(width as int)
    } else {
        bytes_per_line as int
    }
}

/// The quotient by 100, rounded towards zero.
pub open spec fn hundredth(n: int) -> int {
    if n >= 0 {
        n / 100
    } else {
        -((-n) / 100)
    }
}

/// The density for a darkness: a share of [`JOB_MAX_DENSITY`], rounded, in a byte.
pub open spec fn scaled_density(darkness: int) -> u8 {
    (hundredth(darkness * JOB_MAX_DENSITY + 50) % 256) as u8
}

/// The energy for a darkness: a share of [`ESERIES_MAX_ENERGY`], rounded, and
/// brought into the range from 0 to it.
pub open spec fn scaled_energy(darkness: int) -> u8 {
    let e = hundredth(darkness * ESERIES_MAX_ENERGY + 50);
    if e < 0 {
        0
    } else if e > ESERIES_MAX_ENERGY {
        ESERIES_MAX_ENERGY as u8
    } else {
        e as u8
    }
}

/// The density for a darkness in percent.
pub fn density_for(darkness: i32) -> (density: u8)
    requires
        i32::MIN <= darkness * JOB_MAX_DENSITY + 50 <= i32::MAX,
    ensures
        density == scaled_density(darkness as int),
{
    let n: i64 = darkness as i64 * 15 + 50;
    if n >= 0 {
        ((n as u64 / 100) % 256) as u8
    } else {
        let part: u64 = ((-n) as u64 / 100) % 256;
        ((256 - part) % 256) as u8
    }
}

/// The E-series energy for a darkness in percent.
pub fn energy_for(darkness: i32) -> (energy: u8)
    requires
        i32::MIN <= darkness * ESERIES_MAX_ENERGY + 50 <= i32::MAX,
    ensures
        energy == scaled_energy(darkness as int),
{
    let n: i64 = darkness as i64 * 31 + 50;
    if n < 0 {
        0
    } else {
        let e: u64 = n as u64 / 100;
        if e > 31 {
            31
        } else {
            e as u8
        }
    }
}

/// Whether the printer's status tells more about an error of a print.
pub fn wants_status(e: &Error) -> (b: bool)
    ensures
        b == (e@ is InvalidResponse),
{
    match e {
        Error::InvalidResponse(_) => true,
        _ => false,
    }
}

/// The failure of a job whose print ended with an error; `shown` is the error as
/// it is shown to the user, `status` what the printer reported after an
/// unexpected answer.
pub fn page_failure(e: Error, shown: &str, status: Option<PrinterStatus>) -> (f: Failure)
    ensures
        match e {
            Error::InvalidResponse(msg) => match status {
                Some(s) if s.has_error => f.reasons == failure_reasons(s) && f.message@
                    == "print"@ + ": "@ + failure_words(s),
                _ => f.reasons == other_reason() && f.message == msg,
            },
            _ => f.reasons == error_reasons(e@) && f.message@ == "print"@ + ": "@ + shown@,
        },
{
    if !wants_status(&e) {
        return failure_from_proto(&e, shown, "print");
    }
    match status {
        Some(s) => {
            if s.has_error {
                return failure_from_status(&s, "print");
            }
        },
        None => {},
    }
    match e {
        Error::InvalidResponse(msg) => other_failure(msg),
        _ => failure_from_proto(&e, shown, "print"),
    }
}

/// How a page went, for its manifest.
pub fn outcome_text(outcome: &Result<(), Failure>) -> (s: String)
    ensures
        s@ == match *outcome {
            Ok(()) => "completed"@,
            Err(f) => "aborted: "@ + f.message@,
        },
{
    match outcome {
        Ok(()) => "completed".to_owned(),
        Err(f) => join2("aborted: ", f.message.as_str()),
    }
}

/// What the end of a job asks for next, or how it went.
#[derive(Debug, Clone, Copy, PartialEq, Eq, Structural)]
pub enum EndStep {
    /// Pause for that many milliseconds, then query the status.
    Sleep(u64),
    /// The printer is done, or cannot be asked.
    Settled,
    /// The queries are used up.
    TimedOut,
}

/// Judge what a query at the end of a job brought: an idle printer is done, and so
/// is one that cannot be asked; else the wait goes on while queries are left.
pub fn end_poll(w: &mut Wait, answer: Result<Option<PrinterStatus>, Error>) -> (step: EndStep)
    requires
        old(w).wf(),
        old(w).kind == WaitKind::Completion,
        !old(w).asleep,
    ensures
        match answer {
            Err(_) => step is Settled && *final(w) == *old(w),
            Ok(Some(s)) if status::is_idle(s) => step is Settled && *final(w) == *old(w),
            Ok(_) => if old(w).made + 1 == old(w).max {
                step is TimedOut && *final(w) == (Wait {
                    made: (old(w).made + 1) as usize,
                    ..*old(w)
                })
            } else {
                step == EndStep::Sleep(POLL_MS) && *final(w) == old(w).counted() && final(w).wf()
            },
        },
{
    match answer {
        Err(_) => EndStep::Settled,
        Ok(status) => match w.on_status(status) {
            WaitStep::Settled(_) => EndStep::Settled,
            WaitStep::Sleep(ms) => EndStep::Sleep(ms),
            _ => EndStep::TimedOut,
        },
    }
}

impl KsJob {
    /// Start a job with a blank page.
    pub fn start(
        w: u32,
        h: u32,
        bpl: u32,
        density: u8,
        printhead_width_dots: u32,
        eseries_energy: Option<u8>,
    ) -> (r: Result<KsJob, Failure>)
        requires
            h * bpl <= u32::MAX,
        ensures
            r matches Ok(job) && job@ == blank_job(
                w,
                h,
                bpl,
                density,
                printhead_width_dots,
                eseries_energy,
            ) && job_wf(job@),
    {
        proof {
            assert(0 <= h * bpl) by (nonlinear_arith);
        }
        let raster_data: Vec<u8> = vec![0u8; (h * bpl) as usize];
        assert(raster_data@ =~= wire::zeros((h * bpl) as nat));
        Ok(
            KsJob {
                width: w,
                height: h,
                bytes_per_line: bpl,
                raster_data,
                lines_received: 0,
                density,
                printhead_width_dots,
                eseries_energy,
            },
        )
    }

    /// Write line `y` of the page. Returns whether the page has such a line.
    pub fn append_line(&mut self, y: u32, line: &[u8]) -> (ok: bool)
        requires
            job_wf(old(self)@),
            y < old(self).height ==> old(self).lines_received < u32::MAX,
        ensures
            ok == (y < old(self).height),
            !ok ==> *final(self) == *old(self),
            ok ==> final(self)@ == (JobModel {
                raster: with_line(
                    old(self)@.raster,
                    old(self).bytes_per_line as int,
                    y as int,
                    line@,
                ),
                lines_received: (old(self).lines_received + 1) as u32,
                ..old(self)@
            }),
            job_wf(final(self)@),
    {
        if y >= self.height {
            return false;
        }
        let bpl: usize = self.bytes_per_line as usize;
        let copy_len: usize = if line.len() < bpl {
            line.len()
        } else {
            bpl
        };
        proof {
            assert(0 <= y * self.bytes_per_line && y * self.bytes_per_line + self.bytes_per_line
                <= self.height * self.bytes_per_line) by (nonlinear_arith)
                requires
                    y < self.height,
            ;
        }
        let offset: usize = (y * self.bytes_per_line) as usize;
        let mut i: usize = 0;
        while i < copy_len
            invariant
                i <= copy_len,
                copy_len <= line@.len(),
                copy_len <= bpl,
                offset + bpl <= old(self)@.raster.len(),
                offset + bpl <= u32::MAX,
                self.width == old(self).width,
                self.height == old(self).height,
                self.bytes_per_line == old(self).bytes_per_line,
                self.lines_received == old(self).lines_received,
                self.density == old(self).density,
                self.printhead_width_dots == old(self).printhead_width_dots,
                self.eseries_energy == old(self).eseries_energy,
                self.raster_data@.len() == old(self)@.raster.len(),
                forall|k: int|
                    0 <= k < self.raster_data@.len() ==> #[trigger] self.raster_data@[k] == if offset
                        <= k < offset + i {
                        line@[k - offset]
                    } else {
                        old(self)@.raster[k]
                    },
            decreases copy_len - i,
        {
            self.raster_data[offset + i] = line[i];
            i += 1;
        }
        self.lines_received = self.lines_received + 1;
        assert(self.raster_data@ =~= with_line(
            old(self)@.raster,
            old(self).bytes_per_line as int,
            y as int,
            line@,
        ));
        true
    }

    /// Make the page blank.
    pub fn clear_page(&mut self)
        requires
            job_wf(old(self)@),
        ensures
            final(self)@ == (JobModel {
                raster: wire::zeros(old(self)@.raster.len()),
                lines_received: 0,
                ..old(self)@
            }),
            job_wf(final(self)@),
    {
        let n: usize = self.raster_data.len();
        let mut i: usize = 0;
        while i < n
            invariant
                i <= n,
                n == old(self)@.raster.len(),
                self.width == old(self).width,
                self.height == old(self).height,
                self.bytes_per_line == old(self).bytes_per_line,
                self.density == old(self).density,
                self.printhead_width_dots == old(self).printhead_width_dots,
                self.eseries_energy == old(self).eseries_energy,
                self.raster_data@.len() == n,
                forall|k: int| 0 <= k < i ==> #[trigger] self.raster_data@[k] == 0u8,
            decreases n - i,
        {
            self.raster_data[i] = 0;
            i += 1;
        }
        self.lines_received = 0;
        assert(self.raster_data@ =~= wire::zeros(old(self)@.raster.len()));
    }

    /// The canvas of an E-series page: the page's columns packed into the head.
    /// Returns the canvas and its bytes per column.
    pub fn eseries_canvas(&self, col_data: &[u8], num_cols: u32) -> (packed: (Vec<u8>, u32))
        requires
            self.printhead_width_dots % 8 == 0,
            num_cols * (self.printhead_width_dots / 8) <= usize::MAX,
            num_cols * raster::dot_bytes(self.width as int) <= usize::MAX,
        ensures
            packed.1 == self.printhead_width_dots / 8,
            raster::is_packed(
                packed.0@,
                col_data@,
                num_cols as int,
                self.width as int,
                self.printhead_width_dots as int,
            ),
            packed.0@.len() == num_cols * packed.1,
            forall|c: int, x: int|
                0 <= c < num_cols && 0 <= x < self.printhead_width_dots ==> #[trigger] raster::dot(
                    packed.0@,
                    packed.1 as int,
                    c,
                    x,
                ) == raster::packed_dot(col_data@, self.width as int, c, x),
    {
        eseries_pack(col_data, num_cols, self.width, self.printhead_width_dots)
    }

    /// Plan the print of a page from its printhead canvas of `num_cols` columns. A T50 page gives `margin_dots`
    /// columns on both ends to its margins; an E-series page is sent as it is.
    pub fn transfer_page<T, F: Fn(usize) -> u16>(
        &self,
        printer: &Printer<T>,
        canvas: &[u8],
        canvas_bpl: u32,
        num_cols: u32,
        margin_dots: u16,
        calc_speed: F,
    ) -> (r: Result<Vec<Op>, PageRefusal>)
        requires
            canvas_bpl % 256 > 0,
            self.eseries_energy is Some ==> buffer::image_reaches(
                canvas@.len() as int,
                (canvas_bpl % 256) as u8,
                0,
                num_cols as int % 65536,
            ),
            self.eseries_energy is None ==> 2 * margin_dots <= num_cols % 65536
                && buffer::image_reaches(
                canvas@.len() as int,
                (canvas_bpl % 256) as u8,
                margin_dots as int,
                num_cols % 65536 - 2 * margin_dots,
            ),
            forall|avg: usize| call_requires(calc_speed, (avg,)),
        ensures
            match self.eseries_energy {
                Some(energy) => match r {
                    Ok(ops) => printer::plans_page_e(
                        Ok::<Vec<Op>, Error>(ops),
                        eseries_page(canvas@, canvas_bpl, num_cols, energy),
                        (num_cols % 65536) as u16,
                    ),
                    Err(PageRefusal::Print(e)) => printer::plans_page_e(
                        Err::<Vec<Op>, Error>(e),
                        eseries_page(canvas@, canvas_bpl, num_cols, energy),
                        (num_cols % 65536) as u16,
                    ),
                    Err(PageRefusal::Compression(_)) => false,
                },
                None => match r {
                    Ok(ops) => printer::plans_page(
                        Ok::<Vec<Op>, Error>(ops),
                        t50_page(canvas@, canvas_bpl, num_cols, margin_dots, self.density),
                        calc_speed,
                        0,
                    ),
                    Err(PageRefusal::Compression(e)) => printer::plans_page(
                        Err::<Vec<Op>, Error>(e),
                        t50_page(canvas@, canvas_bpl, num_cols, margin_dots, self.density),
                        calc_speed,
                        0,
                    ),
                    Err(PageRefusal::Print(_)) => false,
                },
            },
    {
        let plb: u8 = (canvas_bpl % 256) as u8;
        let cols: u16 = (num_cols % 65536) as u16;
        match self.eseries_energy {
            Some(energy) => {
                let opts = ESeriesBufOpts { energy, ..ESeriesBufOpts::default() };
                match printer.print_page_e(canvas, plb, cols, opts) {
                    Ok(ops) => Ok(ops),
                    Err(e) => Err(PageRefusal::Print(e)),
                }
            },
            None => {
                let buffers = split_into_buffers(
                    canvas,
                    plb,
                    cols,
                    margin_dots,
                    margin_dots,
                    self.density,
                    1,
                );
                let ghost parts = t50_page(
                    canvas@,
                    canvas_bpl,
                    num_cols,
                    margin_dots,
                    self.density,
                );
                match plan_page(&buffers, calc_speed, 0, Ghost(parts)) {
                    Ok(ops) => Ok(ops),
                    Err(e) => Err(PageRefusal::Compression(e)),
                }
            },
        }
    }

    /// Write line `y` of the page, or fail if the page has no such line.
    pub fn write_line(&mut self, y: u32, line: &[u8]) -> (r: Result<(), Failure>)
        requires
            job_wf(old(self)@),
            y < old(self).height ==> old(self).lines_received < u32::MAX,
        ensures
            match r {
                Ok(()) => y < old(self).height && final(self)@ == (JobModel {
                    raster: with_line(
                        old(self)@.raster,
                        old(self).bytes_per_line as int,
                        y as int,
                        line@,
                    ),
                    lines_received: (old(self).lines_received + 1) as u32,
                    ..old(self)@
                }),
                Err(f) => y >= old(self).height && *final(self) == *old(self) && f.reasons
                    == other_reason() && f.message@ == "write_line: y="@ + text::decimal(y as nat)
                    + " out of bounds"@,
            },
            job_wf(final(self)@),
    {
        if self.append_line(y, line) {
            Ok(())
        } else {
            let n = decimal_text(y as u64);
            Err(other_failure(join3("write_line: y=", n.as_str(), " out of bounds")))
        }
    }

    /// Whether the page is to be printed (once more), after `printed` of `copies`
    /// prints that went well. After the last one the page is made blank.
    pub fn end_page(&mut self, copies: u32, printed: u32) -> (again: bool)
        requires
            job_wf(old(self)@),
        ensures
            again == (printed < copies),
            again ==> *final(self) == *old(self),
            !again ==> final(self)@ == (JobModel {
                raster: wire::zeros(old(self)@.raster.len()),
                lines_received: 0,
                ..old(self)@
            }),
            job_wf(final(self)@),
    {
        if printed < copies {
            true
        } else {
            self.clear_page();
            false
        }
    }

    /// Start a job as its options say. A job in 8-bit gray gets a page of one bit
    /// per dot; the darkness (in percent) sets density and, on the E-series, energy.
    pub fn start_job(
        width: u32,
        height: u32,
        bits_per_pixel: u32,
        bytes_per_line: u32,
        darkness: i32,
        printhead_width_dots: u32,
        driver_name: &str,
    ) -> (r: Result<KsJob, Failure>)
        requires
            height * job_bytes_per_line(width, bits_per_pixel, bytes_per_line) <= u32::MAX,
            i32::MIN <= darkness * JOB_MAX_DENSITY + 50 <= i32::MAX,
            driver_name@ == ESERIES_DRIVER@ ==> i32::MIN <= darkness * ESERIES_MAX_ENERGY + 50
                <= i32::MAX,
        ensures
            r matches Ok(job) && job@ == blank_job(
                width,
                height,
                job_bytes_per_line(width, bits_per_pixel, bytes_per_line) as u32,
                scaled_density(darkness as int),
                printhead_width_dots,
                if driver_name@ == ESERIES_DRIVER@ {
                    Some(scaled_energy(darkness as int))
                } else {
                    None
                },
            ) && job_wf(job@),
    {
        let bpl: u32 = if bits_per_pixel == 8 {
            width / 8 + if width % 8 == 0 {
                0
            } else {
                1u32
            }
        } else {
            bytes_per_line
        };
        let energy: Option<u8> = if same_text(driver_name, ESERIES_DRIVER) {
            Some(energy_for(darkness))
        } else {
            None
        };
        KsJob::start(width, height, bpl, density_for(darkness), printhead_width_dots, energy)
    }

    /// End the job: wait for the printer to finish, with [`end_poll`] judging each
    /// answer.
    pub fn end(self) -> (begun: (Wait, WaitStep))
        ensures
            begun.0 == Wait::started(WaitKind::Completion, COMPLETION_POLLS),
            begun.0.wf(),
            begun.0.asks(begun.1),
    {
        Wait::start(WaitKind::Completion, COMPLETION_POLLS)
    }
}

/// Line `y` of a page.
pub open spec fn page_line(page: Seq<u8>, bpl: int, y: int) -> Seq<u8> {
    page.subrange(y * bpl, y * bpl + bpl)
}

/// Writing a line changes that line and no other: it starts with the bytes
/// written, cut to the line, and keeps the rest.
pub proof fn law_lines_are_independent(
    page: Seq<u8>,
    bpl: int,
    height: int,
    y: int,
    z: int,
    line: Seq<u8>,
)
    requires
        0 <= bpl,
        page.len() == height * bpl,
        0 <= y < height,
        0 <= z < height,
    ensures
        with_line(page, bpl, y, line).len() == page.len(),
        page_line(with_line(page, bpl, y, line), bpl, y) == if line.len() < bpl {
            line + page_line(page, bpl, y).skip(line.len() as int)
        } else {
            line.take(bpl)
        },
        z != y ==> page_line(with_line(page, bpl, y, line), bpl, z) == page_line(page, bpl, z),
{
    let after = with_line(page, bpl, y, line);
    assert(0 <= y * bpl && y * bpl + bpl <= height * bpl) by (nonlinear_arith)
        requires
            0 <= bpl,
            0 <= y < height,
    ;
    assert(0 <= z * bpl && z * bpl + bpl <= height * bpl) by (nonlinear_arith)
        requires
            0 <= bpl,
            0 <= z < height,
    ;
    if line.len() < bpl {
        assert(page_line(after, bpl, y) =~= line + page_line(page, bpl, y).skip(
            line.len() as int,
        ));
    } else {
        assert(page_line(after, bpl, y) =~= line.take(bpl));
    }
    if z != y {
        assert(z * bpl + bpl <= y * bpl || y * bpl + bpl <= z * bpl) by (nonlinear_arith)
            requires
                0 <= bpl,
                z != y,
        ;
        assert(page_line(after, bpl, z) =~= page_line(page, bpl, z));
    }
}

/// A cleared page is the page of a fresh job with the same settings.
pub proof fn law_cleared_job_is_fresh(j: JobModel)
    requires
        job_wf(j),
    ensures
        (JobModel { raster: wire::zeros(j.raster.len()), lines_received: 0, ..j })
            == blank_job(
            j.width,
            j.height,
            j.bytes_per_line,
            j.density,
            j.printhead_width_dots,
            j.eseries_energy,
        ),
{
}

/// A failed job has a reason, whatever the status or the error.
pub proof fn law_failures_have_a_reason(s: PrinterStatus, e: ErrorModel)
    ensures
        failure_reasons(s) != no_reasons(),
        error_reasons(e) != no_reasons(),
{
}

/// Every darkness from 0 to 100 % is scaled onto the whole range: 0 gives none,
/// 100 gives all, and no darker setting gives less.
pub proof fn law_darkness_scales(a: int, b: int)
    requires
        0 <= a <= b <= 100,
    ensures
        scaled_density(0) == 0,
        scaled_density(100) == JOB_MAX_DENSITY,
        scaled_density(a) <= scaled_density(b) <= JOB_MAX_DENSITY,
        scaled_energy(0) == 0,
        scaled_energy(100) == ESERIES_MAX_ENERGY,
        scaled_energy(a) <= scaled_energy(b) <= ESERIES_MAX_ENERGY,
{
}

/// An E-series job adds no feed: every column of the canvas is sent once and in
/// order, from the first to the last, and the header asks for the least margins.
pub proof fn law_eseries_page_adds_no_feed(
    canvas: Seq<u8>,
    canvas_bpl: u32,
    num_cols: u32,
    energy: u8,
)
    requires
        0 < canvas_bpl < 256,
        num_cols <= 65535,
        canvas.len() == num_cols * canvas_bpl,
    ensures
        ({
            let parts = eseries_page(canvas, canvas_bpl, num_cols, energy);
            let max = buffer::max_cols(canvas_bpl as u8);
            &&& forall|k: int|
                0 <= k < parts.len() ==> (#[trigger] parts[k]).margin_top == 1
                    && parts[k].margin_bottom == 1
            &&& forall|c: int| 0 <= c < num_cols ==> 0 <= #[trigger] (c / max) < parts.len()
            &&& forall|c: int, j: int|
                #![trigger canvas[c * canvas_bpl + j]]
                0 <= c < num_cols && 0 <= j < canvas_bpl ==> parts[c / max].image[(c % max)
                    * canvas_bpl + j] == canvas[c * canvas_bpl + j]
        }),
{
    let opts = ESeriesBufOpts { energy, ..buffer::default_eseries_opts() };
    let style = buffer::eseries_style(opts);
    buffer::law_page_parts_cover_raster(canvas, canvas_bpl as u8, 0, num_cols as int, style);
    let parts = eseries_page(canvas, canvas_bpl, num_cols, energy);
    let max = buffer::max_cols(canvas_bpl as u8);
    assert forall|c: int, j: int|
        #![trigger canvas[c * canvas_bpl + j]]
        0 <= c < num_cols && 0 <= j < canvas_bpl implies parts[c / max].image[(c % max) * canvas_bpl
        + j] == canvas[c * canvas_bpl + j] by {
        assert(canvas[(0 + c) * (canvas_bpl as u8) + j] == canvas[c * canvas_bpl + j]);
    }
}

/// The density is the whole number nearest to the darkness times 15 %, a half rounded
/// up; and the energy that nearest to the darkness times 31 %.
pub proof fn law_darkness_is_rounded_to_nearest(darkness: int)
    requires
        0 <= darkness <= 100,
    ensures
        -50 < 100 * scaled_density(darkness) - 15 * darkness <= 50,
        -50 < 100 * scaled_energy(darkness) - 31 * darkness <= 50,
{
}

/// Whatever the darkness, the density is the low byte of its 15 % and a half, rounded
/// towards zero: of the nearest whole number from 0 on, and of the next one up where
/// the sum is negative. The energy keeps to its limits.
pub proof fn law_any_darkness(darkness: int, n: int)
    ensures
        darkness >= 0 && -50 < 100 * n - 15 * darkness <= 50 ==> (scaled_density(darkness) - n)
            % 256 == 0,
        15 * darkness + 50 < 0 && 50 <= 100 * n - 15 * darkness < 150 ==> (scaled_density(darkness)
            - n) % 256 == 0,
        -10 < darkness <= 0 ==> scaled_density(darkness) == 0,
        darkness >= 100 ==> scaled_energy(darkness) == 31,
        darkness <= 0 ==> scaled_energy(darkness) == 0,
{
    let h = hundredth(darkness * 15 + 50);
    if darkness >= 0 && -50 < 100 * n - 15 * darkness <= 50 {
        assert(h == n);
    }
    if 15 * darkness + 50 < 0 && 50 <= 100 * n - 15 * darkness < 150 {
        assert(h == n);
    }
}

/// Each flag of a status raises its own reason, on its own, and nothing else does: a
/// status without these flags gives no reason.
pub proof fn law_each_flag_raises_its_reason(s: PrinterStatus)
    ensures
        status_reasons(s).cover_open == s.cover_open,
        s.label_end ==> status_reasons(s).media_empty,
        s.label_not_installed ==> status_reasons(s).media_empty,
        !s.label_end && !s.label_not_installed ==> !status_reasons(s).media_empty,
        s.label_rw_error ==> status_reasons(s).media_jam,
        s.label_mode_error ==> status_reasons(s).media_jam,
        s.ribbon_rw_error ==> status_reasons(s).media_jam,
        !s.label_rw_error && !s.label_mode_error && !s.ribbon_rw_error ==> !status_reasons(
            s,
        ).media_jam,
        status_reasons(s).media_needed == s.ribbon_end,
        status_reasons(s).other == s.head_temp_high,
        !status_reasons(s).offline,
        failure_reasons(s).cover_open == s.cover_open,
        failure_reasons(s).media_empty == status_reasons(s).media_empty,
        failure_reasons(s).media_jam == status_reasons(s).media_jam,
        failure_reasons(s).media_needed == s.ribbon_end,
        !failure_reasons(s).offline,
        failure_reasons(s).other <==> s.head_temp_high || !(s.cover_open || s.label_end
            || s.label_not_installed || s.label_rw_error || s.label_mode_error || s.ribbon_rw_error
            || s.ribbon_end),
{
}

/// A transfer that failed at the transport means that the printer is out of reach, and
/// means nothing else; any other error is some other reason, and never that one.
pub proof fn law_only_transport_failures_mean_offline(e: ErrorModel)
    ensures
        error_reasons(e).offline <==> e matches ErrorModel::Io(_),
        error_reasons(e).other <==> !(e matches ErrorModel::Io(_)),
        !error_reasons(e).cover_open && !error_reasons(e).media_empty && !error_reasons(e).media_jam
            && !error_reasons(e).media_needed,
{
}

/// A page of one bit per dot has just the bytes its dots need; any other page has the
/// bytes that its job says.
pub proof fn law_bytes_per_line(width: u32, bits_per_pixel: u32, bytes_per_line: u32)
    ensures
        bits_per_pixel == 8 ==> width <= 8 * job_bytes_per_line(
            width,
            bits_per_pixel,
            bytes_per_line,
        ) < width + 8,
        bits_per_pixel != 8 ==> job_bytes_per_line(width, bits_per_pixel, bytes_per_line)
            == bytes_per_line,
{
}

/// A fresh job has the settings it was given and a blank page for all its lines.
pub proof fn law_fresh_job_is_blank(
    width: u32,
    height: u32,
    bytes_per_line: u32,
    density: u8,
    head: u32,
    energy: Option<u8>,
    i: int,
)
    ensures
        ({
            let j = blank_job(width, height, bytes_per_line, density, head, energy);
            &&& j.width == width && j.height == height && j.bytes_per_line == bytes_per_line
            &&& j.density == density && j.printhead_width_dots == head && j.eseries_energy == energy
            &&& j.lines_received == 0
            &&& j.raster.len() == height * bytes_per_line
            &&& 0 <= i < j.raster.len() ==> j.raster[i] == 0
        }),
{
    assert(0 <= height * bytes_per_line) by (nonlinear_arith);
}

/// Byte by byte, a written line is in its place: byte `i` of line `y` is byte `i` of
/// what was written, as far as that goes, and every other byte of the page is as it
/// was.
pub proof fn law_written_bytes_stay_in_their_line(
    page: Seq<u8>,
    bpl: int,
    y: int,
    line: Seq<u8>,
    p: int,
)
    requires
        0 <= p < page.len(),
        0 < bpl,
    ensures
        ({
            let after = with_line(page, bpl, y, line);
            if p / bpl == y && p % bpl < line.len() {
                after[p] == line[p % bpl]
            } else {
                after[p] == page[p]
            }
        }),
{
    let q = p / bpl;
    let r = p % bpl;
    assert(p == q * bpl + r && 0 <= r < bpl) by (nonlinear_arith)
        requires
            q == p / bpl,
            r == p % bpl,
            0 < bpl,
    ;
    assert(q == y <==> y * bpl <= p < y * bpl + bpl) by (nonlinear_arith)
        requires
            p == q * bpl + r,
            0 <= r < bpl,
    ;
}

/// An E-series job page burns at the job's energy, in all buffers but the last, with
/// density 4, a cut and continuous tape.
pub proof fn law_eseries_page_headers(
    canvas: Seq<u8>,
    canvas_bpl: u32,
    num_cols: u32,
    energy: u8,
    k: int,
)
    requires
        0 < canvas_bpl < 256,
        0 < num_cols <= 65535,
        0 <= k < eseries_page(canvas, canvas_bpl, num_cols, energy).len(),
    ensures
        ({
            let parts = eseries_page(canvas, canvas_bpl, num_cols, energy);
            let b = buffer::print_buffer(parts[k]);
            let fit = 4074int / (canvas_bpl as int);
            &&& (parts.len() - 1) * fit < num_cols <= parts.len() * fit
            &&& b[2] == 16 + (if k == 0 { 2int } else { 0 }) + (if k == parts.len() - 1 { 12int } else { 0 })
            &&& b[3] == 16
            &&& b[6] == canvas_bpl
            &&& b[8] + 256 * b[9] == 1 && b[10] + 256 * b[11] == 1
            &&& b[12] == if k == parts.len() - 1 { 0u8 } else { energy }
        }),
{
    let opts = ESeriesBufOpts { energy, ..buffer::default_eseries_opts() };
    buffer::law_eseries_headers(canvas, canvas_bpl as u8, num_cols as int, opts, k);
    buffer::lemma_part_count(canvas_bpl as u8, num_cols as int);
}

/// A T50 job page gives `margin` columns on both ends to its margins and shows the
/// rest, in order, at the job's density and on die-cut labels.
pub proof fn law_t50_page_is_carved(
    canvas: Seq<u8>,
    canvas_bpl: u32,
    num_cols: u32,
    margin: u16,
    density: u8,
    k: int,
    r: int,
    j: int,
)
    requires
        0 < canvas_bpl < 256,
        num_cols <= 65535,
        2 * margin <= num_cols,
        canvas.len() == num_cols * canvas_bpl,
        0 <= k < t50_page(canvas, canvas_bpl, num_cols, margin, density).len(),
    ensures
        ({
            let parts = t50_page(canvas, canvas_bpl, num_cols, margin, density);
            let b = buffer::print_buffer(parts[k]);
            let fit = 4074int / (canvas_bpl as int);
            &&& (parts.len() - 1) * fit < num_cols - 2 * margin <= parts.len() * fit
            &&& b[2] == (if k == 0 { 2int } else { 0 }) + (if k == parts.len() - 1 { 12int } else { 0 })
            &&& b[3] == 4 * (density % 16) + 64
            &&& b[6] == canvas_bpl
            &&& b[8] == b[10] && b[9] == b[11]
            &&& margin == 0 ==> b[8] + 256 * b[9] == 1
            &&& 1 <= margin <= 900 ==> b[8] + 256 * b[9] == margin
            &&& margin > 900 ==> b[8] + 256 * b[9] == 900
            &&& b[12] == if density <= 15 { density } else { 15u8 }
            &&& 0 <= r < parts[k].cols && 0 <= j < canvas_bpl ==> parts[k].image[r * canvas_bpl + j]
                == canvas[(margin + k * fit + r) * canvas_bpl + j]
        }),
{
    let cols = num_cols - 2 * margin;
    let plb = canvas_bpl as u8;
    assert((margin + cols) * plb <= num_cols * canvas_bpl) by (nonlinear_arith)
        requires
            margin + cols <= num_cols,
            plb == canvas_bpl,
            0 <= plb,
    ;
    buffer::law_t50_headers(canvas, plb, margin as int, cols, margin, margin, density, 1, k);
    buffer::law_buffers_are_filled_up(
        canvas,
        plb,
        margin as int,
        cols,
        buffer::t50_style(margin, margin, density, 1),
        k,
        r,
        j,
    );
}

/// Sizes beyond the header fields wrap: a canvas that is 256 bytes per column wider, or
/// 65536 columns longer, is cut into the same buffers.
pub proof fn law_page_sizes_wrap(
    canvas: Seq<u8>,
    bpl: u32,
    cols: u32,
    wider: u32,
    longer: u32,
    margin: u16,
    level: u8,
)
    requires
        bpl + 256 * wider <= u32::MAX,
        cols + 65536 * longer <= u32::MAX,
    ensures
        eseries_page(
            canvas,
            (bpl + 256 * wider) as u32,
            (cols + 65536 * longer) as u32,
            level,
        ) == eseries_page(canvas, bpl, cols, level),
        t50_page(
            canvas,
            (bpl + 256 * wider) as u32,
            (cols + 65536 * longer) as u32,
            margin,
            level,
        ) == t50_page(canvas, bpl, cols, margin, level),
{
    assert((bpl + 256 * wider) % 256 == bpl % 256);
    assert((cols + 65536 * longer) % 65536 == cols % 65536);
}

/// A failing status speaks for itself: its words are its description, or that there is
/// none.
pub proof fn law_failure_words(s: PrinterStatus)
    ensures
        s.error_description matches Some(d) ==> failure_words(s) == d@,
        s.error_description is None ==> failure_words(s) == "unknown"@,
{
}

} // verus!
