//! What the command-line tool reports and checks.

use vstd::prelude::*;
use vstd::string::StringExecFns;

use crate::buffer;
use crate::buffer::ESeriesBufOpts;
use crate::error::{Error, ErrorModel};
use crate::status::{MaterialInfo, PrinterStatus};
use crate::text;
use crate::text::{decimal_text, hex_dump, join2, join3};
use crate::wire;

verus! {

/// Smallest side of a calibration pattern, in dots.
pub const CALIBRATION_MIN_DOTS: u32 = 8;

/// Lowest resolution that counts as a candidate, in hundredths of a dot per mm.
pub const DPI_CANDIDATE_MIN: u16 = 1100;

/// Highest resolution that counts as a candidate, in hundredths of a dot per mm.
pub const DPI_CANDIDATE_MAX: u16 = 1280;

/// Where an answer echoes its command.
pub const ECHO_OFFSET: usize = 7;

/// The contents of some lines.
pub open spec fn lines_of(lines: Seq<String>) -> Seq<Seq<char>> {
    Seq::new(lines.len(), |i: int| lines[i]@)
}

/// A truth value in words.
pub open spec fn truth(b: bool) -> Seq<char> {
    if b {
        "true"@
    } else {
        "false"@
    }
}

/// A truth value in words.
fn truth_text(b: bool) -> (s: &'static str)
    ensures
        s@ == truth(b),
{
    if b {
        "true"
    } else {
        "false"
    }
}

/// The lines that report a status: the flags, the print count, and any faults.
pub open spec fn status_report(s: PrinterStatus) -> Seq<Seq<char>> {
    let flags = seq![
        "Status:"@,
        "  printing:     "@ + truth(s.printing),
        "  device_busy:  "@ + truth(s.device_busy),
        "  buf_full:     "@ + truth(s.buf_full),
        "  low_battery:  "@ + truth(s.low_battery),
        "  cover_open:   "@ + truth(s.cover_open),
        "  print_count:  "@ + text::decimal(s.print_count as nat),
    ];
    match s.error_description {
        Some(d) => flags.push("  ERRORS:       "@ + d@),
        None => flags,
    }
}

/// Report a status.
pub fn status_lines(s: &PrinterStatus) -> (lines: Vec<String>)
    ensures
        lines_of(lines@) == status_report(*s),
{
    let mut lines: Vec<String> = Vec::new();
    lines.push("Status:".to_owned());
    lines.push(join2("  printing:     ", truth_text(s.printing)));
    lines.push(join2("  device_busy:  ", truth_text(s.device_busy)));
    lines.push(join2("  buf_full:     ", truth_text(s.buf_full)));
    lines.push(join2("  low_battery:  ", truth_text(s.low_battery)));
    lines.push(join2("  cover_open:   ", truth_text(s.cover_open)));
    lines.push(join2("  print_count:  ", decimal_text(s.print_count as u64).as_str()));
    if let Some(d) = &s.error_description {
        lines.push(join2("  ERRORS:       ", d.as_str()));
    }
    assert(lines_of(lines@) =~= status_report(*s));
    lines
}

/// A size in millimetres.
pub open spec fn size_text(width_mm: u8, height_mm: u8) -> Seq<char> {
    text::decimal(width_mm as nat) + "mm x "@ + text::decimal(height_mm as nat) + "mm"@
}

/// A size in millimetres.
fn size_words(width_mm: u8, height_mm: u8) -> (s: String)
    ensures
        s@ == size_text(width_mm, height_mm),
{
    let w = decimal_text(width_mm as u64);
    let h = decimal_text(height_mm as u64);
    join2(join3(w.as_str(), "mm x ", h.as_str()).as_str(), "mm")
}

/// The lines that report the label's sizes and tag.
pub open spec fn label_report(m: MaterialInfo) -> Seq<Seq<char>> {
    seq![
        "Material:"@,
        "  Label:     "@ + size_text(m.width_mm, m.height_mm),
        "  Type:      "@ + text::decimal(m.label_type as nat),
        "  Gap:       "@ + text::decimal(m.gap_mm as nat) + "mm"@,
        "  SN:        "@ + m.sn@,
        "  UUID:      "@ + m.uuid@,
        "  Code:      "@ + m.code@,
    ]
}

/// The line that reports the labels left, if they are reported.
pub open spec fn remaining_report(m: MaterialInfo) -> Seq<Seq<char>> {
    match m.remaining {
        Some(n) => seq!["  Remaining: "@ + text::decimal(n as nat) + " labels"@],
        None => Seq::empty(),
    }
}

/// The line that reports the device's serial number, if it is reported.
pub open spec fn device_sn_report(m: MaterialInfo) -> Seq<Seq<char>> {
    match m.device_sn {
        Some(sn) => seq!["  Device SN: "@ + sn@],
        None => Seq::empty(),
    }
}

/// Report the material as a part of a probe.
pub fn probe_material_lines(m: &MaterialInfo) -> (lines: Vec<String>)
    ensures
        lines_of(lines@) == label_report(*m) + remaining_report(*m) + device_sn_report(*m),
{
    let mut lines: Vec<String> = Vec::new();
    lines.push("Material:".to_owned());
    lines.push(join2("  Label:     ", size_words(m.width_mm, m.height_mm).as_str()));
    lines.push(join2("  Type:      ", decimal_text(m.label_type as u64).as_str()));
    lines.push(join3("  Gap:       ", decimal_text(m.gap_mm as u64).as_str(), "mm"));
    lines.push(join2("  SN:        ", m.sn.as_str()));
    lines.push(join2("  UUID:      ", m.uuid.as_str()));
    lines.push(join2("  Code:      ", m.code.as_str()));
    assert(lines_of(lines@) =~= label_report(*m));
    if let Some(n) = m.remaining {
        lines.push(join3("  Remaining: ", decimal_text(n as u64).as_str(), " labels"));
    }
    assert(lines_of(lines@) =~= label_report(*m) + remaining_report(*m));
    if let Some(sn) = &m.device_sn {
        lines.push(join2("  Device SN: ", sn.as_str()));
    }
    assert(lines_of(lines@) =~= label_report(*m) + remaining_report(*m) + device_sn_report(*m));
    lines
}

/// The lines that report the material on its own.
pub open spec fn material_report(m: MaterialInfo) -> Seq<Seq<char>> {
    seq![
        "Label:     "@ + size_text(m.width_mm, m.height_mm) + "  (type="@ + text::decimal(
            m.label_type as nat,
        ) + ", gap="@ + text::decimal(m.gap_mm as nat) + "mm)"@,
        "Label SN:  "@ + m.sn@,
        "RFID UID:  "@ + m.uuid@,
        "RFID code: "@ + m.code@,
        match m.remaining {
            Some(n) => "Remaining: "@ + text::decimal(n as nat) + " labels"@,
            None => "Remaining: (not reported)"@,
        },
        match m.device_sn {
            Some(sn) => "Device SN: "@ + sn@,
            None => "Device SN: (not in this response)"@,
        },
    ]
}

/// Report the material on its own.
pub fn material_lines(m: &MaterialInfo) -> (lines: Vec<String>)
    ensures
        lines_of(lines@) == material_report(*m),
{
    let mut lines: Vec<String> = Vec::new();
    let label = join2("Label:     ", size_words(m.width_mm, m.height_mm).as_str());
    let kind = join3(label.as_str(), "  (type=", decimal_text(m.label_type as u64).as_str());
    let gap = join3(kind.as_str(), ", gap=", decimal_text(m.gap_mm as u64).as_str());
    lines.push(join2(gap.as_str(), "mm)"));
    lines.push(join2("Label SN:  ", m.sn.as_str()));
    lines.push(join2("RFID UID:  ", m.uuid.as_str()));
    lines.push(join2("RFID code: ", m.code.as_str()));
    lines.push(
        match m.remaining {
            Some(n) => join3("Remaining: ", decimal_text(n as u64).as_str(), " labels"),
            None => "Remaining: (not reported)".to_owned(),
        },
    );
    lines.push(
        match &m.device_sn {
            Some(sn) => join2("Device SN: ", sn.as_str()),
            None => "Device SN: (not in this response)".to_owned(),
        },
    );
    assert(lines_of(lines@) =~= material_report(*m));
    lines
}

/// The material to print a test pattern on when none is reported: as wide as the
/// head, of the default height and gap.
pub fn default_material(head_mm: u32, height_mm: u8, gap_mm: u8) -> (m: MaterialInfo)
    ensures
        m.width_mm == head_mm % 256,
        m.height_mm == height_mm,
        m.gap_mm == gap_mm,
        m.label_type == 0,
        m.sn@.len() == 0,
        m.uuid@.len() == 0,
        m.code@.len() == 0,
        m.remaining is None,
        m.device_sn is None,
{
    MaterialInfo {
        width_mm: (head_mm % 256) as u8,
        height_mm,
        gap_mm,
        label_type: 0,
        sn: String::new(),
        uuid: String::new(),
        code: String::new(),
        remaining: None,
        device_sn: None,
    }
}

/// A resolution that an answer may hold.
#[derive(Debug, Clone, Copy, PartialEq, Eq, Structural)]
pub struct DpiCandidate {
    /// Where the field starts.
    pub offset: usize,
    /// Its value, in hundredths of a dot per mm.
    pub value: u16,
}

/// `c` is a field of the answer whose value is in range.
pub open spec fn is_candidate(resp: Seq<u8>, c: DpiCandidate) -> bool {
    &&& c.offset + 1 < resp.len()
    &&& c.value == wire::le16_value(resp[c.offset as int], resp[c.offset + 1])
    &&& DPI_CANDIDATE_MIN <= c.value <= DPI_CANDIDATE_MAX
}

/// All candidates for a resolution in an answer, by their offset: every
/// little-endian field from 11.0 to 12.8 dots per mm.
pub fn dpi_candidates(resp: &[u8]) -> (found: Vec<DpiCandidate>)
    ensures
        forall|i: int| 0 <= i < found@.len() ==> is_candidate(resp@, #[trigger] found@[i]),
        forall|i: int, j: int|
            0 <= i < j < found@.len() ==> (#[trigger] found@[i]).offset < (
            #[trigger] found@[j]).offset,
        forall|c: DpiCandidate| #[trigger] is_candidate(resp@, c) ==> found@.contains(c),
{
    let mut found: Vec<DpiCandidate> = Vec::new();
    let fields: usize = if resp.len() == 0 {
        0
    } else {
        resp.len() - 1
    };
    let mut i: usize = 0;
    while i < fields
        invariant
            i <= fields,
            resp@.len() > 0 ==> fields == resp@.len() - 1,
            resp@.len() == 0 ==> fields == 0,
            forall|k: int| 0 <= k < found@.len() ==> is_candidate(resp@, #[trigger] found@[k]),
            forall|k: int| 0 <= k < found@.len() ==> (#[trigger] found@[k]).offset < i,
            forall|k: int, j: int|
                0 <= k < j < found@.len() ==> (#[trigger] found@[k]).offset < (
                #[trigger] found@[j]).offset,
            forall|c: DpiCandidate| #[trigger]
                is_candidate(resp@, c) && c.offset < i ==> found@.contains(c),
        decreases fields - i,
    {
        let value: u16 = resp[i] as u16 + 256 * resp[i + 1] as u16;
        let ghost before = found@;
        let c = DpiCandidate { offset: i, value };
        if DPI_CANDIDATE_MIN <= value && value <= DPI_CANDIDATE_MAX {
            found.push(c);
        }
        proof {
            assert forall|d: DpiCandidate| #[trigger]
                is_candidate(resp@, d) && d.offset < i + 1 implies found@.contains(d) by {
                if d.offset < i {
                    let k = choose|k: int| 0 <= k < before.len() && before[k] == d;
                    assert(found@[k] == d);
                } else {
                    assert(d == c);
                    assert(found@[found@.len() - 1] == d);
                }
            }
        }
        i += 1;
    }
    found
}

/// The lines that report the raw answer to a resolution query.
pub open spec fn raw_report(cmd: u8, resp: Seq<u8>) -> Seq<Seq<char>> {
    let raw = "  raw ("@ + text::decimal(resp.len()) + " bytes): "@ + text::hex_text(resp);
    if resp.len() > 7 {
        seq![
            raw,
            "  echo byte[7]: 0x"@ + text::hex_byte(resp[7]) + " ("@ + (if resp[7] == cmd {
                "matches command"@
            } else {
                "differs"@
            }) + ")"@,
        ]
    } else {
        seq![raw]
    }
}

/// Report the raw answer to a resolution query.
pub fn raw_lines(cmd: u8, resp: &[u8]) -> (lines: Vec<String>)
    ensures
        lines_of(lines@) == raw_report(cmd, resp@),
{
    let mut lines: Vec<String> = Vec::new();
    let head = join3("  raw (", decimal_text(resp.len() as u64).as_str(), " bytes): ");
    lines.push(join2(head.as_str(), hex_dump(resp).as_str()));
    if resp.len() > ECHO_OFFSET {
        let echo: [u8; 1] = [resp[ECHO_OFFSET]];
        let hex = hex_dump(echo.as_slice());
        assert(hex@ == text::hex_byte(resp@[7]));
        let words = if resp[ECHO_OFFSET] == cmd {
            "matches command"
        } else {
            "differs"
        };
        let echoed = join3("  echo byte[7]: 0x", hex.as_str(), " (");
        lines.push(join3(echoed.as_str(), words, ")"));
    }
    assert(lines_of(lines@) =~= raw_report(cmd, resp@));
    lines
}

/// Check the sides of a calibration pattern.
pub fn check_calibration(width_dots: u32, length_dots: u32) -> (r: Result<(), Error>)
    ensures
        match r {
            Ok(()) => width_dots >= 8 && length_dots >= 8,
            Err(e) => (width_dots < 8 || length_dots < 8) && e@ == ErrorModel::InvalidParam(
                "width_dots and length_dots must be at least 8"@,
            ),
        },
{
    if width_dots < CALIBRATION_MIN_DOTS || length_dots < CALIBRATION_MIN_DOTS {
        Err(
            Error::InvalidParam("width_dots and length_dots must be at least 8".to_owned()),
        )
    } else {
        Ok(())
    }
}

/// The lines that tell how to measure a calibration pattern; none for a solid one.
pub open spec fn measuring_report(width_dots: u32, length_dots: u32, solid: bool) -> Seq<Seq<char>> {
    if solid {
        Seq::empty()
    } else {
        seq![
            "After it prints, measure the OUTER border with a ruler:"@,
            "  dots/mm (across) = "@ + text::decimal(width_dots as nat) + " / measured_width_mm"@,
            "  dots/mm (feed)   = "@ + text::decimal(length_dots as nat) + " / measured_length_mm"@,
        ]
    }
}

/// Tell how to measure a calibration pattern.
pub fn measuring_lines(width_dots: u32, length_dots: u32, solid: bool) -> (lines: Vec<String>)
    ensures
        lines_of(lines@) == measuring_report(width_dots, length_dots, solid),
{
    let mut lines: Vec<String> = Vec::new();
    if !solid {
        let w = decimal_text(width_dots as u64);
        let l = decimal_text(length_dots as u64);
        lines.push("After it prints, measure the OUTER border with a ruler:".to_owned());
        lines.push(join3("  dots/mm (across) = ", w.as_str(), " / measured_width_mm"));
        lines.push(join3("  dots/mm (feed)   = ", l.as_str(), " / measured_length_mm"));
    }
    assert(lines_of(lines@) =~= measuring_report(width_dots, length_dots, solid));
    lines
}

/// A query for the resolution of the loaded material.
#[derive(Debug, Clone, Copy, PartialEq, Eq)]
pub struct DpiQuery {
    /// Command byte.
    pub cmd: u8,
    /// Name of the command.
    pub name: &'static str,
}

/// The queries in the order in which they are made: which one a printer answers
/// depends on its family.
pub fn dpi_queries() -> (queries: Vec<DpiQuery>)
    ensures
        queries@.len() == 3,
        queries@[0].cmd == 0x22 && queries@[0].name@ == "RD_LAB_DPI"@,
        queries@[1].cmd == 0x24 && queries@[1].name@ == "RD_LAB_DPI24"@,
        queries@[2].cmd == 0x25 && queries@[2].name@ == "RD_LAB_DPI25"@,
{
    let mut queries: Vec<DpiQuery> = Vec::new();
    queries.push(DpiQuery { cmd: 0x22, name: "RD_LAB_DPI" });
    queries.push(DpiQuery { cmd: 0x24, name: "RD_LAB_DPI24" });
    queries.push(DpiQuery { cmd: 0x25, name: "RD_LAB_DPI25" });
    queries
}

/// The lines above the answer to a query.
pub open spec fn query_report(q: DpiQuery) -> Seq<Seq<char>> {
    seq![""@, "=== "@ + q.name@ + " (0x"@ + text::hex_byte(q.cmd) + ") ==="@]
}

/// Announce the answer to a query.
pub fn query_lines(q: &DpiQuery) -> (lines: Vec<String>)
    ensures
        lines_of(lines@) == query_report(*q),
{
    let code: [u8; 1] = [q.cmd];
    let hex = hex_dump(code.as_slice());
    assert(hex@ == text::hex_byte(q.cmd));
    let mut lines: Vec<String> = Vec::new();
    lines.push("".to_owned());
    let head = join3("=== ", q.name, " (0x");
    lines.push(join3(head.as_str(), hex.as_str(), ") ==="));
    assert(lines_of(lines@) =~= query_report(*q));
    lines
}

/// The line that reports that a query was not answered.
pub fn no_answer_line() -> (line: String)
    ensures
        line@ == "  (no response \u{2014} printer does not recognize this command)"@,
{
    "  (no response \u{2014} printer does not recognize this command)".to_owned()
}

/// The lines behind the last query: advice if none was answered, and the resolution
/// to compare with.
pub open spec fn closing_report(any_response: bool) -> Seq<Seq<char>> {
    let compare = seq![
        ""@,
        "For comparison, the T50 family the driver hardcodes is 8.0 dots/mm (203 DPI)."@,
    ];
    if any_response {
        compare
    } else {
        seq![
            ""@,
            "No DPI command answered. Re-run with RUST_LOG=debug to see raw TX/RX, and the value may need to be read mid-print-flow instead."@,
        ] + compare
    }
}

/// Close the report on the resolution.
pub fn closing_lines(any_response: bool) -> (lines: Vec<String>)
    ensures
        lines_of(lines@) == closing_report(any_response),
{
    let mut lines: Vec<String> = Vec::new();
    if !any_response {
        lines.push("".to_owned());
        lines.push(
            "No DPI command answered. Re-run with RUST_LOG=debug to see raw TX/RX, and the value may need to be read mid-print-flow instead.".to_owned(),
        );
    }
    lines.push("".to_owned());
    lines.push(
        "For comparison, the T50 family the driver hardcodes is 8.0 dots/mm (203 DPI).".to_owned(),
    );
    assert(lines_of(lines@) =~= closing_report(any_response));
    lines
}

/// The settings of a calibration print.
#[derive(Debug, Clone, Copy, PartialEq, Eq)]
pub struct Calibration {
    /// Width of the pattern.
    pub width_dots: u32,
    /// Length of the pattern.
    pub length_dots: u32,
    /// Density, on the T50 path.
    pub density: u8,
    /// Material type.
    pub mat: u8,
    /// Fill the pattern.
    pub solid: bool,
    /// Parameter of the start command, on the T50 path.
    pub start_param: u16,
    /// Take the E-series path.
    pub e_series: bool,
    /// Burn energy, on the E-series path.
    pub energy: u8,
    /// Density field, on the E-series path.
    pub nodu: u8,
    /// Cut mode, on the E-series path.
    pub cut: u8,
    /// Feed before the pattern, on the E-series path.
    pub lead_feed: u32,
    /// Feed behind the pattern, on the E-series path.
    pub trail_feed: u32,
}

/// The path that a calibration print takes.
#[derive(Debug, Clone, Copy)]
pub enum CalibrationPath {
    /// That of the T50.
    T50,
    /// That of the E-series, with these header knobs.
    ESeries(ESeriesBufOpts),
}

/// Choose the path of a calibration print, or refuse a pattern that is too small.
pub fn calibration_path(c: &Calibration) -> (r: Result<CalibrationPath, Error>)
    ensures
        match r {
            Ok(CalibrationPath::T50) => c.width_dots >= 8 && c.length_dots >= 8 && !c.e_series,
            Ok(CalibrationPath::ESeries(opts)) => c.width_dots >= 8 && c.length_dots >= 8
                && c.e_series && opts == (ESeriesBufOpts {
                nodu: c.nodu,
                energy: c.energy,
                cut: c.cut,
                mat: c.mat,
                ..buffer::default_eseries_opts()
            }),
            Err(e) => (c.width_dots < 8 || c.length_dots < 8) && e@ == ErrorModel::InvalidParam(
                "width_dots and length_dots must be at least 8"@,
            ),
        },
{
    match check_calibration(c.width_dots, c.length_dots) {
        Err(e) => Err(e),
        Ok(()) => if c.e_series {
            Ok(
                CalibrationPath::ESeries(
                    ESeriesBufOpts {
                        nodu: c.nodu,
                        energy: c.energy,
                        cut: c.cut,
                        mat: c.mat,
                        ..ESeriesBufOpts::default()
                    },
                ),
            )
        } else {
            Ok(CalibrationPath::T50)
        },
    }
}

/// A pattern's sides.
pub open spec fn sides_text(width_dots: u32, length_dots: u32) -> Seq<char> {
    text::decimal(width_dots as nat) + " x "@ + text::decimal(length_dots as nat) + " dots ("@
}

/// The line that announces a calibration print.
pub open spec fn calibration_heading(c: Calibration) -> Seq<char> {
    if c.e_series {
        "E-series calibration print: "@ + sides_text(c.width_dots, c.length_dots) + (
        "energy="@ + text::decimal(c.energy as nat)) + (", nodu="@ + text::decimal(c.nodu as nat))
            + (", cut="@ + text::decimal(c.cut as nat)) + (", mat="@ + text::decimal(c.mat as nat))
            + (", lead_feed="@ + text::decimal(c.lead_feed as nat)) + (", trail_feed="@
            + text::decimal(c.trail_feed as nat)) + (", solid="@ + truth(c.solid)) + ")."@
    } else {
        "Calibration print: "@ + sides_text(c.width_dots, c.length_dots) + ("density="@
            + text::decimal(c.density as nat)) + (", mat="@ + text::decimal(c.mat as nat)) + (
        ", solid="@ + truth(c.solid)) + (", start_param="@ + text::decimal(c.start_param as nat))
            + ")."@
    }
}

/// A name and a number.
fn field(name: &str, value: u32) -> (s: String)
    ensures
        s@ == name@ + text::decimal(value as nat),
{
    join2(name, decimal_text(value as u64).as_str())
}

/// Announce a calibration print.
fn heading(c: &Calibration) -> (s: String)
    ensures
        s@ == calibration_heading(*c),
{
    let w = decimal_text(c.width_dots as u64);
    let l = decimal_text(c.length_dots as u64);
    let sides = join2(join3(w.as_str(), " x ", l.as_str()).as_str(), " dots (");
    let solid = join2(", solid=", truth_text(c.solid));
    if c.e_series {
        let mut s = join2("E-series calibration print: ", sides.as_str());
        s.append(field("energy=", c.energy as u32).as_str());
        s.append(field(", nodu=", c.nodu as u32).as_str());
        s.append(field(", cut=", c.cut as u32).as_str());
        s.append(field(", mat=", c.mat as u32).as_str());
        s.append(field(", lead_feed=", c.lead_feed).as_str());
        s.append(field(", trail_feed=", c.trail_feed).as_str());
        s.append(solid.as_str());
        s.append(").");
        s
    } else {
        let mut s = join2("Calibration print: ", sides.as_str());
        s.append(field("density=", c.density as u32).as_str());
        s.append(field(", mat=", c.mat as u32).as_str());
        s.append(solid.as_str());
        s.append(field(", start_param=", c.start_param as u32).as_str());
        s.append(").");
        s
    }
}

/// Announce a calibration print and tell how to measure it.
pub fn calibration_lines(c: &Calibration) -> (lines: Vec<String>)
    ensures
        lines_of(lines@) == seq![calibration_heading(*c)] + measuring_report(
            c.width_dots,
            c.length_dots,
            c.solid,
        ),
{
    let mut lines: Vec<String> = Vec::new();
    lines.push(heading(c));
    let mut measuring = measuring_lines(c.width_dots, c.length_dots, c.solid);
    let ghost moved = measuring@;
    lines.append(&mut measuring);
    assert(lines_of(lines@) =~= seq![calibration_heading(*c)] + lines_of(moved));
    lines
}

/// The two words for a truth value differ.
proof fn lemma_truth(a: bool, b: bool)
    ensures
        truth(a) == truth(b) <==> a == b,
{
    reveal_strlit("true");
    reveal_strlit("false");
    assert("true"@.len() == 4);
    assert("false"@.len() == 5);
}

proof fn lemma_number_line(label: Seq<char>, n: nat, m: nat)
    ensures
        label + text::decimal(n) == label + text::decimal(m) <==> n == m,
{
    text::lemma_same_label(label, text::decimal(n), text::decimal(m));
    let none = Seq::<char>::empty();
    assert(text::decimal(n) + none =~= text::decimal(n));
    assert(text::decimal(m) + none =~= text::decimal(m));
    if text::decimal(n) == text::decimal(m) {
        text::law_decimal_tells_the_number(n, none, m, none);
    }
}

proof fn lemma_number_in_line(label: Seq<char>, n: nat, m: nat, rest: Seq<char>)
    requires
        rest.len() > 0,
        !('0' <= rest[0] <= '9'),
    ensures
        label + text::decimal(n) + rest == label + text::decimal(m) + rest <==> n == m,
{
    assert(label + text::decimal(n) + rest =~= label + (text::decimal(n) + rest));
    assert(label + text::decimal(m) + rest =~= label + (text::decimal(m) + rest));
    text::lemma_same_label(label, text::decimal(n) + rest, text::decimal(m) + rest);
    if text::decimal(n) + rest == text::decimal(m) + rest {
        text::law_decimal_tells_the_number(n, rest, m, rest);
    }
}

/// A status report tells each flag and the count in a line of its own, whatever the
/// others are: two reports agree in a line exactly when the statuses agree in what it
/// tells. There is one line more if there are words, and they stand at its end.
pub proof fn law_status_report_tells_each_flag(s: PrinterStatus, t: PrinterStatus)
    ensures
        ({
            let a = status_report(s);
            let b = status_report(t);
            &&& a[0] == b[0]
            &&& a[1] == b[1] <==> s.printing == t.printing
            &&& a[2] == b[2] <==> s.device_busy == t.device_busy
            &&& a[3] == b[3] <==> s.buf_full == t.buf_full
            &&& a[4] == b[4] <==> s.low_battery == t.low_battery
            &&& a[5] == b[5] <==> s.cover_open == t.cover_open
            &&& a[6] == b[6] <==> s.print_count == t.print_count
            &&& a.len() == if s.error_description is Some { 8int } else { 7 }
            &&& s.error_description matches Some(d) ==> a[7].len() >= d@.len() && a[7].skip(
                a[7].len() - d@.len(),
            ) == d@
        }),
{
    lemma_truth(s.printing, t.printing);
    lemma_truth(s.device_busy, t.device_busy);
    lemma_truth(s.buf_full, t.buf_full);
    lemma_truth(s.low_battery, t.low_battery);
    lemma_truth(s.cover_open, t.cover_open);
    text::lemma_same_label("  printing:     "@, truth(s.printing), truth(t.printing));
    text::lemma_same_label("  device_busy:  "@, truth(s.device_busy), truth(t.device_busy));
    text::lemma_same_label("  buf_full:     "@, truth(s.buf_full), truth(t.buf_full));
    text::lemma_same_label("  low_battery:  "@, truth(s.low_battery), truth(t.low_battery));
    text::lemma_same_label("  cover_open:   "@, truth(s.cover_open), truth(t.cover_open));
    lemma_number_line("  print_count:  "@, s.print_count as nat, t.print_count as nat);
    if let Some(d) = s.error_description {
        let label = "  ERRORS:       "@;
        assert((label + d@).skip(label.len() as int) =~= d@);
    }
}

/// The text of a size tells both sides.
pub proof fn law_size_text_tells_both_sides(w: u8, h: u8, v: u8, g: u8)
    ensures
        size_text(w, h) == size_text(v, g) <==> w == v && h == g,
{
    reveal_strlit("mm x ");
    reveal_strlit("mm");
    let mid = "mm x "@;
    let end = "mm"@;
    let x = mid + (text::decimal(h as nat) + end);
    let y = mid + (text::decimal(g as nat) + end);
    assert(size_text(w, h) =~= text::decimal(w as nat) + x);
    assert(size_text(v, g) =~= text::decimal(v as nat) + y);
    if size_text(w, h) == size_text(v, g) {
        text::law_decimal_tells_the_number(w as nat, x, v as nat, y);
        text::lemma_same_label(mid, text::decimal(h as nat) + end, text::decimal(g as nat) + end);
        text::law_decimal_tells_the_number(h as nat, end, g as nat, end);
    }
}

/// The material part of a probe tells each value in a line of its own, and has a line
/// more for each of the two values that may be missing.
pub proof fn law_probe_tells_the_material(m: MaterialInfo, n: MaterialInfo)
    ensures
        ({
            let a = label_report(m);
            let b = label_report(n);
            &&& a.len() == 7
            &&& a[1] == b[1] <==> m.width_mm == n.width_mm && m.height_mm == n.height_mm
            &&& a[2] == b[2] <==> m.label_type == n.label_type
            &&& a[3] == b[3] <==> m.gap_mm == n.gap_mm
            &&& a[4] == b[4] <==> m.sn@ == n.sn@
            &&& a[5] == b[5] <==> m.uuid@ == n.uuid@
            &&& a[6] == b[6] <==> m.code@ == n.code@
            &&& remaining_report(m).len() == if m.remaining is Some { 1int } else { 0 }
            &&& remaining_report(m) == remaining_report(n) <==> m.remaining == n.remaining
            &&& device_sn_report(m).len() == if m.device_sn is Some { 1int } else { 0 }
            &&& m.device_sn matches Some(d) ==> device_sn_report(m)[0].skip(
                device_sn_report(m)[0].len() - d@.len(),
            ) == d@
        }),
{
    law_size_text_tells_both_sides(m.width_mm, m.height_mm, n.width_mm, n.height_mm);
    text::lemma_same_label(
        "  Label:     "@,
        size_text(m.width_mm, m.height_mm),
        size_text(n.width_mm, n.height_mm),
    );
    lemma_number_line("  Type:      "@, m.label_type as nat, n.label_type as nat);
    reveal_strlit("mm");
    lemma_number_in_line("  Gap:       "@, m.gap_mm as nat, n.gap_mm as nat, "mm"@);
    text::lemma_same_label("  SN:        "@, m.sn@, n.sn@);
    text::lemma_same_label("  UUID:      "@, m.uuid@, n.uuid@);
    text::lemma_same_label("  Code:      "@, m.code@, n.code@);
    reveal_strlit(" labels");
    if let Some(a) = m.remaining {
        if let Some(b) = n.remaining {
            lemma_number_in_line("  Remaining: "@, a as nat, b as nat, " labels"@);
            assert(remaining_report(m)[0] == remaining_report(n)[0] <==> a == b);
        }
    }
    if let Some(d) = m.device_sn {
        let label = "  Device SN: "@;
        assert((label + d@).skip(label.len() as int) =~= d@);
    }
}

/// The material report tells each value; the two that may be missing have their line all
/// the same.
pub proof fn law_material_report_tells_the_material(m: MaterialInfo, n: MaterialInfo)
    ensures
        ({
            let a = material_report(m);
            let b = material_report(n);
            &&& a.len() == 6
            &&& a[0] == b[0] <==> m.width_mm == n.width_mm && m.height_mm == n.height_mm
                && m.label_type == n.label_type && m.gap_mm == n.gap_mm
            &&& a[1] == b[1] <==> m.sn@ == n.sn@
            &&& a[2] == b[2] <==> m.uuid@ == n.uuid@
            &&& a[3] == b[3] <==> m.code@ == n.code@
            &&& m.remaining is Some && n.remaining is Some ==> (a[4] == b[4] <==> m.remaining
                == n.remaining)
            &&& m.remaining is Some && n.remaining is None ==> a[4] != b[4]
            &&& m.device_sn matches Some(d) ==> a[5].skip(a[5].len() - d@.len()) == d@
        }),
{
    lemma_label_line(m, n);
    text::lemma_same_label("Label SN:  "@, m.sn@, n.sn@);
    text::lemma_same_label("RFID UID:  "@, m.uuid@, n.uuid@);
    text::lemma_same_label("RFID code: "@, m.code@, n.code@);
    lemma_remaining_line(m, n);
    if let Some(d) = m.device_sn {
        let label = "Device SN: "@;
        assert((label + d@).skip(label.len() as int) =~= d@);
    }
}

proof fn lemma_remaining_line(m: MaterialInfo, n: MaterialInfo)
    ensures
        m.remaining is Some && n.remaining is Some ==> (material_report(m)[4] == material_report(
            n,
        )[4] <==> m.remaining == n.remaining),
        m.remaining is Some && n.remaining is None ==> material_report(m)[4] != material_report(
            n,
        )[4],
{
    reveal_strlit(" labels");
    if let Some(a) = m.remaining {
        if let Some(b) = n.remaining {
            lemma_number_in_line("Remaining: "@, a as nat, b as nat, " labels"@);
        } else {
            reveal_strlit("Remaining: ");
            reveal_strlit("Remaining: (not reported)");
            text::lemma_padded_decimal(a as nat, 0);
            text::law_decimal_digit_by_digit(a as nat, 0);
            let x = "Remaining: "@ + text::decimal(a as nat) + " labels"@;
            let y = "Remaining: (not reported)"@;
            assert(x[11] == text::decimal(a as nat)[0]);
            assert(y[11] == '(');
        }
    }
}

#[verifier::rlimit(40)]
proof fn lemma_label_line(m: MaterialInfo, n: MaterialInfo)
    ensures
        material_report(m)[0] == material_report(n)[0] <==> m.width_mm == n.width_mm && m.height_mm
            == n.height_mm && m.label_type == n.label_type && m.gap_mm == n.gap_mm,
{
    reveal_strlit("mm x ");
    reveal_strlit("mm");
    reveal_strlit("  (type=");
    reveal_strlit(", gap=");
    reveal_strlit("mm)");
    let tail = |i: MaterialInfo| text::decimal(i.gap_mm as nat) + "mm)"@;
    let kind = |i: MaterialInfo| text::decimal(i.label_type as nat) + (", gap="@ + tail(i));
    let height = |i: MaterialInfo|
        text::decimal(i.height_mm as nat) + ("mm"@ + ("  (type="@ + kind(i)));
    let width = |i: MaterialInfo| text::decimal(i.width_mm as nat) + ("mm x "@ + height(i));
    assert(material_report(m)[0] =~= "Label:     "@ + width(m));
    assert(material_report(n)[0] =~= "Label:     "@ + width(n));
    text::lemma_same_label("Label:     "@, width(m), width(n));
    if material_report(m)[0] == material_report(n)[0] {
        text::law_decimal_tells_the_number(
            m.width_mm as nat,
            "mm x "@ + height(m),
            n.width_mm as nat,
            "mm x "@ + height(n),
        );
        text::lemma_same_label("mm x "@, height(m), height(n));
        text::law_decimal_tells_the_number(
            m.height_mm as nat,
            "mm"@ + ("  (type="@ + kind(m)),
            n.height_mm as nat,
            "mm"@ + ("  (type="@ + kind(n)),
        );
        text::lemma_same_label("mm"@, "  (type="@ + kind(m), "  (type="@ + kind(n));
        text::lemma_same_label("  (type="@, kind(m), kind(n));
        text::law_decimal_tells_the_number(
            m.label_type as nat,
            ", gap="@ + tail(m),
            n.label_type as nat,
            ", gap="@ + tail(n),
        );
        text::lemma_same_label(", gap="@, tail(m), tail(n));
        text::law_decimal_tells_the_number(m.gap_mm as nat, "mm)"@, n.gap_mm as nat, "mm)"@);
    }
}

/// A candidate for the resolution is any two neighbouring bytes that, low one first, are
/// from 11.00 to 12.80 dots per mm.
pub proof fn law_candidates_are_in_range(resp: Seq<u8>, offset: usize)
    ensures
        offset + 1 < resp.len() ==> {
            let value = resp[offset as int] + 256 * resp[offset + 1];
            is_candidate(resp, DpiCandidate { offset, value: value as u16 }) <==> 1100 <= value
                <= 1280
        },
        forall|c: DpiCandidate| #[trigger]
            is_candidate(resp, c) ==> c.offset + 1 < resp.len() && c.value == resp[c.offset as int]
                + 256 * resp[c.offset + 1] && 1100 <= c.value <= 1280,
{
}

/// The raw report ends its first line with the bytes, and has a second one from eight
/// bytes on, which tells whether byte 7 is the command.
pub proof fn law_raw_report_tells_the_echo(cmd: u8, other: u8, resp: Seq<u8>)
    ensures
        ({
            let a = raw_report(cmd, resp);
            &&& a.len() == if resp.len() >= 8 { 2int } else { 1 }
            &&& a[0].len() >= text::hex_text(resp).len() && a[0].skip(
                a[0].len() - text::hex_text(resp).len(),
            ) == text::hex_text(resp)
            &&& resp.len() >= 8 ==> (a[1] == raw_report(other, resp)[1] <==> (cmd == resp[7])
                == (other == resp[7]))
        }),
{
    let head = "  raw ("@ + text::decimal(resp.len()) + " bytes): "@;
    assert((head + text::hex_text(resp)).skip(head.len() as int) =~= text::hex_text(resp));
    reveal_strlit("matches command");
    reveal_strlit("differs");
    if resp.len() >= 8 {
        let echo = "  echo byte[7]: 0x"@ + text::hex_byte(resp[7]) + " ("@;
        let yes = "matches command"@;
        let no = "differs"@;
        assert((echo + yes + ")"@).len() != (echo + no + ")"@).len());
    }
}

/// How to measure a pattern is told with its two sides, unless it is solid.
pub proof fn law_measuring_tells_the_sides(w: u32, l: u32, v: u32, k: u32)
    ensures
        measuring_report(w, l, true).len() == 0,
        measuring_report(w, l, false).len() == 3,
        measuring_report(w, l, false)[1] == measuring_report(v, k, false)[1] <==> w == v,
        measuring_report(w, l, false)[2] == measuring_report(v, k, false)[2] <==> l == k,
{
    reveal_strlit(" / measured_width_mm");
    reveal_strlit(" / measured_length_mm");
    lemma_number_in_line("  dots/mm (across) = "@, w as nat, v as nat, " / measured_width_mm"@);
    lemma_number_in_line("  dots/mm (feed)   = "@, l as nat, k as nat, " / measured_length_mm"@);
}

/// The heading of a calibration print tells its settings: two T50 prints with the same
/// heading have the same sides, density, material, fill and start parameter; two
/// E-series prints the same sides, energy, density field, cut, material, feeds and fill.
pub proof fn law_heading_tells_the_settings(c: Calibration, d: Calibration)
    requires
        calibration_heading(c) == calibration_heading(d),
        c.e_series == d.e_series,
    ensures
        c.width_dots == d.width_dots && c.length_dots == d.length_dots,
        c.mat == d.mat && c.solid == d.solid,
        !c.e_series ==> c.density == d.density && c.start_param == d.start_param,
        c.e_series ==> c.energy == d.energy && c.nodu == d.nodu && c.cut == d.cut && c.lead_feed
            == d.lead_feed && c.trail_feed == d.trail_feed,
{
    reveal_strlit(" x ");
    reveal_strlit(" dots (energy=");
    reveal_strlit(" dots (density=");
    reveal_strlit(", nodu=");
    reveal_strlit(", cut=");
    reveal_strlit(", mat=");
    reveal_strlit(", lead_feed=");
    reveal_strlit(", trail_feed=");
    reveal_strlit(", solid=");
    if c.e_series {
        lemma_eseries_heading(c);
        lemma_eseries_heading(d);
        text::lemma_same_label("E-series calibration print: "@, e_width(c), e_width(d));
        lemma_peel(c.width_dots, " x "@, e_length(c), d.width_dots, e_length(d));
        lemma_peel(c.length_dots, " dots (energy="@, e_energy(c), d.length_dots, e_energy(d));
        lemma_peel(c.energy as u32, ", nodu="@, e_nodu(c), d.energy as u32, e_nodu(d));
        lemma_peel(c.nodu as u32, ", cut="@, e_cut(c), d.nodu as u32, e_cut(d));
        lemma_peel(c.cut as u32, ", mat="@, e_mat(c), d.cut as u32, e_mat(d));
        lemma_peel(c.mat as u32, ", lead_feed="@, e_lead(c), d.mat as u32, e_lead(d));
        lemma_peel(c.lead_feed, ", trail_feed="@, e_trail(c), d.lead_feed, e_trail(d));
        lemma_peel(c.trail_feed, ", solid="@, truth(c.solid) + ")."@, d.trail_feed, truth(d.solid) + ")."@);
        lemma_truth_end(c.solid, d.solid);
    } else {
        lemma_t50_heading(c);
        lemma_t50_heading(d);
        text::lemma_same_label("Calibration print: "@, t_width(c), t_width(d));
        lemma_peel(c.width_dots, " x "@, t_length(c), d.width_dots, t_length(d));
        lemma_peel(c.length_dots, " dots (density="@, t_density(c), d.length_dots, t_density(d));
        lemma_peel(c.density as u32, ", mat="@, t_mat(c), d.density as u32, t_mat(d));
        lemma_peel(c.mat as u32, ", solid="@, t_solid(c), d.mat as u32, t_solid(d));
        lemma_truth_starts(c.solid, t_start(c), d.solid, t_start(d));
        text::lemma_same_label(", start_param="@, t_param(c), t_param(d));
        reveal_strlit(").");
        text::law_decimal_tells_the_number(c.start_param as nat, ")."@, d.start_param as nat, ")."@);
    }
}

spec fn e_trail(c: Calibration) -> Seq<char> {
    text::decimal(c.trail_feed as nat) + (", solid="@ + (truth(c.solid) + ")."@))
}

spec fn e_lead(c: Calibration) -> Seq<char> {
    text::decimal(c.lead_feed as nat) + (", trail_feed="@ + e_trail(c))
}

spec fn e_mat(c: Calibration) -> Seq<char> {
    text::decimal(c.mat as nat) + (", lead_feed="@ + e_lead(c))
}

spec fn e_cut(c: Calibration) -> Seq<char> {
    text::decimal(c.cut as nat) + (", mat="@ + e_mat(c))
}

spec fn e_nodu(c: Calibration) -> Seq<char> {
    text::decimal(c.nodu as nat) + (", cut="@ + e_cut(c))
}

spec fn e_energy(c: Calibration) -> Seq<char> {
    text::decimal(c.energy as nat) + (", nodu="@ + e_nodu(c))
}

spec fn e_length(c: Calibration) -> Seq<char> {
    text::decimal(c.length_dots as nat) + (" dots (energy="@ + e_energy(c))
}

spec fn e_width(c: Calibration) -> Seq<char> {
    text::decimal(c.width_dots as nat) + (" x "@ + e_length(c))
}

spec fn t_param(c: Calibration) -> Seq<char> {
    text::decimal(c.start_param as nat) + ")."@
}

spec fn t_start(c: Calibration) -> Seq<char> {
    ", start_param="@ + t_param(c)
}

spec fn t_solid(c: Calibration) -> Seq<char> {
    truth(c.solid) + t_start(c)
}

spec fn t_mat(c: Calibration) -> Seq<char> {
    text::decimal(c.mat as nat) + (", solid="@ + t_solid(c))
}

spec fn t_density(c: Calibration) -> Seq<char> {
    text::decimal(c.density as nat) + (", mat="@ + t_mat(c))
}

spec fn t_length(c: Calibration) -> Seq<char> {
    text::decimal(c.length_dots as nat) + (" dots (density="@ + t_density(c))
}

spec fn t_width(c: Calibration) -> Seq<char> {
    text::decimal(c.width_dots as nat) + (" x "@ + t_length(c))
}

/// A labelled value between a head and a rest goes with the rest.
proof fn lemma_regroup(head: Seq<char>, label: Seq<char>, value: Seq<char>, rest: Seq<char>)
    ensures
        head + (label + value) + rest == head + (label + (value + rest)),
{
    assert(head + (label + value) + rest =~= head + (label + (value + rest)));
}

proof fn lemma_sides(head: Seq<char>, w: u32, l: u32, name: Seq<char>, rest: Seq<char>)
    ensures
        head + sides_text(w, l) + (name + rest) == head + (text::decimal(w as nat) + (" x "@ + (
        text::decimal(l as nat) + (" dots ("@ + name + rest)))),
{
    assert(head + sides_text(w, l) + (name + rest) =~= head + (text::decimal(w as nat) + (" x "@
        + (text::decimal(l as nat) + (" dots ("@ + name + rest)))));
}

proof fn lemma_eseries_heading(c: Calibration)
    requires
        c.e_series,
    ensures
        calibration_heading(c) == "E-series calibration print: "@ + e_width(c),
{
    reveal_strlit(" dots (");
    reveal_strlit("energy=");
    reveal_strlit(" dots (energy=");
    assert(" dots (energy="@ =~= " dots ("@ + "energy="@);
    let head = "E-series calibration print: "@;
    let h0 = head + sides_text(c.width_dots, c.length_dots);
    let h1 = h0 + ("energy="@ + text::decimal(c.energy as nat));
    let h2 = h1 + (", nodu="@ + text::decimal(c.nodu as nat));
    let h3 = h2 + (", cut="@ + text::decimal(c.cut as nat));
    let h4 = h3 + (", mat="@ + text::decimal(c.mat as nat));
    let h5 = h4 + (", lead_feed="@ + text::decimal(c.lead_feed as nat));
    let h6 = h5 + (", trail_feed="@ + text::decimal(c.trail_feed as nat));
    let solid = ", solid="@ + (truth(c.solid) + ")."@);
    lemma_regroup(h6, ", solid="@, truth(c.solid), ")."@);
    lemma_regroup(h5, ", trail_feed="@, text::decimal(c.trail_feed as nat), solid);
    lemma_regroup(
        h4,
        ", lead_feed="@,
        text::decimal(c.lead_feed as nat),
        ", trail_feed="@ + e_trail(c),
    );
    lemma_regroup(h3, ", mat="@, text::decimal(c.mat as nat), ", lead_feed="@ + e_lead(c));
    lemma_regroup(h2, ", cut="@, text::decimal(c.cut as nat), ", mat="@ + e_mat(c));
    lemma_regroup(h1, ", nodu="@, text::decimal(c.nodu as nat), ", cut="@ + e_cut(c));
    lemma_regroup(h0, "energy="@, text::decimal(c.energy as nat), ", nodu="@ + e_nodu(c));
    lemma_sides(head, c.width_dots, c.length_dots, "energy="@, e_energy(c));
}

proof fn lemma_t50_heading(c: Calibration)
    requires
        !c.e_series,
    ensures
        calibration_heading(c) == "Calibration print: "@ + t_width(c),
{
    reveal_strlit(" dots (");
    reveal_strlit("density=");
    reveal_strlit(" dots (density=");
    assert(" dots (density="@ =~= " dots ("@ + "density="@);
    let head = "Calibration print: "@;
    let h0 = head + sides_text(c.width_dots, c.length_dots);
    let h1 = h0 + ("density="@ + text::decimal(c.density as nat));
    let h2 = h1 + (", mat="@ + text::decimal(c.mat as nat));
    let h3 = h2 + (", solid="@ + truth(c.solid));
    lemma_regroup(h3, ", start_param="@, text::decimal(c.start_param as nat), ")."@);
    lemma_regroup(h2, ", solid="@, truth(c.solid), t_start(c));
    lemma_regroup(h1, ", mat="@, text::decimal(c.mat as nat), ", solid="@ + t_solid(c));
    lemma_regroup(h0, "density="@, text::decimal(c.density as nat), ", mat="@ + t_mat(c));
    lemma_sides(head, c.width_dots, c.length_dots, "density="@, t_density(c));
}

/// Behind a number and a label that starts with no digit, two texts are the same only if
/// the numbers and the rests are.
proof fn lemma_peel(n: u32, label: Seq<char>, x: Seq<char>, m: u32, y: Seq<char>)
    requires
        label.len() > 0,
        !('0' <= label[0] <= '9'),
        text::decimal(n as nat) + (label + x) == text::decimal(m as nat) + (label + y),
    ensures
        n == m,
        x == y,
{
    text::law_decimal_tells_the_number(n as nat, label + x, m as nat, label + y);
    text::lemma_same_label(label, x, y);
}

proof fn lemma_truth_starts(a: bool, x: Seq<char>, b: bool, y: Seq<char>)
    requires
        truth(a) + x == truth(b) + y,
    ensures
        a == b,
        x == y,
{
    reveal_strlit("true");
    reveal_strlit("false");
    assert((truth(a) + x)[0] == truth(a)[0]);
    assert((truth(b) + y)[0] == truth(b)[0]);
    text::lemma_same_label(truth(a), x, y);
}

proof fn lemma_truth_end(a: bool, b: bool)
    requires
        truth(a) + ")."@ == truth(b) + ")."@,
    ensures
        a == b,
{
    lemma_truth_starts(a, ")."@, b, ")."@);
}

} // verus!
