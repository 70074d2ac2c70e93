//! What the printer reports about itself, as plain values.

use vstd::prelude::*;

verus! {

/// A decoded status report.
#[derive(Debug, Default, PartialEq, Eq)]
pub struct PrinterStatus {
    /// The transfer buffer has no room.
    pub buf_full: bool,
    /// The label tag cannot be read or written.
    pub label_rw_error: bool,
    /// The label roll has ended.
    pub label_end: bool,
    /// The loaded label does not fit the print mode.
    pub label_mode_error: bool,
    /// The ribbon tag cannot be read or written.
    pub ribbon_rw_error: bool,
    /// The ribbon has ended.
    pub ribbon_end: bool,
    /// The battery is low.
    pub low_battery: bool,
    /// The device is busy.
    pub device_busy: bool,
    /// The head is too hot.
    pub head_temp_high: bool,
    /// The cover is open.
    pub cover_open: bool,
    /// No label is installed.
    pub label_not_installed: bool,
    /// The printing station is active.
    pub printing: bool,
    /// Number of prints made.
    pub print_count: u32,
    /// Some fault is reported.
    pub has_error: bool,
    /// The reported faults in words.
    pub error_description: Option<String>,
}

/// The device neither prints nor is busy.
pub open spec fn is_idle(s: PrinterStatus) -> bool {
    !s.device_busy && !s.printing
}

/// The reported faults in words, empty if there are none.
pub open spec fn error_words(s: PrinterStatus) -> Seq<char> {
    match s.error_description {
        Some(d) => d@,
        None => Seq::empty(),
    }
}

impl PrinterStatus {
    /// Whether the device neither prints nor is busy.
    pub fn idle(&self) -> (b: bool)
        ensures
            b == is_idle(*self),
    {
        !self.device_busy && !self.printing
    }

    /// `context`, followed by the reported faults.
    pub fn fault_text(&self, context: &str) -> (s: String)
        ensures
            s@ == context@ + error_words(*self),
    {
        match &self.error_description {
            Some(d) => crate::text::join2(context, d.as_str()),
            None => {
                let s = context.to_owned();
                assert(s@ =~= context@ + Seq::<char>::empty());
                s
            },
        }
    }
}

/// What is loaded in the printer.
#[derive(Debug, Default, PartialEq, Eq)]
pub struct MaterialInfo {
    /// Label width.
    pub width_mm: u8,
    /// Label height; 0 if not reported.
    pub height_mm: u8,
    /// Gap between labels.
    pub gap_mm: u8,
    /// Label type code.
    pub label_type: u8,
    /// Label serial number.
    pub sn: String,
    /// Tag identifier.
    pub uuid: String,
    /// Tag code.
    pub code: String,
    /// Labels left, if reported.
    pub remaining: Option<u32>,
    /// Device serial number, if reported.
    pub device_sn: Option<String>,
}

/// A device is idle exactly when neither of its two activities is on; and its words are
/// those of its description, if there is one.
pub proof fn law_idle_and_words(s: PrinterStatus)
    ensures
        s.printing ==> !is_idle(s),
        s.device_busy ==> !is_idle(s),
        is_idle(s) || s.printing || s.device_busy,
        s.error_description matches Some(d) ==> error_words(s) == d@,
        s.error_description is None ==> error_words(s).len() == 0,
{
}

} // verus!
