//! Metrology: civil dates of calibration, instruments and their calibration
//! records, the calibration assessment and equipment readiness.

use crate::calendar::{
    days_in_month, days_in_month_spec, digit_char, digit_character, digits_at, four_digit_text,
    number_at, parse_digits, push_four_digits, push_two_digits, two_digit_text,
};
use crate::error::DomainError;
use crate::quality::{profile_of, ExecutionMode};
use crate::text::{
    all_identifier_characters, all_identifier_chars, lemma_trim_idempotent, lemma_trim_noop, push_char, trim, trim_seq,
};
use vstd::prelude::*;
use vstd::utf8::{encode_utf8, is_ascii_chars, is_ascii_chars_encode_utf8};

verus! {

/// Days before a calibration due date from which it is reported as due soon.
pub const DEFAULT_CALIBRATION_DUE_SOON_WARNING_DAYS: u32 = 30;

/// A valid civil date for metrology records: from 1900 on.
pub open spec fn valid_metrology_date(year: int, month: int, day: int) -> bool {
    &&& year >= 1900
    &&& 1 <= month <= 12
    &&& 1 <= day <= days_in_month_spec(year, month)
}

/// Days in the months of a year before `month`.
pub open spec fn days_before_month(year: int, month: int) -> int
    decreases month,
{
    if month <= 1 {
        0
    } else {
        days_before_month(year, month - 1) + days_in_month_spec(year, month - 1)
    }
}

/// Days from 0001-01-01 to the date.
pub open spec fn day_number(year: int, month: int, day: int) -> int {
    let y = year - 1;
    365 * y + y / 4 - y / 100 + y / 400 + days_before_month(year, month) + day - 1
}

pub struct MetrologyDateView {
    pub year: int,
    pub month: int,
    pub day: int,
}

pub open spec fn date_number(d: MetrologyDateView) -> int {
    day_number(d.year, d.month, d.day)
}

/// `a` comes strictly before `b` in the calendar.
pub open spec fn date_before(a: MetrologyDateView, b: MetrologyDateView) -> bool {
    ||| a.year < b.year
    ||| a.year == b.year && a.month < b.month
    ||| a.year == b.year && a.month == b.month && a.day < b.day
}

/// A civil date, written `YYYY-MM-DD`.
#[derive(Clone, Copy, Debug, PartialEq, Eq, PartialOrd, Ord)]
pub struct MetrologyDate {
    year: u16,
    month: u8,
    day: u8,
}

impl View for MetrologyDate {
    type V = MetrologyDateView;

    closed spec fn view(&self) -> MetrologyDateView {
        MetrologyDateView { year: self.year as int, month: self.month as int, day: self.day as int }
    }
}

/// The year written on at least four digits.
pub open spec fn year_text(year: int) -> Seq<char> {
    if year >= 10000 {
        seq![digit_char(year / 10000)] + four_digit_text(year % 10000)
    } else {
        four_digit_text(year)
    }
}

/// The ISO text of a date.
pub open spec fn iso_text(d: MetrologyDateView) -> Seq<char> {
    year_text(d.year) + seq!['-'] + two_digit_text(d.month) + seq!['-'] + two_digit_text(d.day)
}

/// A decimal field as `str::parse` reads it for an unsigned integer: an optional `+`,
/// then at least one digit.
pub open spec fn unsigned_field(b: Seq<u8>, start: int, count: int) -> Option<int> {
    if count >= 2 && b[start] == 43 {
        if digits_at(b, start + 1, count - 1) {
            Some(number_at(b, start + 1, (count - 1) as nat))
        } else {
            None
        }
    } else if count >= 1 && b[start] != 43 && digits_at(b, start, count) {
        Some(number_at(b, start, count as nat))
    } else {
        None
    }
}

/// Splitting on `-` gives exactly three fields of 4, 2 and 2 bytes.
pub open spec fn iso_shape(b: Seq<u8>) -> bool {
    &&& b.len() == 10
    &&& b[4] == 45 && b[7] == 45
    &&& forall|k: int| 0 <= k < 10 && k != 4 && k != 7 ==> #[trigger] b[k] != 45
}

pub open spec fn date_error(year: int, month: int, day: int) -> DomainError {
    DomainError::InvalidMetrologyDate { year: year as u16, month: month as u8, day: day as u8 }
}

/// The date checked by `MetrologyDate::new`.
pub open spec fn new_date_spec(year: u16, month: u8, day: u8) -> Result<
    MetrologyDateView,
    DomainError,
> {
    if valid_metrology_date(year as int, month as int, day as int) {
        Ok(MetrologyDateView { year: year as int, month: month as int, day: day as int })
    } else {
        Err(DomainError::InvalidMetrologyDate { year, month, day })
    }
}

/// The date read from `YYYY-MM-DD` text, with the error that names what was read.
pub open spec fn parse_iso_spec(text: Seq<char>) -> Result<MetrologyDateView, DomainError> {
    let b = encode_utf8(trim_seq(text));
    if !iso_shape(b) {
        Err(date_error(0, 0, 0))
    } else {
        match unsigned_field(b, 0, 4) {
            None => Err(date_error(0, 0, 0)),
            Some(year) => match unsigned_field(b, 5, 2) {
                None => Err(date_error(year, 0, 0)),
                Some(month) => match unsigned_field(b, 8, 2) {
                    None => Err(date_error(year, month, 0)),
                    Some(day) => new_date_spec(year as u16, month as u8, day as u8),
                },
            },
        }
    }
}

/// Reading a date ignores surrounding whitespace: the text and its trimmed form read
/// alike.
pub proof fn lemma_parse_iso_ignores_surrounding_whitespace(text: Seq<char>)
    ensures
        parse_iso_spec(trim_seq(text)) == parse_iso_spec(text),
{
    lemma_trim_idempotent(text);
}

proof fn lemma_digit_char_code(v: int)
    requires
        0 <= v < 10,
    ensures
        digit_char(v) as u32 == 48 + v,
{
}

/// A date of a year below ten thousand reads back from its ISO text: `parse_iso` of
/// `to_iso_string` gives the date again.
pub proof fn lemma_iso_text_round_trip(d: MetrologyDateView)
    requires
        valid_metrology_date(d.year, d.month, d.day),
        d.year < 10000,
    ensures
        parse_iso_spec(iso_text(d)) == Ok::<MetrologyDateView, DomainError>(d),
{
    let y = d.year;
    let m = d.month;
    let dd = d.day;
    assert(dd <= 31);
    let t = iso_text(d);
    let y1 = y / 100 / 10;
    let y2 = (y / 100) % 10;
    let y3 = (y % 100) / 10;
    let y4 = (y % 100) % 10;
    assert(t =~= seq![
        digit_char(y1),
        digit_char(y2),
        digit_char(y3),
        digit_char(y4),
        '-',
        digit_char(m / 10),
        digit_char(m % 10),
        '-',
        digit_char(dd / 10),
        digit_char(dd % 10),
    ]);
    lemma_digit_char_code(y1);
    lemma_digit_char_code(y2);
    lemma_digit_char_code(y3);
    lemma_digit_char_code(y4);
    lemma_digit_char_code(m / 10);
    lemma_digit_char_code(m % 10);
    lemma_digit_char_code(dd / 10);
    lemma_digit_char_code(dd % 10);
    lemma_trim_noop(t);
    assert(is_ascii_chars(t));
    is_ascii_chars_encode_utf8(t);
    let b = encode_utf8(t);
    assert(b.len() == 10);
    assert(b[0] == 48 + y1 && b[1] == 48 + y2 && b[2] == 48 + y3 && b[3] == 48 + y4);
    assert(b[4] == 45 && b[7] == 45);
    assert(b[5] == 48 + m / 10 && b[6] == 48 + m % 10);
    assert(b[8] == 48 + dd / 10 && b[9] == 48 + dd % 10);
    assert(iso_shape(b));
    reveal_with_fuel(number_at, 5);
    assert(digits_at(b, 0, 4));
    assert(digits_at(b, 5, 2));
    assert(digits_at(b, 8, 2));
    assert(number_at(b, 0, 4) == y);
    assert(number_at(b, 5, 2) == m);
    assert(number_at(b, 8, 2) == dd);
    assert(unsigned_field(b, 0, 4) == Some(y));
    assert(unsigned_field(b, 5, 2) == Some(m));
    assert(unsigned_field(b, 8, 2) == Some(dd));
}

pub open spec fn date_result_view(r: Result<MetrologyDate, DomainError>) -> Result<
    MetrologyDateView,
    DomainError,
> {
    match r {
        Ok(d) => Ok(d@),
        Err(e) => Err(e),
    }
}

proof fn lemma_days_before_month_bound(year: int, month: int)
    requires
        1 <= month <= 13,
    ensures
        0 <= days_before_month(year, month) <= 31 * (month - 1),
    decreases month,
{
    if month > 1 {
        lemma_days_before_month_bound(year, month - 1);
    }
}

fn unsigned_value(bytes: &[u8], start: usize, count: usize) -> (r: Option<u32>)
    requires
        start + count <= bytes@.len(),
        count <= 4,
    ensures
        match unsigned_field(bytes@, start as int, count as int) {
            Some(v) => r == Some(v as u32),
            None => r is None,
        },
{
    if count >= 2 && bytes[start] == 43 {
        parse_digits(bytes, start + 1, count - 1)
    } else if count >= 1 && bytes[start] != 43 {
        parse_digits(bytes, start, count)
    } else {
        None
    }
}

impl MetrologyDate {
    #[verifier::type_invariant]
    spec fn inv(self) -> bool {
        valid_metrology_date(self.year as int, self.month as int, self.day as int)
    }

    pub fn new(year: u16, month: u8, day: u8) -> (r: Result<Self, DomainError>)
        ensures
            date_result_view(r) == new_date_spec(year, month, day),
    {
        if year < 1900 || month == 0 || month > 12 || day == 0 || day > days_in_month(year, month) {
            return Err(DomainError::InvalidMetrologyDate { year, month, day });
        }
        Ok(MetrologyDate { year, month, day })
    }

    pub fn year(&self) -> (r: u16)
        ensures
            r == self@.year,
    {
        self.year
    }

    pub fn month(&self) -> (r: u8)
        ensures
            r == self@.month,
    {
        self.month
    }

    pub fn day(&self) -> (r: u8)
        ensures
            r == self@.day,
    {
        self.day
    }

    /// Signed number of days from this date to `later`.
    pub fn days_until(self, later: Self) -> (r: i32)
        ensures
            r == date_number(later@) - date_number(self@),
    {
        later.days_since_epoch() - self.days_since_epoch()
    }

    /// Reads `YYYY-MM-DD`; surrounding whitespace is ignored.
    pub fn parse_iso(value: &str) -> (r: Result<Self, DomainError>)
        ensures
            date_result_view(r) == parse_iso_spec(value@),
    {
        let trimmed = trim(value);
        let bytes = trimmed.as_str().as_bytes();
        proof {
            assert(bytes@ == encode_utf8(trim_seq(value@)));
        }
        if bytes.len() != 10 || bytes[4] != 45 || bytes[7] != 45 {
            return Err(DomainError::InvalidMetrologyDate { year: 0, month: 0, day: 0 });
        }
        let mut k: usize = 0;
        while k < 10
            invariant
                bytes@ == encode_utf8(trim_seq(value@)),
                bytes@.len() == 10,
                bytes@[4] == 45 && bytes@[7] == 45,
                k <= 10,
                forall|j: int| 0 <= j < k && j != 4 && j != 7 ==> #[trigger] bytes@[j] != 45,
            decreases 10 - k,
        {
            if k != 4 && k != 7 && bytes[k] == 45 {
                assert(bytes@[k as int] == 45);
                return Err(DomainError::InvalidMetrologyDate { year: 0, month: 0, day: 0 });
            }
            k = k + 1;
        }
        proof {
            reveal_with_fuel(number_at, 5);
        }
        let year = match unsigned_value(bytes, 0, 4) {
            Some(v) => v as u16,
            None => {
                return Err(DomainError::InvalidMetrologyDate { year: 0, month: 0, day: 0 });
            },
        };
        let month = match unsigned_value(bytes, 5, 2) {
            Some(v) => v as u8,
            None => {
                return Err(DomainError::InvalidMetrologyDate { year, month: 0, day: 0 });
            },
        };
        let day = match unsigned_value(bytes, 8, 2) {
            Some(v) => v as u8,
            None => {
                return Err(DomainError::InvalidMetrologyDate { year, month, day: 0 });
            },
        };
        Self::new(year, month, day)
    }

    fn days_since_epoch(self) -> (r: i32)
        ensures
            r == date_number(self@),
            0 <= r <= 24000000,
    {
        proof {
            use_type_invariant(self);
        }
        let years_before: i32 = self.year as i32 - 1;
        let leap_days_before_year: i32 = years_before / 4 - years_before / 100 + years_before / 400;
        let doy = self.day_of_year();
        365 * years_before + leap_days_before_year + doy as i32 - 1
    }

    fn day_of_year(self) -> (r: u16)
        requires
            valid_metrology_date(self@.year, self@.month, self@.day),
        ensures
            r == days_before_month(self@.year, self@.month) + self@.day,
            r <= 400,
    {
        let mut total: u16 = 0;
        let mut month: u8 = 1;
        while month < self.month
            invariant
                valid_metrology_date(self@.year, self@.month, self@.day),
                1 <= month <= self.month,
                total == days_before_month(self@.year, month as int),
                total <= 31 * (month - 1),
            decreases self.month - month,
        {
            total = total + days_in_month(self.year, month) as u16;
            month = month + 1;
        }
        proof {
            lemma_days_before_month_bound(self@.year, self@.month);
        }
        total + self.day as u16
    }

    /// The date as `YYYY-MM-DD`.
    pub fn to_iso_string(&self) -> (r: String)
        ensures
            r@ == iso_text(self@),
    {
        proof {
            use_type_invariant(self);
        }
        let mut s = String::new();
        let y = self.year;
        if y >= 10000 {
            push_char(&mut s, digit_character(y / 10000));
        }
        push_four_digits(&mut s, y % 10000);
        assert(s@ =~= year_text(self@.year));
        let ghost year_part = s@;
        push_char(&mut s, '-');
        push_two_digits(&mut s, self.month as u16);
        push_char(&mut s, '-');
        push_two_digits(&mut s, self.day as u16);
        assert(s@ =~= year_part + seq!['-'] + two_digit_text(self@.month) + seq!['-']
            + two_digit_text(self@.day));
        assert(s@ =~= iso_text(self@));
        s
    }

    /// Strictly earlier in the calendar.
    pub fn is_before(&self, other: &Self) -> (b: bool)
        ensures
            b == date_before(self@, other@),
    {
        if self.year != other.year {
            return self.year < other.year;
        }
        if self.month != other.month {
            return self.month < other.month;
        }
        self.day < other.day
    }
}

/// Identity of a laboratory instrument, such as `REC-001`.
#[derive(Clone, Debug, Eq)]
pub struct InstrumentCode(String);

impl View for InstrumentCode {
    type V = Seq<char>;

    closed spec fn view(&self) -> Seq<char> {
        self.0@
    }
}

impl PartialEq for InstrumentCode {
    fn eq(&self, other: &Self) -> (r: bool) {
        self.0 == other.0
    }
}

impl vstd::std_specs::cmp::PartialEqSpecImpl for InstrumentCode {
    open spec fn obeys_eq_spec() -> bool {
        true
    }

    open spec fn eq_spec(&self, other: &Self) -> bool {
        self@ == other@
    }
}

impl InstrumentCode {
    /// Trims the value; it must then be non-empty and made of identifier characters.
    pub fn parse(value: &str) -> (r: Result<Self, DomainError>)
        ensures
            trim_seq(value@).len() == 0 ==> r == Err::<Self, DomainError>(
                DomainError::EmptyInstrumentCode,
            ),
            trim_seq(value@).len() > 0 && !all_identifier_chars(trim_seq(value@)) ==> (r matches Err(
                DomainError::InvalidInstrumentCode(t),
            ) && t@ == trim_seq(value@)),
            trim_seq(value@).len() > 0 && all_identifier_chars(trim_seq(value@)) ==> (r matches Ok(
                c,
            ) && c@ == trim_seq(value@)),
    {
        let trimmed = trim(value);
        if trimmed.as_str().is_empty() {
            return Err(DomainError::EmptyInstrumentCode);
        }
        if !all_identifier_characters(trimmed.as_str()) {
            return Err(DomainError::InvalidInstrumentCode(trimmed));
        }
        Ok(InstrumentCode(trimmed))
    }

    pub fn as_str(&self) -> (r: &str)
        ensures
            r@ == self@,
    {
        self.0.as_str()
    }

    /// A copy of the code.
    pub fn duplicate(&self) -> (r: Self)
        ensures
            r@ == self@,
    {
        InstrumentCode(self.0.clone())
    }
}

#[derive(Clone, Copy, Debug, PartialEq, Eq, Structural)]
pub enum InstrumentFamily {
    Receiver,
    SpectrumAnalyzer,
    SignalGenerator,
    PowerAmplifier,
    Antenna,
    Probe,
    CouplingDecouplingNetwork,
    ArtificialMainsNetwork,
    Oscilloscope,
    Daq,
    Multimeter,
    PowerSupply,
    EnvironmentalSensor,
    Fixture,
    SoftwareTool,
    Simulated,
}

#[derive(Clone, Copy, Debug, PartialEq, Eq, Structural)]
pub enum InstrumentAvailability {
    Available,
    Reserved,
    OutOfService,
}

#[derive(Clone, Copy, Debug, PartialEq, Eq, Structural)]
pub enum InstrumentServiceability {
    Usable,
    Restricted,
    OutOfService,
    Retired,
}

#[derive(Clone, Copy, Debug, PartialEq, Eq, Structural)]
pub enum CalibrationRequirement {
    Required,
    Conditional,
    NotRequired,
}

#[derive(Clone, Copy, Debug, PartialEq, Eq, Structural)]
pub enum CalibrationStatus {
    Valid,
    DueSoon,
    Expired,
    Missing,
    NotRequired,
    Nonconforming,
}

#[derive(Clone, Copy, Debug, PartialEq, Eq, Structural)]
pub enum CalibrationDecision {
    Conforming,
    Nonconforming,
    Indeterminate,
}

#[derive(Clone, Copy, Debug, PartialEq, Eq, Structural)]
pub enum MetrologyAssessmentStatus {
    Valid,
    DueSoon,
    Expired,
    Missing,
    NotRequired,
    Nonconforming,
    Indeterminate,
    Unavailable,
}

#[derive(Clone, Copy, Debug, PartialEq, Eq, Structural)]
pub enum MetrologyAssessmentReasonCode {
    CalibrationValid,
    CalibrationDueSoon,
    CalibrationExpired,
    CalibrationMissing,
    CalibrationNotRequired,
    CalibrationNonconforming,
    CalibrationDecisionIndeterminate,
    MetrologySourceUnavailable,
}

/// The metrology verdict on one instrument at a date, with its inputs.
#[derive(Clone, Debug, PartialEq, Eq)]
pub struct MetrologyAssessment {
    pub status: MetrologyAssessmentStatus,
    pub checked_on: MetrologyDate,
    pub calibration_requirement: Option<CalibrationRequirement>,
    pub latest_calibration_decision: Option<CalibrationDecision>,
    pub calibrated_at: Option<MetrologyDate>,
    pub due_at: Option<MetrologyDate>,
    pub warning_threshold_days: u32,
    pub blocking: bool,
    pub reasons: Vec<MetrologyAssessmentReasonCode>,
}

pub open spec fn optional_date_view(d: Option<MetrologyDate>) -> Option<MetrologyDateView> {
    match d {
        Some(x) => Some(x@),
        None => None,
    }
}

impl MetrologyAssessment {
    /// The verdict when no metrology data could be read: blocking.
    pub fn unavailable(checked_on: MetrologyDate, warning_threshold_days: u32) -> (r: Self)
        ensures
            r.status == MetrologyAssessmentStatus::Unavailable,
            r.checked_on@ == checked_on@,
            r.calibration_requirement is None,
            r.latest_calibration_decision is None,
            r.calibrated_at is None,
            r.due_at is None,
            r.warning_threshold_days == warning_threshold_days,
            r.blocking,
            r.reasons@ == seq![MetrologyAssessmentReasonCode::MetrologySourceUnavailable],
    {
        let mut reasons: Vec<MetrologyAssessmentReasonCode> = Vec::new();
        reasons.push(MetrologyAssessmentReasonCode::MetrologySourceUnavailable);
        MetrologyAssessment {
            status: MetrologyAssessmentStatus::Unavailable,
            checked_on,
            calibration_requirement: None,
            latest_calibration_decision: None,
            calibrated_at: None,
            due_at: None,
            warning_threshold_days,
            blocking: true,
            reasons,
        }
    }
}

/// Status, blocking flag and reason of a metrology assessment: the requirement first,
/// then the calibration decision, then the due date against the checked date.
pub open spec fn assessment_outcome(
    checked_on: MetrologyDateView,
    requirement: CalibrationRequirement,
    decision: Option<CalibrationDecision>,
    calibrated_at: Option<MetrologyDateView>,
    due_at: Option<MetrologyDateView>,
    warning_threshold_days: u32,
) -> (MetrologyAssessmentStatus, bool, MetrologyAssessmentReasonCode) {
    if requirement == CalibrationRequirement::NotRequired {
        (
            MetrologyAssessmentStatus::NotRequired,
            false,
            MetrologyAssessmentReasonCode::CalibrationNotRequired,
        )
    } else {
        match decision {
            None => (
                MetrologyAssessmentStatus::Missing,
                true,
                MetrologyAssessmentReasonCode::CalibrationMissing,
            ),
            Some(CalibrationDecision::Nonconforming) => (
                MetrologyAssessmentStatus::Nonconforming,
                true,
                MetrologyAssessmentReasonCode::CalibrationNonconforming,
            ),
            Some(CalibrationDecision::Indeterminate) => (
                MetrologyAssessmentStatus::Indeterminate,
                true,
                MetrologyAssessmentReasonCode::CalibrationDecisionIndeterminate,
            ),
            Some(CalibrationDecision::Conforming) => if calibrated_at is Some && due_at is Some {
                let days = date_number(due_at->0) - date_number(checked_on);
                if days < 0 {
                    (
                        MetrologyAssessmentStatus::Expired,
                        true,
                        MetrologyAssessmentReasonCode::CalibrationExpired,
                    )
                } else if days <= warning_threshold_days as i32 {
                    (
                        MetrologyAssessmentStatus::DueSoon,
                        false,
                        MetrologyAssessmentReasonCode::CalibrationDueSoon,
                    )
                } else {
                    (
                        MetrologyAssessmentStatus::Valid,
                        false,
                        MetrologyAssessmentReasonCode::CalibrationValid,
                    )
                }
            } else {
                (
                    MetrologyAssessmentStatus::Indeterminate,
                    true,
                    MetrologyAssessmentReasonCode::CalibrationDecisionIndeterminate,
                )
            },
        }
    }
}

/// Assesses the metrology of one instrument at `checked_on`.
pub fn assess_metrology(
    checked_on: MetrologyDate,
    calibration_requirement: CalibrationRequirement,
    latest_calibration_decision: Option<CalibrationDecision>,
    calibrated_at: Option<MetrologyDate>,
    due_at: Option<MetrologyDate>,
    warning_threshold_days: u32,
) -> (r: MetrologyAssessment)
    ensures
        ({
            let o = assessment_outcome(
                checked_on@,
                calibration_requirement,
                latest_calibration_decision,
                optional_date_view(calibrated_at),
                optional_date_view(due_at),
                warning_threshold_days,
            );
            &&& r.status == o.0
            &&& r.blocking == o.1
            &&& r.reasons@ == seq![o.2]
        }),
        r.checked_on@ == checked_on@,
        r.calibration_requirement == Some(calibration_requirement),
        r.latest_calibration_decision == latest_calibration_decision,
        optional_date_view(r.calibrated_at) == optional_date_view(calibrated_at),
        optional_date_view(r.due_at) == optional_date_view(due_at),
        r.warning_threshold_days == warning_threshold_days,
{
    let (status, blocking, reason) = if calibration_requirement
        == CalibrationRequirement::NotRequired {
        (
            MetrologyAssessmentStatus::NotRequired,
            false,
            MetrologyAssessmentReasonCode::CalibrationNotRequired,
        )
    } else {
        match latest_calibration_decision {
            None => (
                MetrologyAssessmentStatus::Missing,
                true,
                MetrologyAssessmentReasonCode::CalibrationMissing,
            ),
            Some(CalibrationDecision::Nonconforming) => (
                MetrologyAssessmentStatus::Nonconforming,
                true,
                MetrologyAssessmentReasonCode::CalibrationNonconforming,
            ),
            Some(CalibrationDecision::Indeterminate) => (
                MetrologyAssessmentStatus::Indeterminate,
                true,
                MetrologyAssessmentReasonCode::CalibrationDecisionIndeterminate,
            ),
            Some(CalibrationDecision::Conforming) => match (calibrated_at, due_at) {
                (Some(_), Some(due)) => {
                    let days_until_due = checked_on.days_until(due);
                    if days_until_due < 0 {
                        (
                            MetrologyAssessmentStatus::Expired,
                            true,
                            MetrologyAssessmentReasonCode::CalibrationExpired,
                        )
                    } else if days_until_due <= warning_threshold_days as i32 {
                        (
                            MetrologyAssessmentStatus::DueSoon,
                            false,
                            MetrologyAssessmentReasonCode::CalibrationDueSoon,
                        )
                    } else {
                        (
                            MetrologyAssessmentStatus::Valid,
                            false,
                            MetrologyAssessmentReasonCode::CalibrationValid,
                        )
                    }
                },
                _ => (
                    MetrologyAssessmentStatus::Indeterminate,
                    true,
                    MetrologyAssessmentReasonCode::CalibrationDecisionIndeterminate,
                ),
            },
        }
    };
    let mut reasons: Vec<MetrologyAssessmentReasonCode> = Vec::new();
    reasons.push(reason);
    MetrologyAssessment {
        status,
        checked_on,
        calibration_requirement: Some(calibration_requirement),
        latest_calibration_decision,
        calibrated_at,
        due_at,
        warning_threshold_days,
        blocking,
        reasons,
    }
}

/// A required label, trimmed.
fn normalized_label(value: &str, empty_error: DomainError) -> (r: Result<String, DomainError>)
    ensures
        trim_seq(value@).len() == 0 ==> r == Err::<String, DomainError>(empty_error),
        trim_seq(value@).len() > 0 ==> (r matches Ok(t) && t@ == trim_seq(value@)),
{
    let trimmed = trim(value);
    if trimmed.as_str().is_empty() {
        return Err(empty_error);
    }
    Ok(trimmed)
}

pub struct InstrumentView {
    pub code: Seq<char>,
    pub family: InstrumentFamily,
    pub manufacturer: Seq<char>,
    pub model: Seq<char>,
    pub serial_number: Seq<char>,
    pub availability: InstrumentAvailability,
    pub serviceability: InstrumentServiceability,
    pub calibration_requirement: CalibrationRequirement,
}

/// An instrument of the laboratory inventory.
#[derive(Clone, Debug, PartialEq, Eq)]
pub struct InstrumentRecord {
    code: InstrumentCode,
    family: InstrumentFamily,
    manufacturer: String,
    model: String,
    serial_number: String,
    availability: InstrumentAvailability,
    serviceability: InstrumentServiceability,
    calibration_requirement: CalibrationRequirement,
}

impl View for InstrumentRecord {
    type V = InstrumentView;

    closed spec fn view(&self) -> InstrumentView {
        InstrumentView {
            code: self.code@,
            family: self.family,
            manufacturer: self.manufacturer@,
            model: self.model@,
            serial_number: self.serial_number@,
            availability: self.availability,
            serviceability: self.serviceability,
            calibration_requirement: self.calibration_requirement,
        }
    }
}

impl InstrumentRecord {
    /// A new instrument, available and usable; manufacturer, model and serial number
    /// are trimmed and must not be empty (checked in that order).
    pub fn new(
        code: InstrumentCode,
        family: InstrumentFamily,
        manufacturer: &str,
        model: &str,
        serial_number: &str,
        calibration_requirement: CalibrationRequirement,
    ) -> (r: Result<Self, DomainError>)
        ensures
            trim_seq(manufacturer@).len() == 0 ==> r == Err::<Self, DomainError>(
                DomainError::EmptyInstrumentManufacturer,
            ),
            trim_seq(manufacturer@).len() > 0 && trim_seq(model@).len() == 0 ==> r == Err::<
                Self,
                DomainError,
            >(DomainError::EmptyInstrumentModel),
            trim_seq(manufacturer@).len() > 0 && trim_seq(model@).len() > 0 && trim_seq(
                serial_number@,
            ).len() == 0 ==> r == Err::<Self, DomainError>(
                DomainError::EmptyInstrumentSerialNumber,
            ),
            trim_seq(manufacturer@).len() > 0 && trim_seq(model@).len() > 0 && trim_seq(
                serial_number@,
            ).len() > 0 ==> (r matches Ok(i) && i@ == (InstrumentView {
                code: code@,
                family,
                manufacturer: trim_seq(manufacturer@),
                model: trim_seq(model@),
                serial_number: trim_seq(serial_number@),
                availability: InstrumentAvailability::Available,
                serviceability: InstrumentServiceability::Usable,
                calibration_requirement,
            })),
    {
        let manufacturer = match normalized_label(
            manufacturer,
            DomainError::EmptyInstrumentManufacturer,
        ) {
            Ok(v) => v,
            Err(e) => {
                return Err(e);
            },
        };
        let model = match normalized_label(model, DomainError::EmptyInstrumentModel) {
            Ok(v) => v,
            Err(e) => {
                return Err(e);
            },
        };
        let serial_number = match normalized_label(
            serial_number,
            DomainError::EmptyInstrumentSerialNumber,
        ) {
            Ok(v) => v,
            Err(e) => {
                return Err(e);
            },
        };
        Ok(
            InstrumentRecord {
                code,
                family,
                manufacturer,
                model,
                serial_number,
                availability: InstrumentAvailability::Available,
                serviceability: InstrumentServiceability::Usable,
                calibration_requirement,
            },
        )
    }

    pub fn code(&self) -> (r: &InstrumentCode)
        ensures
            r@ == self@.code,
    {
        &self.code
    }

    pub fn family(&self) -> (r: InstrumentFamily)
        ensures
            r == self@.family,
    {
        self.family
    }

    pub fn manufacturer(&self) -> (r: &str)
        ensures
            r@ == self@.manufacturer,
    {
        self.manufacturer.as_str()
    }

    pub fn model(&self) -> (r: &str)
        ensures
            r@ == self@.model,
    {
        self.model.as_str()
    }

    pub fn serial_number(&self) -> (r: &str)
        ensures
            r@ == self@.serial_number,
    {
        self.serial_number.as_str()
    }

    pub fn availability(&self) -> (r: InstrumentAvailability)
        ensures
            r == self@.availability,
    {
        self.availability
    }

    pub fn serviceability(&self) -> (r: InstrumentServiceability)
        ensures
            r == self@.serviceability,
    {
        self.serviceability
    }

    pub fn calibration_requirement(&self) -> (r: CalibrationRequirement)
        ensures
            r == self@.calibration_requirement,
    {
        self.calibration_requirement
    }

    pub fn set_availability(&mut self, availability: InstrumentAvailability)
        ensures
            final(self)@ == (InstrumentView { availability, ..old(self)@ }),
    {
        self.availability = availability;
    }

    pub fn set_serviceability(&mut self, serviceability: InstrumentServiceability)
        ensures
            final(self)@ == (InstrumentView { serviceability, ..old(self)@ }),
    {
        self.serviceability = serviceability;
    }
}

pub struct CalibrationView {
    pub instrument: Seq<char>,
    pub certificate_reference: Seq<char>,
    pub issued_on: MetrologyDateView,
    pub valid_until: MetrologyDateView,
    pub provider: Seq<char>,
}

/// A calibration certificate of an instrument and its validity period.
#[derive(Clone, Debug, PartialEq, Eq)]
pub struct CalibrationRecord {
    instrument: InstrumentCode,
    certificate_reference: String,
    issued_on: MetrologyDate,
    valid_until: MetrologyDate,
    provider: String,
}

impl View for CalibrationRecord {
    type V = CalibrationView;

    closed spec fn view(&self) -> CalibrationView {
        CalibrationView {
            instrument: self.instrument@,
            certificate_reference: self.certificate_reference@,
            issued_on: self.issued_on@,
            valid_until: self.valid_until@,
            provider: self.provider@,
        }
    }
}

impl CalibrationRecord {
    /// A calibration valid from `issued_on` to `valid_until` (not before it); the
    /// certificate reference and the provider are trimmed and must not be empty.
    pub fn new(
        instrument: InstrumentCode,
        certificate_reference: &str,
        issued_on: MetrologyDate,
        valid_until: MetrologyDate,
        provider: &str,
    ) -> (r: Result<Self, DomainError>)
        ensures
            date_before(valid_until@, issued_on@) ==> r == Err::<Self, DomainError>(
                DomainError::InvalidCalibrationPeriod,
            ),
            !date_before(valid_until@, issued_on@) && trim_seq(certificate_reference@).len() == 0
                ==> r == Err::<Self, DomainError>(DomainError::EmptyCalibrationCertificate),
            !date_before(valid_until@, issued_on@) && trim_seq(certificate_reference@).len() > 0
                && trim_seq(provider@).len() == 0 ==> r == Err::<Self, DomainError>(
                DomainError::EmptyCalibrationProvider,
            ),
            !date_before(valid_until@, issued_on@) && trim_seq(certificate_reference@).len() > 0
                && trim_seq(provider@).len() > 0 ==> (r matches Ok(c) && c@ == (CalibrationView {
                instrument: instrument@,
                certificate_reference: trim_seq(certificate_reference@),
                issued_on: issued_on@,
                valid_until: valid_until@,
                provider: trim_seq(provider@),
            })),
    {
        if valid_until.is_before(&issued_on) {
            return Err(DomainError::InvalidCalibrationPeriod);
        }
        let certificate_reference = match normalized_label(
            certificate_reference,
            DomainError::EmptyCalibrationCertificate,
        ) {
            Ok(v) => v,
            Err(e) => {
                return Err(e);
            },
        };
        let provider = match normalized_label(provider, DomainError::EmptyCalibrationProvider) {
            Ok(v) => v,
            Err(e) => {
                return Err(e);
            },
        };
        Ok(CalibrationRecord { instrument, certificate_reference, issued_on, valid_until, provider })
    }

    pub fn instrument(&self) -> (r: &InstrumentCode)
        ensures
            r@ == self@.instrument,
    {
        &self.instrument
    }

    pub fn certificate_reference(&self) -> (r: &str)
        ensures
            r@ == self@.certificate_reference,
    {
        self.certificate_reference.as_str()
    }

    pub fn issued_on(&self) -> (r: MetrologyDate)
        ensures
            r@ == self@.issued_on,
    {
        self.issued_on
    }

    pub fn valid_until(&self) -> (r: MetrologyDate)
        ensures
            r@ == self@.valid_until,
    {
        self.valid_until
    }

    pub fn provider(&self) -> (r: &str)
        ensures
            r@ == self@.provider,
    {
        self.provider.as_str()
    }
}

#[derive(Clone, Copy, Debug, PartialEq, Eq, Structural)]
pub enum EquipmentIssueKind {
    MissingInstrument,
    OutOfService,
    CalibrationMissing,
    CalibrationExpired,
    CalibrationDueSoon,
    CalibrationNonconforming,
}

pub struct EquipmentIssueView {
    pub instrument: Seq<char>,
    pub kind: EquipmentIssueKind,
    pub blocking: bool,
}

/// A finding on one requested instrument.
#[derive(Clone, Debug, PartialEq, Eq)]
pub struct EquipmentIssue {
    instrument: InstrumentCode,
    kind: EquipmentIssueKind,
    blocking: bool,
}

impl View for EquipmentIssue {
    type V = EquipmentIssueView;

    closed spec fn view(&self) -> EquipmentIssueView {
        EquipmentIssueView { instrument: self.instrument@, kind: self.kind, blocking: self.blocking }
    }
}

impl EquipmentIssue {
    fn new(instrument: InstrumentCode, kind: EquipmentIssueKind, blocking: bool) -> (r: Self)
        ensures
            r@ == (EquipmentIssueView { instrument: instrument@, kind, blocking }),
    {
        EquipmentIssue { instrument, kind, blocking }
    }

    pub fn instrument(&self) -> (r: &InstrumentCode)
        ensures
            r@ == self@.instrument,
    {
        &self.instrument
    }

    pub fn kind(&self) -> (r: EquipmentIssueKind)
        ensures
            r == self@.kind,
    {
        self.kind
    }

    pub fn is_blocking(&self) -> (r: bool)
        ensures
            r == self@.blocking,
    {
        self.blocking
    }
}

/// The blocking issues of a list, in their order.
pub open spec fn blocking_only(s: Seq<EquipmentIssueView>) -> Seq<EquipmentIssueView>
    decreases s.len(),
{
    if s.len() == 0 {
        s
    } else if s.last().blocking {
        blocking_only(s.drop_last()).push(s.last())
    } else {
        blocking_only(s.drop_last())
    }
}

pub struct ReadinessView {
    pub mode: ExecutionMode,
    pub checked_on: MetrologyDateView,
    pub issues: Seq<EquipmentIssueView>,
}

/// The equipment findings for a requested set of instruments.
#[derive(Clone, Debug, PartialEq, Eq)]
pub struct EquipmentReadinessReport {
    mode: ExecutionMode,
    checked_on: MetrologyDate,
    issues: Vec<EquipmentIssue>,
}

impl View for EquipmentReadinessReport {
    type V = ReadinessView;

    closed spec fn view(&self) -> ReadinessView {
        ReadinessView {
            mode: self.mode,
            checked_on: self.checked_on@,
            issues: self.issues@.map_values(|i: EquipmentIssue| i@),
        }
    }
}

impl EquipmentReadinessReport {
    pub fn mode(&self) -> (r: ExecutionMode)
        ensures
            r == self@.mode,
    {
        self.mode
    }

    pub fn checked_on(&self) -> (r: MetrologyDate)
        ensures
            r@ == self@.checked_on,
    {
        self.checked_on
    }

    pub fn issues(&self) -> (r: &[EquipmentIssue])
        ensures
            r@.map_values(|i: EquipmentIssue| i@) == self@.issues,
    {
        self.issues.as_slice()
    }

    /// The blocking issues, in order.
    pub fn blocking_issues(&self) -> (r: Vec<&EquipmentIssue>)
        ensures
            r@.map_values(|i: &EquipmentIssue| i@) == blocking_only(self@.issues),
    {
        let mut r: Vec<&EquipmentIssue> = Vec::new();
        let mut k: usize = 0;
        while k < self.issues.len()
            invariant
                k <= self.issues@.len(),
                r@.map_values(|i: &EquipmentIssue| i@) == blocking_only(
                    self@.issues.take(k as int),
                ),
            decreases self.issues@.len() - k,
        {
            let issue = &self.issues[k];
            proof {
                assert(self@.issues.take(k + 1).drop_last() =~= self@.issues.take(k as int));
            }
            if issue.is_blocking() {
                r.push(issue);
            }
            k = k + 1;
            proof {
                assert(r@.map_values(|i: &EquipmentIssue| i@) =~= blocking_only(
                    self@.issues.take(k as int),
                ));
            }
        }
        assert(self@.issues.take(self.issues@.len() as int) =~= self@.issues);
        r
    }

    /// Ready when no issue is blocking.
    pub fn is_ready(&self) -> (r: bool)
        ensures
            r == (forall|i: int| 0 <= i < self@.issues.len() ==> !(#[trigger] self@.issues[i]).blocking),
    {
        let mut k: usize = 0;
        while k < self.issues.len()
            invariant
                k <= self.issues@.len(),
                forall|i: int| 0 <= i < k ==> !(#[trigger] self@.issues[i]).blocking,
            decreases self.issues@.len() - k,
        {
            if self.issues[k].is_blocking() {
                assert(self@.issues[k as int].blocking);
                return false;
            }
            k = k + 1;
        }
        true
    }
}

/// Position of the first instrument with the code; the length when there is none.
pub open spec fn index_of_code(s: Seq<InstrumentView>, code: Seq<char>) -> int
    decreases s.len(),
{
    if s.len() == 0 {
        0
    } else if s[0].code == code {
        0
    } else {
        1 + index_of_code(s.drop_first(), code)
    }
}

pub proof fn lemma_index_of_code(s: Seq<InstrumentView>, code: Seq<char>)
    ensures
        0 <= index_of_code(s, code) <= s.len(),
        forall|j: int| 0 <= j < index_of_code(s, code) ==> (#[trigger] s[j]).code != code,
        index_of_code(s, code) < s.len() ==> s[index_of_code(s, code)].code == code,
    decreases s.len(),
{
    if s.len() > 0 && s[0].code != code {
        lemma_index_of_code(s.drop_first(), code);
        assert forall|j: int| 0 <= j < index_of_code(s, code) implies (#[trigger] s[j]).code
            != code by {
            if j > 0 {
                assert(s[j] == s.drop_first()[j - 1]);
            }
        }
    }
}

/// The position of the first instrument with the code, found by scanning.
proof fn lemma_index_of_code_is(s: Seq<InstrumentView>, code: Seq<char>, k: int)
    requires
        0 <= k <= s.len(),
        forall|j: int| 0 <= j < k ==> (#[trigger] s[j]).code != code,
        k < s.len() ==> s[k].code == code,
    ensures
        index_of_code(s, code) == k,
{
    lemma_index_of_code(s, code);
    let i = index_of_code(s, code);
    if i < k {
        assert(s[i].code == code);
    }
    if k < i {
        assert(s[k].code != code);
    }
}

/// A registered instrument carries the code.
pub open spec fn has_instrument(s: Seq<InstrumentView>, code: Seq<char>) -> bool {
    exists|i: int| 0 <= i < s.len() && (#[trigger] s[i]).code == code
}

/// Calibration key: the validity end first, then the issue date.
pub open spec fn calibration_key_le(a: CalibrationView, b: CalibrationView) -> bool {
    date_before(a.valid_until, b.valid_until) || (a.valid_until == b.valid_until && !date_before(
        b.issued_on,
        a.issued_on,
    ))
}

/// Position of the latest calibration of the instrument: the greatest key, and the last
/// one of equal keys.
pub open spec fn latest_index(s: Seq<CalibrationView>, code: Seq<char>) -> Option<int>
    decreases s.len(),
{
    if s.len() == 0 {
        None
    } else {
        let prev = latest_index(s.drop_last(), code);
        if s.last().instrument == code && (prev is None || calibration_key_le(
            s.drop_last()[prev->0],
            s.last(),
        )) {
            Some(s.len() - 1)
        } else {
            prev
        }
    }
}

pub proof fn lemma_latest_index_bounds(s: Seq<CalibrationView>, code: Seq<char>)
    ensures
        latest_index(s, code) matches Some(i) ==> 0 <= i < s.len() && s[i].instrument == code,
    decreases s.len(),
{
    if s.len() > 0 {
        lemma_latest_index_bounds(s.drop_last(), code);
    }
}

/// The calibration key order is total: of two calibrations, one key is at most the other.
pub proof fn lemma_calibration_key_total(a: CalibrationView, b: CalibrationView)
    ensures
        calibration_key_le(a, b) || calibration_key_le(b, a),
{
}

/// The calibration key order is transitive.
pub proof fn lemma_calibration_key_transitive(a: CalibrationView, b: CalibrationView, c: CalibrationView)
    requires
        calibration_key_le(a, b),
        calibration_key_le(b, c),
    ensures
        calibration_key_le(a, c),
{
}

/// The latest calibration of an instrument is one of its calibrations whose key (validity
/// end, then issue date) is the greatest, and no later calibration of the instrument has
/// a key as great: it is the last of the greatest. There is none only for an instrument
/// without any calibration.
pub proof fn lemma_latest_is_last_greatest(s: Seq<CalibrationView>, code: Seq<char>)
    ensures
        latest_index(s, code) is None <==> forall|j: int| 0 <= j < s.len() ==> (#[trigger] s[j]).instrument != code,
        latest_index(s, code) matches Some(i) ==> {
            &&& 0 <= i < s.len()
            &&& s[i].instrument == code
            &&& forall|j: int| 0 <= j < s.len() && (#[trigger] s[j]).instrument == code ==> calibration_key_le(s[j], s[i])
            &&& forall|j: int| i < j < s.len() && (#[trigger] s[j]).instrument == code ==> !calibration_key_le(s[i], s[j])
        },
    decreases s.len(),
{
    if s.len() > 0 {
        let t = s.drop_last();
        lemma_latest_is_last_greatest(t, code);
        let prev = latest_index(t, code);
        let last = s.last();
        assert forall|j: int| 0 <= j < t.len() implies t[j] == s[j] by {}
        if last.instrument == code && (prev is None || calibration_key_le(t[prev->0], last)) {
            assert forall|j: int| 0 <= j < s.len() && (#[trigger] s[j]).instrument == code implies calibration_key_le(s[j], s[s.len() - 1]) by {
                if j < s.len() - 1 {
                    assert(t[j] == s[j]);
                    let p = prev->0;
                    lemma_calibration_key_transitive(s[j], t[p], last);
                }
            }
        } else if last.instrument == code {
            let p = prev->0;
            lemma_calibration_key_total(t[p], last);
            assert(s[p] == t[p]);
            assert forall|j: int| 0 <= j < s.len() && (#[trigger] s[j]).instrument == code implies calibration_key_le(s[j], s[p]) by {
                if j < s.len() - 1 {
                    assert(t[j] == s[j]);
                }
            }
            assert forall|j: int| p < j < s.len() && (#[trigger] s[j]).instrument == code implies !calibration_key_le(s[p], s[j]) by {
                if j < s.len() - 1 {
                    assert(t[j] == s[j]);
                }
            }
        } else {
            assert forall|j: int| 0 <= j < s.len() && (#[trigger] s[j]).instrument == code implies j < s.len() - 1 && t[j] == s[j] by {}
            if prev is None {
                assert forall|j: int| 0 <= j < s.len() implies (#[trigger] s[j]).instrument != code by {
                    if j < s.len() - 1 {
                        assert(t[j] == s[j]);
                    }
                }
            }
        }
    }
}

pub struct RegistryView {
    pub instruments: Seq<InstrumentView>,
    pub calibrations: Seq<CalibrationView>,
}

/// The calibration status of an instrument at a date, `None` for an unknown instrument.
pub open spec fn calibration_status_spec(
    reg: RegistryView,
    code: Seq<char>,
    checked_on: MetrologyDateView,
    warning_days: u32,
) -> Option<CalibrationStatus> {
    let i = index_of_code(reg.instruments, code);
    if i >= reg.instruments.len() {
        None
    } else if reg.instruments[i].calibration_requirement == CalibrationRequirement::NotRequired {
        Some(CalibrationStatus::NotRequired)
    } else {
        match latest_index(reg.calibrations, code) {
            None => Some(CalibrationStatus::Missing),
            Some(l) => {
                let days = date_number(reg.calibrations[l].valid_until) - date_number(checked_on);
                if days < 0 {
                    Some(CalibrationStatus::Expired)
                } else if days <= warning_days as i32 {
                    Some(CalibrationStatus::DueSoon)
                } else {
                    Some(CalibrationStatus::Valid)
                }
            },
        }
    }
}

pub open spec fn equipment_issue(code: Seq<char>, kind: EquipmentIssueKind, blocking: bool) -> EquipmentIssueView {
    EquipmentIssueView { instrument: code, kind, blocking }
}

/// The findings on one requested instrument: missing from the inventory, out of service,
/// then its calibration (blocking only where the mode requires valid calibration of an
/// instrument that requires it; due soon never blocks).
pub open spec fn instrument_issues(
    reg: RegistryView,
    code: Seq<char>,
    mode: ExecutionMode,
    checked_on: MetrologyDateView,
) -> Seq<EquipmentIssueView> {
    let i = index_of_code(reg.instruments, code);
    if i >= reg.instruments.len() {
        seq![equipment_issue(code, EquipmentIssueKind::MissingInstrument, true)]
    } else {
        let instrument = reg.instruments[i];
        let out_of_service = if instrument.serviceability == InstrumentServiceability::OutOfService
            || instrument.serviceability == InstrumentServiceability::Retired {
            seq![equipment_issue(code, EquipmentIssueKind::OutOfService, true)]
        } else {
            seq![]
        };
        let blocks = profile_of(mode).valid_calibration_required
            && instrument.calibration_requirement == CalibrationRequirement::Required;
        let calibration = match calibration_status_spec(
            reg,
            code,
            checked_on,
            DEFAULT_CALIBRATION_DUE_SOON_WARNING_DAYS,
        ) {
            Some(CalibrationStatus::Missing) => seq![
                equipment_issue(code, EquipmentIssueKind::CalibrationMissing, blocks),
            ],
            Some(CalibrationStatus::Expired) => seq![
                equipment_issue(code, EquipmentIssueKind::CalibrationExpired, blocks),
            ],
            Some(CalibrationStatus::DueSoon) => seq![
                equipment_issue(code, EquipmentIssueKind::CalibrationDueSoon, false),
            ],
            Some(CalibrationStatus::Nonconforming) => seq![
                equipment_issue(code, EquipmentIssueKind::CalibrationNonconforming, blocks),
            ],
            Some(_) => seq![],
            None => seq![equipment_issue(code, EquipmentIssueKind::MissingInstrument, true)],
        };
        out_of_service + calibration
    }
}

/// The findings on the requested instruments, in the order requested.
pub open spec fn readiness_issues(
    reg: RegistryView,
    requested: Seq<Seq<char>>,
    mode: ExecutionMode,
    checked_on: MetrologyDateView,
) -> Seq<EquipmentIssueView>
    decreases requested.len(),
{
    if requested.len() == 0 {
        seq![]
    } else {
        readiness_issues(reg, requested.drop_last(), mode, checked_on) + instrument_issues(
            reg,
            requested.last(),
            mode,
            checked_on,
        )
    }
}

/// Instrument codes are unique and every calibration belongs to a registered instrument.
pub open spec fn registry_well_formed(v: RegistryView) -> bool {
    &&& forall|i: int, j: int|
        0 <= i < j < v.instruments.len() ==> (#[trigger] v.instruments[i]).code != (
        #[trigger] v.instruments[j]).code
    &&& forall|c: int|
        0 <= c < v.calibrations.len() ==> has_instrument(
            v.instruments,
            (#[trigger] v.calibrations[c]).instrument,
        )
}

/// The laboratory inventory with its calibration history.
#[derive(Clone, Debug, Default, PartialEq, Eq)]
pub struct MetrologyRegistry {
    instruments: Vec<InstrumentRecord>,
    calibration_records: Vec<CalibrationRecord>,
}

impl View for MetrologyRegistry {
    type V = RegistryView;

    closed spec fn view(&self) -> RegistryView {
        RegistryView {
            instruments: self.instruments@.map_values(|i: InstrumentRecord| i@),
            calibrations: self.calibration_records@.map_values(|c: CalibrationRecord| c@),
        }
    }
}

impl MetrologyRegistry {
    pub fn new() -> (r: Self)
        ensures
            r@.instruments.len() == 0,
            r@.calibrations.len() == 0,
            registry_well_formed(r@),
    {
        MetrologyRegistry { instruments: Vec::new(), calibration_records: Vec::new() }
    }

    pub fn instruments(&self) -> (r: &[InstrumentRecord])
        ensures
            r@.map_values(|i: InstrumentRecord| i@) == self@.instruments,
    {
        self.instruments.as_slice()
    }

    pub fn calibration_records(&self) -> (r: &[CalibrationRecord])
        ensures
            r@.map_values(|c: CalibrationRecord| c@) == self@.calibrations,
    {
        self.calibration_records.as_slice()
    }

    fn position_of(&self, code: &InstrumentCode) -> (r: usize)
        ensures
            r == index_of_code(self@.instruments, code@),
            r <= self@.instruments.len(),
    {
        let mut k: usize = 0;
        while k < self.instruments.len()
            invariant
                k <= self.instruments@.len(),
                forall|j: int| 0 <= j < k ==> (#[trigger] self@.instruments[j]).code != code@,
            decreases self.instruments@.len() - k,
        {
            if self.instruments[k].code().eq(code) {
                proof {
                    lemma_index_of_code_is(self@.instruments, code@, k as int);
                }
                return k;
            }
            k = k + 1;
        }
        proof {
            lemma_index_of_code_is(self@.instruments, code@, k as int);
        }
        k
    }

    /// Adds an instrument whose code is not registered yet.
    pub fn register_instrument(&mut self, instrument: InstrumentRecord) -> (r: Result<
        (),
        DomainError,
    >)
        ensures
            has_instrument(old(self)@.instruments, instrument@.code) ==> (r matches Err(
                DomainError::DuplicateInstrumentCode(c),
            ) && c@ == instrument@.code && final(self)@ == old(self)@),
            !has_instrument(old(self)@.instruments, instrument@.code) ==> r is Ok && final(self)@
                == (RegistryView {
                instruments: old(self)@.instruments.push(instrument@),
                ..old(self)@
            }),
    {
        let p = self.position_of(instrument.code());
        proof {
            lemma_index_of_code(self@.instruments, instrument@.code);
        }
        if p < self.instruments.len() {
            return Err(DomainError::DuplicateInstrumentCode(instrument.code().as_str().to_owned()));
        }
        let ghost old_instruments = self@.instruments;
        self.instruments.push(instrument);
        assert(self@.instruments =~= old_instruments.push(instrument@));
        Ok(())
    }

    /// Adds a calibration of a registered instrument.
    pub fn record_calibration(&mut self, record: CalibrationRecord) -> (r: Result<(), DomainError>)
        ensures
            !has_instrument(old(self)@.instruments, record@.instrument) ==> (r matches Err(
                DomainError::UnknownInstrumentCode(c),
            ) && c@ == record@.instrument && final(self)@ == old(self)@),
            has_instrument(old(self)@.instruments, record@.instrument) ==> r is Ok && final(self)@
                == (RegistryView {
                calibrations: old(self)@.calibrations.push(record@),
                ..old(self)@
            }),
    {
        let p = self.position_of(record.instrument());
        proof {
            lemma_index_of_code(self@.instruments, record@.instrument);
        }
        if p >= self.instruments.len() {
            return Err(DomainError::UnknownInstrumentCode(record.instrument().as_str().to_owned()));
        }
        let ghost old_calibrations = self@.calibrations;
        self.calibration_records.push(record);
        assert(self@.calibrations =~= old_calibrations.push(record@));
        Ok(())
    }

    /// The first instrument with the code.
    pub fn instrument(&self, code: &InstrumentCode) -> (r: Option<&InstrumentRecord>)
        ensures
            ({
                let i = index_of_code(self@.instruments, code@);
                match r {
                    Some(x) => i < self@.instruments.len() && x@ == self@.instruments[i],
                    None => i == self@.instruments.len(),
                }
            }),
    {
        let p = self.position_of(code);
        if p < self.instruments.len() {
            Some(&self.instruments[p])
        } else {
            None
        }
    }

    /// The first instrument with the code, to update its availability or serviceability.
    pub fn instrument_mut(&mut self, code: &InstrumentCode) -> (r: Option<&mut InstrumentRecord>)
        ensures
            ({
                let i = index_of_code(old(self)@.instruments, code@);
                match r {
                    Some(x) => i < old(self)@.instruments.len() && (*x)@ == old(self)@.instruments[i]
                        && final(self)@ == (RegistryView {
                        instruments: old(self)@.instruments.update(i, (*final(r.unwrap()))@),
                        ..old(self)@
                    }),
                    None => i == old(self)@.instruments.len() && final(self)@ == old(self)@,
                }
            }),
    {
        let p = self.position_of(code);
        if p < self.instruments.len() {
            let ghost old_records = self.instruments@;
            let x = &mut self.instruments[p];
            proof {
                assert(old_records.update(p as int, *final(x)).map_values(
                    |i: InstrumentRecord| i@,
                ) =~= old_records.map_values(|i: InstrumentRecord| i@).update(
                    p as int,
                    (*final(x))@,
                ));
            }
            Some(x)
        } else {
            None
        }
    }

    /// The latest calibration of the instrument (see `latest_index`).
    pub fn latest_calibration_for(&self, instrument: &InstrumentCode) -> (r: Option<
        &CalibrationRecord,
    >)
        ensures
            match latest_index(self@.calibrations, instrument@) {
                Some(i) => r matches Some(x) && x@ == self@.calibrations[i],
                None => r is None,
            },
    {
        let mut best: Option<usize> = None;
        let mut k: usize = 0;
        while k < self.calibration_records.len()
            invariant
                k <= self.calibration_records@.len(),
                match best {
                    Some(b) => latest_index(self@.calibrations.take(k as int), instrument@) == Some(
                        b as int,
                    ),
                    None => latest_index(self@.calibrations.take(k as int), instrument@) is None,
                },
            decreases self.calibration_records@.len() - k,
        {
            let ghost prefix = self@.calibrations.take(k as int);
            let ghost next = self@.calibrations.take(k + 1);
            proof {
                assert(next.drop_last() =~= prefix);
                lemma_latest_index_bounds(prefix, instrument@);
            }
            let record = &self.calibration_records[k];
            if record.instrument().eq(instrument) {
                match best {
                    None => {
                        best = Some(k);
                    },
                    Some(b) => {
                        let current = &self.calibration_records[b];
                        let later = current.valid_until().is_before(&record.valid_until());
                        let same_end = !later && !record.valid_until().is_before(
                            &current.valid_until(),
                        );
                        if later || (same_end && !record.issued_on().is_before(
                            &current.issued_on(),
                        )) {
                            proof {
                                assert(prefix[b as int] == self@.calibrations[b as int]);
                            }
                            best = Some(k);
                        }
                    },
                }
            }
            k = k + 1;
        }
        assert(self@.calibrations.take(k as int) =~= self@.calibrations);
        proof {
            lemma_latest_index_bounds(self@.calibrations, instrument@);
        }
        match best {
            Some(b) => Some(&self.calibration_records[b]),
            None => None,
        }
    }

    /// The calibration status with the default warning period.
    pub fn calibration_status(&self, instrument: &InstrumentCode, checked_on: MetrologyDate) -> (r:
        Result<CalibrationStatus, DomainError>)
        ensures
            match calibration_status_spec(
                self@,
                instrument@,
                checked_on@,
                DEFAULT_CALIBRATION_DUE_SOON_WARNING_DAYS,
            ) {
                Some(s) => r == Ok::<CalibrationStatus, DomainError>(s),
                None => r matches Err(DomainError::UnknownInstrumentCode(c)) && c@ == instrument@,
            },
    {
        self.calibration_status_with_warning_days(
            instrument,
            checked_on,
            DEFAULT_CALIBRATION_DUE_SOON_WARNING_DAYS,
        )
    }

    /// The calibration status of an instrument at a date: not required, missing, expired
    /// (due date passed), due soon (within `warning_days`) or valid.
    pub fn calibration_status_with_warning_days(
        &self,
        instrument: &InstrumentCode,
        checked_on: MetrologyDate,
        warning_days: u32,
    ) -> (r: Result<CalibrationStatus, DomainError>)
        ensures
            match calibration_status_spec(self@, instrument@, checked_on@, warning_days) {
                Some(s) => r == Ok::<CalibrationStatus, DomainError>(s),
                None => r matches Err(DomainError::UnknownInstrumentCode(c)) && c@ == instrument@,
            },
    {
        let record = match self.instrument(instrument) {
            Some(x) => x,
            None => {
                return Err(DomainError::UnknownInstrumentCode(instrument.as_str().to_owned()));
            },
        };
        if record.calibration_requirement() == CalibrationRequirement::NotRequired {
            return Ok(CalibrationStatus::NotRequired);
        }
        let latest = match self.latest_calibration_for(instrument) {
            Some(x) => x,
            None => {
                return Ok(CalibrationStatus::Missing);
            },
        };
        let days_until_due = checked_on.days_until(latest.valid_until());
        if days_until_due < 0 {
            Ok(CalibrationStatus::Expired)
        } else if days_until_due <= warning_days as i32 {
            Ok(CalibrationStatus::DueSoon)
        } else {
            Ok(CalibrationStatus::Valid)
        }
    }

    fn issues_for_instrument(
        &self,
        requested: &InstrumentCode,
        mode: ExecutionMode,
        checked_on: MetrologyDate,
        issues: &mut Vec<EquipmentIssue>,
    )
        ensures
            final(issues)@.map_values(|i: EquipmentIssue| i@) == old(issues)@.map_values(
                |i: EquipmentIssue| i@,
            ) + instrument_issues(self@, requested@, mode, checked_on@),
    {
        let ghost before = issues@.map_values(|i: EquipmentIssue| i@);
        let profile = mode.constraint_profile();
        let instrument = match self.instrument(requested) {
            Some(x) => x,
            None => {
                issues.push(
                    EquipmentIssue::new(
                        requested.duplicate(),
                        EquipmentIssueKind::MissingInstrument,
                        true,
                    ),
                );
                assert(issues@.map_values(|i: EquipmentIssue| i@) =~= before + instrument_issues(
                    self@,
                    requested@,
                    mode,
                    checked_on@,
                ));
                return;
            },
        };
        let ghost out: Seq<EquipmentIssueView> = seq![];
        if instrument.serviceability() == InstrumentServiceability::OutOfService
            || instrument.serviceability() == InstrumentServiceability::Retired {
            issues.push(
                EquipmentIssue::new(requested.duplicate(), EquipmentIssueKind::OutOfService, true),
            );
            proof {
                out = seq![equipment_issue(requested@, EquipmentIssueKind::OutOfService, true)];
            }
        }
        assert(issues@.map_values(|i: EquipmentIssue| i@) =~= before + out);
        let calibration_blocks = profile.valid_calibration_required()
            && instrument.calibration_requirement() == CalibrationRequirement::Required;
        let ghost middle = issues@.map_values(|i: EquipmentIssue| i@);
        match self.calibration_status(requested, checked_on) {
            Ok(CalibrationStatus::Missing) => issues.push(
                EquipmentIssue::new(
                    requested.duplicate(),
                    EquipmentIssueKind::CalibrationMissing,
                    calibration_blocks,
                ),
            ),
            Ok(CalibrationStatus::Expired) => issues.push(
                EquipmentIssue::new(
                    requested.duplicate(),
                    EquipmentIssueKind::CalibrationExpired,
                    calibration_blocks,
                ),
            ),
            Ok(CalibrationStatus::DueSoon) => issues.push(
                EquipmentIssue::new(
                    requested.duplicate(),
                    EquipmentIssueKind::CalibrationDueSoon,
                    false,
                ),
            ),
            Ok(CalibrationStatus::Valid) | Ok(CalibrationStatus::NotRequired) => {},
            Ok(CalibrationStatus::Nonconforming) => issues.push(
                EquipmentIssue::new(
                    requested.duplicate(),
                    EquipmentIssueKind::CalibrationNonconforming,
                    calibration_blocks,
                ),
            ),
            Err(_) => issues.push(
                EquipmentIssue::new(
                    requested.duplicate(),
                    EquipmentIssueKind::MissingInstrument,
                    true,
                ),
            ),
        }
        assert(issues@.map_values(|i: EquipmentIssue| i@) =~= before + instrument_issues(
            self@,
            requested@,
            mode,
            checked_on@,
        ));
    }

    /// The findings on every requested instrument for the mode at the date.
    pub fn assess_equipment_readiness(
        &self,
        requested_instruments: &[InstrumentCode],
        mode: ExecutionMode,
        checked_on: MetrologyDate,
    ) -> (r: EquipmentReadinessReport)
        ensures
            r@.mode == mode,
            r@.checked_on == checked_on@,
            r@.issues == readiness_issues(
                self@,
                requested_instruments@.map_values(|c: InstrumentCode| c@),
                mode,
                checked_on@,
            ),
    {
        let mut issues: Vec<EquipmentIssue> = Vec::new();
        let mut k: usize = 0;
        let ghost codes = requested_instruments@.map_values(|c: InstrumentCode| c@);
        assert(codes.take(0) =~= Seq::<Seq<char>>::empty());
        while k < requested_instruments.len()
            invariant
                k <= requested_instruments@.len(),
                codes == requested_instruments@.map_values(|c: InstrumentCode| c@),
                issues@.map_values(|i: EquipmentIssue| i@) == readiness_issues(
                    self@,
                    codes.take(k as int),
                    mode,
                    checked_on@,
                ),
            decreases requested_instruments@.len() - k,
        {
            self.issues_for_instrument(&requested_instruments[k], mode, checked_on, &mut issues);
            proof {
                assert(codes.take(k + 1).drop_last() =~= codes.take(k as int));
                assert(codes.take(k + 1).last() == requested_instruments@[k as int]@);
            }
            k = k + 1;
        }
        assert(codes.take(k as int) =~= codes);
        EquipmentReadinessReport { mode, checked_on, issues }
    }
}

pub open spec fn valid_date_view(d: MetrologyDateView) -> bool {
    valid_metrology_date(d.year, d.month, d.day)
}

/// Days from 0001-01-01 to the first day of a year.
pub open spec fn year_start(year: int) -> int {
    day_number(year, 1, 1)
}

proof fn lemma_leap_step(y: int)
    requires
        y >= 1,
    ensures
        y / 4 - (y - 1) / 4 == (if y % 4 == 0 { 1int } else { 0int }),
        y / 100 - (y - 1) / 100 == (if y % 100 == 0 { 1int } else { 0int }),
        y / 400 - (y - 1) / 400 == (if y % 400 == 0 { 1int } else { 0int }),
{
}

proof fn lemma_full_year(y: int)
    ensures
        days_before_month(y, 13) == 365 + (if crate::calendar::is_leap_year_spec(y) { 1int } else { 0int }),
{
    assert(days_before_month(y, 1) == 0);
    assert(days_before_month(y, 2) == 31);
    assert(days_before_month(y, 3) == 31 + days_in_month_spec(y, 2));
    assert(days_before_month(y, 4) == 62 + days_in_month_spec(y, 2));
    assert(days_before_month(y, 5) == 92 + days_in_month_spec(y, 2));
    assert(days_before_month(y, 6) == 123 + days_in_month_spec(y, 2));
    assert(days_before_month(y, 7) == 153 + days_in_month_spec(y, 2));
    assert(days_before_month(y, 8) == 184 + days_in_month_spec(y, 2));
    assert(days_before_month(y, 9) == 215 + days_in_month_spec(y, 2));
    assert(days_before_month(y, 10) == 245 + days_in_month_spec(y, 2));
    assert(days_before_month(y, 11) == 276 + days_in_month_spec(y, 2));
    assert(days_before_month(y, 12) == 306 + days_in_month_spec(y, 2));
    assert(days_before_month(y, 13) == 337 + days_in_month_spec(y, 2));
}

proof fn lemma_year_length(y: int)
    requires
        y >= 1,
    ensures
        days_before_month(y, 13) == 365 + (if crate::calendar::is_leap_year_spec(y) { 1int } else { 0int }),
        year_start(y + 1) == year_start(y) + days_before_month(y, 13),
{
    lemma_full_year(y);
    lemma_leap_step(y);
    assert(days_before_month(y, 1) == 0);
    assert(days_before_month(y + 1, 1) == 0);
}

proof fn lemma_year_start_increasing(a: int, b: int)
    requires
        1 <= a < b,
    ensures
        year_start(a) + 365 <= year_start(b),
    decreases b - a,
{
    lemma_year_length(a);
    if a + 1 < b {
        lemma_year_start_increasing(a + 1, b);
    }
}

proof fn lemma_days_before_month_grows(y: int, m1: int, m2: int)
    requires
        1 <= m1 < m2 <= 13,
    ensures
        days_before_month(y, m1) + days_in_month_spec(y, m1) <= days_before_month(y, m2),
    decreases m2 - m1,
{
    if m1 + 1 < m2 {
        lemma_days_before_month_grows(y, m1 + 1, m2);
        lemma_days_before_month_bound(y, m1 + 1);
    }
}

/// Counting days preserves the calendar order.
pub proof fn lemma_day_number_is_increasing(a: MetrologyDateView, b: MetrologyDateView)
    requires
        valid_date_view(a),
        valid_date_view(b),
        date_before(a, b),
    ensures
        date_number(a) < date_number(b),
{
    lemma_days_before_month_bound(b.year, b.month);
    if a.year < b.year {
        lemma_year_length(a.year);
        if a.month < 12 {
            lemma_days_before_month_grows(a.year, a.month, 13);
        } else {
            reveal_with_fuel(days_before_month, 13);
        }
        lemma_year_start_increasing(a.year, b.year);
        if a.year + 1 < b.year {
            lemma_year_start_increasing(a.year + 1, b.year);
        }
    } else if a.month < b.month {
        lemma_days_before_month_grows(a.year, a.month, b.month);
    }
}

/// The days between two dates change sign with the order of the dates, and add up.
pub proof fn lemma_days_until_laws(a: MetrologyDateView, b: MetrologyDateView, c: MetrologyDateView)
    requires
        valid_date_view(a),
        valid_date_view(b),
    ensures
        date_number(b) - date_number(a) == -(date_number(a) - date_number(b)),
        (date_number(b) - date_number(a)) + (date_number(c) - date_number(b)) == date_number(c)
            - date_number(a),
        date_before(a, b) ==> date_number(b) - date_number(a) > 0,
        a == b ==> date_number(b) - date_number(a) == 0,
{
    if date_before(a, b) {
        lemma_day_number_is_increasing(a, b);
    }
}

/// The requirement is decided first, then the calibration decision, and only then the
/// dates; the verdict blocks exactly when it is expired, missing, nonconforming or
/// indeterminate.
pub proof fn lemma_assessment_precedence(
    checked_on: MetrologyDateView,
    requirement: CalibrationRequirement,
    decision: Option<CalibrationDecision>,
    calibrated_at: Option<MetrologyDateView>,
    due_at: Option<MetrologyDateView>,
    warning_threshold_days: u32,
)
    ensures
        ({
            let o = assessment_outcome(
                checked_on,
                requirement,
                decision,
                calibrated_at,
                due_at,
                warning_threshold_days,
            );
            &&& requirement == CalibrationRequirement::NotRequired ==> o.0
                == MetrologyAssessmentStatus::NotRequired
            &&& requirement != CalibrationRequirement::NotRequired && decision == Some(
                CalibrationDecision::Nonconforming,
            ) ==> o.0 == MetrologyAssessmentStatus::Nonconforming
            &&& requirement != CalibrationRequirement::NotRequired && decision is None ==> o.0
                == MetrologyAssessmentStatus::Missing
            &&& o.1 <==> (o.0 == MetrologyAssessmentStatus::Expired || o.0
                == MetrologyAssessmentStatus::Missing || o.0
                == MetrologyAssessmentStatus::Nonconforming || o.0
                == MetrologyAssessmentStatus::Indeterminate)
        }),
{
}

/// A conforming calibration whose due date has passed is expired; on its due date it is
/// due soon (for any warning period that a signed day count can hold).
pub proof fn lemma_due_date_boundaries(
    checked_on: MetrologyDateView,
    requirement: CalibrationRequirement,
    calibrated_at: MetrologyDateView,
    due_at: MetrologyDateView,
    warning_threshold_days: u32,
)
    requires
        requirement != CalibrationRequirement::NotRequired,
        valid_date_view(checked_on),
        valid_date_view(due_at),
    ensures
        ({
            let o = assessment_outcome(
                checked_on,
                requirement,
                Some(CalibrationDecision::Conforming),
                Some(calibrated_at),
                Some(due_at),
                warning_threshold_days,
            );
            &&& date_before(due_at, checked_on) ==> o.0 == MetrologyAssessmentStatus::Expired
            &&& (due_at == checked_on && warning_threshold_days <= 0x7fff_ffff) ==> o.0
                == MetrologyAssessmentStatus::DueSoon
            &&& date_before(checked_on, due_at) ==> o.0 != MetrologyAssessmentStatus::Expired
        }),
{
    if date_before(due_at, checked_on) {
        lemma_day_number_is_increasing(due_at, checked_on);
    }
    if date_before(checked_on, due_at) {
        lemma_day_number_is_increasing(checked_on, due_at);
    }
}

/// Registering an instrument with a new code keeps codes unique and calibrations attached.
pub proof fn lemma_register_keeps_registry_well_formed(pre: RegistryView, instrument: InstrumentView)
    requires
        registry_well_formed(pre),
        !has_instrument(pre.instruments, instrument.code),
    ensures
        registry_well_formed(RegistryView { instruments: pre.instruments.push(instrument), ..pre }),
{
    let post = RegistryView { instruments: pre.instruments.push(instrument), ..pre };
    assert forall|c: int| 0 <= c < post.calibrations.len() implies has_instrument(
        post.instruments,
        (#[trigger] post.calibrations[c]).instrument,
    ) by {
        let i = choose|i: int|
            0 <= i < pre.instruments.len() && (#[trigger] pre.instruments[i]).code
                == pre.calibrations[c].instrument;
        assert(post.instruments[i] == pre.instruments[i]);
    }
    assert forall|i: int, j: int| 0 <= i < j < post.instruments.len() implies (
    #[trigger] post.instruments[i]).code != (#[trigger] post.instruments[j]).code by {
        if j == pre.instruments.len() {
            assert(pre.instruments[i] == post.instruments[i]);
        }
    }
}

/// Recording a calibration of a registered instrument keeps the registry well formed.
pub proof fn lemma_record_keeps_registry_well_formed(pre: RegistryView, record: CalibrationView)
    requires
        registry_well_formed(pre),
        has_instrument(pre.instruments, record.instrument),
    ensures
        registry_well_formed(RegistryView { calibrations: pre.calibrations.push(record), ..pre }),
{
    let post = RegistryView { calibrations: pre.calibrations.push(record), ..pre };
    assert forall|c: int| 0 <= c < post.calibrations.len() implies has_instrument(
        post.instruments,
        (#[trigger] post.calibrations[c]).instrument,
    ) by {
        if c < pre.calibrations.len() {
            assert(post.calibrations[c] == pre.calibrations[c]);
        }
    }
}

/// An instrument missing from the inventory is always a blocking finding; outside the
/// accredited mode only missing and out-of-service instruments block; due-soon
/// calibrations never block.
pub proof fn lemma_readiness_blocking_rules(
    reg: RegistryView,
    requested: Seq<Seq<char>>,
    mode: ExecutionMode,
    checked_on: MetrologyDateView,
)
    ensures
        forall|k: int|
            0 <= k < readiness_issues(reg, requested, mode, checked_on).len() ==> {
                let issue = #[trigger] readiness_issues(reg, requested, mode, checked_on)[k];
                &&& issue.kind == EquipmentIssueKind::MissingInstrument ==> issue.blocking
                &&& issue.kind == EquipmentIssueKind::CalibrationDueSoon ==> !issue.blocking
                &&& (mode != ExecutionMode::Accredited && issue.blocking) ==> (issue.kind
                    == EquipmentIssueKind::MissingInstrument || issue.kind
                    == EquipmentIssueKind::OutOfService)
            },
    decreases requested.len(),
{
    if requested.len() > 0 {
        lemma_readiness_blocking_rules(reg, requested.drop_last(), mode, checked_on);
        let head = readiness_issues(reg, requested.drop_last(), mode, checked_on);
        let tail = instrument_issues(reg, requested.last(), mode, checked_on);
        let all = readiness_issues(reg, requested, mode, checked_on);
        assert(all == head + tail);
        assert forall|k: int| 0 <= k < all.len() implies {
            let issue = #[trigger] all[k];
            &&& issue.kind == EquipmentIssueKind::MissingInstrument ==> issue.blocking
            &&& issue.kind == EquipmentIssueKind::CalibrationDueSoon ==> !issue.blocking
            &&& (mode != ExecutionMode::Accredited && issue.blocking) ==> (issue.kind
                == EquipmentIssueKind::MissingInstrument || issue.kind
                == EquipmentIssueKind::OutOfService)
        } by {
            if k < head.len() {
                assert(all[k] == head[k]);
            } else {
                assert(all[k] == tail[k - head.len()]);
            }
        }
    }
}

proof fn lemma_blocking_only_empty(s: Seq<EquipmentIssueView>)
    ensures
        (blocking_only(s).len() == 0) <==> (forall|i: int| 0 <= i < s.len() ==> !(#[trigger] s[i]).blocking),
    decreases s.len(),
{
    if s.len() > 0 {
        lemma_blocking_only_empty(s.drop_last());
        if blocking_only(s.drop_last()).len() == 0 && !s.last().blocking {
            assert forall|i: int| 0 <= i < s.len() implies !(#[trigger] s[i]).blocking by {
                if i < s.len() - 1 {
                    assert(s[i] == s.drop_last()[i]);
                }
            }
        }
        if exists|i: int| 0 <= i < s.drop_last().len() && (#[trigger] s.drop_last()[i]).blocking {
            let i = choose|i: int| 0 <= i < s.drop_last().len() && (#[trigger] s.drop_last()[i]).blocking;
            assert(s[i] == s.drop_last()[i]);
        }
    }
}

/// A report is ready exactly when it lists no blocking issue.
pub proof fn lemma_ready_iff_nothing_blocks(r: ReadinessView)
    ensures
        (blocking_only(r.issues).len() == 0) <==> (forall|i: int| 0 <= i < r.issues.len() ==> !(#[trigger] r.issues[i]).blocking),
{
    lemma_blocking_only_empty(r.issues);
}


/// For a conforming calibration with both dates, the verdict follows the days left until
/// the due date: expired (and blocking) once the due date has passed, due soon while the
/// days left are within the warning period, valid beyond it (for any warning period that
/// a signed day count can hold).
pub proof fn lemma_warning_period_decides(
    checked_on: MetrologyDateView,
    requirement: CalibrationRequirement,
    calibrated_at: MetrologyDateView,
    due_at: MetrologyDateView,
    warning_threshold_days: u32,
)
    requires
        requirement != CalibrationRequirement::NotRequired,
        warning_threshold_days <= 0x7fff_ffff,
    ensures
        ({
            let o = assessment_outcome(
                checked_on,
                requirement,
                Some(CalibrationDecision::Conforming),
                Some(calibrated_at),
                Some(due_at),
                warning_threshold_days,
            );
            let days_left = date_number(due_at) - date_number(checked_on);
            &&& days_left < 0 ==> o == (
                MetrologyAssessmentStatus::Expired,
                true,
                MetrologyAssessmentReasonCode::CalibrationExpired,
            )
            &&& 0 <= days_left <= warning_threshold_days ==> o == (
                MetrologyAssessmentStatus::DueSoon,
                false,
                MetrologyAssessmentReasonCode::CalibrationDueSoon,
            )
            &&& days_left > warning_threshold_days ==> o == (
                MetrologyAssessmentStatus::Valid,
                false,
                MetrologyAssessmentReasonCode::CalibrationValid,
            )
        }),
{
    assert((warning_threshold_days as i32) as int == warning_threshold_days as int);
}

proof fn lemma_readiness_keeps_instrument_issues(
    reg: RegistryView,
    requested: Seq<Seq<char>>,
    mode: ExecutionMode,
    checked_on: MetrologyDateView,
    k: int,
    t: int,
)
    requires
        0 <= k < requested.len(),
        0 <= t < instrument_issues(reg, requested[k], mode, checked_on).len(),
    ensures
        readiness_issues(reg, requested, mode, checked_on).contains(
            instrument_issues(reg, requested[k], mode, checked_on)[t],
        ),
    decreases requested.len(),
{
    let head = readiness_issues(reg, requested.drop_last(), mode, checked_on);
    let tail = instrument_issues(reg, requested.last(), mode, checked_on);
    let all = readiness_issues(reg, requested, mode, checked_on);
    assert(all == head + tail);
    if k == requested.len() - 1 {
        assert(all[head.len() + t] == tail[t]);
    } else {
        assert(requested.drop_last()[k] == requested[k]);
        lemma_readiness_keeps_instrument_issues(reg, requested.drop_last(), mode, checked_on, k, t);
        let x = instrument_issues(reg, requested[k], mode, checked_on)[t];
        let j = choose|j: int| 0 <= j < head.len() && head[j] == x;
        assert(all[j] == head[j]);
    }
}

/// In the accredited mode, a requested inventory instrument that requires calibration
/// and whose every calibration (so its latest) ended before the checked date gets a
/// blocking expired-calibration finding, so the report is not ready.
pub proof fn lemma_accredited_expired_calibration_blocks(
    reg: RegistryView,
    requested: Seq<Seq<char>>,
    checked_on: MetrologyDateView,
    k: int,
)
    requires
        0 <= k < requested.len(),
        valid_date_view(checked_on),
        has_instrument(reg.instruments, requested[k]),
        forall|i: int|
            0 <= i < reg.instruments.len() && (#[trigger] reg.instruments[i]).code == requested[k]
                ==> reg.instruments[i].calibration_requirement == CalibrationRequirement::Required,
        exists|c: int| 0 <= c < reg.calibrations.len() && (#[trigger] reg.calibrations[c]).instrument == requested[k],
        forall|c: int|
            0 <= c < reg.calibrations.len() && (#[trigger] reg.calibrations[c]).instrument == requested[k]
                ==> valid_date_view(reg.calibrations[c].valid_until) && date_before(
                reg.calibrations[c].valid_until,
                checked_on,
            ),
    ensures
        readiness_issues(reg, requested, ExecutionMode::Accredited, checked_on).contains(
            equipment_issue(requested[k], EquipmentIssueKind::CalibrationExpired, true),
        ),
        exists|t: int|
            0 <= t < readiness_issues(reg, requested, ExecutionMode::Accredited, checked_on).len()
                && (#[trigger] readiness_issues(reg, requested, ExecutionMode::Accredited, checked_on)[t]).blocking,
{
    let code = requested[k];
    lemma_index_of_code(reg.instruments, code);
    let i = index_of_code(reg.instruments, code);
    if i >= reg.instruments.len() {
        let w = choose|w: int| 0 <= w < reg.instruments.len() && (#[trigger] reg.instruments[w]).code == code;
        assert(reg.instruments[w].code != code);
    }
    assert(reg.instruments[i].code == code);
    lemma_latest_is_last_greatest(reg.calibrations, code);
    let c = choose|c: int| 0 <= c < reg.calibrations.len() && (#[trigger] reg.calibrations[c]).instrument == code;
    assert(reg.calibrations[c].instrument == code);
    let l = latest_index(reg.calibrations, code)->0;
    assert(reg.calibrations[l].instrument == code);
    lemma_day_number_is_increasing(reg.calibrations[l].valid_until, checked_on);
    assert(calibration_status_spec(reg, code, checked_on, DEFAULT_CALIBRATION_DUE_SOON_WARNING_DAYS)
        == Some(CalibrationStatus::Expired));
    let issues = instrument_issues(reg, code, ExecutionMode::Accredited, checked_on);
    let x = equipment_issue(code, EquipmentIssueKind::CalibrationExpired, true);
    assert(issues[issues.len() - 1] == x);
    lemma_readiness_keeps_instrument_issues(
        reg,
        requested,
        ExecutionMode::Accredited,
        checked_on,
        k,
        issues.len() - 1,
    );
    let all = readiness_issues(reg, requested, ExecutionMode::Accredited, checked_on);
    let j = choose|j: int| 0 <= j < all.len() && all[j] == x;
    assert(all[j].blocking);
}


/// The reason given names the status found: each status has its own reason, and an
/// assessment from data is never "unavailable". A conforming decision without both
/// dates cannot be judged: indeterminate, and blocking.
pub proof fn lemma_reason_names_status(
    checked_on: MetrologyDateView,
    requirement: CalibrationRequirement,
    decision: Option<CalibrationDecision>,
    calibrated_at: Option<MetrologyDateView>,
    due_at: Option<MetrologyDateView>,
    warning_threshold_days: u32,
)
    ensures
        ({
            let o = assessment_outcome(
                checked_on,
                requirement,
                decision,
                calibrated_at,
                due_at,
                warning_threshold_days,
            );
            &&& o.0 != MetrologyAssessmentStatus::Unavailable
            &&& o.0 == MetrologyAssessmentStatus::Valid <==> o.2
                == MetrologyAssessmentReasonCode::CalibrationValid
            &&& o.0 == MetrologyAssessmentStatus::DueSoon <==> o.2
                == MetrologyAssessmentReasonCode::CalibrationDueSoon
            &&& o.0 == MetrologyAssessmentStatus::Expired <==> o.2
                == MetrologyAssessmentReasonCode::CalibrationExpired
            &&& o.0 == MetrologyAssessmentStatus::Missing <==> o.2
                == MetrologyAssessmentReasonCode::CalibrationMissing
            &&& o.0 == MetrologyAssessmentStatus::NotRequired <==> o.2
                == MetrologyAssessmentReasonCode::CalibrationNotRequired
            &&& o.0 == MetrologyAssessmentStatus::Nonconforming <==> o.2
                == MetrologyAssessmentReasonCode::CalibrationNonconforming
            &&& o.0 == MetrologyAssessmentStatus::Indeterminate <==> o.2
                == MetrologyAssessmentReasonCode::CalibrationDecisionIndeterminate
            &&& (requirement != CalibrationRequirement::NotRequired && decision == Some(
                CalibrationDecision::Indeterminate,
            )) ==> o.0 == MetrologyAssessmentStatus::Indeterminate && o.1
            &&& (requirement != CalibrationRequirement::NotRequired && decision == Some(
                CalibrationDecision::Conforming,
            ) && (calibrated_at is None || due_at is None)) ==> o.0
                == MetrologyAssessmentStatus::Indeterminate && o.1
        }),
{
}

proof fn lemma_registered_index(instruments: Seq<InstrumentView>, code: Seq<char>)
    requires
        has_instrument(instruments, code),
    ensures
        0 <= index_of_code(instruments, code) < instruments.len(),
        instruments[index_of_code(instruments, code)].code == code,
{
    lemma_index_of_code(instruments, code);
    let i = index_of_code(instruments, code);
    if i >= instruments.len() {
        let w = choose|w: int| 0 <= w < instruments.len() && (#[trigger] instruments[w]).code == code;
        assert(instruments[w].code != code);
    }
}

proof fn lemma_readiness_holds(
    reg: RegistryView,
    requested: Seq<Seq<char>>,
    mode: ExecutionMode,
    checked_on: MetrologyDateView,
    k: int,
    x: EquipmentIssueView,
)
    requires
        0 <= k < requested.len(),
        instrument_issues(reg, requested[k], mode, checked_on).contains(x),
    ensures
        readiness_issues(reg, requested, mode, checked_on).contains(x),
{
    let issues = instrument_issues(reg, requested[k], mode, checked_on);
    let t = choose|t: int| 0 <= t < issues.len() && issues[t] == x;
    lemma_readiness_keeps_instrument_issues(reg, requested, mode, checked_on, k, t);
}

/// A requested instrument missing from the inventory is a blocking finding, in every mode.
pub proof fn lemma_unknown_instrument_blocks(
    reg: RegistryView,
    requested: Seq<Seq<char>>,
    mode: ExecutionMode,
    checked_on: MetrologyDateView,
    k: int,
)
    requires
        0 <= k < requested.len(),
        !has_instrument(reg.instruments, requested[k]),
    ensures
        readiness_issues(reg, requested, mode, checked_on).contains(
            equipment_issue(requested[k], EquipmentIssueKind::MissingInstrument, true),
        ),
{
    lemma_index_of_code(reg.instruments, requested[k]);
    let i = index_of_code(reg.instruments, requested[k]);
    if i < reg.instruments.len() {
        assert(reg.instruments[i].code == requested[k]);
    }
    let issues = instrument_issues(reg, requested[k], mode, checked_on);
    assert(issues[0] == equipment_issue(requested[k], EquipmentIssueKind::MissingInstrument, true));
    lemma_readiness_holds(
        reg,
        requested,
        mode,
        checked_on,
        k,
        equipment_issue(requested[k], EquipmentIssueKind::MissingInstrument, true),
    );
}

/// A requested instrument that is out of service or retired is a blocking finding, in
/// every mode.
pub proof fn lemma_out_of_service_blocks(
    reg: RegistryView,
    requested: Seq<Seq<char>>,
    mode: ExecutionMode,
    checked_on: MetrologyDateView,
    k: int,
)
    requires
        0 <= k < requested.len(),
        has_instrument(reg.instruments, requested[k]),
        forall|i: int|
            0 <= i < reg.instruments.len() && (#[trigger] reg.instruments[i]).code == requested[k]
                ==> (reg.instruments[i].serviceability == InstrumentServiceability::OutOfService
                || reg.instruments[i].serviceability == InstrumentServiceability::Retired),
    ensures
        readiness_issues(reg, requested, mode, checked_on).contains(
            equipment_issue(requested[k], EquipmentIssueKind::OutOfService, true),
        ),
{
    lemma_registered_index(reg.instruments, requested[k]);
    let issues = instrument_issues(reg, requested[k], mode, checked_on);
    assert(issues[0] == equipment_issue(requested[k], EquipmentIssueKind::OutOfService, true));
    lemma_readiness_holds(
        reg,
        requested,
        mode,
        checked_on,
        k,
        equipment_issue(requested[k], EquipmentIssueKind::OutOfService, true),
    );
}

/// In the accredited mode, a requested instrument that requires calibration and has
/// none recorded is a blocking finding.
pub proof fn lemma_accredited_missing_calibration_blocks(
    reg: RegistryView,
    requested: Seq<Seq<char>>,
    checked_on: MetrologyDateView,
    k: int,
)
    requires
        0 <= k < requested.len(),
        has_instrument(reg.instruments, requested[k]),
        forall|i: int|
            0 <= i < reg.instruments.len() && (#[trigger] reg.instruments[i]).code == requested[k]
                ==> reg.instruments[i].calibration_requirement == CalibrationRequirement::Required,
        forall|c: int| 0 <= c < reg.calibrations.len() ==> (#[trigger] reg.calibrations[c]).instrument != requested[k],
    ensures
        readiness_issues(reg, requested, ExecutionMode::Accredited, checked_on).contains(
            equipment_issue(requested[k], EquipmentIssueKind::CalibrationMissing, true),
        ),
{
    lemma_registered_index(reg.instruments, requested[k]);
    lemma_latest_is_last_greatest(reg.calibrations, requested[k]);
    let issues = instrument_issues(reg, requested[k], ExecutionMode::Accredited, checked_on);
    let x = equipment_issue(requested[k], EquipmentIssueKind::CalibrationMissing, true);
    assert(issues[issues.len() - 1] == x);
    lemma_readiness_holds(reg, requested, ExecutionMode::Accredited, checked_on, k, x);
}

/// A usable instrument with a calibration that ends more than the default warning period
/// after the checked date has no finding at all, in every mode.
pub proof fn lemma_valid_calibration_has_no_finding(
    reg: RegistryView,
    code: Seq<char>,
    mode: ExecutionMode,
    checked_on: MetrologyDateView,
    c: int,
)
    requires
        has_instrument(reg.instruments, code),
        forall|i: int|
            0 <= i < reg.instruments.len() && (#[trigger] reg.instruments[i]).code == code
                ==> reg.instruments[i].serviceability == InstrumentServiceability::Usable,
        0 <= c < reg.calibrations.len(),
        reg.calibrations[c].instrument == code,
        forall|d: int|
            0 <= d < reg.calibrations.len() && (#[trigger] reg.calibrations[d]).instrument == code
                ==> valid_date_view(reg.calibrations[d].valid_until),
        date_number(reg.calibrations[c].valid_until) - date_number(checked_on)
            > DEFAULT_CALIBRATION_DUE_SOON_WARNING_DAYS,
    ensures
        instrument_issues(reg, code, mode, checked_on).len() == 0,
{
    lemma_registered_index(reg.instruments, code);
    lemma_latest_is_last_greatest(reg.calibrations, code);
    let l = latest_index(reg.calibrations, code)->0;
    assert(calibration_key_le(reg.calibrations[c], reg.calibrations[l]));
    if date_before(reg.calibrations[c].valid_until, reg.calibrations[l].valid_until) {
        lemma_day_number_is_increasing(reg.calibrations[c].valid_until, reg.calibrations[l].valid_until);
    }
    let i = index_of_code(reg.instruments, code);
    if reg.instruments[i].calibration_requirement != CalibrationRequirement::NotRequired {
        assert(calibration_status_spec(reg, code, checked_on, DEFAULT_CALIBRATION_DUE_SOON_WARNING_DAYS)
            == Some(CalibrationStatus::Valid));
    }
}


/// The calibration status of a registered instrument that requires calibration follows
/// its latest calibration (see `lemma_latest_is_last_greatest`): missing without one,
/// then by the days left until its end: expired when negative, due soon within the
/// warning period, valid beyond it. An instrument that needs none is "not required", and
/// an unknown instrument has no status.
pub proof fn lemma_status_follows_latest_calibration(
    reg: RegistryView,
    code: Seq<char>,
    checked_on: MetrologyDateView,
    warning_days: u32,
)
    requires
        warning_days <= 0x7fff_ffff,
    ensures
        !has_instrument(reg.instruments, code) ==> calibration_status_spec(reg, code, checked_on, warning_days) is None,
        (has_instrument(reg.instruments, code) && forall|i: int|
            0 <= i < reg.instruments.len() && (#[trigger] reg.instruments[i]).code == code
                ==> reg.instruments[i].calibration_requirement == CalibrationRequirement::NotRequired)
            ==> calibration_status_spec(reg, code, checked_on, warning_days) == Some(
            CalibrationStatus::NotRequired,
        ),
        (has_instrument(reg.instruments, code) && forall|i: int|
            0 <= i < reg.instruments.len() && (#[trigger] reg.instruments[i]).code == code
                ==> reg.instruments[i].calibration_requirement != CalibrationRequirement::NotRequired)
            ==> ({
            let s = calibration_status_spec(reg, code, checked_on, warning_days);
            match latest_index(reg.calibrations, code) {
                None => s == Some(CalibrationStatus::Missing),
                Some(l) => {
                    let days_left = date_number(reg.calibrations[l].valid_until) - date_number(checked_on);
                    &&& days_left < 0 ==> s == Some(CalibrationStatus::Expired)
                    &&& 0 <= days_left <= warning_days ==> s == Some(CalibrationStatus::DueSoon)
                    &&& days_left > warning_days ==> s == Some(CalibrationStatus::Valid)
                },
            }
        }),
{
    lemma_index_of_code(reg.instruments, code);
    if has_instrument(reg.instruments, code) {
        lemma_registered_index(reg.instruments, code);
    } else {
        let i = index_of_code(reg.instruments, code);
        if i < reg.instruments.len() {
            assert(reg.instruments[i].code == code);
        }
    }
    assert((warning_days as i32) as int == warning_days as int);
}

} // verus!
