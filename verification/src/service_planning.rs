//! Laboratory service planning: schedule items booked on business days,
//! their status workflow, resource conflicts and planning weeks.

use crate::calendar::{
    date_text, days_in_month, days_in_month_spec, digits_at, format_date, number_at, parse_digits,
};
use crate::identifiers::ProjectCode;
use crate::text::{
    all_identifier_characters, all_identifier_chars, concat, copy_optional_string, copy_string,
    lemma_trim_idempotent, optional_text, optional_trimmed, optional_view, str_eq, trim, trim_seq,
};
use vstd::prelude::*;
use vstd::utf8::encode_utf8;

verus! {

#[derive(Clone, Copy, Debug, PartialEq, Eq, Structural)]
pub enum ServiceScheduleStatus {
    Planned,
    Confirmed,
    InProgress,
    Completed,
    Cancelled,
}

#[derive(Clone, Copy, Debug, PartialEq, Eq, Structural)]
pub enum ScheduleResourceConflictKind {
    Operator,
    UnresolvedLocationIdentity,
    Location,
}

/// A refused planning request: a stable code, the offending field and a message.
#[derive(Clone, Debug, PartialEq, Eq)]
pub struct PlanningValidationIssue {
    pub code: String,
    pub field: String,
    pub message: String,
}

pub struct PlanningIssueView {
    pub code: Seq<char>,
    pub field: Seq<char>,
    pub message: Seq<char>,
}

impl View for PlanningValidationIssue {
    type V = PlanningIssueView;

    open spec fn view(&self) -> PlanningIssueView {
        PlanningIssueView { code: self.code@, field: self.field@, message: self.message@ }
    }
}

pub open spec fn planning_issue(code: &str, field: Seq<char>, message: &str) -> PlanningIssueView {
    PlanningIssueView { code: code@, field, message: message@ }
}

pub open spec fn unknown_status_issue() -> PlanningIssueView {
    planning_issue("unknown_schedule_status", "status"@, "unknown service schedule status")
}

pub open spec fn week_not_monday_issue() -> PlanningIssueView {
    planning_issue(
        "schedule_week_must_start_on_monday",
        "week_start"@,
        "a laboratory schedule week must start on a Monday",
    )
}

pub open spec fn week_out_of_range_issue() -> PlanningIssueView {
    planning_issue(
        "schedule_week_out_of_range",
        "week_start"@,
        "the requested laboratory schedule week is outside the supported date range",
    )
}

pub open spec fn initial_status_issue() -> PlanningIssueView {
    planning_issue(
        "schedule_initial_status_must_be_planned",
        "status"@,
        "a new service schedule item must start as planned",
    )
}

pub open spec fn location_identity_required_issue() -> PlanningIssueView {
    planning_issue(
        "schedule_location_identity_required",
        "laboratory_location_id"@,
        "a new schedule item requires a stable laboratory location identifier",
    )
}

pub open spec fn multiple_days_issue() -> PlanningIssueView {
    planning_issue(
        "schedule_spans_multiple_days",
        "planned_end_at"@,
        "a service schedule item must stay within one day",
    )
}

pub open spec fn outside_business_day_issue() -> PlanningIssueView {
    planning_issue(
        "schedule_outside_business_day",
        "planned_start_at"@,
        "a service schedule item must be planned on a business day",
    )
}

pub open spec fn end_not_after_start_issue() -> PlanningIssueView {
    planning_issue(
        "schedule_end_not_after_start",
        "planned_end_at"@,
        "the planned end must be after the planned start",
    )
}

pub open spec fn invalid_transition_issue() -> PlanningIssueView {
    planning_issue(
        "invalid_schedule_status_transition",
        "status"@,
        "the requested service schedule status transition is not allowed",
    )
}

pub open spec fn not_reschedulable_issue() -> PlanningIssueView {
    planning_issue(
        "schedule_status_not_reschedulable",
        "status"@,
        "a service schedule item can only be moved while planned or confirmed",
    )
}

pub open spec fn invalid_identifier_issue(field: Seq<char>) -> PlanningIssueView {
    planning_issue(
        "invalid_schedule_identifier",
        field,
        "a schedule identifier may only contain letters, numbers, dots, dashes and underscores",
    )
}

pub open spec fn required_field_issue(field: Seq<char>) -> PlanningIssueView {
    planning_issue(
        "planning_required_field_missing",
        field,
        "a required service schedule field is empty",
    )
}

pub open spec fn invalid_datetime_issue(field: Seq<char>) -> PlanningIssueView {
    planning_issue(
        "invalid_schedule_datetime",
        field,
        "a schedule date-time must use YYYY-MM-DDTHH:MM and contain a valid local date and time",
    )
}

pub open spec fn invalid_date_issue(field: Seq<char>) -> PlanningIssueView {
    planning_issue(
        "invalid_schedule_date",
        field,
        "a schedule date must use YYYY-MM-DD and contain a valid local date",
    )
}

impl PlanningValidationIssue {
    fn new(code: &str, field: &str, message: &str) -> (r: Self)
        ensures
            r@ == planning_issue(code, field@, message),
    {
        PlanningValidationIssue {
            code: code.to_owned(),
            field: field.to_owned(),
            message: message.to_owned(),
        }
    }
}

/// The status named by a label, as stored and exchanged.
pub open spec fn status_from_label(t: Seq<char>) -> Option<ServiceScheduleStatus> {
    if t == "planned"@ {
        Some(ServiceScheduleStatus::Planned)
    } else if t == "confirmed"@ {
        Some(ServiceScheduleStatus::Confirmed)
    } else if t == "in_progress"@ {
        Some(ServiceScheduleStatus::InProgress)
    } else if t == "completed"@ {
        Some(ServiceScheduleStatus::Completed)
    } else if t == "cancelled"@ {
        Some(ServiceScheduleStatus::Cancelled)
    } else {
        None
    }
}

/// The statuses a status may move to directly.
pub open spec fn allowed_target_seq(s: ServiceScheduleStatus) -> Seq<ServiceScheduleStatus> {
    match s {
        ServiceScheduleStatus::Planned => seq![
            ServiceScheduleStatus::Confirmed,
            ServiceScheduleStatus::Cancelled,
        ],
        ServiceScheduleStatus::Confirmed => seq![
            ServiceScheduleStatus::InProgress,
            ServiceScheduleStatus::Cancelled,
        ],
        ServiceScheduleStatus::InProgress => seq![
            ServiceScheduleStatus::Completed,
            ServiceScheduleStatus::Cancelled,
        ],
        _ => seq![],
    }
}

impl ServiceScheduleStatus {
    pub open spec fn label(self) -> Seq<char> {
        match self {
            ServiceScheduleStatus::Planned => "planned"@,
            ServiceScheduleStatus::Confirmed => "confirmed"@,
            ServiceScheduleStatus::InProgress => "in_progress"@,
            ServiceScheduleStatus::Completed => "completed"@,
            ServiceScheduleStatus::Cancelled => "cancelled"@,
        }
    }

    pub open spec fn terminal(self) -> bool {
        self == ServiceScheduleStatus::Completed || self == ServiceScheduleStatus::Cancelled
    }

    pub open spec fn reschedulable(self) -> bool {
        self == ServiceScheduleStatus::Planned || self == ServiceScheduleStatus::Confirmed
    }

    /// Reads a status label; surrounding whitespace is ignored.
    pub fn parse(value: &str) -> (r: Result<Self, PlanningValidationIssue>)
        ensures
            match status_from_label(trim_seq(value@)) {
                Some(s) => r == Ok::<Self, PlanningValidationIssue>(s),
                None => r matches Err(e) && e@ == unknown_status_issue(),
            },
    {
        let t = trim(value);
        let t = t.as_str();
        if str_eq(t, "planned") {
            Ok(ServiceScheduleStatus::Planned)
        } else if str_eq(t, "confirmed") {
            Ok(ServiceScheduleStatus::Confirmed)
        } else if str_eq(t, "in_progress") {
            Ok(ServiceScheduleStatus::InProgress)
        } else if str_eq(t, "completed") {
            Ok(ServiceScheduleStatus::Completed)
        } else if str_eq(t, "cancelled") {
            Ok(ServiceScheduleStatus::Cancelled)
        } else {
            Err(
                PlanningValidationIssue::new(
                    "unknown_schedule_status",
                    "status",
                    "unknown service schedule status",
                ),
            )
        }
    }

    pub fn as_str(self) -> (r: &'static str)
        ensures
            r@ == self.label(),
    {
        match self {
            ServiceScheduleStatus::Planned => "planned",
            ServiceScheduleStatus::Confirmed => "confirmed",
            ServiceScheduleStatus::InProgress => "in_progress",
            ServiceScheduleStatus::Completed => "completed",
            ServiceScheduleStatus::Cancelled => "cancelled",
        }
    }

    pub fn is_terminal(self) -> (b: bool)
        ensures
            b == self.terminal(),
    {
        match self {
            ServiceScheduleStatus::Completed | ServiceScheduleStatus::Cancelled => true,
            _ => false,
        }
    }

    pub fn can_reschedule(self) -> (b: bool)
        ensures
            b == self.reschedulable(),
    {
        match self {
            ServiceScheduleStatus::Planned | ServiceScheduleStatus::Confirmed => true,
            _ => false,
        }
    }

    pub fn allowed_targets(self) -> (r: &'static [Self])
        ensures
            r@ == allowed_target_seq(self),
    {
        match self {
            ServiceScheduleStatus::Planned => {
                let r: &'static [Self] = &[
                    ServiceScheduleStatus::Confirmed,
                    ServiceScheduleStatus::Cancelled,
                ];
                assert(r@ =~= allowed_target_seq(self));
                r
            },
            ServiceScheduleStatus::Confirmed => {
                let r: &'static [Self] = &[
                    ServiceScheduleStatus::InProgress,
                    ServiceScheduleStatus::Cancelled,
                ];
                assert(r@ =~= allowed_target_seq(self));
                r
            },
            ServiceScheduleStatus::InProgress => {
                let r: &'static [Self] = &[
                    ServiceScheduleStatus::Completed,
                    ServiceScheduleStatus::Cancelled,
                ];
                assert(r@ =~= allowed_target_seq(self));
                r
            },
            _ => {
                let r: &'static [Self] = &[];
                assert(r@ =~= allowed_target_seq(self));
                r
            },
        }
    }
}

/// The offset of a month in the weekday formula.
pub open spec fn month_offset(month: int) -> int {
    if month == 1 {
        0
    } else if month == 2 {
        3
    } else if month == 3 {
        2
    } else if month == 4 {
        5
    } else if month == 5 {
        0
    } else if month == 6 {
        3
    } else if month == 7 {
        5
    } else if month == 8 {
        1
    } else if month == 9 {
        4
    } else if month == 10 {
        6
    } else if month == 11 {
        2
    } else {
        4
    }
}

/// Day of the week of a civil date, 0 for Sunday through 6 for Saturday.
pub open spec fn weekday_spec(year: int, month: int, day: int) -> int {
    let a = if month < 3 {
        year - 1
    } else {
        year
    };
    (a + a / 4 - a / 100 + a / 400 + month_offset(month) + day) % 7
}

fn month_offset_value(month: u8) -> (r: u16)
    ensures
        r == month_offset(month as int),
{
    match month {
        1 => 0,
        2 => 3,
        3 => 2,
        4 => 5,
        5 => 0,
        6 => 3,
        7 => 5,
        8 => 1,
        9 => 4,
        10 => 6,
        11 => 2,
        _ => 4,
    }
}

fn weekday(year: u16, month: u8, day: u8) -> (r: u8)
    requires
        1 <= year <= 9999,
        day <= 31,
    ensures
        r == weekday_spec(year as int, month as int, day as int),
        r < 7,
{
    let a: u16 = if month < 3 {
        year - 1
    } else {
        year
    };
    let t: u16 = a + a / 4 - a / 100 + a / 400 + month_offset_value(month) + day as u16;
    (t % 7) as u8
}

/// A valid civil date with its hour and minute, from year 2000 on.
pub open spec fn valid_schedule_moment(
    year: int,
    month: int,
    day: int,
    hour: int,
    minute: int,
) -> bool {
    &&& 2000 <= year <= 9999
    &&& 1 <= month <= 12
    &&& 1 <= day <= days_in_month_spec(year, month)
    &&& 0 <= hour <= 23
    &&& 0 <= minute <= 59
}

pub struct DateTimeView {
    pub year: int,
    pub month: int,
    pub day: int,
    pub hour: int,
    pub minute: int,
    pub text: Seq<char>,
}

/// `YYYY-MM-DDTHH:MM` with digits in every numeric position.
pub open spec fn datetime_shape(b: Seq<u8>) -> bool {
    &&& b.len() == 16
    &&& b[4] == 45 && b[7] == 45 && b[10] == 84 && b[13] == 58
    &&& digits_at(b, 0, 4) && digits_at(b, 5, 2) && digits_at(b, 8, 2)
    &&& digits_at(b, 11, 2) && digits_at(b, 14, 2)
}

/// The local date-time written by `text`, if it is one.
pub open spec fn parse_datetime_spec(text: Seq<char>) -> Option<DateTimeView> {
    let b = encode_utf8(text);
    if datetime_shape(b) {
        let v = DateTimeView {
            year: number_at(b, 0, 4),
            month: number_at(b, 5, 2),
            day: number_at(b, 8, 2),
            hour: number_at(b, 11, 2),
            minute: number_at(b, 14, 2),
            text,
        };
        if valid_schedule_moment(v.year, v.month, v.day, v.hour, v.minute) {
            Some(v)
        } else {
            None
        }
    } else {
        None
    }
}

/// `a` comes strictly before `b`.
pub open spec fn moment_before(a: DateTimeView, b: DateTimeView) -> bool {
    ||| a.year < b.year
    ||| a.year == b.year && a.month < b.month
    ||| a.year == b.year && a.month == b.month && a.day < b.day
    ||| a.year == b.year && a.month == b.month && a.day == b.day && a.hour < b.hour
    ||| a.year == b.year && a.month == b.month && a.day == b.day && a.hour == b.hour && a.minute
        < b.minute
}

pub open spec fn same_date_spec(a: DateTimeView, b: DateTimeView) -> bool {
    a.year == b.year && a.month == b.month && a.day == b.day
}

/// Monday to Friday.
pub open spec fn business_day_spec(a: DateTimeView) -> bool {
    let w = weekday_spec(a.year, a.month, a.day);
    w != 0 && w != 6
}

/// A local date and minute of the laboratory calendar, such as `2026-07-15T09:00`.
#[derive(Clone, Debug, PartialEq, Eq, PartialOrd, Ord)]
pub struct ScheduleLocalDateTime {
    year: u16,
    month: u8,
    day: u8,
    hour: u8,
    minute: u8,
    canonical: String,
}

impl View for ScheduleLocalDateTime {
    type V = DateTimeView;

    closed spec fn view(&self) -> DateTimeView {
        DateTimeView {
            year: self.year as int,
            month: self.month as int,
            day: self.day as int,
            hour: self.hour as int,
            minute: self.minute as int,
            text: self.canonical@,
        }
    }
}

fn invalid_datetime(field: &str) -> (r: PlanningValidationIssue)
    ensures
        r@ == invalid_datetime_issue(field@),
{
    PlanningValidationIssue::new(
        "invalid_schedule_datetime",
        field,
        "a schedule date-time must use YYYY-MM-DDTHH:MM and contain a valid local date and time",
    )
}

fn invalid_date(field: &str) -> (r: PlanningValidationIssue)
    ensures
        r@ == invalid_date_issue(field@),
{
    PlanningValidationIssue::new(
        "invalid_schedule_date",
        field,
        "a schedule date must use YYYY-MM-DD and contain a valid local date",
    )
}

impl ScheduleLocalDateTime {
    /// Reads `YYYY-MM-DDTHH:MM`; surrounding whitespace is ignored.
    pub fn parse(value: &str, field: &str) -> (r: Result<Self, PlanningValidationIssue>)
        ensures
            match parse_datetime_spec(trim_seq(value@)) {
                Some(v) => r matches Ok(d) && d@ == v,
                None => r matches Err(e) && e@ == invalid_datetime_issue(field@),
            },
    {
        let trimmed = trim(value);
        let text = trimmed.as_str();
        let bytes = text.as_bytes();
        proof {
            assert(bytes@ == encode_utf8(trim_seq(value@)));
        }
        if bytes.len() != 16 || bytes[4] != 45 || bytes[7] != 45 || bytes[10] != 84 || bytes[13]
            != 58 {
            return Err(invalid_datetime(field));
        }
        let year = match parse_digits(bytes, 0, 4) {
            Some(v) => v,
            None => {
                return Err(invalid_datetime(field));
            },
        };
        let month = match parse_digits(bytes, 5, 2) {
            Some(v) => v,
            None => {
                return Err(invalid_datetime(field));
            },
        };
        let day = match parse_digits(bytes, 8, 2) {
            Some(v) => v,
            None => {
                return Err(invalid_datetime(field));
            },
        };
        let hour = match parse_digits(bytes, 11, 2) {
            Some(v) => v,
            None => {
                return Err(invalid_datetime(field));
            },
        };
        let minute = match parse_digits(bytes, 14, 2) {
            Some(v) => v,
            None => {
                return Err(invalid_datetime(field));
            },
        };
        proof {
            reveal_with_fuel(number_at, 5);
        }
        assert(year <= 9999 && month <= 99 && day <= 99 && hour <= 99 && minute <= 99);
        let year = year as u16;
        let month = month as u8;
        let day = day as u8;
        let hour = hour as u8;
        let minute = minute as u8;
        if year < 2000 || month < 1 || month > 12 || day == 0 || day > days_in_month(year, month)
            || hour > 23 || minute > 59 {
            return Err(invalid_datetime(field));
        }
        Ok(ScheduleLocalDateTime { year, month, day, hour, minute, canonical: trimmed })
    }

    pub fn as_str(&self) -> (r: &str)
        ensures
            r@ == self@.text,
    {
        self.canonical.as_str()
    }

    pub fn same_date(&self, other: &Self) -> (b: bool)
        ensures
            b == same_date_spec(self@, other@),
    {
        self.year == other.year && self.month == other.month && self.day == other.day
    }

    /// Whether the date is a Monday to Friday (every parsed value is a valid moment).
    pub fn is_business_day(&self) -> (b: bool)
        ensures
            valid_schedule_moment(self@.year, self@.month, self@.day, self@.hour, self@.minute)
                ==> b == business_day_spec(self@),
    {
        if self.year < 1 || self.year > 9999 || self.day > 31 {
            return false;
        }
        let w = weekday(self.year, self.month, self.day);
        !(w == 0 || w == 6)
    }

    fn is_before(&self, other: &Self) -> (b: bool)
        ensures
            b == moment_before(self@, other@),
    {
        if self.year != other.year {
            return self.year < other.year;
        }
        if self.month != other.month {
            return self.month < other.month;
        }
        if self.day != other.day {
            return self.day < other.day;
        }
        if self.hour != other.hour {
            return self.hour < other.hour;
        }
        self.minute < other.minute
    }
}

pub struct DateView {
    pub year: int,
    pub month: int,
    pub day: int,
    pub text: Seq<char>,
}

/// `YYYY-MM-DD` with digits in every numeric position.
pub open spec fn date_shape(b: Seq<u8>) -> bool {
    &&& b.len() == 10
    &&& b[4] == 45 && b[7] == 45
    &&& digits_at(b, 0, 4) && digits_at(b, 5, 2) && digits_at(b, 8, 2)
}

pub open spec fn valid_schedule_date(year: int, month: int, day: int) -> bool {
    &&& 2000 <= year <= 9999
    &&& 1 <= month <= 12
    &&& 1 <= day <= days_in_month_spec(year, month)
}

/// The local date written by `text`, if it is one.
pub open spec fn parse_date_spec(text: Seq<char>) -> Option<DateView> {
    let b = encode_utf8(text);
    if date_shape(b) {
        let v = DateView {
            year: number_at(b, 0, 4),
            month: number_at(b, 5, 2),
            day: number_at(b, 8, 2),
            text,
        };
        if valid_schedule_date(v.year, v.month, v.day) {
            Some(v)
        } else {
            None
        }
    } else {
        None
    }
}

/// The day after a date, or `None` past the year 9999.
pub open spec fn next_day(year: int, month: int, day: int) -> Option<(int, int, int)> {
    if day < days_in_month_spec(year, month) {
        Some((year, month, day + 1))
    } else if month < 12 {
        Some((year, month + 1, 1))
    } else if year + 1 > 9999 {
        None
    } else {
        Some((year + 1, 1, 1))
    }
}

/// The date `count` days later, or `None` past the year 9999.
pub open spec fn add_days(year: int, month: int, day: int, count: nat) -> Option<(int, int, int)>
    decreases count,
{
    if count == 0 {
        Some((year, month, day))
    } else {
        match add_days(year, month, day, (count - 1) as nat) {
            Some(d) => next_day(d.0, d.1, d.2),
            None => None,
        }
    }
}

pub open spec fn written_date(d: (int, int, int)) -> DateView {
    DateView { year: d.0, month: d.1, day: d.2, text: date_text(d.0, d.1, d.2) }
}

#[derive(Clone, Debug, PartialEq, Eq)]
struct ScheduleLocalDate {
    year: u16,
    month: u8,
    day: u8,
    canonical: String,
}

impl View for ScheduleLocalDate {
    type V = DateView;

    closed spec fn view(&self) -> DateView {
        DateView {
            year: self.year as int,
            month: self.month as int,
            day: self.day as int,
            text: self.canonical@,
        }
    }
}

impl ScheduleLocalDate {
    fn parse(value: &str, field: &str) -> (r: Result<Self, PlanningValidationIssue>)
        ensures
            match parse_date_spec(trim_seq(value@)) {
                Some(v) => r matches Ok(d) && d@ == v,
                None => r matches Err(e) && e@ == invalid_date_issue(field@),
            },
    {
        let trimmed = trim(value);
        let text = trimmed.as_str();
        let bytes = text.as_bytes();
        proof {
            assert(bytes@ == encode_utf8(trim_seq(value@)));
        }
        if bytes.len() != 10 || bytes[4] != 45 || bytes[7] != 45 {
            return Err(invalid_date(field));
        }
        let year = match parse_digits(bytes, 0, 4) {
            Some(v) => v,
            None => {
                return Err(invalid_date(field));
            },
        };
        let month = match parse_digits(bytes, 5, 2) {
            Some(v) => v,
            None => {
                return Err(invalid_date(field));
            },
        };
        let day = match parse_digits(bytes, 8, 2) {
            Some(v) => v,
            None => {
                return Err(invalid_date(field));
            },
        };
        proof {
            reveal_with_fuel(number_at, 5);
        }
        assert(year <= 9999 && month <= 99 && day <= 99);
        let year = year as u16;
        let month = month as u8;
        let day = day as u8;
        if year < 2000 || month < 1 || month > 12 || day == 0 || day > days_in_month(year, month) {
            return Err(invalid_date(field));
        }
        Ok(ScheduleLocalDate { year, month, day, canonical: trimmed })
    }

    fn checked_add_days(&self, count: u8) -> (r: Option<Self>)
        requires
            valid_schedule_date(self@.year, self@.month, self@.day),
        ensures
            match add_days(self@.year, self@.month, self@.day, count as nat) {
                Some(d) => r matches Some(x) && x@ == written_date(d),
                None => r is None,
            },
    {
        let mut year = self.year;
        let mut month = self.month;
        let mut day = self.day;
        let mut i: u8 = 0;
        while i < count
            invariant
                i <= count,
                valid_schedule_date(year as int, month as int, day as int),
                add_days(self@.year, self@.month, self@.day, i as nat) == Some(
                    (year as int, month as int, day as int),
                ),
            decreases count - i,
        {
            if day < days_in_month(year, month) {
                day = day + 1;
            } else if month < 12 {
                month = month + 1;
                day = 1;
            } else {
                if year >= 9999 {
                    proof {
                        lemma_add_days_stays_none(
                            self@.year,
                            self@.month,
                            self@.day,
                            (i + 1) as nat,
                            count as nat,
                        );
                    }
                    return None;
                }
                year = year + 1;
                month = 1;
                day = 1;
            }
            i = i + 1;
        }
        Some(ScheduleLocalDate { year, month, day, canonical: format_date(year, month, day) })
    }
}

proof fn lemma_add_days_stays_none(year: int, month: int, day: int, k: nat, n: nat)
    requires
        k <= n,
        add_days(year, month, day, k) is None,
    ensures
        add_days(year, month, day, n) is None,
    decreases n - k,
{
    if k < n {
        lemma_add_days_stays_none(year, month, day, k + 1, n);
    }
}

pub struct WeekView {
    pub start: DateView,
    pub end: DateView,
    pub next_start: DateView,
}

/// The planning week that starts on the given Monday: Monday to Friday, and the
/// following Monday as the exclusive end of queries.
pub open spec fn week_spec(text: Seq<char>) -> Result<WeekView, PlanningIssueView> {
    match parse_date_spec(trim_seq(text)) {
        None => Err(invalid_date_issue("week_start"@)),
        Some(s) => if weekday_spec(s.year, s.month, s.day) != 1 {
            Err(week_not_monday_issue())
        } else {
            match (add_days(s.year, s.month, s.day, 4), add_days(s.year, s.month, s.day, 7)) {
                (Some(e), Some(n)) => Ok(
                    WeekView { start: s, end: written_date(e), next_start: written_date(n) },
                ),
                _ => Err(week_out_of_range_issue()),
            }
        },
    }
}

/// A laboratory planning week, Monday to Friday.
#[derive(Clone, Debug, PartialEq, Eq)]
pub struct ServiceScheduleWeek {
    start: ScheduleLocalDate,
    end: ScheduleLocalDate,
    next_start: ScheduleLocalDate,
}

impl View for ServiceScheduleWeek {
    type V = WeekView;

    closed spec fn view(&self) -> WeekView {
        WeekView { start: self.start@, end: self.end@, next_start: self.next_start@ }
    }
}

fn week_out_of_range() -> (r: PlanningValidationIssue)
    ensures
        r@ == week_out_of_range_issue(),
{
    PlanningValidationIssue::new(
        "schedule_week_out_of_range",
        "week_start",
        "the requested laboratory schedule week is outside the supported date range",
    )
}

impl ServiceScheduleWeek {
    pub fn parse(week_start: &str) -> (r: Result<Self, PlanningValidationIssue>)
        ensures
            match week_spec(week_start@) {
                Ok(w) => r matches Ok(x) && x@ == w,
                Err(e) => r matches Err(x) && x@ == e,
            },
    {
        let start = match ScheduleLocalDate::parse(week_start, "week_start") {
            Ok(d) => d,
            Err(e) => {
                return Err(e);
            },
        };
        if weekday(start.year, start.month, start.day) != 1 {
            return Err(
                PlanningValidationIssue::new(
                    "schedule_week_must_start_on_monday",
                    "week_start",
                    "a laboratory schedule week must start on a Monday",
                ),
            );
        }
        let end = match start.checked_add_days(4) {
            Some(d) => d,
            None => {
                return Err(week_out_of_range());
            },
        };
        let next_start = match start.checked_add_days(7) {
            Some(d) => d,
            None => {
                return Err(week_out_of_range());
            },
        };
        Ok(ServiceScheduleWeek { start, end, next_start })
    }

    pub fn start_date(&self) -> (r: &str)
        ensures
            r@ == self@.start.text,
    {
        self.start.canonical.as_str()
    }

    pub fn end_date(&self) -> (r: &str)
        ensures
            r@ == self@.end.text,
    {
        self.end.canonical.as_str()
    }

    /// The first minute of the week, `YYYY-MM-DDT00:00`.
    pub fn query_start_at(&self) -> (r: String)
        ensures
            r@ == self@.start.text + "T00:00"@,
    {
        concat(self.start.canonical.as_str(), "T00:00")
    }

    /// The first minute after the week (the next Monday), `YYYY-MM-DDT00:00`.
    pub fn query_end_at_exclusive(&self) -> (r: String)
        ensures
            r@ == self@.next_start.text + "T00:00"@,
    {
        concat(self.next_start.canonical.as_str(), "T00:00")
    }
}

/// What a schedule item is created or restored from.
#[derive(Clone, Debug, PartialEq, Eq)]
pub struct ServiceScheduleItemInput {
    pub item_code: String,
    pub project_code: ProjectCode,
    pub title: String,
    pub planned_start_at: String,
    pub planned_end_at: String,
    pub assigned_operator: String,
    pub laboratory_location_id: Option<String>,
    pub laboratory_location_label: String,
    pub equipment_under_test: String,
    pub test_category_code: Option<String>,
    pub test_method_code: Option<String>,
    pub status: ServiceScheduleStatus,
    pub notes: Option<String>,
}

pub struct ScheduleItemInputView {
    pub item_code: Seq<char>,
    pub project_code: Seq<char>,
    pub title: Seq<char>,
    pub planned_start_at: Seq<char>,
    pub planned_end_at: Seq<char>,
    pub assigned_operator: Seq<char>,
    pub laboratory_location_id: Option<Seq<char>>,
    pub laboratory_location_label: Seq<char>,
    pub equipment_under_test: Seq<char>,
    pub test_category_code: Option<Seq<char>>,
    pub test_method_code: Option<Seq<char>>,
    pub status: ServiceScheduleStatus,
    pub notes: Option<Seq<char>>,
}

impl View for ServiceScheduleItemInput {
    type V = ScheduleItemInputView;

    open spec fn view(&self) -> ScheduleItemInputView {
        ScheduleItemInputView {
            item_code: self.item_code@,
            project_code: self.project_code@,
            title: self.title@,
            planned_start_at: self.planned_start_at@,
            planned_end_at: self.planned_end_at@,
            assigned_operator: self.assigned_operator@,
            laboratory_location_id: optional_view(self.laboratory_location_id),
            laboratory_location_label: self.laboratory_location_label@,
            equipment_under_test: self.equipment_under_test@,
            test_category_code: optional_view(self.test_category_code),
            test_method_code: optional_view(self.test_method_code),
            status: self.status,
            notes: optional_view(self.notes),
        }
    }
}

/// The new slot, operator and location of a moved schedule item.
#[derive(Clone, Debug, PartialEq, Eq)]
pub struct ServiceScheduleRescheduleInput {
    pub planned_start_at: String,
    pub planned_end_at: String,
    pub assigned_operator: String,
    pub laboratory_location_id: String,
    pub laboratory_location_label: String,
}

pub struct ScheduleItemView {
    pub item_code: Seq<char>,
    pub project_code: Seq<char>,
    pub title: Seq<char>,
    pub start: DateTimeView,
    pub end: DateTimeView,
    pub assigned_operator: Seq<char>,
    pub laboratory_location_id: Option<Seq<char>>,
    pub laboratory_location_label: Seq<char>,
    pub equipment_under_test: Seq<char>,
    pub test_category_code: Option<Seq<char>>,
    pub test_method_code: Option<Seq<char>>,
    pub status: ServiceScheduleStatus,
    pub notes: Seq<char>,
}

/// A required text, trimmed.
pub open spec fn required_text(value: Seq<char>, field: Seq<char>) -> Result<
    Seq<char>,
    PlanningIssueView,
> {
    if trim_seq(value).len() == 0 {
        Err(required_field_issue(field))
    } else {
        Ok(trim_seq(value))
    }
}

/// A required identifier, trimmed, made of letters, digits, dots, dashes and underscores.
pub open spec fn required_identifier(value: Seq<char>, field: Seq<char>) -> Result<
    Seq<char>,
    PlanningIssueView,
> {
    match required_text(value, field) {
        Err(e) => Err(e),
        Ok(t) => if all_identifier_chars(t) {
            Ok(t)
        } else {
            Err(invalid_identifier_issue(field))
        },
    }
}

/// An optional location identifier, checked when present.
pub open spec fn optional_identifier(value: Option<Seq<char>>, field: Seq<char>) -> Result<
    Option<Seq<char>>,
    PlanningIssueView,
> {
    match value {
        None => Ok(None),
        Some(v) => match required_identifier(v, field) {
            Ok(t) => Ok(Some(t)),
            Err(e) => Err(e),
        },
    }
}

/// The schedule part of a restored item: both moments on one business day, in order.
pub open spec fn restore_slot(i: ScheduleItemInputView) -> Result<
    (DateTimeView, DateTimeView),
    PlanningIssueView,
> {
    match parse_datetime_spec(trim_seq(i.planned_start_at)) {
        None => Err(invalid_datetime_issue("planned_start_at"@)),
        Some(start) => match parse_datetime_spec(trim_seq(i.planned_end_at)) {
            None => Err(invalid_datetime_issue("planned_end_at"@)),
            Some(end) => if !same_date_spec(start, end) {
                Err(multiple_days_issue())
            } else if !business_day_spec(start) {
                Err(outside_business_day_issue())
            } else if !moment_before(start, end) {
                Err(end_not_after_start_issue())
            } else {
                Ok((start, end))
            },
        },
    }
}

/// A schedule item rebuilt from stored values, or the first issue found, checked in
/// the order: item code, title, operator, location identifier, location label,
/// equipment under test, planned start, planned end, then the slot rules.
pub open spec fn restore_spec(i: ScheduleItemInputView) -> Result<ScheduleItemView, PlanningIssueView> {
    match required_identifier(i.item_code, "item_code"@) {
        Err(e) => Err(e),
        Ok(item_code) => match required_text(i.title, "title"@) {
            Err(e) => Err(e),
            Ok(title) => match required_text(i.assigned_operator, "assigned_operator"@) {
                Err(e) => Err(e),
                Ok(operator) => match optional_identifier(
                    i.laboratory_location_id,
                    "laboratory_location_id"@,
                ) {
                    Err(e) => Err(e),
                    Ok(location_id) => match required_text(
                        i.laboratory_location_label,
                        "laboratory_location_label"@,
                    ) {
                        Err(e) => Err(e),
                        Ok(label) => match required_text(
                            i.equipment_under_test,
                            "equipment_under_test"@,
                        ) {
                            Err(e) => Err(e),
                            Ok(eut) => match restore_slot(i) {
                                Err(e) => Err(e),
                                Ok(slot) => Ok(
                                    ScheduleItemView {
                                        item_code,
                                        project_code: i.project_code,
                                        title,
                                        start: slot.0,
                                        end: slot.1,
                                        assigned_operator: operator,
                                        laboratory_location_id: location_id,
                                        laboratory_location_label: label,
                                        equipment_under_test: eut,
                                        test_category_code: optional_trimmed(i.test_category_code),
                                        test_method_code: optional_trimmed(i.test_method_code),
                                        status: i.status,
                                        notes: match i.notes {
                                            Some(n) => trim_seq(n),
                                            None => Seq::empty(),
                                        },
                                    },
                                ),
                            },
                        },
                    },
                },
            },
        },
    }
}

/// A new schedule item: it starts as planned, at an identified location.
pub open spec fn create_spec(i: ScheduleItemInputView) -> Result<ScheduleItemView, PlanningIssueView> {
    if i.status != ServiceScheduleStatus::Planned {
        Err(initial_status_issue())
    } else if i.laboratory_location_id is None {
        Err(location_identity_required_issue())
    } else {
        restore_spec(i)
    }
}

/// An item moved to a new slot, operator and location; everything else is kept.
pub open spec fn reschedule_spec(
    current: ScheduleItemView,
    r: ServiceScheduleRescheduleInput,
) -> Result<ScheduleItemView, PlanningIssueView> {
    if !current.status.reschedulable() {
        Err(not_reschedulable_issue())
    } else {
        restore_spec(
            ScheduleItemInputView {
                item_code: current.item_code,
                project_code: current.project_code,
                title: current.title,
                planned_start_at: r.planned_start_at@,
                planned_end_at: r.planned_end_at@,
                assigned_operator: r.assigned_operator@,
                laboratory_location_id: Some(r.laboratory_location_id@),
                laboratory_location_label: r.laboratory_location_label@,
                equipment_under_test: current.equipment_under_test,
                test_category_code: current.test_category_code,
                test_method_code: current.test_method_code,
                status: current.status,
                notes: Some(current.notes),
            },
        )
    }
}

/// The two items hold overlapping time ranges (ends are exclusive).
pub open spec fn overlap_spec(a: ScheduleItemView, b: ScheduleItemView) -> bool {
    moment_before(a.start, b.end) && moment_before(b.start, a.end)
}

/// The resource two open, overlapping items compete for: the operator first, then a
/// location that cannot be identified, then the same identified location.
pub open spec fn conflict_spec(a: ScheduleItemView, b: ScheduleItemView) -> Option<
    ScheduleResourceConflictKind,
> {
    if a.status.terminal() || b.status.terminal() || !overlap_spec(a, b) {
        None
    } else if a.assigned_operator == b.assigned_operator {
        Some(ScheduleResourceConflictKind::Operator)
    } else if a.laboratory_location_id is None || b.laboratory_location_id is None {
        Some(ScheduleResourceConflictKind::UnresolvedLocationIdentity)
    } else if a.laboratory_location_id == b.laboratory_location_id {
        Some(ScheduleResourceConflictKind::Location)
    } else {
        None
    }
}

pub open spec fn item_result_view(r: Result<ServiceScheduleItem, PlanningValidationIssue>) -> Result<
    ScheduleItemView,
    PlanningIssueView,
> {
    match r {
        Ok(item) => Ok(item@),
        Err(e) => Err(e@),
    }
}

/// A booked laboratory slot for one project.
#[derive(Clone, Debug, PartialEq, Eq)]
pub struct ServiceScheduleItem {
    item_code: String,
    project_code: ProjectCode,
    title: String,
    planned_start_at: ScheduleLocalDateTime,
    planned_end_at: ScheduleLocalDateTime,
    assigned_operator: String,
    laboratory_location_id: Option<String>,
    laboratory_location_label: String,
    equipment_under_test: String,
    test_category_code: Option<String>,
    test_method_code: Option<String>,
    status: ServiceScheduleStatus,
    notes: String,
}

impl View for ServiceScheduleItem {
    type V = ScheduleItemView;

    closed spec fn view(&self) -> ScheduleItemView {
        ScheduleItemView {
            item_code: self.item_code@,
            project_code: self.project_code@,
            title: self.title@,
            start: self.planned_start_at@,
            end: self.planned_end_at@,
            assigned_operator: self.assigned_operator@,
            laboratory_location_id: optional_view(self.laboratory_location_id),
            laboratory_location_label: self.laboratory_location_label@,
            equipment_under_test: self.equipment_under_test@,
            test_category_code: optional_view(self.test_category_code),
            test_method_code: optional_view(self.test_method_code),
            status: self.status,
            notes: self.notes@,
        }
    }
}

fn require_text(value: &str, field: &str) -> (r: Result<String, PlanningValidationIssue>)
    ensures
        match required_text(value@, field@) {
            Ok(t) => r matches Ok(x) && x@ == t,
            Err(e) => r matches Err(x) && x@ == e,
        },
{
    let t = trim(value);
    if t.as_str().is_empty() {
        return Err(
            PlanningValidationIssue::new(
                "planning_required_field_missing",
                field,
                "a required service schedule field is empty",
            ),
        );
    }
    Ok(t)
}

fn require_identifier(value: &str, field: &str) -> (r: Result<String, PlanningValidationIssue>)
    ensures
        match required_identifier(value@, field@) {
            Ok(t) => r matches Ok(x) && x@ == t,
            Err(e) => r matches Err(x) && x@ == e,
        },
{
    let t = match require_text(value, field) {
        Ok(t) => t,
        Err(e) => {
            return Err(e);
        },
    };
    if !all_identifier_characters(t.as_str()) {
        return Err(
            PlanningValidationIssue::new(
                "invalid_schedule_identifier",
                field,
                "a schedule identifier may only contain letters, numbers, dots, dashes and underscores",
            ),
        );
    }
    Ok(t)
}

impl ServiceScheduleItem {
    /// A new item: planned, at an identified location, and valid as `restore` checks it.
    pub fn create(input: ServiceScheduleItemInput) -> (r: Result<Self, PlanningValidationIssue>)
        ensures
            item_result_view(r) == create_spec(input@),
    {
        if input.status != ServiceScheduleStatus::Planned {
            return Err(
                PlanningValidationIssue::new(
                    "schedule_initial_status_must_be_planned",
                    "status",
                    "a new service schedule item must start as planned",
                ),
            );
        }
        if input.laboratory_location_id.is_none() {
            return Err(
                PlanningValidationIssue::new(
                    "schedule_location_identity_required",
                    "laboratory_location_id",
                    "a new schedule item requires a stable laboratory location identifier",
                ),
            );
        }
        Self::restore(input)
    }

    /// Rebuilds an item from stored values, with its texts trimmed.
    pub fn restore(input: ServiceScheduleItemInput) -> (r: Result<Self, PlanningValidationIssue>)
        ensures
            item_result_view(r) == restore_spec(input@),
    {
        let item_code = match require_identifier(input.item_code.as_str(), "item_code") {
            Ok(v) => v,
            Err(e) => {
                return Err(e);
            },
        };
        let title = match require_text(input.title.as_str(), "title") {
            Ok(v) => v,
            Err(e) => {
                return Err(e);
            },
        };
        let assigned_operator = match require_text(
            input.assigned_operator.as_str(),
            "assigned_operator",
        ) {
            Ok(v) => v,
            Err(e) => {
                return Err(e);
            },
        };
        let laboratory_location_id = match &input.laboratory_location_id {
            None => None,
            Some(v) => match require_identifier(v.as_str(), "laboratory_location_id") {
                Ok(t) => Some(t),
                Err(e) => {
                    return Err(e);
                },
            },
        };
        let laboratory_location_label = match require_text(
            input.laboratory_location_label.as_str(),
            "laboratory_location_label",
        ) {
            Ok(v) => v,
            Err(e) => {
                return Err(e);
            },
        };
        let equipment_under_test = match require_text(
            input.equipment_under_test.as_str(),
            "equipment_under_test",
        ) {
            Ok(v) => v,
            Err(e) => {
                return Err(e);
            },
        };
        let planned_start_at = match ScheduleLocalDateTime::parse(
            input.planned_start_at.as_str(),
            "planned_start_at",
        ) {
            Ok(v) => v,
            Err(e) => {
                return Err(e);
            },
        };
        let planned_end_at = match ScheduleLocalDateTime::parse(
            input.planned_end_at.as_str(),
            "planned_end_at",
        ) {
            Ok(v) => v,
            Err(e) => {
                return Err(e);
            },
        };
        if !planned_start_at.same_date(&planned_end_at) {
            return Err(
                PlanningValidationIssue::new(
                    "schedule_spans_multiple_days",
                    "planned_end_at",
                    "a service schedule item must stay within one day",
                ),
            );
        }
        if !planned_start_at.is_business_day() {
            return Err(
                PlanningValidationIssue::new(
                    "schedule_outside_business_day",
                    "planned_start_at",
                    "a service schedule item must be planned on a business day",
                ),
            );
        }
        if !planned_start_at.is_before(&planned_end_at) {
            return Err(
                PlanningValidationIssue::new(
                    "schedule_end_not_after_start",
                    "planned_end_at",
                    "the planned end must be after the planned start",
                ),
            );
        }
        let notes = match &input.notes {
            Some(n) => trim(n.as_str()),
            None => String::new(),
        };
        Ok(
            ServiceScheduleItem {
                item_code,
                project_code: input.project_code,
                title,
                planned_start_at,
                planned_end_at,
                assigned_operator,
                laboratory_location_id,
                laboratory_location_label,
                equipment_under_test,
                test_category_code: optional_text(&input.test_category_code),
                test_method_code: optional_text(&input.test_method_code),
                status: input.status,
                notes,
            },
        )
    }

    /// Moves the item along its workflow; a move that is not allowed changes nothing.
    pub fn transition_to(&mut self, target: ServiceScheduleStatus) -> (r: Result<
        (),
        PlanningValidationIssue,
    >)
        ensures
            allowed_target_seq(old(self)@.status).contains(target) ==> r is Ok && final(self)@
                == (ScheduleItemView { status: target, ..old(self)@ }),
            !allowed_target_seq(old(self)@.status).contains(target) ==> (r matches Err(e) && e@
                == invalid_transition_issue()) && final(self)@ == old(self)@,
    {
        let targets = self.status.allowed_targets();
        let mut found = false;
        let mut i: usize = 0;
        while i < targets.len()
            invariant
                targets@ == allowed_target_seq(self.status),
                i <= targets@.len(),
                found == exists|k: int| 0 <= k < i && targets@[k] == target,
            decreases targets@.len() - i,
        {
            if targets[i] == target {
                found = true;
            }
            i = i + 1;
        }
        if !found {
            return Err(
                PlanningValidationIssue::new(
                    "invalid_schedule_status_transition",
                    "status",
                    "the requested service schedule status transition is not allowed",
                ),
            );
        }
        self.status = target;
        Ok(())
    }

    /// The same item moved to another slot, operator and location, while it is still
    /// planned or confirmed.
    pub fn rescheduled(&self, input: ServiceScheduleRescheduleInput) -> (r: Result<
        Self,
        PlanningValidationIssue,
    >)
        ensures
            item_result_view(r) == reschedule_spec(self@, input),
    {
        if !self.status.can_reschedule() {
            return Err(
                PlanningValidationIssue::new(
                    "schedule_status_not_reschedulable",
                    "status",
                    "a service schedule item can only be moved while planned or confirmed",
                ),
            );
        }
        let ghost expected = ScheduleItemInputView {
            item_code: self@.item_code,
            project_code: self@.project_code,
            title: self@.title,
            planned_start_at: input.planned_start_at@,
            planned_end_at: input.planned_end_at@,
            assigned_operator: input.assigned_operator@,
            laboratory_location_id: Some(input.laboratory_location_id@),
            laboratory_location_label: input.laboratory_location_label@,
            equipment_under_test: self@.equipment_under_test,
            test_category_code: self@.test_category_code,
            test_method_code: self@.test_method_code,
            status: self@.status,
            notes: Some(self@.notes),
        };
        let restored = ServiceScheduleItemInput {
            item_code: copy_string(&self.item_code),
            project_code: self.project_code.duplicate(),
            title: copy_string(&self.title),
            planned_start_at: input.planned_start_at,
            planned_end_at: input.planned_end_at,
            assigned_operator: input.assigned_operator,
            laboratory_location_id: Some(input.laboratory_location_id),
            laboratory_location_label: input.laboratory_location_label,
            equipment_under_test: copy_string(&self.equipment_under_test),
            test_category_code: copy_optional_string(&self.test_category_code),
            test_method_code: copy_optional_string(&self.test_method_code),
            status: self.status,
            notes: Some(copy_string(&self.notes)),
        };
        assert(restored@ == expected);
        Self::restore(restored)
    }

    /// The two items hold overlapping time ranges; touching ranges do not overlap.
    pub fn overlaps(&self, other: &Self) -> (b: bool)
        ensures
            b == overlap_spec(self@, other@),
    {
        self.planned_start_at.is_before(&other.planned_end_at)
            && other.planned_start_at.is_before(&self.planned_end_at)
    }

    /// The resource the two items compete for, if any (see `conflict_spec`).
    pub fn resource_conflict(&self, other: &Self) -> (r: Option<ScheduleResourceConflictKind>)
        ensures
            r == conflict_spec(self@, other@),
    {
        if self.status.is_terminal() || other.status.is_terminal() || !self.overlaps(other) {
            return None;
        }
        if self.assigned_operator == other.assigned_operator {
            return Some(ScheduleResourceConflictKind::Operator);
        }
        match (&self.laboratory_location_id, &other.laboratory_location_id) {
            (Some(a), Some(b)) => {
                if *a == *b {
                    Some(ScheduleResourceConflictKind::Location)
                } else {
                    None
                }
            },
            _ => Some(ScheduleResourceConflictKind::UnresolvedLocationIdentity),
        }
    }

    pub fn item_code(&self) -> (r: &str)
        ensures
            r@ == self@.item_code,
    {
        self.item_code.as_str()
    }

    pub fn project_code(&self) -> (r: &ProjectCode)
        ensures
            r@ == self@.project_code,
    {
        &self.project_code
    }

    pub fn title(&self) -> (r: &str)
        ensures
            r@ == self@.title,
    {
        self.title.as_str()
    }

    pub fn planned_start_at(&self) -> (r: &str)
        ensures
            r@ == self@.start.text,
    {
        self.planned_start_at.as_str()
    }

    pub fn planned_end_at(&self) -> (r: &str)
        ensures
            r@ == self@.end.text,
    {
        self.planned_end_at.as_str()
    }

    pub fn assigned_operator(&self) -> (r: &str)
        ensures
            r@ == self@.assigned_operator,
    {
        self.assigned_operator.as_str()
    }

    pub fn laboratory_location_id(&self) -> (r: Option<&str>)
        ensures
            match r {
                Some(v) => self@.laboratory_location_id == Some(v@),
                None => self@.laboratory_location_id is None,
            },
    {
        match &self.laboratory_location_id {
            Some(v) => Some(v.as_str()),
            None => None,
        }
    }

    pub fn laboratory_location_label(&self) -> (r: &str)
        ensures
            r@ == self@.laboratory_location_label,
    {
        self.laboratory_location_label.as_str()
    }

    pub fn equipment_under_test(&self) -> (r: &str)
        ensures
            r@ == self@.equipment_under_test,
    {
        self.equipment_under_test.as_str()
    }

    pub fn test_category_code(&self) -> (r: Option<&str>)
        ensures
            match r {
                Some(v) => self@.test_category_code == Some(v@),
                None => self@.test_category_code is None,
            },
    {
        match &self.test_category_code {
            Some(v) => Some(v.as_str()),
            None => None,
        }
    }

    pub fn test_method_code(&self) -> (r: Option<&str>)
        ensures
            match r {
                Some(v) => self@.test_method_code == Some(v@),
                None => self@.test_method_code is None,
            },
    {
        match &self.test_method_code {
            Some(v) => Some(v.as_str()),
            None => None,
        }
    }

    pub fn status(&self) -> (r: ServiceScheduleStatus)
        ensures
            r == self@.status,
    {
        self.status
    }

    pub fn notes(&self) -> (r: &str)
        ensures
            r@ == self@.notes,
    {
        self.notes.as_str()
    }
}

/// Two moments with the same date, hour and minute.
pub open spec fn same_moment(a: DateTimeView, b: DateTimeView) -> bool {
    same_date_spec(a, b) && a.hour == b.hour && a.minute == b.minute
}

/// Overlap does not depend on which item is asked first.
pub proof fn lemma_overlap_is_symmetric(a: ScheduleItemView, b: ScheduleItemView)
    ensures
        overlap_spec(a, b) == overlap_spec(b, a),
{
}

/// The resource conflict between two items does not depend on which one is asked first.
pub proof fn lemma_conflict_is_symmetric(a: ScheduleItemView, b: ScheduleItemView)
    ensures
        conflict_spec(a, b) == conflict_spec(b, a),
{
}

/// A block that ends when the next one starts does not overlap it.
pub proof fn lemma_adjacent_blocks_do_not_overlap(a: ScheduleItemView, b: ScheduleItemView)
    requires
        same_moment(a.end, b.start),
    ensures
        !overlap_spec(a, b),
        conflict_spec(a, b) is None,
{
}

/// Completed and cancelled items no longer reserve any resource.
pub proof fn lemma_terminal_items_reserve_nothing(a: ScheduleItemView, b: ScheduleItemView)
    requires
        a.status.terminal() || b.status.terminal(),
    ensures
        conflict_spec(a, b) is None,
{
}

/// The operator conflict is reported before any location conflict.
pub proof fn lemma_operator_conflict_first(a: ScheduleItemView, b: ScheduleItemView)
    requires
        !a.status.terminal(),
        !b.status.terminal(),
        overlap_spec(a, b),
        a.assigned_operator == b.assigned_operator,
    ensures
        conflict_spec(a, b) == Some(ScheduleResourceConflictKind::Operator),
{
}

/// Location conflicts compare stable identifiers, never labels.
pub proof fn lemma_location_conflict_ignores_labels(
    a: ScheduleItemView,
    b: ScheduleItemView,
    label: Seq<char>,
)
    ensures
        conflict_spec(a, b) == conflict_spec(a, ScheduleItemView { laboratory_location_label: label, ..b }),
{
}

/// Every item that `restore` accepts lies within one business day and ends after it starts.
pub proof fn lemma_restored_item_fits_one_business_day(i: ScheduleItemInputView)
    ensures
        restore_spec(i) matches Ok(v) ==> {
            &&& same_date_spec(v.start, v.end)
            &&& business_day_spec(v.start)
            &&& moment_before(v.start, v.end)
            &&& valid_schedule_moment(v.start.year, v.start.month, v.start.day, v.start.hour, v.start.minute)
            &&& valid_schedule_moment(v.end.year, v.end.month, v.end.day, v.end.hour, v.end.minute)
        },
{
}

/// Completed and cancelled are the final statuses; every open status can be cancelled.
pub proof fn lemma_status_workflow(s: ServiceScheduleStatus)
    ensures
        s.terminal() <==> allowed_target_seq(s).len() == 0,
        !s.terminal() ==> allowed_target_seq(s).contains(ServiceScheduleStatus::Cancelled),
        !allowed_target_seq(s).contains(s),
        s.reschedulable() ==> !s.terminal(),
{
    if !s.terminal() {
        assert(allowed_target_seq(s)[1] == ServiceScheduleStatus::Cancelled);
    }
}

/// Moving a restored item keeps its code, project, title, equipment and status.
pub proof fn lemma_reschedule_keeps_the_item(
    i: ScheduleItemInputView,
    r: ServiceScheduleRescheduleInput,
)
    requires
        restore_spec(i) is Ok,
    ensures
        ({
            let current = restore_spec(i)->Ok_0;
            reschedule_spec(current, r) matches Ok(moved) ==> {
                &&& moved.item_code == current.item_code
                &&& moved.project_code == current.project_code
                &&& moved.title == current.title
                &&& moved.equipment_under_test == current.equipment_under_test
                &&& moved.status == current.status
                &&& moved.notes == current.notes
            }
        }),
{
    let current = restore_spec(i)->Ok_0;
    lemma_trim_idempotent(i.item_code);
    lemma_trim_idempotent(i.title);
    lemma_trim_idempotent(i.equipment_under_test);
    match i.notes {
        Some(n) => lemma_trim_idempotent(n),
        None => {
            assert(trim_seq(Seq::<char>::empty()) =~= Seq::<char>::empty());
        },
    }
}


/// The step of the normal course of a slot: planned, confirmed, in progress, completed.
pub open spec fn course_step(s: ServiceScheduleStatus) -> int {
    match s {
        ServiceScheduleStatus::Planned => 0,
        ServiceScheduleStatus::Confirmed => 1,
        ServiceScheduleStatus::InProgress => 2,
        ServiceScheduleStatus::Completed => 3,
        ServiceScheduleStatus::Cancelled => 4,
    }
}

/// A slot moves one step forward along planned, confirmed, in progress, completed, or is
/// cancelled while still open; nothing else is allowed, and a completed or cancelled
/// slot moves no more.
pub proof fn lemma_transitions_follow_the_course(from: ServiceScheduleStatus, to: ServiceScheduleStatus)
    ensures
        allowed_target_seq(from).contains(to) <==> (!from.terminal() && (
        to == ServiceScheduleStatus::Cancelled || (to != ServiceScheduleStatus::Cancelled
            && course_step(to) == course_step(from) + 1))),
{
    let s = allowed_target_seq(from);
    if !from.terminal() && (to == ServiceScheduleStatus::Cancelled || (to
        != ServiceScheduleStatus::Cancelled && course_step(to) == course_step(from) + 1)) {
        if to == ServiceScheduleStatus::Cancelled {
            assert(s[1] == to);
        } else {
            assert(s[0] == to);
        }
    }
}

proof fn lemma_year_steps(y: int)
    requires
        y >= 1,
    ensures
        y / 4 - (y - 1) / 4 == (if y % 4 == 0 { 1int } else { 0int }),
        y / 100 - (y - 1) / 100 == (if y % 100 == 0 { 1int } else { 0int }),
        y / 400 - (y - 1) / 400 == (if y % 400 == 0 { 1int } else { 0int }),
{
}

proof fn lemma_next_mod(x: int, y: int)
    requires
        (y - x - 1) % 7 == 0,
    ensures
        y % 7 == (x % 7 + 1) % 7,
{
    assert(y % 7 == (x % 7 + 1) % 7) by (nonlinear_arith)
        requires
            (y - x - 1) % 7 == 0,
    ;
}

/// The argument of the weekday formula, before it is taken modulo 7.
pub open spec fn weekday_count(year: int, month: int, day: int) -> int {
    let a = if month < 3 {
        year - 1
    } else {
        year
    };
    a + a / 4 - a / 100 + a / 400 + month_offset(month) + day
}

proof fn lemma_month_end_count(year: int, month: int)
    requires
        2000 <= year <= 9999,
        1 <= month < 12,
    ensures
        (weekday_count(year, month + 1, 1) - weekday_count(year, month, days_in_month_spec(year, month)) - 1)
            % 7 == 0,
{
    if month == 2 {
        lemma_year_steps(year);
    }
}

/// The weekday moves on by one from each date to the next, across month and year ends,
/// and 2026-07-27 is a Monday: so the computed weekday is the calendar's.
pub proof fn lemma_weekday_follows_the_calendar(year: int, month: int, day: int)
    requires
        valid_schedule_date(year, month, day),
    ensures
        next_day(year, month, day) matches Some(n) ==> weekday_spec(n.0, n.1, n.2) == (
        weekday_spec(year, month, day) + 1) % 7,
        weekday_spec(2026, 7, 27) == 1,
{
    let x = weekday_count(year, month, day);
    assert(weekday_spec(year, month, day) == x % 7);
    if day < days_in_month_spec(year, month) {
        lemma_next_mod(x, weekday_count(year, month, day + 1));
    } else if month < 12 {
        lemma_month_end_count(year, month);
        lemma_next_mod(x, weekday_count(year, month + 1, 1));
    } else if year + 1 <= 9999 {
        lemma_next_mod(x, weekday_count(year + 1, 1, 1));
    }
}

proof fn lemma_next_day_valid(year: int, month: int, day: int)
    requires
        valid_schedule_date(year, month, day),
    ensures
        next_day(year, month, day) matches Some(n) ==> valid_schedule_date(n.0, n.1, n.2),
{
}

/// Counting `count` days on moves the weekday on by `count`, modulo 7.
pub proof fn lemma_weekday_after_days(year: int, month: int, day: int, count: nat)
    requires
        valid_schedule_date(year, month, day),
    ensures
        add_days(year, month, day, count) matches Some(e) ==> valid_schedule_date(e.0, e.1, e.2)
            && weekday_spec(e.0, e.1, e.2) == (weekday_spec(year, month, day) + count) % 7,
    decreases count,
{
    if count > 0 {
        lemma_weekday_after_days(year, month, day, (count - 1) as nat);
        match add_days(year, month, day, (count - 1) as nat) {
            Some(p) => {
                lemma_next_day_valid(p.0, p.1, p.2);
                lemma_weekday_follows_the_calendar(p.0, p.1, p.2);
                let w = weekday_spec(year, month, day);
                assert((((w + count - 1) % 7) + 1) % 7 == (w + count) % 7) by (nonlinear_arith);
            },
            None => {},
        }
    }
}

/// A planning week starts on a Monday, ends on the Friday of that week, and the next
/// week starts on the following Monday.
pub proof fn lemma_week_runs_monday_to_friday(text: Seq<char>)
    ensures
        week_spec(text) matches Ok(w) ==> {
            &&& weekday_spec(w.start.year, w.start.month, w.start.day) == 1
            &&& weekday_spec(w.end.year, w.end.month, w.end.day) == 5
            &&& weekday_spec(w.next_start.year, w.next_start.month, w.next_start.day) == 1
        },
{
    match parse_date_spec(trim_seq(text)) {
        Some(s) => {
            lemma_weekday_after_days(s.year, s.month, s.day, 4);
            lemma_weekday_after_days(s.year, s.month, s.day, 7);
        },
        None => {},
    }
}


/// A created item is planned, at an identified location, on a single weekday (Monday to
/// Friday), and ends strictly after it starts.
pub proof fn lemma_created_slots_are_business_hours(i: ScheduleItemInputView)
    ensures
        create_spec(i) matches Ok(item) ==> {
            &&& item.status == ServiceScheduleStatus::Planned
            &&& item.laboratory_location_id is Some
            &&& 1 <= weekday_spec(item.start.year, item.start.month, item.start.day) <= 5
            &&& item.start.year == item.end.year && item.start.month == item.end.month
                && item.start.day == item.end.day
            &&& moment_before(item.start, item.end)
        },
{
    match create_spec(i) {
        Ok(item) => {
            let w = weekday_spec(item.start.year, item.start.month, item.start.day);
            assert(0 <= w < 7);
        },
        Err(_) => {},
    }
}

/// Only a planned or confirmed item can be moved, and the move keeps its status.
pub proof fn lemma_rescheduling_keeps_status(current: ScheduleItemView, r: ServiceScheduleRescheduleInput)
    ensures
        reschedule_spec(current, r) matches Ok(item) ==> item.status == current.status && (
        current.status == ServiceScheduleStatus::Planned || current.status
            == ServiceScheduleStatus::Confirmed),
{
}

} // verus!
