//! Interactive filter state for front ends: discrete cyclers over fit
//! levels, run modes, use cases, quantizations, and release dates, plus
//! the calendar arithmetic the date filter needs.

use vstd::prelude::*;
use vstd::string::StrSliceExecFns;

use crate::fit::{FitLevel, RunMode};
use crate::models::UseCase;
use crate::rank::{lex_lt, str_lex_lt};
use crate::strutil::{spec_digit_char, spec_u64_string, str_eq, u64_to_string};

verus! {

/// Which input context the interface is in.
#[derive(Debug, Clone, Copy, PartialEq, Eq, Structural)]
pub enum InputMode {
    Normal,
    Search,
    ProviderPopup,
    FilterPopup,
}

/// The coarse fit-level filter.
#[derive(Debug, Clone, Copy, PartialEq, Eq, Structural)]
pub enum FitFilter {
    All,
    Perfect,
    Good,
    Marginal,
    TooTight,
    /// Perfect, Good and Marginal; excludes TooTight.
    Runnable,
}

impl FitFilter {
    pub open spec fn spec_label(&self) -> Seq<char> {
        match self {
            FitFilter::All => "All"@,
            FitFilter::Perfect => "Perfect"@,
            FitFilter::Good => "Good"@,
            FitFilter::Marginal => "Marginal"@,
            FitFilter::TooTight => "Too Tight"@,
            FitFilter::Runnable => "Runnable"@,
        }
    }

    pub fn label(&self) -> (r: &'static str)
        ensures
            r@ == self.spec_label(),
    {
        match self {
            FitFilter::All => "All",
            FitFilter::Perfect => "Perfect",
            FitFilter::Good => "Good",
            FitFilter::Marginal => "Marginal",
            FitFilter::TooTight => "Too Tight",
            FitFilter::Runnable => "Runnable",
        }
    }

    pub open spec fn spec_next(&self) -> FitFilter {
        match self {
            FitFilter::All => FitFilter::Runnable,
            FitFilter::Runnable => FitFilter::Perfect,
            FitFilter::Perfect => FitFilter::Good,
            FitFilter::Good => FitFilter::Marginal,
            FitFilter::Marginal => FitFilter::TooTight,
            FitFilter::TooTight => FitFilter::All,
        }
    }

    /// The next filter in the cycling order.
    #[verifier::when_used_as_spec(spec_next)]
    pub fn next(&self) -> (r: FitFilter)
        ensures
            r == self.spec_next(),
    {
        match self {
            FitFilter::All => FitFilter::Runnable,
            FitFilter::Runnable => FitFilter::Perfect,
            FitFilter::Perfect => FitFilter::Good,
            FitFilter::Good => FitFilter::Marginal,
            FitFilter::Marginal => FitFilter::TooTight,
            FitFilter::TooTight => FitFilter::All,
        }
    }

    pub open spec fn spec_matches_level(&self, level: FitLevel) -> bool {
        match self {
            FitFilter::All => true,
            FitFilter::Perfect => level == FitLevel::Perfect,
            FitFilter::Good => level == FitLevel::Good,
            FitFilter::Marginal => level == FitLevel::Marginal,
            FitFilter::TooTight => level == FitLevel::TooTight,
            FitFilter::Runnable => level != FitLevel::TooTight,
        }
    }

    /// Whether a verdict passes this filter.
    pub fn matches_level(&self, level: FitLevel) -> (r: bool)
        ensures
            r == self.spec_matches_level(level),
    {
        match self {
            FitFilter::All => true,
            FitFilter::Perfect => level == FitLevel::Perfect,
            FitFilter::Good => level == FitLevel::Good,
            FitFilter::Marginal => level == FitLevel::Marginal,
            FitFilter::TooTight => level == FitLevel::TooTight,
            FitFilter::Runnable => level != FitLevel::TooTight,
        }
    }
}

// ── Calendar arithmetic for the date filter ─────────────────────────

/// Seconds at the end of year 9999; later instants are clamped.
pub const CLOCK_SECS_LIMIT: u64 = 253_402_300_799;

pub open spec fn spec_is_leap(y: int) -> bool {
    y % 4 == 0 && (y % 100 != 0 || y % 400 == 0)
}

pub open spec fn spec_days_in_year(y: int) -> int {
    if spec_is_leap(y) {
        366
    } else {
        365
    }
}

/// Step forward whole years from `year` until fewer than a year of days
/// remains; yields the year and the days left inside it.
pub open spec fn spec_split_year(days: int, year: int) -> (int, int)
    decreases days,
{
    if days < spec_days_in_year(year) {
        (year, days)
    } else {
        spec_split_year(days - spec_days_in_year(year), year + 1)
    }
}

/// Days in month `m` (1-based) of a leap or common year.
pub open spec fn spec_month_days(m: int, leap: bool) -> int {
    if m == 2 {
        if leap {
            29
        } else {
            28
        }
    } else if m == 4 || m == 6 || m == 9 || m == 11 {
        30
    } else {
        31
    }
}

/// Step forward whole months from `month` until fewer than a month of
/// days remains, never past December; yields the month.
pub open spec fn spec_split_month(days: int, month: int, leap: bool) -> int
    decreases 12 - month,
{
    if month >= 12 || days < spec_month_days(month, leap) {
        month
    } else {
        spec_split_month(days - spec_month_days(month, leap), month + 1, leap)
    }
}

/// The (year, month) of a Unix instant, by civil-calendar counting.
pub open spec fn spec_year_month(secs: u64) -> (int, int) {
    let days = secs as int / 86400;
    let (y, rem) = spec_split_year(days, 1970);
    (y, spec_split_month(rem, 1, spec_is_leap(y)))
}

fn is_leap(y: i32) -> (r: bool)
    requires
        y >= 0,
    ensures
        r == spec_is_leap(y as int),
{
    y % 4 == 0 && (y % 100 != 0 || y % 400 == 0)
}

fn days_in_year(y: i32) -> (r: u64)
    requires
        y >= 0,
    ensures
        r == spec_days_in_year(y as int),
{
    if is_leap(y) {
        366
    } else {
        365
    }
}

fn month_days(m: i32, leap: bool) -> (r: u64)
    requires
        1 <= m <= 12,
    ensures
        r == spec_month_days(m as int, leap),
{
    if m == 2 {
        if leap {
            29
        } else {
            28
        }
    } else if m == 4 || m == 6 || m == 9 || m == 11 {
        30
    } else {
        31
    }
}

/// The calendar year and month (1-based) holding a Unix instant.
pub fn year_month_from_unix_secs(secs: u64) -> (r: (i32, i32))
    requires
        secs <= CLOCK_SECS_LIMIT,
    ensures
        (r.0 as int, r.1 as int) == spec_year_month(secs),
        1970 <= r.0 <= 10010,
        1 <= r.1 <= 12,
{
    let days0 = secs / 86400;
    let mut days = days0;
    let mut year: i32 = 1970;
    while days >= days_in_year(year)
        invariant
            days <= days0,
            days0 <= 2_932_897,
            1970 <= year,
            (year - 1970) * 365 <= days0 - days,
            spec_split_year(days0 as int, 1970) == spec_split_year(days as int, year as int),
        decreases days,
    {
        days = days - days_in_year(year);
        year = year + 1;
    }
    let leap = is_leap(year);
    let mut month: i32 = 1;
    let ghost rem0 = days as int;
    let ghost y = year as int;
    while month < 12 && days >= month_days(month, leap)
        invariant
            1 <= month <= 12,
            leap == spec_is_leap(y),
            y == year as int,
            spec_split_month(rem0, 1, leap) == spec_split_month(days as int, month as int, leap),
        decreases 12 - month,
    {
        days = days - month_days(month, leap);
        month = month + 1;
    }
    (year, month)
}

/// Relies on `std::time::SystemTime::now`: the Unix clock in whole
/// seconds, zero when the clock reads before the epoch.
#[verifier::external_body]
fn now_unix_secs() -> u64 {
    std::time::SystemTime::now()
        .duration_since(std::time::UNIX_EPOCH)
        .unwrap_or_default()
        .as_secs()
}

/// The current calendar year and month, from the system clock (clamped
/// to the representable range): the exact calendar split of some instant
/// inside that range.
pub fn current_year_month() -> (r: (i32, i32))
    ensures
        1970 <= r.0 <= 10010,
        1 <= r.1 <= 12,
        exists|s: u64|
            s <= CLOCK_SECS_LIMIT && (r.0 as int, r.1 as int) == #[trigger] spec_year_month(s),
{
    let secs = now_unix_secs();
    let s = if secs > CLOCK_SECS_LIMIT {
        CLOCK_SECS_LIMIT
    } else {
        secs
    };
    let r = year_month_from_unix_secs(s);
    proof {
        assert(s <= CLOCK_SECS_LIMIT && (r.0 as int, r.1 as int) == spec_year_month(s));
    }
    r
}

/// "YYYY-MM", zero-padded.
pub open spec fn spec_format_ym(y: int, m: int) -> Seq<char> {
    seq![
        spec_digit_char(y / 1000 % 10),
        spec_digit_char(y / 100 % 10),
        spec_digit_char(y / 10 % 10),
        spec_digit_char(y % 10),
        '-',
        spec_digit_char(m / 10 % 10),
        spec_digit_char(m % 10),
    ]
}

/// Format a year and month as "YYYY-MM"; only the low four (two) digits
/// of the year (month) are printed.
pub fn format_ym(y: i32, m: i32) -> (r: String)
    requires
        0 <= y,
        0 <= m,
    ensures
        r@ == spec_format_ym(y as int, m as int),
{
    let mut out = String::new();
    out.push((48 + (y / 1000 % 10) as u8) as char);
    out.push((48 + (y / 100 % 10) as u8) as char);
    out.push((48 + (y / 10 % 10) as u8) as char);
    out.push((48 + (y % 10) as u8) as char);
    out.push('-');
    out.push((48 + (m / 10 % 10) as u8) as char);
    out.push((48 + (m % 10) as u8) as char);
    proof {
        assert(out@ =~= spec_format_ym(y as int, m as int));
    }
    out
}

// ── The date filter ─────────────────────────────────────────────────

/// The character-level view of an optional string.
pub open spec fn spec_opt_str_view(d: Option<String>) -> Option<Seq<char>> {
    match d {
        Some(s) => Some(s@),
        None => None,
    }
}

/// Keeps only models released within a trailing window.
#[derive(Debug, Clone, Copy, PartialEq, Eq, Structural)]
pub enum DateFilter {
    Any,
    Last6Months,
    LastYear,
    Last2Years,
}

impl DateFilter {
    pub fn is_active(&self) -> (r: bool)
        ensures
            r == (*self != DateFilter::Any),
    {
        *self != DateFilter::Any
    }

    pub open spec fn spec_label(&self) -> Seq<char> {
        match self {
            DateFilter::Any => "Any"@,
            DateFilter::Last6Months => "<= 6mo"@,
            DateFilter::LastYear => "<= 1yr"@,
            DateFilter::Last2Years => "<= 2yr"@,
        }
    }

    pub fn label(&self) -> (r: &'static str)
        ensures
            r@ == self.spec_label(),
    {
        match self {
            DateFilter::Any => "Any",
            DateFilter::Last6Months => "<= 6mo",
            DateFilter::LastYear => "<= 1yr",
            DateFilter::Last2Years => "<= 2yr",
        }
    }

    pub open spec fn spec_cycle_right(&self) -> DateFilter {
        match *self {
            DateFilter::Any => DateFilter::Last2Years,
            DateFilter::Last2Years => DateFilter::LastYear,
            DateFilter::LastYear => DateFilter::Last6Months,
            DateFilter::Last6Months => DateFilter::Last6Months,
        }
    }

    pub open spec fn spec_cycle_left(&self) -> DateFilter {
        match *self {
            DateFilter::Last6Months => DateFilter::LastYear,
            DateFilter::LastYear => DateFilter::Last2Years,
            DateFilter::Last2Years => DateFilter::Any,
            DateFilter::Any => DateFilter::Any,
        }
    }

    /// Tighten the window by one step.
    pub fn cycle_right(&mut self)
        ensures
            *final(self) == old(self).spec_cycle_right(),
    {
        *self = match self {
            DateFilter::Any => DateFilter::Last2Years,
            DateFilter::Last2Years => DateFilter::LastYear,
            DateFilter::LastYear => DateFilter::Last6Months,
            DateFilter::Last6Months => DateFilter::Last6Months,
        };
    }

    /// Widen the window by one step.
    pub fn cycle_left(&mut self)
        ensures
            *final(self) == old(self).spec_cycle_left(),
    {
        *self = match self {
            DateFilter::Last6Months => DateFilter::LastYear,
            DateFilter::LastYear => DateFilter::Last2Years,
            DateFilter::Last2Years => DateFilter::Any,
            DateFilter::Any => DateFilter::Any,
        };
    }

    pub fn reset(&mut self)
        ensures
            *final(self) == DateFilter::Any,
    {
        *self = DateFilter::Any;
    }

    pub open spec fn spec_months_back(&self) -> int {
        match self {
            DateFilter::Any => 0,
            DateFilter::Last6Months => 6,
            DateFilter::LastYear => 12,
            DateFilter::Last2Years => 24,
        }
    }

    /// The cutoff "YYYY-MM" for a window ending at the given month.
    pub open spec fn spec_cutoff(&self, now_year: int, now_month: int) -> Seq<char> {
        if *self == DateFilter::Any {
            "0000-00"@
        } else {
            let total = now_year * 12 + (now_month - 1) - self.spec_months_back();
            spec_format_ym(total / 12, total % 12 + 1)
        }
    }

    /// The earliest "YYYY-MM" still inside the window, counting back from
    /// the given month. For the (clock-unreachable) years above 9999 only
    /// the low four digits are printed, as `spec_format_ym` states.
    pub fn cutoff_from(&self, now_year: i32, now_month: i32) -> (r: String)
        requires
            1970 <= now_year <= 10010,
            1 <= now_month <= 12,
        ensures
            r@ == self.spec_cutoff(now_year as int, now_month as int),
    {
        let months_back: i32 = match self {
            DateFilter::Any => {
                let r = "0000-00".to_owned();
                return r;
            }
            DateFilter::Last6Months => 6,
            DateFilter::LastYear => 12,
            DateFilter::Last2Years => 24,
        };
        let total = now_year * 12 + (now_month - 1) - months_back;
        let y = total / 12;
        let m = total % 12 + 1;
        format_ym(y, m)
    }

    /// The cutoff computed from the system clock.
    pub fn cutoff_yyyy_mm(&self) -> (r: String)
        ensures
            *self == DateFilter::Any ==> r@ == "0000-00"@,
    {
        let (y, m) = current_year_month();
        self.cutoff_from(y, m)
    }

    /// Whether a release date passes the filter, against a given current
    /// month: the window filter keeps a date exactly when its first seven
    /// characters ("YYYY-MM") are at or past the cutoff; a missing or
    /// short date fails every active window.
    pub open spec fn spec_matches_at(
        &self,
        release_date: Option<Seq<char>>,
        now_year: int,
        now_month: int,
    ) -> bool {
        if *self == DateFilter::Any {
            true
        } else {
            match release_date {
                None => false,
                Some(d) => if d.len() < 7 {
                    false
                } else {
                    !lex_lt(d.subrange(0, 7), self.spec_cutoff(now_year, now_month))
                },
            }
        }
    }

    /// Whether a release date passes the filter, at an explicit current
    /// month.
    pub fn matches_at(&self, release_date: &Option<String>, now_year: i32, now_month: i32) -> (r:
        bool)
        requires
            1970 <= now_year <= 10010,
            1 <= now_month <= 12,
        ensures
            r == self.spec_matches_at(
                match release_date {
                    Some(d) => Some(d@),
                    None => None,
                },
                now_year as int,
                now_month as int,
            ),
    {
        if *self == DateFilter::Any {
            return true;
        }
        match release_date {
            None => false,
            Some(d) => {
                if d.as_str().unicode_len() < 7 {
                    false
                } else {
                    let head = d.as_str().substring_char(0, 7);
                    let cutoff = self.cutoff_from(now_year, now_month);
                    !str_lex_lt(head, cutoff.as_str())
                }
            }
        }
    }

    /// Whether a release date passes the filter, against the system
    /// clock: the pure predicate `spec_matches_at` evaluated at some
    /// calendar month in range. The inactive filter passes everything; an
    /// active window never passes a missing or short date.
    pub fn matches(&self, release_date: &Option<String>) -> (r: bool)
        ensures
            *self == DateFilter::Any ==> r,
            r ==> (*self == DateFilter::Any || (release_date matches Some(d) && d@.len() >= 7)),
            exists|y: int, m: int|
                1970 <= y <= 10010 && 1 <= m <= 12 && r == #[trigger] self.spec_matches_at(
                    spec_opt_str_view(*release_date),
                    y,
                    m,
                ),
    {
        let (y, m) = current_year_month();
        let r = self.matches_at(release_date, y, m);
        proof {
            assert(1970 <= y as int <= 10010 && 1 <= m as int <= 12 && r == self.spec_matches_at(
                spec_opt_str_view(*release_date),
                y as int,
                m as int,
            ));
        }
        r
    }
}

// ── The run-mode filter ─────────────────────────────────────────────

pub open spec fn spec_run_mode_at(i: int) -> RunMode {
    if i == 0 {
        RunMode::Gpu
    } else if i == 1 {
        RunMode::MoeOffload
    } else if i == 2 {
        RunMode::CpuOffload
    } else {
        RunMode::CpuOnly
    }
}

/// Keeps only models with one chosen run mode.
#[derive(Debug, Clone, Copy, PartialEq, Eq, Structural)]
pub struct ModeFilter {
    pub selected: Option<usize>,
}

impl ModeFilter {
    pub open spec fn wf(&self) -> bool {
        self.selected matches Some(i) ==> i < 4
    }

    pub fn new() -> (r: ModeFilter)
        ensures
            r.selected is None,
            r.wf(),
    {
        ModeFilter { selected: None }
    }

    pub fn is_active(&self) -> (r: bool)
        ensures
            r == (self.selected is Some),
    {
        self.selected.is_some()
    }

    pub open spec fn spec_label(&self) -> Seq<char> {
        match self.selected {
            None => "All"@,
            Some(i) => if i == 0 {
                "GPU"@
            } else if i == 1 {
                "MoE Off"@
            } else if i == 2 {
                "CPU Off"@
            } else {
                "CPU"@
            },
        }
    }

    pub fn label(&self) -> (r: &'static str)
        requires
            self.wf(),
        ensures
            r@ == self.spec_label(),
    {
        match self.selected {
            None => "All",
            Some(i) => {
                if i == 0 {
                    "GPU"
                } else if i == 1 {
                    "MoE Off"
                } else if i == 2 {
                    "CPU Off"
                } else {
                    "CPU"
                }
            }
        }
    }

    pub open spec fn spec_cycle_right(&self) -> ModeFilter {
        match self.selected {
            None => ModeFilter { selected: Some(0usize) },
            Some(i) => if i + 1 < 4 {
                ModeFilter { selected: Some((i + 1) as usize) }
            } else {
                ModeFilter { selected: None }
            },
        }
    }

    pub open spec fn spec_cycle_left(&self) -> ModeFilter {
        match self.selected {
            None => ModeFilter { selected: Some(3usize) },
            Some(i) => if i == 0 {
                ModeFilter { selected: None }
            } else {
                ModeFilter { selected: Some((i - 1) as usize) }
            },
        }
    }

    pub fn cycle_right(&mut self)
        requires
            old(self).wf(),
        ensures
            final(self).wf(),
            *final(self) == old(self).spec_cycle_right(),
    {
        self.selected = match self.selected {
            None => Some(0),
            Some(i) => if i + 1 < 4 {
                Some(i + 1)
            } else {
                None
            },
        };
    }

    pub fn cycle_left(&mut self)
        requires
            old(self).wf(),
        ensures
            final(self).wf(),
            *final(self) == old(self).spec_cycle_left(),
    {
        self.selected = match self.selected {
            None => Some(3),
            Some(i) => if i == 0 {
                None
            } else {
                Some(i - 1)
            },
        };
    }

    pub fn reset(&mut self)
        ensures
            final(self).selected is None,
            final(self).wf(),
    {
        self.selected = None;
    }

    /// Whether a run mode passes: everything when inactive, else exactly
    /// the selected mode.
    pub open spec fn spec_matches(&self, mode: RunMode) -> bool {
        match self.selected {
            None => true,
            Some(i) => mode == spec_run_mode_at(i as int),
        }
    }

    pub fn matches(&self, mode: RunMode) -> (r: bool)
        requires
            self.wf(),
        ensures
            r == self.spec_matches(mode),
    {
        match self.selected {
            None => true,
            Some(i) => {
                let m = if i == 0 {
                    RunMode::Gpu
                } else if i == 1 {
                    RunMode::MoeOffload
                } else if i == 2 {
                    RunMode::CpuOffload
                } else {
                    RunMode::CpuOnly
                };
                mode == m
            }
        }
    }
}

// ── The use-case filter ─────────────────────────────────────────────

pub open spec fn spec_use_case_at(i: int) -> UseCase {
    if i == 0 {
        UseCase::General
    } else if i == 1 {
        UseCase::Coding
    } else if i == 2 {
        UseCase::Reasoning
    } else if i == 3 {
        UseCase::Chat
    } else if i == 4 {
        UseCase::Multimodal
    } else {
        UseCase::Embedding
    }
}

fn use_case_at(i: usize) -> (r: UseCase)
    requires
        i < 6,
    ensures
        r == spec_use_case_at(i as int),
{
    if i == 0 {
        UseCase::General
    } else if i == 1 {
        UseCase::Coding
    } else if i == 2 {
        UseCase::Reasoning
    } else if i == 3 {
        UseCase::Chat
    } else if i == 4 {
        UseCase::Multimodal
    } else {
        UseCase::Embedding
    }
}

/// Keeps only models built for one chosen use case.
#[derive(Debug, Clone, Copy, PartialEq, Eq, Structural)]
pub struct UseCaseFilter {
    pub selected: Option<usize>,
}

impl UseCaseFilter {
    pub open spec fn wf(&self) -> bool {
        self.selected matches Some(i) ==> i < 6
    }

    pub fn new() -> (r: UseCaseFilter)
        ensures
            r.selected is None,
            r.wf(),
    {
        UseCaseFilter { selected: None }
    }

    pub fn is_active(&self) -> (r: bool)
        ensures
            r == (self.selected is Some),
    {
        self.selected.is_some()
    }

    pub open spec fn spec_label(&self) -> Seq<char> {
        match self.selected {
            None => "All"@,
            Some(i) => spec_use_case_at(i as int).spec_label(),
        }
    }

    pub fn label(&self) -> (r: &'static str)
        requires
            self.wf(),
        ensures
            r@ == self.spec_label(),
    {
        match self.selected {
            None => "All",
            Some(i) => use_case_at(i).label(),
        }
    }

    pub open spec fn spec_cycle_right(&self) -> UseCaseFilter {
        match self.selected {
            None => UseCaseFilter { selected: Some(0usize) },
            Some(i) => if i + 1 < 6 {
                UseCaseFilter { selected: Some((i + 1) as usize) }
            } else {
                UseCaseFilter { selected: None }
            },
        }
    }

    pub open spec fn spec_cycle_left(&self) -> UseCaseFilter {
        match self.selected {
            None => UseCaseFilter { selected: Some(5usize) },
            Some(i) => if i == 0 {
                UseCaseFilter { selected: None }
            } else {
                UseCaseFilter { selected: Some((i - 1) as usize) }
            },
        }
    }

    pub fn cycle_right(&mut self)
        requires
            old(self).wf(),
        ensures
            final(self).wf(),
            *final(self) == old(self).spec_cycle_right(),
    {
        self.selected = match self.selected {
            None => Some(0),
            Some(i) => if i + 1 < 6 {
                Some(i + 1)
            } else {
                None
            },
        };
    }

    pub fn cycle_left(&mut self)
        requires
            old(self).wf(),
        ensures
            final(self).wf(),
            *final(self) == old(self).spec_cycle_left(),
    {
        self.selected = match self.selected {
            None => Some(5),
            Some(i) => if i == 0 {
                None
            } else {
                Some(i - 1)
            },
        };
    }

    pub fn reset(&mut self)
        ensures
            final(self).selected is None,
            final(self).wf(),
    {
        self.selected = None;
    }

    /// Whether a use case passes: everything when inactive, else exactly
    /// the selected case.
    pub open spec fn spec_matches(&self, uc: UseCase) -> bool {
        match self.selected {
            None => true,
            Some(i) => uc == spec_use_case_at(i as int),
        }
    }

    pub fn matches(&self, uc: UseCase) -> (r: bool)
        requires
            self.wf(),
        ensures
            r == self.spec_matches(uc),
    {
        match self.selected {
            None => true,
            Some(i) => uc == use_case_at(i),
        }
    }
}

// ── The quantization filter ─────────────────────────────────────────

/// Keeps only models whose selected quantization has one chosen label,
/// out of a fixed list collected from the analyzed results.
#[derive(Debug)]
pub struct QuantFilter {
    pub values: Vec<String>,
    pub selected: Option<usize>,
}

impl QuantFilter {
    pub open spec fn wf(&self) -> bool {
        self.selected matches Some(i) ==> i < self.values@.len()
    }

    pub fn new(values: Vec<String>) -> (r: QuantFilter)
        ensures
            r.selected is None,
            r.values@ == values@,
            r.wf(),
    {
        QuantFilter { values, selected: None }
    }

    pub fn is_active(&self) -> (r: bool)
        ensures
            r == (self.selected is Some),
    {
        self.selected.is_some()
    }

    pub open spec fn spec_label(&self) -> Seq<char> {
        match self.selected {
            None => "All"@,
            Some(i) => self.values@[i as int]@,
        }
    }

    pub fn label(&self) -> (r: &str)
        requires
            self.wf(),
        ensures
            r@ == self.spec_label(),
    {
        match self.selected {
            None => "All",
            Some(i) => self.values[i].as_str(),
        }
    }

    pub open spec fn spec_cycle_right_sel(&self) -> Option<usize> {
        match self.selected {
            None => if self.values@.len() > 0 {
                Some(0usize)
            } else {
                None
            },
            Some(i) => if i + 1 < self.values@.len() {
                Some((i + 1) as usize)
            } else {
                None
            },
        }
    }

    pub open spec fn spec_cycle_left_sel(&self) -> Option<usize> {
        match self.selected {
            None => if self.values@.len() > 0 {
                Some((self.values@.len() - 1) as usize)
            } else {
                None
            },
            Some(i) => if i == 0 {
                None
            } else {
                Some((i - 1) as usize)
            },
        }
    }

    pub fn cycle_right(&mut self)
        requires
            old(self).wf(),
        ensures
            final(self).wf(),
            final(self).values@ == old(self).values@,
            final(self).selected == old(self).spec_cycle_right_sel(),
    {
        let l = self.values.len();
        self.selected = match self.selected {
            None => if l > 0 {
                Some(0)
            } else {
                None
            },
            Some(i) => if i + 1 < l {
                Some(i + 1)
            } else {
                None
            },
        };
    }

    pub fn cycle_left(&mut self)
        requires
            old(self).wf(),
        ensures
            final(self).wf(),
            final(self).values@ == old(self).values@,
            final(self).selected == old(self).spec_cycle_left_sel(),
    {
        self.selected = match self.selected {
            None => if self.values.len() > 0 {
                Some(self.values.len() - 1)
            } else {
                None
            },
            Some(i) => if i == 0 {
                None
            } else {
                Some(i - 1)
            },
        };
    }

    pub fn reset(&mut self)
        ensures
            final(self).selected is None,
            final(self).values@ == old(self).values@,
            final(self).wf(),
    {
        self.selected = None;
    }

    /// Whether a quantization label passes: everything when inactive,
    /// else exactly the selected label.
    pub open spec fn spec_matches(&self, quant: Seq<char>) -> bool {
        match self.selected {
            None => true,
            Some(i) => quant == self.values@[i as int]@,
        }
    }

    pub fn matches(&self, quant: &str) -> (r: bool)
        requires
            self.wf(),
        ensures
            r == self.spec_matches(quant@),
    {
        match self.selected {
            None => true,
            Some(i) => str_eq(quant, self.values[i].as_str()),
        }
    }
}


// ── Numeric threshold filters ───────────────────────────────────────

/// A numeric column filter that cycles through a fixed ladder of
/// thresholds, keeping rows at or above (or, for columns where smaller is
/// better, at or below) the selected step. Step zero means inactive.
#[derive(Debug)]
pub struct NumericFilter {
    /// The threshold ladder, in the engine's units for the column.
    pub steps: Vec<u64>,
    pub step_index: usize,
    /// True when the threshold is an upper bound.
    pub max_direction: bool,
    /// Engine units per displayed unit (e.g. 1000 for millions shown as
    /// billions).
    pub scale: u64,
    /// Display unit suffix.
    pub unit: String,
}

impl NumericFilter {
    pub open spec fn wf(&self) -> bool {
        &&& self.steps@.len() >= 1
        &&& self.step_index < self.steps@.len()
        &&& self.scale >= 1
    }

    pub fn new(steps: Vec<u64>, max_direction: bool, scale: u64, unit: &str) -> (r: NumericFilter)
        requires
            steps@.len() >= 1,
            scale >= 1,
        ensures
            r.steps@ == steps@,
            r.step_index == 0,
            r.max_direction == max_direction,
            r.scale == scale,
            r.unit@ == unit@,
            r.wf(),
    {
        NumericFilter { steps, step_index: 0, max_direction, scale, unit: unit.to_owned() }
    }

    pub fn is_active(&self) -> (r: bool)
        ensures
            r == (self.step_index > 0),
    {
        self.step_index > 0
    }

    /// "Any" when inactive, else the direction, threshold in display
    /// units, and unit suffix.
    pub open spec fn spec_label(&self) -> Seq<char> {
        if self.step_index == 0 {
            "Any"@
        } else {
            let dir: Seq<char> = if self.max_direction {
                "<= "@
            } else {
                ">= "@
            };
            dir + spec_u64_string((self.steps@[self.step_index as int] as int) / (self.scale as int))
                + self.unit@
        }
    }

    pub fn label(&self) -> (r: String)
        requires
            self.wf(),
        ensures
            r@ == self.spec_label(),
    {
        if self.step_index == 0 {
            "Any".to_owned()
        } else {
            let mut out: String = if self.max_direction {
                "<= ".to_owned()
            } else {
                ">= ".to_owned()
            };
            out.append(u64_to_string(self.steps[self.step_index] / self.scale).as_str());
            out.append(self.unit.as_str());
            out
        }
    }

    pub open spec fn spec_cycle_right_idx(&self) -> usize {
        if self.step_index + 1 < self.steps@.len() {
            (self.step_index + 1) as usize
        } else {
            self.step_index
        }
    }

    pub open spec fn spec_cycle_left_idx(&self) -> usize {
        if self.step_index > 0 {
            (self.step_index - 1) as usize
        } else {
            0
        }
    }

    pub fn cycle_right(&mut self)
        requires
            old(self).wf(),
        ensures
            final(self).wf(),
            final(self).steps@ == old(self).steps@,
            final(self).max_direction == old(self).max_direction,
            final(self).scale == old(self).scale,
            final(self).unit@ == old(self).unit@,
            final(self).step_index == old(self).spec_cycle_right_idx(),
    {
        let l = self.steps.len();
        if self.step_index + 1 < l {
            self.step_index = self.step_index + 1;
        }
    }

    pub fn cycle_left(&mut self)
        requires
            old(self).wf(),
        ensures
            final(self).wf(),
            final(self).steps@ == old(self).steps@,
            final(self).max_direction == old(self).max_direction,
            final(self).scale == old(self).scale,
            final(self).unit@ == old(self).unit@,
            final(self).step_index == old(self).spec_cycle_left_idx(),
    {
        if self.step_index > 0 {
            self.step_index = self.step_index - 1;
        }
    }

    pub fn reset(&mut self)
        requires
            old(self).wf(),
        ensures
            final(self).wf(),
            final(self).steps@ == old(self).steps@,
            final(self).max_direction == old(self).max_direction,
            final(self).scale == old(self).scale,
            final(self).unit@ == old(self).unit@,
            final(self).step_index == 0,
    {
        self.step_index = 0;
    }

    /// Whether a value passes: everything when inactive, else at most
    /// (for upper bounds) or at least the selected threshold.
    pub open spec fn spec_matches(&self, value: u64) -> bool {
        if self.step_index == 0 {
            true
        } else if self.max_direction {
            value <= self.steps@[self.step_index as int]
        } else {
            value >= self.steps@[self.step_index as int]
        }
    }

    pub fn matches(&self, value: u64) -> (r: bool)
        requires
            self.wf(),
        ensures
            r == self.spec_matches(value),
    {
        if self.step_index == 0 {
            true
        } else {
            let t = self.steps[self.step_index];
            if self.max_direction {
                value <= t
            } else {
                value >= t
            }
        }
    }
}


// ── All column filters of the results table ─────────────────────────

/// The number of filterable columns.
pub const FILTER_ROW_COUNT: usize = 9;

/// The display label of a filter row.
pub fn filter_row_label(row: usize) -> (r: &'static str)
    requires
        row < FILTER_ROW_COUNT,
{
    if row == 0 {
        "Score"
    } else if row == 1 {
        "tok/s"
    } else if row == 2 {
        "Params"
    } else if row == 3 {
        "Mem %"
    } else if row == 4 {
        "Ctx"
    } else if row == 5 {
        "Date"
    } else if row == 6 {
        "Mode"
    } else if row == 7 {
        "Quant"
    } else {
        "Use Case"
    }
}

/// Everything of a numeric filter but its position.
pub open spec fn numeric_same_config(a: NumericFilter, b: NumericFilter) -> bool {
    &&& a.steps@ == b.steps@
    &&& a.max_direction == b.max_direction
    &&& a.scale == b.scale
    &&& a.unit@ == b.unit@
}

pub open spec fn numeric_unchanged(a: NumericFilter, b: NumericFilter) -> bool {
    numeric_same_config(a, b) && a.step_index == b.step_index
}

pub open spec fn quant_unchanged(a: QuantFilter, b: QuantFilter) -> bool {
    crate::strutil::string_views(a.values@) == crate::strutil::string_views(b.values@)
        && a.selected == b.selected
}

/// One interactive filter per column of the results table.
pub struct ColumnFilters {
    pub score: NumericFilter,
    pub tps: NumericFilter,
    pub params: NumericFilter,
    pub mem_pct: NumericFilter,
    pub ctx: NumericFilter,
    pub date: DateFilter,
    pub mode: ModeFilter,
    pub quant: QuantFilter,
    pub use_case: UseCaseFilter,
}

/// Rows other than `row` are unchanged between `a` and `b`; the
/// quantization value list never changes.
pub open spec fn unchanged_except(a: ColumnFilters, b: ColumnFilters, row: int) -> bool {
    &&& (row != 0 ==> numeric_unchanged(a.score, b.score))
    &&& (row != 1 ==> numeric_unchanged(a.tps, b.tps))
    &&& (row != 2 ==> numeric_unchanged(a.params, b.params))
    &&& (row != 3 ==> numeric_unchanged(a.mem_pct, b.mem_pct))
    &&& (row != 4 ==> numeric_unchanged(a.ctx, b.ctx))
    &&& (row != 5 ==> a.date == b.date)
    &&& (row != 6 ==> a.mode == b.mode)
    &&& (row != 7 ==> quant_unchanged(a.quant, b.quant))
    &&& crate::strutil::string_views(a.quant.values@) == crate::strutil::string_views(
        b.quant.values@,
    )
    &&& (row != 8 ==> a.use_case == b.use_case)
}

impl ColumnFilters {
    pub open spec fn wf(&self) -> bool {
        &&& self.score.wf()
        &&& self.tps.wf()
        &&& self.params.wf()
        &&& self.mem_pct.wf()
        &&& self.ctx.wf()
        &&& self.mode.wf()
        &&& self.quant.wf()
        &&& self.use_case.wf()
    }

    /// All filters inactive, with the standard threshold ladders: score
    /// and memory percent in whole units, speed in tenths of tokens per
    /// second, parameters and context in thousands.
    pub fn new(quant_values: Vec<String>) -> (r: ColumnFilters)
        ensures
            r.wf(),
            !r.spec_any_active(),
            r.quant.values@ == quant_values@,
    {
        let mut score_steps: Vec<u64> = Vec::new();
        score_steps.push(0);
        score_steps.push(30);
        score_steps.push(50);
        score_steps.push(60);
        score_steps.push(70);
        score_steps.push(80);
        score_steps.push(90);
        let mut tps_steps: Vec<u64> = Vec::new();
        tps_steps.push(0);
        tps_steps.push(50);
        tps_steps.push(100);
        tps_steps.push(200);
        tps_steps.push(300);
        tps_steps.push(500);
        tps_steps.push(1000);
        let mut params_steps: Vec<u64> = Vec::new();
        params_steps.push(0);
        params_steps.push(1000);
        params_steps.push(3000);
        params_steps.push(7000);
        params_steps.push(13000);
        params_steps.push(30000);
        params_steps.push(70000);
        let mut mem_steps: Vec<u64> = Vec::new();
        mem_steps.push(200);
        mem_steps.push(100);
        mem_steps.push(90);
        mem_steps.push(80);
        mem_steps.push(70);
        mem_steps.push(50);
        let mut ctx_steps: Vec<u64> = Vec::new();
        ctx_steps.push(0);
        ctx_steps.push(4000);
        ctx_steps.push(8000);
        ctx_steps.push(16000);
        ctx_steps.push(32000);
        ctx_steps.push(64000);
        ctx_steps.push(128000);
        ColumnFilters {
            score: NumericFilter::new(score_steps, false, 1, ""),
            tps: NumericFilter::new(tps_steps, false, 10, ""),
            params: NumericFilter::new(params_steps, false, 1000, "B"),
            mem_pct: NumericFilter::new(mem_steps, true, 1, "%"),
            ctx: NumericFilter::new(ctx_steps, false, 1000, "k"),
            date: DateFilter::Any,
            mode: ModeFilter::new(),
            quant: QuantFilter::new(quant_values),
            use_case: UseCaseFilter::new(),
        }
    }

    pub open spec fn spec_active_count(&self) -> int {
        (if self.score.step_index > 0 { 1int } else { 0int })
            + (if self.tps.step_index > 0 { 1int } else { 0int })
            + (if self.params.step_index > 0 { 1int } else { 0int })
            + (if self.mem_pct.step_index > 0 { 1int } else { 0int })
            + (if self.ctx.step_index > 0 { 1int } else { 0int })
            + (if self.date != DateFilter::Any { 1int } else { 0int })
            + (if self.mode.selected is Some { 1int } else { 0int })
            + (if self.quant.selected is Some { 1int } else { 0int })
            + (if self.use_case.selected is Some { 1int } else { 0int })
    }

    pub open spec fn spec_any_active(&self) -> bool {
        self.spec_active_count() > 0
    }

    /// How many filters are active.
    pub fn active_count(&self) -> (r: usize)
        ensures
            r == self.spec_active_count(),
    {
        let mut n: usize = 0;
        if self.score.step_index > 0 {
            n = n + 1;
        }
        if self.tps.step_index > 0 {
            n = n + 1;
        }
        if self.params.step_index > 0 {
            n = n + 1;
        }
        if self.mem_pct.step_index > 0 {
            n = n + 1;
        }
        if self.ctx.step_index > 0 {
            n = n + 1;
        }
        if self.date.is_active() {
            n = n + 1;
        }
        if self.mode.is_active() {
            n = n + 1;
        }
        if self.quant.is_active() {
            n = n + 1;
        }
        if self.use_case.is_active() {
            n = n + 1;
        }
        n
    }

    pub fn reset_all(&mut self)
        requires
            old(self).wf(),
        ensures
            final(self).wf(),
            !final(self).spec_any_active(),
            crate::strutil::string_views(final(self).quant.values@) == crate::strutil::string_views(
                old(self).quant.values@,
            ),
    {
        self.score.reset();
        self.tps.reset();
        self.params.reset();
        self.mem_pct.reset();
        self.ctx.reset();
        self.date.reset();
        self.mode.reset();
        self.quant.reset();
        self.use_case.reset();
    }

    /// Whether one analyzed result passes every column filter, against a
    /// given current month for the date window.
    pub open spec fn spec_matches_at(
        &self,
        fit: crate::fit::ModelFitView,
        now_year: int,
        now_month: int,
    ) -> bool {
        &&& self.score.spec_matches(fit.score)
        &&& self.tps.spec_matches(fit.estimated_tps_tenths)
        &&& self.params.spec_matches(fit.model.params_m)
        &&& self.mem_pct.spec_matches(fit.utilization_pct)
        &&& self.ctx.spec_matches(fit.model.context_length as u64)
        &&& self.date.spec_matches_at(fit.model.release_date, now_year, now_month)
        &&& self.mode.spec_matches(fit.run_mode)
        &&& self.quant.spec_matches(fit.best_quant)
        &&& self.use_case.spec_matches(fit.use_case)
    }

    pub fn matches_at(&self, fit: &crate::fit::ModelFit, now_year: i32, now_month: i32) -> (r:
        bool)
        requires
            self.wf(),
            1970 <= now_year <= 10010,
            1 <= now_month <= 12,
        ensures
            r == self.spec_matches_at(fit@, now_year as int, now_month as int),
    {
        self.score.matches(fit.score) && self.tps.matches(fit.estimated_tps_tenths)
            && self.params.matches(fit.model.params_m) && self.mem_pct.matches(fit.utilization_pct)
            && self.ctx.matches(fit.model.context_length as u64) && self.date.matches_at(
            &fit.model.release_date,
            now_year,
            now_month,
        ) && self.mode.matches(fit.run_mode) && self.quant.matches(fit.best_quant.as_str())
            && self.use_case.matches(fit.use_case)
    }

    /// Clock-based form: the pure predicate `spec_matches_at` evaluated
    /// at some calendar month in range; with the date filter inactive the
    /// month is irrelevant and the result is exactly the pure predicate.
    pub fn matches(&self, fit: &crate::fit::ModelFit) -> (r: bool)
        requires
            self.wf(),
        ensures
            self.date == DateFilter::Any ==> r == self.spec_matches_at(fit@, 1970, 1),
            exists|y: int, m: int|
                1970 <= y <= 10010 && 1 <= m <= 12 && r == #[trigger] self.spec_matches_at(
                    fit@,
                    y,
                    m,
                ),
    {
        let (y, m) = current_year_month();
        let r = self.matches_at(fit, y, m);
        proof {
            assert(1970 <= y as int <= 10010 && 1 <= m as int <= 12 && r == self.spec_matches_at(
                fit@,
                y as int,
                m as int,
            ));
        }
        r
    }

    pub fn row_is_active(&self, row: usize) -> (r: bool)
        requires
            row < FILTER_ROW_COUNT,
        ensures
            r == if row == 0 {
                self.score.step_index > 0
            } else if row == 1 {
                self.tps.step_index > 0
            } else if row == 2 {
                self.params.step_index > 0
            } else if row == 3 {
                self.mem_pct.step_index > 0
            } else if row == 4 {
                self.ctx.step_index > 0
            } else if row == 5 {
                self.date != DateFilter::Any
            } else if row == 6 {
                self.mode.selected is Some
            } else if row == 7 {
                self.quant.selected is Some
            } else {
                self.use_case.selected is Some
            },
    {
        if row == 0 {
            self.score.is_active()
        } else if row == 1 {
            self.tps.is_active()
        } else if row == 2 {
            self.params.is_active()
        } else if row == 3 {
            self.mem_pct.is_active()
        } else if row == 4 {
            self.ctx.is_active()
        } else if row == 5 {
            self.date.is_active()
        } else if row == 6 {
            self.mode.is_active()
        } else if row == 7 {
            self.quant.is_active()
        } else {
            self.use_case.is_active()
        }
    }

    /// The current setting of a filter row, as shown beside its label.
    pub fn row_value_label(&self, row: usize) -> (r: String)
        requires
            self.wf(),
            row < FILTER_ROW_COUNT,
        ensures
            r@ == if row == 0 {
                self.score.spec_label()
            } else if row == 1 {
                self.tps.spec_label()
            } else if row == 2 {
                self.params.spec_label()
            } else if row == 3 {
                self.mem_pct.spec_label()
            } else if row == 4 {
                self.ctx.spec_label()
            } else if row == 5 {
                self.date.spec_label()
            } else if row == 6 {
                self.mode.spec_label()
            } else if row == 7 {
                self.quant.spec_label()
            } else {
                self.use_case.spec_label()
            },
    {
        if row == 0 {
            self.score.label()
        } else if row == 1 {
            self.tps.label()
        } else if row == 2 {
            self.params.label()
        } else if row == 3 {
            self.mem_pct.label()
        } else if row == 4 {
            self.ctx.label()
        } else if row == 5 {
            self.date.label().to_owned()
        } else if row == 6 {
            self.mode.label().to_owned()
        } else if row == 7 {
            self.quant.label().to_owned()
        } else {
            self.use_case.label().to_owned()
        }
    }

    /// Tighten the filter of one row by a step.
    pub fn adjust_right(&mut self, row: usize)
        requires
            old(self).wf(),
            row < FILTER_ROW_COUNT,
        ensures
            final(self).wf(),
            unchanged_except(*old(self), *final(self), row as int),
            row == 0 ==> numeric_same_config(old(self).score, final(self).score) && final(self).score.step_index == old(self).score.spec_cycle_right_idx(),
            row == 1 ==> numeric_same_config(old(self).tps, final(self).tps) && final(self).tps.step_index == old(self).tps.spec_cycle_right_idx(),
            row == 2 ==> numeric_same_config(old(self).params, final(self).params) && final(self).params.step_index == old(self).params.spec_cycle_right_idx(),
            row == 3 ==> numeric_same_config(old(self).mem_pct, final(self).mem_pct) && final(self).mem_pct.step_index == old(self).mem_pct.spec_cycle_right_idx(),
            row == 4 ==> numeric_same_config(old(self).ctx, final(self).ctx) && final(self).ctx.step_index == old(self).ctx.spec_cycle_right_idx(),
            row == 5 ==> final(self).date == old(self).date.spec_cycle_right(),
            row == 6 ==> final(self).mode == old(self).mode.spec_cycle_right(),
            row == 7 ==> final(self).quant.selected == old(self).quant.spec_cycle_right_sel(),
            row == 8 ==> final(self).use_case == old(self).use_case.spec_cycle_right(),
    {
        if row == 0 {
            self.score.cycle_right()
        } else if row == 1 {
            self.tps.cycle_right()
        } else if row == 2 {
            self.params.cycle_right()
        } else if row == 3 {
            self.mem_pct.cycle_right()
        } else if row == 4 {
            self.ctx.cycle_right()
        } else if row == 5 {
            self.date.cycle_right()
        } else if row == 6 {
            self.mode.cycle_right()
        } else if row == 7 {
            self.quant.cycle_right()
        } else {
            self.use_case.cycle_right()
        }
    }

    /// Widen the filter of one row by a step.
    pub fn adjust_left(&mut self, row: usize)
        requires
            old(self).wf(),
            row < FILTER_ROW_COUNT,
        ensures
            final(self).wf(),
            unchanged_except(*old(self), *final(self), row as int),
            row == 0 ==> numeric_same_config(old(self).score, final(self).score) && final(self).score.step_index == old(self).score.spec_cycle_left_idx(),
            row == 1 ==> numeric_same_config(old(self).tps, final(self).tps) && final(self).tps.step_index == old(self).tps.spec_cycle_left_idx(),
            row == 2 ==> numeric_same_config(old(self).params, final(self).params) && final(self).params.step_index == old(self).params.spec_cycle_left_idx(),
            row == 3 ==> numeric_same_config(old(self).mem_pct, final(self).mem_pct) && final(self).mem_pct.step_index == old(self).mem_pct.spec_cycle_left_idx(),
            row == 4 ==> numeric_same_config(old(self).ctx, final(self).ctx) && final(self).ctx.step_index == old(self).ctx.spec_cycle_left_idx(),
            row == 5 ==> final(self).date == old(self).date.spec_cycle_left(),
            row == 6 ==> final(self).mode == old(self).mode.spec_cycle_left(),
            row == 7 ==> final(self).quant.selected == old(self).quant.spec_cycle_left_sel(),
            row == 8 ==> final(self).use_case == old(self).use_case.spec_cycle_left(),
    {
        if row == 0 {
            self.score.cycle_left()
        } else if row == 1 {
            self.tps.cycle_left()
        } else if row == 2 {
            self.params.cycle_left()
        } else if row == 3 {
            self.mem_pct.cycle_left()
        } else if row == 4 {
            self.ctx.cycle_left()
        } else if row == 5 {
            self.date.cycle_left()
        } else if row == 6 {
            self.mode.cycle_left()
        } else if row == 7 {
            self.quant.cycle_left()
        } else {
            self.use_case.cycle_left()
        }
    }

    /// Clear the filter of one row.
    pub fn reset_row(&mut self, row: usize)
        requires
            old(self).wf(),
            row < FILTER_ROW_COUNT,
        ensures
            final(self).wf(),
            unchanged_except(*old(self), *final(self), row as int),
            !final(self).row_active_spec(row as int),
    {
        if row == 0 {
            self.score.reset()
        } else if row == 1 {
            self.tps.reset()
        } else if row == 2 {
            self.params.reset()
        } else if row == 3 {
            self.mem_pct.reset()
        } else if row == 4 {
            self.ctx.reset()
        } else if row == 5 {
            self.date.reset()
        } else if row == 6 {
            self.mode.reset()
        } else if row == 7 {
            self.quant.reset()
        } else {
            self.use_case.reset()
        }
    }

    /// Whether the filter of one row is active.
    pub open spec fn row_active_spec(&self, row: int) -> bool {
        if row == 0 {
            self.score.step_index > 0
        } else if row == 1 {
            self.tps.step_index > 0
        } else if row == 2 {
            self.params.step_index > 0
        } else if row == 3 {
            self.mem_pct.step_index > 0
        } else if row == 4 {
            self.ctx.step_index > 0
        } else if row == 5 {
            self.date != DateFilter::Any
        } else if row == 6 {
            self.mode.selected is Some
        } else if row == 7 {
            self.quant.selected is Some
        } else {
            self.use_case.selected is Some
        }
    }
}

} // verus!
