//! The challenge countdown: elapsed and remaining time against an install
//! instant and a target duration, shown as a second block beside the panel.
use crate::align::aligned_spans;
use crate::align::aligned_line;
use crate::config::DisplayConfig;
use crate::gauge::{draw_progress, gauge_spans, ProgressColorScheme};
use crate::layout::{placements_view, rows_within, Placement, PlacementView, GAUGE_CELLS};
use crate::text::{
    decimal, decimal_text, pad_left, plain, right_justify, spans_view, tinted, tinted_bold, Span,
    SpanView, GREEN, MAGENTA,
};
use vstd::arithmetic::div_mod::{lemma_fundamental_div_mod, lemma_fundamental_div_mod_converse};
use vstd::prelude::*;
use vstd::string::StringExecFns;

verus! {

pub const SECS_PER_DAY: i128 = 86400;

/// Midnight (UTC) of the day that `s` writes as `YYYY-MM-DD`, in seconds since
/// the Unix epoch; none when `s` is not such a date.
pub uninterp spec fn ymd_midnight(s: Seq<char>) -> Option<i64>;

/// The UTC calendar date of an instant, written `YYYY-MM-DD`.
pub uninterp spec fn ymd_text(secs: i64) -> Seq<char>;

/// Relies on chrono's `NaiveDate::parse_from_str(s, "%Y-%m-%d")`, then
/// `and_time(NaiveTime::MIN).and_utc().timestamp()`: the instant of that date's
/// midnight, or none when chrono refuses the text.
#[verifier::external_body]
pub(crate) fn parse_ymd(s: &str) -> (r: Option<i64>)
    ensures
        r == ymd_midnight(s@),
{
    match chrono::NaiveDate::parse_from_str(s, "%Y-%m-%d") {
        Ok(d) => Some(d.and_time(chrono::NaiveTime::MIN).and_utc().timestamp()),
        Err(_) => None,
    }
}

/// Relies on chrono's `DateTime::from_timestamp(secs, 0)` and
/// `format("%Y-%m-%d")`: the date of the instant; chrono has none only for
/// instants more than about 262 000 years from the epoch.
#[verifier::external_body]
fn date_label(secs: i64) -> (r: Option<String>)
    ensures
        r matches Some(t) ==> t@ == ymd_text(secs),
        -8_000_000_000_000 <= secs <= 8_000_000_000_000 ==> r is Some,
{
    match chrono::DateTime::from_timestamp(secs, 0) {
        Some(d) => Some(d.format("%Y-%m-%d").to_string()),
        None => None,
    }
}

pub open spec fn non_negative(x: int) -> int {
    if x < 0 {
        0
    } else {
        x
    }
}

/// Days in a window of `years` and `months` (negative counts taken as 0): 365
/// per year and 30.44 per month, the months' total rounded to the nearest day.
pub open spec fn total_challenge_days(years: int, months: int) -> int {
    365 * non_negative(years) + (3044 * non_negative(months) + 50) / 100
}

/// Whole days from one instant to another, rounded down.
pub open spec fn days_between(from: int, to: int) -> int {
    (to - from) / 86400
}

/// Share of the window that has passed, in percent, rounded down and held to
/// 0..=100; an empty window counts as complete.
pub open spec fn progress_percent(days_old: int, total_days: int) -> int {
    if total_days <= 0 {
        100
    } else {
        let q = 100 * days_old / total_days;
        if q < 0 {
            0
        } else if q > 100 {
            100
        } else {
            q
        }
    }
}

/// Seconds from `now` to the end of the window.
pub open spec fn remaining_secs(install: int, total_days: int, now: int) -> int {
    install + total_days * 86400 - now
}

/// Where a challenge stands at one instant.
#[derive(Clone, Copy)]
pub struct ChallengeStatus {
    pub total_days: i128,
    pub days_old: i128,
    pub progress: i32,
    /// Whole days and the hours past them until the end; none once complete.
    pub time_left: Option<(i128, i128)>,
}

impl ChallengeStatus {
    /// The status of a window of `years` and `months` from `install`, at `now`.
    #[verifier::opaque]
    pub open spec fn of(years: int, months: int, install: int, now: int) -> ChallengeStatus {
        let total = total_challenge_days(years, months);
        let old = days_between(install, now);
        let rem = remaining_secs(install, total, now);
        ChallengeStatus {
            total_days: total as i128,
            days_old: old as i128,
            progress: progress_percent(old, total) as i32,
            time_left: if rem <= 0 {
                None
            } else {
                Some(((rem / 86400) as i128, ((rem / 3600) % 24) as i128))
            },
        }
    }

    pub open spec fn is_complete(&self) -> bool {
        self.time_left is None
    }
}

/// `a / d` rounded down, for a positive divisor.
fn floor_div(a: i128, d: i128) -> (r: i128)
    requires
        d > 0,
    ensures
        r == a / d,
{
    if a >= 0 {
        a / d
    } else {
        let b = -(a + 1);
        let q = b / d;
        proof {
            lemma_fundamental_div_mod(b as int, d as int);
            let rr = b % d;
            assert(0 <= rr < d);
            assert(a == (-q - 1) * d + (d - rr - 1)) by (nonlinear_arith)
                requires
                    b == d * q + rr,
                    b == -(a + 1),
            ;
            lemma_fundamental_div_mod_converse(a as int, d as int, -q - 1, d - rr - 1);
        }
        -q - 1
    }
}

/// The window's length, elapsed days, progress and time left, for a window of
/// `years` and `months` (negative counts taken as 0) that began at `install`,
/// seen at `now` (both in seconds since the Unix epoch). The challenge is
/// complete when the end of the window is not after `now`.
pub fn challenge_status(years: i64, months: i64, install: i64, now: i64) -> (r: ChallengeStatus)
    ensures
        r == ChallengeStatus::of(years as int, months as int, install as int, now as int),
{
    reveal(ChallengeStatus::of);
    let y: i128 = if years < 0 { 0 } else { years as i128 };
    let m: i128 = if months < 0 { 0 } else { months as i128 };
    let total = 365 * y + (3044 * m + 50) / 100;
    let old = floor_div(now as i128 - install as i128, SECS_PER_DAY);
    proof {
        assert(0 <= (3044 * m + 50) / 100 <= 3044 * m + 50) by (nonlinear_arith)
            requires
                m >= 0,
        ;
        lemma_fundamental_div_mod(now - install, 86400);
    }
    let progress: i32 = if total <= 0 {
        100
    } else {
        let q = floor_div(100 * old, total);
        if q < 0 {
            0
        } else if q > 100 {
            100
        } else {
            q as i32
        }
    };
    let rem = install as i128 + total * SECS_PER_DAY - now as i128;
    let time_left = if rem <= 0 {
        None
    } else {
        Some((rem / SECS_PER_DAY, (rem / 3600) % 24))
    };
    ChallengeStatus { total_days: total, days_old: old, progress, time_left }
}

/// Labels of the challenge block are right-justified to this width, that of
/// the longest one, "Current Age".
pub const CHALLENGE_LABEL_WIDTH: usize = 11;

/// Column of the challenge block's labels.
pub const CHALLENGE_COL: u64 = 50;

pub open spec fn age_value(days_old: int) -> Seq<char> {
    decimal_text(days_old) + " days"@
}

pub open spec fn time_left_value(days: int, hours: int) -> Seq<char> {
    decimal_text(days) + " days, "@ + decimal_text(hours) + " hours"@
}

/// The status line: "Challenge Complete!" once complete, otherwise the days
/// and hours left.
pub open spec fn status_line_view(s: ChallengeStatus) -> Seq<SpanView> {
    match s.time_left {
        None => aligned_spans(
            "Status"@,
            CHALLENGE_LABEL_WIDTH as nat,
            0,
            ("Challenge Complete!"@, Some(GREEN), true),
        ),
        Some(t) => aligned_spans(
            "Time Left"@,
            CHALLENGE_LABEL_WIDTH as nat,
            0,
            (time_left_value(t.0 as int, t.1 as int), Some(MAGENTA), false),
        ),
    }
}

pub open spec fn progress_line_view(progress: int) -> Seq<SpanView> {
    seq![(pad_left(decimal_text(progress), 3) + "% "@, None::<u8>, false)] + gauge_spans(
        progress,
        GAUGE_CELLS as nat,
        ProgressColorScheme::Challenge,
    )
}

/// The block: install date, current age and status on three rows from
/// `start`, at column 50, then the progress gauge on the next row, three
/// columns further right.
#[verifier::opaque]
pub open spec fn challenge_block_view(s: ChallengeStatus, installed: Seq<char>, start: u64) -> Seq<
    PlacementView,
> {
    seq![
        (
            Some(start),
            CHALLENGE_COL,
            aligned_spans(
                "Installed"@,
                CHALLENGE_LABEL_WIDTH as nat,
                0,
                (installed, None::<u8>, false),
            ),
        ),
        (
            Some((start + 1) as u64),
            CHALLENGE_COL,
            aligned_spans(
                "Current Age"@,
                CHALLENGE_LABEL_WIDTH as nat,
                0,
                (age_value(s.days_old as int), None::<u8>, false),
            ),
        ),
        (Some((start + 2) as u64), CHALLENGE_COL, status_line_view(s)),
        (
            Some((start + 3) as u64),
            (CHALLENGE_COL + CHALLENGE_LABEL_WIDTH - 8) as u64,
            progress_line_view(s.progress as int),
        ),
    ]
}

fn placed(row: u64, col: u64, spans: Vec<Span>) -> (r: Placement)
    ensures
        r@ == (Some(row), col, spans_view(spans@)),
{
    Placement { row: Some(row), col, spans }
}

/// The challenge block for `status`, with `installed` as the install date,
/// from row `start_row`; returns the row of its last line with the block.
pub fn challenge_block(status: &ChallengeStatus, installed: &str, start_row: u64) -> (r: (
    u64,
    Vec<Placement>,
))
    requires
        start_row <= u64::MAX - 3,
    ensures
        r.0 == start_row + 3,
        placements_view(r.1@) == challenge_block_view(*status, installed@, start_row),
        rows_within(placements_view(r.1@), start_row as int, start_row + 4),
{
    reveal(challenge_block_view);
    let w = CHALLENGE_LABEL_WIDTH;
    let installed_line = aligned_line("Installed", w, 0, plain(String::from_str(installed)));
    let mut age = decimal(status.days_old);
    age.append(" days");
    let age_line = aligned_line("Current Age", w, 0, plain(age));
    let status_line = match status.time_left {
        None => aligned_line(
            "Status",
            w,
            0,
            tinted_bold(String::from_str("Challenge Complete!"), GREEN),
        ),
        Some((days, hours)) => {
            let mut left = decimal(days);
            left.append(" days, ");
            left.append(decimal(hours).as_str());
            left.append(" hours");
            proof {
                assert(left@ == time_left_value(days as int, hours as int));
            }
            aligned_line("Time Left", w, 0, tinted(left, MAGENTA))
        },
    };
    proof {
        assert(spans_view(status_line@) == status_line_view(*status));
        assert(spans_view(age_line@) == aligned_spans(
            "Current Age"@,
            CHALLENGE_LABEL_WIDTH as nat,
            0,
            (age_value(status.days_old as int), None::<u8>, false),
        ));
    }
    let mut head = right_justify(decimal(status.progress as i128).as_str(), 3);
    head.append("% ");
    let mut progress_line = vec![plain(head)];
    let mut bar = draw_progress(status.progress, GAUGE_CELLS, ProgressColorScheme::Challenge);
    let ghost hv = spans_view(progress_line@);
    let ghost bv = spans_view(bar@);
    progress_line.append(&mut bar);
    proof {
        assert(spans_view(progress_line@) =~= hv + bv);
    }
    let out = vec![
        placed(start_row, CHALLENGE_COL, installed_line),
        placed(start_row + 1, CHALLENGE_COL, age_line),
        placed(start_row + 2, CHALLENGE_COL, status_line),
        placed(start_row + 3, CHALLENGE_COL + w as u64 - 8, progress_line),
    ];
    proof {
        let v = challenge_block_view(*status, installed@, start_row);
        assert(spans_view(progress_line@) =~= progress_line_view(status.progress as int));
        assert(out@[0]@ == v[0]);
        assert(out@[1]@ == v[1]);
        assert(out@[2]@ == v[2]);
        assert(out@[3]@ == v[3]);
        assert(placements_view(out@) =~= v);
    }
    (start_row + 3, out)
}

/// The number of the day that holds instant `secs`, counted from the epoch.
pub fn day_number(secs: i64) -> (r: i64)
    ensures
        r == secs / 86400,
{
    proof {
        lemma_fundamental_div_mod(secs as int, 86400);
    }
    floor_div(secs as i128, SECS_PER_DAY) as i64
}

/// The install instant: the custom date's midnight when one is set and reads
/// as a date, otherwise `fallback`.
pub open spec fn resolved_install(custom: Option<Seq<char>>, fallback: i64) -> i64 {
    match custom {
        Some(s) => match ymd_midnight(s) {
            Some(t) => t,
            None => fallback,
        },
        None => fallback,
    }
}

pub open spec fn custom_date_view(c: &DisplayConfig) -> Option<Seq<char>> {
    match c.custom_install_date {
        Some(s) => Some(s@),
        None => None,
    }
}

/// The install instant: the configured custom date when it reads as
/// `YYYY-MM-DD`, otherwise `fallback` (the file-system timestamp).
pub fn get_install_time(display_config: &DisplayConfig, fallback: i64) -> (r: i64)
    ensures
        r == resolved_install(custom_date_view(display_config), fallback),
{
    match &display_config.custom_install_date {
        Some(s) => match parse_ymd(s.as_str()) {
            Some(t) => t,
            None => fallback,
        },
        None => fallback,
    }
}

/// The challenge block for a window of `years` and `months`, at `now`, from
/// row `start_row`. The install instant is the custom date of
/// `display_config` when it reads as a date, else `fallback`. Returns the row
/// of the block's last line with the block. The date is shown as chrono writes
/// it, or "Unknown" for an instant chrono cannot represent.
pub fn run_challenge_countdown(
    years: i64,
    months: i64,
    start_row: u64,
    display_config: &DisplayConfig,
    fallback: i64,
    now: i64,
) -> (r: (u64, Vec<Placement>))
    requires
        start_row <= u64::MAX - 3,
    ensures
        r.0 == start_row + 3,
        rows_within(placements_view(r.1@), start_row as int, start_row + 4),
        ({
            let install = resolved_install(custom_date_view(display_config), fallback);
            let s = ChallengeStatus::of(years as int, months as int, install as int, now as int);
            &&& -8_000_000_000_000 <= install <= 8_000_000_000_000 ==> placements_view(r.1@)
                == challenge_block_view(s, ymd_text(install), start_row)
            &&& placements_view(r.1@) == challenge_block_view(s, ymd_text(install), start_row)
                || placements_view(r.1@) == challenge_block_view(s, "Unknown"@, start_row)
        }),
{
    let install = get_install_time(display_config, fallback);
    let status = challenge_status(years, months, install, now);
    let label = match date_label(install) {
        Some(t) => t,
        None => String::from_str("Unknown"),
    };
    challenge_block(&status, label.as_str(), start_row)
}

/// A window of no years and no months is complete from the start: its
/// progress is 100%, with no division by zero, whatever the instants, and the
/// block's gauge line shows 100%.
pub proof fn lemma_empty_window_complete(install: int, now: int, installed: Seq<char>, start: u64)
    requires
        start <= u64::MAX - 3,
    ensures
        total_challenge_days(0, 0) == 0,
        progress_percent(days_between(install, now), total_challenge_days(0, 0)) == 100,
        ChallengeStatus::of(0, 0, install, now).progress == 100,
        challenge_block_view(ChallengeStatus::of(0, 0, install, now), installed, start)[3]
            == (Some((start + 3) as u64), 53u64, progress_line_view(100)),
{
    reveal(ChallengeStatus::of);
    reveal(challenge_block_view);
}

/// A one-year window seen 400 days after the install is complete: the age
/// line shows 400 days, the status line "Challenge Complete!", and no time is
/// left.
pub proof fn lemma_one_year_after_400_days(install: int, now: int, installed: Seq<char>, start: u64)
    requires
        now - install == 400 * 86400,
        start <= u64::MAX - 3,
    ensures
        ({
            let s = ChallengeStatus::of(1, 0, install, now);
            let v = challenge_block_view(s, installed, start);
            &&& s.total_days == 365
            &&& s.days_old == 400
            &&& s.progress == 100
            &&& s.is_complete()
            &&& v[1].2 == aligned_spans(
                "Current Age"@,
                CHALLENGE_LABEL_WIDTH as nat,
                0,
                (age_value(400), None::<u8>, false),
            )
            &&& v[2].2 == aligned_spans(
                "Status"@,
                CHALLENGE_LABEL_WIDTH as nat,
                0,
                ("Challenge Complete!"@, Some(GREEN), true),
            )
        }),
{
    reveal(ChallengeStatus::of);
    reveal(challenge_block_view);
    assert((400 * 86400) / 86400 == 400);
    assert(100 * 400 / 365 == 109);
}

/// A two-year window seen 100 days after the install runs 730 days, is 13%
/// done, and has 630 days and 0 hours left, shown on a "Time Left" line.
pub proof fn lemma_two_years_after_100_days(install: int, now: int, installed: Seq<char>, start: u64)
    requires
        now - install == 100 * 86400,
        start <= u64::MAX - 3,
    ensures
        ({
            let s = ChallengeStatus::of(2, 0, install, now);
            let v = challenge_block_view(s, installed, start);
            &&& s.total_days == 730
            &&& s.days_old == 100
            &&& s.progress == 13
            &&& s.time_left == Some((630i128, 0i128))
            &&& v[2].2 == aligned_spans(
                "Time Left"@,
                CHALLENGE_LABEL_WIDTH as nat,
                0,
                (time_left_value(630, 0), Some(MAGENTA), false),
            )
            &&& v[3].2 == progress_line_view(13)
        }),
{
    reveal(ChallengeStatus::of);
    reveal(challenge_block_view);
    assert((100 * 86400) / 86400 == 100);
    assert(100 * 100 / 730 == 13);
    assert(install + 730 * 86400 - now == 630 * 86400);
    assert((630 * 86400) / 86400 == 630);
    assert(((630 * 86400) / 3600) % 24 == 0);
}

} // verus!
