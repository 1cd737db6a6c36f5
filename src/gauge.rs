//! Percentage gauges: a bar of `width` cells, the filled part coloured by tier.
use crate::text::{
    lemma_repeat_len, repeat_seq, repeat_str, spans_view, tinted, Span, SpanView, CYAN,
    DARK_CYAN, DARK_GREEN, DARK_GREY, DARK_RED, DARK_YELLOW, GREEN, RED, YELLOW,
};
use vstd::prelude::*;

verus! {

/// Which colour ramp a gauge uses: system load reads "high is bad", challenge
/// progress reads "high is good".
#[derive(PartialEq, Eq, Structural, Clone, Copy)]
pub enum ProgressColorScheme {
    System,
    Challenge,
}

pub open spec fn clamp_percent(p: int) -> int {
    if p < 0 {
        0
    } else if p > 100 {
        100
    } else {
        p
    }
}

/// Filled cells of a bar of `width` cells at `percent` (clamped to 0..=100).
pub open spec fn filled_cells(percent: int, width: int) -> int {
    clamp_percent(percent) * width / 100
}

pub open spec fn empty_cells(percent: int, width: int) -> int {
    width - filled_cells(percent, width)
}

/// Colour tier of a percentage: 5 from 90, 4 from 70, 3 from 50, 2 from 30, else 1.
pub open spec fn tier_of(percent: int) -> int {
    if percent >= 90 {
        5
    } else if percent >= 70 {
        4
    } else if percent >= 50 {
        3
    } else if percent >= 30 {
        2
    } else {
        1
    }
}

pub open spec fn tier_color_spec(scheme: ProgressColorScheme, tier: int) -> u8 {
    match scheme {
        ProgressColorScheme::System => {
            if tier == 5 {
                DARK_RED
            } else if tier == 4 {
                RED
            } else if tier == 3 {
                YELLOW
            } else if tier == 2 {
                DARK_GREEN
            } else {
                GREEN
            }
        },
        ProgressColorScheme::Challenge => {
            if tier == 5 {
                GREEN
            } else if tier == 4 {
                DARK_GREEN
            } else if tier == 3 {
                DARK_YELLOW
            } else if tier == 2 {
                DARK_CYAN
            } else {
                CYAN
            }
        },
    }
}

/// The spans of a gauge: the filled cells in the tier colour, then the empty
/// cells in dark grey.
pub open spec fn gauge_spans(percent: int, width: nat, scheme: ProgressColorScheme) -> Seq<
    SpanView,
> {
    let p = clamp_percent(percent);
    let filled = filled_cells(percent, width as int);
    seq![
        (repeat_seq("━"@, filled as nat), Some(tier_color_spec(scheme, tier_of(p))), false),
        (repeat_seq("━"@, (width - filled) as nat), Some(DARK_GREY), false),
    ]
}

pub fn clamp_percent_exec(percent: i32) -> (r: i32)
    ensures
        r == clamp_percent(percent as int),
{
    if percent < 0 {
        0
    } else if percent > 100 {
        100
    } else {
        percent
    }
}

pub fn tier(percent: i32) -> (r: u8)
    ensures
        r == tier_of(percent as int),
{
    if percent >= 90 {
        5
    } else if percent >= 70 {
        4
    } else if percent >= 50 {
        3
    } else if percent >= 30 {
        2
    } else {
        1
    }
}

/// The colour of the filled part of a gauge at colour tier `tier`.
pub fn tier_color(scheme: ProgressColorScheme, tier: u8) -> (r: u8)
    ensures
        r == tier_color_spec(scheme, tier as int),
{
    match scheme {
        ProgressColorScheme::System => {
            if tier == 5 {
                DARK_RED
            } else if tier == 4 {
                RED
            } else if tier == 3 {
                YELLOW
            } else if tier == 2 {
                DARK_GREEN
            } else {
                GREEN
            }
        },
        ProgressColorScheme::Challenge => {
            if tier == 5 {
                GREEN
            } else if tier == 4 {
                DARK_GREEN
            } else if tier == 3 {
                DARK_YELLOW
            } else if tier == 2 {
                DARK_CYAN
            } else {
                CYAN
            }
        },
    }
}

/// The number of filled cells never exceeds the width, whatever the percentage.
pub proof fn lemma_filled_within(percent: int, width: int)
    requires
        width >= 0,
    ensures
        0 <= filled_cells(percent, width) <= width,
        0 <= empty_cells(percent, width) <= width,
{
    let p = clamp_percent(percent);
    assert(0 <= p * width <= 100 * width) by (nonlinear_arith)
        requires
            0 <= p <= 100,
            width >= 0,
    ;
    assert(p * width / 100 <= width) by (nonlinear_arith)
        requires
            0 <= p * width <= 100 * width,
    ;
}

/// For a percentage in 0..=100 and any width, the filled and empty cells make
/// up the width, and the filled ones are `floor(percent * width / 100)`.
pub proof fn lemma_gauge_split(percent: int, width: int)
    requires
        0 <= percent <= 100,
        width >= 0,
    ensures
        filled_cells(percent, width) + empty_cells(percent, width) == width,
        filled_cells(percent, width) == percent * width / 100,
        empty_cells(percent, width) >= 0,
{
    lemma_filled_within(percent, width);
}

/// A percentage outside 0..=100 is clamped before the bar is split: below 0 the
/// bar is empty, above 100 it is full, and no count is negative.
pub proof fn lemma_gauge_clamps(percent: int, width: int)
    requires
        width >= 0,
        percent < 0 || percent > 100,
    ensures
        percent < 0 ==> filled_cells(percent, width) == 0 && empty_cells(percent, width)
            == width,
        percent > 100 ==> filled_cells(percent, width) == width && empty_cells(percent, width)
            == 0,
{
    assert(100 * width / 100 == width) by (nonlinear_arith);
}

/// Filled cells of a bar, with the percentage clamped to 0..=100 first.
pub fn filled_count(percent: i32, width: usize) -> (r: usize)
    ensures
        r == filled_cells(percent as int, width as int),
{
    let p = clamp_percent_exec(percent);
    proof {
        lemma_filled_within(percent as int, width as int);
        assert(0 <= p * width <= 100 * width) by (nonlinear_arith)
            requires
                0 <= p <= 100,
                width >= 0,
        ;
    }
    let product: u128 = (p as u128) * (width as u128);
    (product / 100) as usize
}

/// A gauge of `size` cells for `percentage`: the percentage is clamped to
/// 0..=100, `floor(p * size / 100)` cells are filled in the colour of its tier
/// under `scheme`, the rest are dark grey.
pub fn draw_progress(percentage: i32, size: usize, scheme: ProgressColorScheme) -> (r: Vec<Span>)
    ensures
        spans_view(r@) == gauge_spans(percentage as int, size as nat, scheme),
        r@[0].text@.len() + r@[1].text@.len() == size,
        r@[0].text@.len() == filled_cells(percentage as int, size as int),
{
    let p = clamp_percent_exec(percentage);
    let filled = filled_count(percentage, size);
    proof {
        lemma_filled_within(percentage as int, size as int);
        reveal_strlit("━");
        lemma_repeat_len("━"@, filled as nat);
        lemma_repeat_len("━"@, (size - filled) as nat);
    }
    let full = repeat_str("━", filled);
    let empty = repeat_str("━", size - filled);
    let color = tier_color(scheme, tier(p));
    let r = vec![tinted(full, color), tinted(empty, DARK_GREY)];
    proof {
        assert(spans_view(r@) =~= gauge_spans(percentage as int, size as nat, scheme));
    }
    r
}

} // verus!
