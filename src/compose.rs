//! The whole display: logo spot, colour bar, greeting, uptime, info panel and
//! gauges, then in challenge mode the challenge block and the box around all.
use crate::align::{
    entries_view, format_system_info, formatted_lines, lines_view, separator_column,
    separator_position,
};
use crate::challenge::{
    challenge_block_view, custom_date_view, resolved_install, run_challenge_countdown, ymd_text,
    ChallengeStatus,
};
use crate::config::{Config, LogoConfig};
use crate::layout::{
    box_view, colorbar_view, display_greeting, display_progress_bars, display_uptime,
    draw_outer_box, format_uptime, gauge_col, gauge_lines_view, get_colorbar, greeting_view,
    lemma_rows_join, lemma_rows_widen, placements_view, rows_within, uptime_line_view, uptime_text, capped, DisplayContext, Placement,
    PlacementView,
};
use crate::system_info::SystemInfo;
use crate::text::{spans_view, Span, SpanView};
use vstd::prelude::*;

verus! {

/// Where and how large the logo image is drawn, in terminal cells.
#[derive(Clone, Copy)]
pub struct LogoSpot {
    pub col: u64,
    pub row: u64,
    pub width: u32,
    pub height: u32,
}

/// What one render pass shows, collected beforehand.
pub struct PanelInputs {
    pub user: String,
    pub uptime_secs: u64,
    pub info: SystemInfo,
    pub cpu: i32,
    pub ram: i32,
    pub disk: i32,
}

/// The first content block and where it ended.
pub struct Panel {
    pub logo: LogoSpot,
    pub placements: Vec<Placement>,
    /// The row after the last one written (0 in a stream).
    pub end_row: u64,
    /// The row of the info panel's second line, where the challenge block starts
    /// (0 in a stream).
    pub second_info_row: u64,
    /// Column of the separator glyph in the first info line.
    pub dot_position: u64,
    /// The column that blocks are centred on.
    pub visual_center: u64,
}

/// Visual centre in the box: the box is 85 columns wide from column 2.
pub const BOX_CENTER: u64 = 44;

/// Left edge of the content inside the box.
pub const BOX_OFFSET: u64 = 4;

pub open spec fn has_custom_logo(logo: &LogoConfig) -> bool {
    logo.custom_path@.len() > 0
}

/// Size and place of the logo: a custom image defaults to 35 by 18 cells at
/// row 2, the distribution logo is 20 by 10 at row 3; both are centred on the
/// visual centre.
pub open spec fn logo_spot_view(logo: &LogoConfig, center: u64) -> (u64, u64, u32, u32) {
    if has_custom_logo(logo) {
        let w: u32 = match logo.width {
            Some(w) => w,
            None => 35,
        };
        let h: u32 = match logo.height {
            Some(h) => h,
            None => 18,
        };
        (if center >= w / 2 { (center - w / 2) as u64 } else { 0 }, 2, w, h)
    } else {
        (if center >= 10 { (center - 10) as u64 } else { 0 }, 3, 20, 10)
    }
}

pub fn logo_spot(logo: &LogoConfig, center: u64) -> (r: LogoSpot)
    ensures
        (r.col, r.row, r.width, r.height) == logo_spot_view(logo, center),
{
    if logo.custom_path.as_str().is_empty() {
        LogoSpot { col: center.saturating_sub(10), row: 3, width: 20, height: 10 }
    } else {
        let w = match logo.width {
            Some(w) => w,
            None => 35,
        };
        let h = match logo.height {
            Some(h) => h,
            None => 18,
        };
        LogoSpot { col: center.saturating_sub((w / 2) as u64), row: 2, width: w, height: h }
    }
}

pub open spec fn blank_line() -> PlacementView {
    (None, 0, Seq::empty())
}

pub open spec fn panel_ctx(in_box: bool, center: u64) -> DisplayContext {
    DisplayContext { in_box, offset_x: if in_box { BOX_OFFSET } else { 0 }, visual_center: center }
}

/// The first block, line by line. In the box: the colour bar at row
/// `logo_rows + 4`, greeting and uptime two rows lower, a blank row, the info
/// lines at column 4, a blank row, the three gauges. In a stream the same
/// sequence with blank lines where the box skips rows.
#[verifier::opaque]
pub open spec fn panel_view(
    in_box: bool,
    center: u64,
    dot: u64,
    user: Seq<char>,
    uptime: Seq<char>,
    lines: Seq<Seq<SpanView>>,
    logo_rows: u64,
    cpu: int,
    ram: int,
    disk: int,
) -> Seq<PlacementView> {
    let ctx = panel_ctx(in_box, center);
    let bar_col: u64 = if center >= 12 { (center - 12) as u64 } else { 0 };
    let gc = gauge_col(ctx, dot) as u64;
    let g = gauge_lines_view(cpu, ram, disk);
    let top = logo_rows + 4;
    if in_box {
        seq![
            (Some(top as u64), bar_col, colorbar_view()),
            ctx.print_centered_view((top + 2) as u64, greeting_view(user), capped(user.len() + 4int)),
            ctx.print_centered_view((top + 3) as u64, uptime_line_view(uptime), capped(uptime.len() + 3int)),
        ] + Seq::new(lines.len(), |k: int| (Some((top + 5 + k) as u64), BOX_OFFSET, lines[k]))
            + Seq::new(3, |j: int| (Some((top + 6 + lines.len() + j) as u64), gc, g[j]))
    } else {
        seq![
            blank_line(),
            (None, bar_col, colorbar_view()),
            blank_line(),
            ctx.print_centered_view(0, greeting_view(user), capped(user.len() + 4int)),
            ctx.print_centered_view(0, uptime_line_view(uptime), capped(uptime.len() + 3int)),
            blank_line(),
        ] + Seq::new(lines.len(), |k: int| (None, 0u64, lines[k])) + seq![blank_line()]
            + Seq::new(3, |j: int| (None, gc, g[j]))
    }
}

/// Places `lines` one per row from `row` (or as stream lines) at `offset_x`.
#[verifier::loop_isolation(false)]
fn place_lines(
    ctx: &DisplayContext,
    lines: Vec<Vec<Span>>,
    row: &mut u64,
    out: &mut Vec<Placement>,
)
    requires
        *old(row) + lines@.len() <= u64::MAX,
    ensures
        placements_view(final(out)@) == placements_view(old(out)@) + Seq::new(
            lines@.len(),
            |k: int|
                (
                    if ctx.in_box { Some((*old(row) + k) as u64) } else { None::<u64> },
                    ctx.offset_x,
                    lines_view(lines@)[k],
                ),
        ),
        *final(row) == if ctx.in_box { (*old(row) + lines@.len()) as u64 } else { *old(row) },
{
    let ghost start = *row;
    let ghost before = placements_view(out@);
    let ghost all = lines_view(lines@);
    let ghost n: nat = lines@.len();
    let ghost want = Seq::new(
        n,
        |k: int|
            (
                if ctx.in_box { Some((start + k) as u64) } else { None::<u64> },
                ctx.offset_x,
                all[k],
            ),
    );
    let count = lines.len();
    proof {
        assert(count == n);
    }
    let mut rest = lines;
    let mut done: usize = 0;
    while rest.len() > 0
        invariant
            start + n <= u64::MAX,
            all.len() == n,
            done + rest@.len() == n,
            lines_view(rest@) == all.subrange(done as int, n as int),
            *row == if ctx.in_box { (start + done) as u64 } else { start },
            placements_view(out@) == before + want.subrange(0, done as int),
        decreases rest@.len(),
    {
        proof {
            assert(done < n);
            assert(want.len() == n);
        }
        let ghost prev = placements_view(out@);
        let ghost rv = lines_view(rest@);
        let ghost old_rest = rest@;
        let line = rest.remove(0);
        proof {
            assert(spans_view(line@) == rv[0]);
            assert(all.subrange(done as int, n as int)[0] == all[done as int]);
            assert(rv[0] == all[done as int]);
            assert(rest@ =~= old_rest.subrange(1, old_rest.len() as int));
            assert(lines_view(rest@) =~= rv.subrange(1, rv.len() as int));
            assert(rv.subrange(1, rv.len() as int) =~= all.subrange(done + 1, n as int));
        }
        let p = if ctx.in_box {
            Placement { row: Some(*row), col: ctx.offset_x, spans: line }
        } else {
            Placement { row: None, col: ctx.offset_x, spans: line }
        };
        out.push(p);
        if ctx.in_box {
            *row = *row + 1;
        }
        proof {
            assert(p@ == want[done as int]);
            assert(placements_view(out@) =~= prev.push(want[done as int]));
            assert(want.subrange(0, done + 1) =~= want.subrange(0, done as int).push(
                want[done as int],
            ));
        }
        done = done + 1;
    }
    proof {
        assert(want.subrange(0, n as int) =~= want);
    }
}

/// Column of the separator in the first info line, or 20 without one.
pub open spec fn dot_position_of(entries: Seq<(Seq<char>, Seq<char>)>) -> u64 {
    if entries.len() > 0 && separator_column(entries) <= usize::MAX - 8 {
        separator_column(entries) as u64
    } else {
        20
    }
}

/// The column blocks are centred on: fixed in the box, ten columns left of
/// the separator in a stream.
pub open spec fn visual_center_of(in_box: bool, dot: u64) -> u64 {
    if in_box {
        BOX_CENTER
    } else if dot >= 10 {
        (dot - 10) as u64
    } else {
        0
    }
}

/// The first block of the display. In the box (`in_box`) every line has a
/// row, from `logo rows + 4` on, and the block ends `13 + entries` rows below
/// the logo's height; in a stream no line has a row. The info panel lists the
/// entries of `to_info_items` (without the age in the box).
pub fn run_fetch_internal(in_box: bool, config: &Config, inputs: &PanelInputs) -> (r: Panel)
    ensures
        ({
            let entries = inputs.info.info_items_view(!in_box, &config.display);
            let n = entries.len();
            &&& n <= 11
            &&& r.dot_position == dot_position_of(entries)
            &&& r.visual_center == visual_center_of(in_box, r.dot_position)
            &&& (r.logo.col, r.logo.row, r.logo.width, r.logo.height) == logo_spot_view(
                &config.logo,
                r.visual_center,
            )
            &&& in_box ==> r.end_row == r.logo.height + 13 + n && r.second_info_row
                == r.logo.height + 10
            &&& !in_box ==> r.end_row == 0 && r.second_info_row == 0
            &&& placements_view(r.placements@) == panel_view(
                in_box,
                r.visual_center,
                r.dot_position,
                inputs.user@,
                uptime_text(inputs.uptime_secs as nat),
                formatted_lines(entries),
                r.logo.height as u64,
                inputs.cpu as int,
                inputs.ram as int,
                inputs.disk as int,
            )
        }),
{
    let items = inputs.info.to_info_items(!in_box, &config.display);
    let lines = format_system_info(&items);
    proof {
        assert(lines_view(lines@).len() == lines@.len());
        assert(entries_view(items@).len() == items@.len());
        assert(lines@.len() <= 11);
    }
    let dot = separator_position(&items) as u64;
    let center = if in_box { BOX_CENTER } else { dot.saturating_sub(10) };
    let ctx = DisplayContext {
        in_box,
        offset_x: if in_box { BOX_OFFSET } else { 0 },
        visual_center: center,
    };
    let logo = logo_spot(&config.logo, center);
    let uptime = format_uptime(inputs.uptime_secs);
    let ghost entries = inputs.info.info_items_view(!in_box, &config.display);
    proof {
        assert(entries_view(items@) == entries);
        assert(lines_view(lines@) == formatted_lines(entries));
    }
    let placements = if in_box {
        let ps = boxed_panel(
            &ctx,
            &inputs.user,
            &uptime,
            lines,
            logo.height,
            inputs.cpu,
            inputs.ram,
            inputs.disk,
            dot,
        );
        proof {
            assert(placements_view(ps@) == panel_view(
                true,
                center,
                dot,
                inputs.user@,
                uptime_text(inputs.uptime_secs as nat),
                formatted_lines(entries),
                logo.height as u64,
                inputs.cpu as int,
                inputs.ram as int,
                inputs.disk as int,
            ));
        }
        ps
    } else {
        let ps = stream_panel(
            &ctx,
            &inputs.user,
            &uptime,
            lines,
            logo.height,
            inputs.cpu,
            inputs.ram,
            inputs.disk,
            dot,
        );
        proof {
            assert(placements_view(ps@) == panel_view(
                false,
                center,
                dot,
                inputs.user@,
                uptime_text(inputs.uptime_secs as nat),
                formatted_lines(entries),
                logo.height as u64,
                inputs.cpu as int,
                inputs.ram as int,
                inputs.disk as int,
            ));
        }
        ps
    };
    if in_box {
        Panel {
            logo,
            placements,
            end_row: logo.height as u64 + 13 + items.len() as u64,
            second_info_row: logo.height as u64 + 10,
            dot_position: dot,
            visual_center: center,
        }
    } else {
        Panel {
            logo,
            placements,
            end_row: 0,
            second_info_row: 0,
            dot_position: dot,
            visual_center: center,
        }
    }
}

fn boxed_panel(
    ctx: &DisplayContext,
    user: &String,
    uptime: &String,
    lines: Vec<Vec<Span>>,
    logo_rows: u32,
    cpu: i32,
    ram: i32,
    disk: i32,
    dot: u64,
) -> (r: Vec<Placement>)
    requires
        ctx.in_box,
        ctx.offset_x == BOX_OFFSET,
        ctx.visual_center == BOX_CENTER,
        lines@.len() <= 11,
        dot <= u64::MAX - 8,
    ensures
        placements_view(r@) == panel_view(
            true,
            ctx.visual_center,
            dot,
            user@,
            uptime@,
            lines_view(lines@),
            logo_rows as u64,
            cpu as int,
            ram as int,
            disk as int,
        ),
{
    reveal(panel_view);
    let ghost n: int = lines@.len() as int;
    let ghost want = panel_view(
        true,
        ctx.visual_center,
        dot,
        user@,
        uptime@,
        lines_view(lines@),
        logo_rows as u64,
        cpu as int,
        ram as int,
        disk as int,
    );
    let ghost lv = lines_view(lines@);
    proof {
        assert(*ctx == panel_ctx(true, ctx.visual_center));
    }
    let mut out: Vec<Placement> = Vec::new();
    let top = logo_rows as u64 + 4;
    let mut row = top;
    out.push(Placement { row: Some(row), col: ctx.visual_center - 12, spans: get_colorbar() });
    row = row + 2;
    let greeting = display_greeting(ctx, user.as_str(), &mut row);
    out.push(greeting);
    let up = display_uptime(ctx, uptime.as_str(), &mut row);
    out.push(up);
    row = row + 1;
    let ghost head = placements_view(out@);
    proof {
        assert(head =~= want.subrange(0, 3));
    }
    place_lines(ctx, lines, &mut row, &mut out);
    let ghost mid = placements_view(out@);
    proof {
        assert(mid =~= want.subrange(0, 3 + n));
    }
    row = row + 1;
    let mut bars = display_progress_bars(ctx, cpu, ram, disk, dot, &mut row);
    let ghost bv = placements_view(bars@);
    out.append(&mut bars);
    proof {
        assert(bv =~= want.subrange(3 + n, 6 + n));
        assert(placements_view(out@) =~= mid + bv);
        assert(placements_view(out@) =~= want);
    }
    out
}

fn blank() -> (r: Placement)
    ensures
        r@ == blank_line(),
{
    let r = Placement { row: None, col: 0, spans: Vec::new() };
    proof {
        assert(spans_view(r.spans@) =~= Seq::<SpanView>::empty());
    }
    r
}

fn stream_panel(
    ctx: &DisplayContext,
    user: &String,
    uptime: &String,
    lines: Vec<Vec<Span>>,
    logo_rows: u32,
    cpu: i32,
    ram: i32,
    disk: i32,
    dot: u64,
) -> (r: Vec<Placement>)
    requires
        !ctx.in_box,
        ctx.offset_x == 0,
        lines@.len() <= 11,
        dot <= u64::MAX - 8,
    ensures
        placements_view(r@) == panel_view(
            false,
            ctx.visual_center,
            dot,
            user@,
            uptime@,
            lines_view(lines@),
            logo_rows as u64,
            cpu as int,
            ram as int,
            disk as int,
        ),
{
    reveal(panel_view);
    let ghost n: int = lines@.len() as int;
    let ghost want = panel_view(
        false,
        ctx.visual_center,
        dot,
        user@,
        uptime@,
        lines_view(lines@),
        logo_rows as u64,
        cpu as int,
        ram as int,
        disk as int,
    );
    proof {
        assert(*ctx == panel_ctx(false, ctx.visual_center));
    }
    let mut out: Vec<Placement> = Vec::new();
    let mut row: u64 = 0;
    out.push(blank());
    out.push(Placement { row: None, col: ctx.visual_center.saturating_sub(12), spans: get_colorbar() });
    out.push(blank());
    let greeting = display_greeting(ctx, user.as_str(), &mut row);
    out.push(greeting);
    let up = display_uptime(ctx, uptime.as_str(), &mut row);
    out.push(up);
    out.push(blank());
    let ghost head = placements_view(out@);
    proof {
        assert(head =~= want.subrange(0, 6));
    }
    let ghost lv = lines_view(lines@);
    place_lines(ctx, lines, &mut row, &mut out);
    proof {
        assert(placements_view(out@) =~= want.subrange(0, 6 + n));
    }
    let b = blank();
    let ghost before_blank = placements_view(out@);
    out.push(b);
    let ghost mid = placements_view(out@);
    proof {
        assert(mid =~= before_blank.push(blank_line()));
        assert(want[6 + n] == blank_line());
        assert(mid =~= want.subrange(0, 7 + n));
    }
    let mut bars = display_progress_bars(ctx, cpu, ram, disk, dot, &mut row);
    let ghost bv = placements_view(bars@);
    out.append(&mut bars);
    proof {
        assert(bv =~= want.subrange(7 + n, 10 + n));
        assert(placements_view(out@) =~= mid + bv);
        assert(placements_view(out@) =~= want);
    }
    out
}

/// In the box, the first block keeps to rows `logo_rows + 4` up to its end
/// row, `logo_rows + 13 + lines`.
pub proof fn lemma_panel_rows(
    center: u64,
    dot: u64,
    user: Seq<char>,
    uptime: Seq<char>,
    lines: Seq<Seq<SpanView>>,
    logo_rows: u64,
    cpu: int,
    ram: int,
    disk: int,
)
    requires
        logo_rows <= u32::MAX,
        lines.len() <= 11,
    ensures
        rows_within(
            panel_view(true, center, dot, user, uptime, lines, logo_rows, cpu, ram, disk),
            logo_rows + 4,
            logo_rows + 13 + lines.len(),
        ),
{
    reveal(panel_view);
    let v = panel_view(true, center, dot, user, uptime, lines, logo_rows, cpu, ram, disk);
    assert forall|i: int| 0 <= i < v.len() implies (#[trigger] v[i]).0 is Some && logo_rows + 4
        <= v[i].0->0 && v[i].0->0 < logo_rows + 13 + lines.len() by {
        if i >= 3 && i < 3 + lines.len() {
            assert(v[i].0 == Some((logo_rows + 4 + 5 + (i - 3)) as u64));
        } else if i >= 3 + lines.len() {
            assert(v[i].0 == Some((logo_rows + 4 + 6 + lines.len() + (i - 3 - lines.len())) as u64));
        }
    }
}

/// Everything one run shows.
pub struct Screen {
    pub logo: LogoSpot,
    pub placements: Vec<Placement>,
    /// Height of the box drawn around the content, in challenge mode.
    pub box_height: Option<u64>,
}

/// The display of one run. Challenge mode is on when asked on the command
/// line or by the configured mode; command-line years and months override
/// the configured ones. In challenge mode the first block is drawn in the
/// box, the challenge block follows from the row of the second info line,
/// and the box is drawn last: its height is one more than the row the
/// content reached (the first block's end row or the challenge block's last
/// row, whichever is lower on screen), so every content line lies inside its
/// frame. Otherwise the first block is streamed and there is no box.
pub fn compose_screen(
    cli_challenge: bool,
    cli_years: Option<i64>,
    cli_months: Option<i64>,
    config: &Config,
    inputs: &PanelInputs,
    fs_install: i64,
    now: i64,
) -> (r: Screen)
    ensures
        ({
            let challenge = cli_challenge || config.display.mode@ == "challenge"@;
            let entries = inputs.info.info_items_view(!challenge, &config.display);
            let dot = dot_position_of(entries);
            let center = visual_center_of(challenge, dot);
            let panel = panel_view(
                challenge,
                center,
                dot,
                inputs.user@,
                uptime_text(inputs.uptime_secs as nat),
                formatted_lines(entries),
                r.logo.height as u64,
                inputs.cpu as int,
                inputs.ram as int,
                inputs.disk as int,
            );
            let years = match cli_years {
                Some(y) => y,
                None => config.challenge.years,
            };
            let months = match cli_months {
                Some(m) => m,
                None => config.challenge.months,
            };
            let install = resolved_install(custom_date_view(&config.display), fs_install);
            let status = ChallengeStatus::of(years as int, months as int, install as int, now as int);
            let start = (r.logo.height + 10) as u64;
            let v = placements_view(r.placements@);
            &&& (r.logo.col, r.logo.row, r.logo.width, r.logo.height) == logo_spot_view(
                &config.logo,
                center,
            )
            &&& (r.box_height is Some <==> challenge)
            &&& !challenge ==> v == panel
            &&& challenge ==> {
                let h = r.box_height->0;
                let content = v.len() - (2 * h + 2);
                &&& h == r.logo.height + 14 + entries.len()
                &&& h == 1 + if r.logo.height + 13 + entries.len() >= start + 3 {
                    r.logo.height + 13 + entries.len()
                } else {
                    start + 3
                }
                &&& v == panel + challenge_block_view(status, ymd_text(install), start) + box_view(
                    h as nat,
                ) || v == panel + challenge_block_view(status, "Unknown"@, start) + box_view(
                    h as nat,
                )
                &&& -8_000_000_000_000 <= install <= 8_000_000_000_000 ==> v == panel
                    + challenge_block_view(status, ymd_text(install), start) + box_view(h as nat)
                &&& rows_within(v.subrange(0, content), 2, h as int)
            }
        }),
{
    let challenge = config.display.in_challenge_mode(cli_challenge);
    let years = match cli_years {
        Some(y) => y,
        None => config.challenge.years,
    };
    let months = match cli_months {
        Some(m) => m,
        None => config.challenge.months,
    };
    let panel = run_fetch_internal(challenge, config, inputs);
    if challenge {
        let ghost entries = inputs.info.info_items_view(false, &config.display);
        let (end, mut block) = run_challenge_countdown(
            years,
            months,
            panel.second_info_row,
            &config.display,
            fs_install,
            now,
        );
        let last = if panel.end_row > end { panel.end_row } else { end };
        let height = last + 1;
        let mut border = draw_outer_box(height);
        let ghost pv = placements_view(panel.placements@);
        let ghost cv = placements_view(block@);
        let ghost bv = placements_view(border@);
        let mut placements = panel.placements;
        placements.append(&mut block);
        placements.append(&mut border);
        proof {
            let l = panel.logo.height as u64;
            assert(entries.len() <= 11) by {
                assert(formatted_lines(entries).len() == entries.len());
            }
            lemma_panel_rows(
                panel.visual_center,
                panel.dot_position,
                inputs.user@,
                uptime_text(inputs.uptime_secs as nat),
                formatted_lines(entries),
                l,
                inputs.cpu as int,
                inputs.ram as int,
                inputs.disk as int,
            );
            assert(placements_view(placements@) =~= pv + cv + bv);
            let v = pv + cv + bv;
            assert(v.subrange(0, (pv.len() + cv.len()) as int) =~= pv + cv);
            lemma_rows_widen(pv, l + 4, l + 13 + entries.len(), 2, height as int);
            lemma_rows_widen(cv, l + 10, l + 14, 2, height as int);
            lemma_rows_join(pv, cv, 2, height as int);
        }
        Screen { logo: panel.logo, placements, box_height: Some(height) }
    } else {
        Screen { logo: panel.logo, placements: panel.placements, box_height: None }
    }
}

} // verus!
