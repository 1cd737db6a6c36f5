//! Placing lines on the terminal: absolute placement inside the box, or a
//! stream of left-padded lines.
use crate::gauge::{draw_progress, gauge_spans, ProgressColorScheme};
use crate::text::{
    blanks, decimal, decimal_text, pad_left, plain, repeat_seq, repeat_str, right_justify,
    spans_view, tinted, tinted_bold, Span, SpanView, BLUE, CYAN, DARK_BLUE, DARK_CYAN,
    DARK_GREEN, DARK_MAGENTA, DARK_RED, DARK_YELLOW, GREEN, MAGENTA, RED, YELLOW,
};
use vstd::prelude::*;
use vstd::string::StringExecFns;

verus! {

/// One line to write. With a row, the cursor moves to (`col`, row) and the
/// spans are written with no newline; without one, `col` blanks and the spans
/// are written, then a newline.
pub struct Placement {
    pub row: Option<u64>,
    pub col: u64,
    pub spans: Vec<Span>,
}

pub type PlacementView = (Option<u64>, u64, Seq<SpanView>);

impl View for Placement {
    type V = PlacementView;

    open spec fn view(&self) -> PlacementView {
        (self.row, self.col, spans_view(self.spans@))
    }
}

pub open spec fn placements_view(ps: Seq<Placement>) -> Seq<PlacementView> {
    ps.map_values(|p: Placement| p@)
}

/// Rendering mode and horizontal geometry of one render pass.
pub struct DisplayContext {
    pub in_box: bool,
    pub offset_x: u64,
    pub visual_center: u64,
}

impl DisplayContext {
    pub open spec fn wf(&self) -> bool {
        self.offset_x + self.visual_center <= u64::MAX
    }

    /// Left edge of a block of `width` columns centred on the visual centre,
    /// never left of column 0.
    pub open spec fn centered_col(&self, width: int) -> int {
        if self.visual_center >= width / 2 {
            self.visual_center - width / 2
        } else {
            0
        }
    }

    /// Places a block of `width` visible columns centred on the visual centre:
    /// at `row` in the box, otherwise as a stream line shifted by `offset_x`.
    pub fn print_centered(&self, row: Option<u64>, spans: Vec<Span>, width: u64) -> (r: Placement)
        requires
            self.wf(),
            self.in_box ==> row is Some,
        ensures
            self.in_box ==> r@ == (row, self.centered_col(width as int) as u64, spans_view(
                spans@,
            )),
            !self.in_box ==> r@ == (None::<u64>, (self.centered_col(width as int)
                + self.offset_x) as u64, spans_view(spans@)),
    {
        let padding = self.visual_center.saturating_sub(width / 2);
        if self.in_box {
            Placement { row, col: padding, spans }
        } else {
            Placement { row: None, col: padding + self.offset_x, spans }
        }
    }

    /// Places a line at column `offset_x`: at `row` in the box, otherwise as a
    /// stream line.
    pub fn print_line(&self, row: Option<u64>, spans: Vec<Span>) -> (r: Placement)
        requires
            self.in_box ==> row is Some,
        ensures
            r@ == (if self.in_box { row } else { None }, self.offset_x, spans_view(spans@)),
    {
        if self.in_box {
            Placement { row, col: self.offset_x, spans }
        } else {
            Placement { row: None, col: self.offset_x, spans }
        }
    }
}

/// Inner width of the box, between its corner columns.
pub const BOX_WIDTH: u64 = 85;

/// Column of the box's left border.
pub const BOX_LEFT: u64 = 2;

/// Row of the box's top border.
pub const BOX_TOP: u64 = 1;

pub open spec fn box_right() -> u64 {
    (BOX_WIDTH + 3) as u64
}

pub open spec fn box_top_view() -> PlacementView {
    (
        Some(BOX_TOP),
        BOX_LEFT,
        seq![("╭"@ + repeat_seq("─"@, BOX_WIDTH as nat) + "╮"@, None::<u8>, false)],
    )
}

pub open spec fn box_bottom_view(height: int) -> PlacementView {
    (
        Some((height + 2) as u64),
        BOX_LEFT,
        seq![("╰"@ + repeat_seq("─"@, BOX_WIDTH as nat) + "╯"@, None::<u8>, false)],
    )
}

pub open spec fn box_side_view(row: int, col: u64) -> PlacementView {
    (Some(row as u64), col, seq![("│"@, None::<u8>, false)])
}

/// The border of a box `height` rows high: the top border at row 1, then for
/// each row from 2 to `height + 1` the left and the right side, then the bottom
/// border at row `height + 2`.
#[verifier::opaque]
pub open spec fn box_view(height: nat) -> Seq<PlacementView> {
    Seq::new(
        2 * height + 2,
        |i: int|
            if i == 0 {
                box_top_view()
            } else if i == 2 * height + 1 {
                box_bottom_view(height as int)
            } else if i % 2 == 1 {
                box_side_view(2 + (i - 1) / 2, BOX_LEFT)
            } else {
                box_side_view(2 + (i - 2) / 2, box_right())
            },
    )
}

fn border_line(left: &str, right: &str) -> (r: String)
    ensures
        r@ == left@ + repeat_seq("─"@, BOX_WIDTH as nat) + right@,
{
    let mut s = String::from_str(left);
    let run = repeat_str("─", BOX_WIDTH as usize);
    s.append(run.as_str());
    s.append(right);
    s
}

/// The border of a box around `height` rows of content. Height 0 still gives
/// a closed frame: the top and bottom borders.
pub fn draw_outer_box(height: u64) -> (r: Vec<Placement>)
    requires
        height <= u64::MAX / 4,
    ensures
        placements_view(r@) == box_view(height as nat),
        r@.len() == 2 * height + 2,
{
    reveal(box_view);
    let ghost all = box_view(height as nat);
    let mut out: Vec<Placement> = Vec::new();
    let top = Placement {
        row: Some(BOX_TOP),
        col: BOX_LEFT,
        spans: vec![plain(border_line("╭", "╮"))],
    };
    proof {
        assert(spans_view(top.spans@) =~= box_top_view().2);
        assert(placements_view(out@).push(top@) =~= all.subrange(0, 1));
    }
    out.push(top);
    proof {
        assert(placements_view(out@) =~= all.subrange(0, 1));
    }
    let mut k: u64 = 0;
    while k < height
        invariant
            k <= height,
            height <= u64::MAX / 4,
            all == box_view(height as nat),
            placements_view(out@) == all.subrange(0, 2 * k + 1),
        decreases height - k,
    {
        proof {
            reveal(box_view);
        }
        let ghost prev = placements_view(out@);
        let left = Placement {
            row: Some(k + 2),
            col: BOX_LEFT,
            spans: vec![plain(String::from_str("│"))],
        };
        let right = Placement {
            row: Some(k + 2),
            col: BOX_WIDTH + 3,
            spans: vec![plain(String::from_str("│"))],
        };
        proof {
            assert(spans_view(left.spans@) =~= seq![("│"@, None::<u8>, false)]);
            assert(spans_view(right.spans@) =~= seq![("│"@, None::<u8>, false)]);
            assert(all[2 * k + 1] == box_side_view(2 + k, BOX_LEFT));
            assert(all[2 * k + 2] == box_side_view(2 + k, box_right()));
            assert(left@ == all[2 * k + 1]);
            assert(right@ == all[2 * k + 2]);
        }
        out.push(left);
        out.push(right);
        proof {
            assert(placements_view(out@) =~= prev.push(all[2 * k + 1]).push(all[2 * k + 2]));
            assert(placements_view(out@) =~= all.subrange(0, 2 * k + 3));
        }
        k = k + 1;
    }
    let ghost prev = placements_view(out@);
    let bottom = Placement {
        row: Some(height + 2),
        col: BOX_LEFT,
        spans: vec![plain(border_line("╰", "╯"))],
    };
    proof {
        assert(spans_view(bottom.spans@) =~= box_bottom_view(height as int).2);
        assert(bottom@ == all[2 * height + 1]);
    }
    out.push(bottom);
    proof {
        assert(placements_view(out@) =~= prev.push(all[2 * height + 1]));
        assert(placements_view(out@) =~= all);
        assert(placements_view(out@).len() == out@.len());
    }
    out
}

/// The decorative colour bar: 25 shade blocks running through the palette.
pub open spec fn colorbar_view() -> Seq<SpanView> {
    seq![
        ("░"@, Some(DARK_RED), false),
        ("▒"@, Some(DARK_RED), false),
        ("▓"@, Some(DARK_RED), false),
        ("▓"@, Some(RED), false),
        ("▒"@, Some(RED), false),
        ("▓"@, Some(DARK_YELLOW), false),
        ("▒"@, Some(DARK_YELLOW), false),
        ("▓"@, Some(YELLOW), false),
        ("▒"@, Some(YELLOW), false),
        ("▓"@, Some(DARK_GREEN), false),
        ("▒"@, Some(DARK_GREEN), false),
        ("▓"@, Some(GREEN), false),
        ("▒"@, Some(GREEN), false),
        ("▓"@, Some(DARK_CYAN), false),
        ("▒"@, Some(DARK_CYAN), false),
        ("▓"@, Some(CYAN), false),
        ("▒"@, Some(CYAN), false),
        ("▓"@, Some(DARK_BLUE), false),
        ("▒"@, Some(DARK_BLUE), false),
        ("▓"@, Some(BLUE), false),
        ("▒"@, Some(BLUE), false),
        ("▓"@, Some(DARK_MAGENTA), false),
        ("▒"@, Some(DARK_MAGENTA), false),
        ("▒"@, Some(MAGENTA), false),
        ("░"@, Some(MAGENTA), false),
    ]
}

/// Visible width of the colour bar.
pub const COLORBAR_WIDTH: u64 = 25;

fn block(glyph: &str, color: u8) -> (r: Span)
    ensures
        r@ == (glyph@, Some(color), false),
{
    tinted(String::from_str(glyph), color)
}

/// The colour bar's spans.
pub fn get_colorbar() -> (r: Vec<Span>)
    ensures
        spans_view(r@) == colorbar_view(),
{
    let r = vec![
        block("░", DARK_RED),
        block("▒", DARK_RED),
        block("▓", DARK_RED),
        block("▓", RED),
        block("▒", RED),
        block("▓", DARK_YELLOW),
        block("▒", DARK_YELLOW),
        block("▓", YELLOW),
        block("▒", YELLOW),
        block("▓", DARK_GREEN),
        block("▒", DARK_GREEN),
        block("▓", GREEN),
        block("▒", GREEN),
        block("▓", DARK_CYAN),
        block("▒", DARK_CYAN),
        block("▓", CYAN),
        block("▒", CYAN),
        block("▓", DARK_BLUE),
        block("▒", DARK_BLUE),
        block("▓", BLUE),
        block("▒", BLUE),
        block("▓", DARK_MAGENTA),
        block("▒", DARK_MAGENTA),
        block("▒", MAGENTA),
        block("░", MAGENTA),
    ];
    proof {
        assert(spans_view(r@) =~= colorbar_view());
    }
    r
}

pub open spec fn greeting_view(name: Seq<char>) -> Seq<SpanView> {
    seq![("Hi!"@, Some(CYAN), false), (seq![' '], None::<u8>, false), (name, Some(GREEN), true)]
}

pub open spec fn uptime_line_view(uptime: Seq<char>) -> Seq<SpanView> {
    seq![("up"@, Some(YELLOW), false), (seq![' '], None::<u8>, false), (uptime, Some(CYAN), true)]
}

/// `n`, or the largest `u64` when `n` is past it.
pub open spec fn capped(n: int) -> int {
    if n > u64::MAX {
        u64::MAX as int
    } else {
        n
    }
}

/// The row after `row` in the box; in a stream rows are not counted.
pub open spec fn next_row(ctx: DisplayContext, row: u64) -> u64 {
    if ctx.in_box {
        (row + 1) as u64
    } else {
        row
    }
}

fn blank_span() -> (r: Span)
    ensures
        r@ == (seq![' '], None::<u8>, false),
{
    proof {
        reveal_strlit(" ");
        assert(" "@ =~= seq![' ']);
    }
    plain(String::from_str(" "))
}

/// "Hi! <name>", centred, at the current row.
pub fn display_greeting(ctx: &DisplayContext, name: &str, row: &mut u64) -> (r: Placement)
    requires
        ctx.wf(),
        *old(row) < u64::MAX,
    ensures
        r@ == ctx.print_centered_view(*old(row), greeting_view(name@), capped(name@.len() + 4int)),
        *final(row) == next_row(*ctx, *old(row)),
{
    let width = (crate::text::char_len(name) as u64).saturating_add(4);
    let spans = vec![
        tinted(String::from_str("Hi!"), CYAN),
        blank_span(),
        tinted_bold(String::from_str(name), GREEN),
    ];
    proof {
        assert(spans_view(spans@) =~= greeting_view(name@));
    }
    let p = ctx.print_centered(Some(*row), spans, width);
    if ctx.in_box {
        *row = *row + 1;
    }
    p
}

/// "up <uptime>", centred, at the current row.
pub fn display_uptime(ctx: &DisplayContext, uptime: &str, row: &mut u64) -> (r: Placement)
    requires
        ctx.wf(),
        *old(row) < u64::MAX,
    ensures
        r@ == ctx.print_centered_view(*old(row), uptime_line_view(uptime@), capped(uptime@.len() + 3int)),
        *final(row) == next_row(*ctx, *old(row)),
{
    let width = (crate::text::char_len(uptime) as u64).saturating_add(3);
    let spans = vec![
        tinted(String::from_str("up"), YELLOW),
        blank_span(),
        tinted_bold(String::from_str(uptime), CYAN),
    ];
    proof {
        assert(spans_view(spans@) =~= uptime_line_view(uptime@));
    }
    let p = ctx.print_centered(Some(*row), spans, width);
    if ctx.in_box {
        *row = *row + 1;
    }
    p
}

impl DisplayContext {
    /// What `print_centered` places for `spans` of `width` columns at `row`.
    pub open spec fn print_centered_view(&self, row: u64, spans: Seq<SpanView>, width: int) -> PlacementView {
        if self.in_box {
            (Some(row), self.centered_col(width) as u64, spans)
        } else {
            (None::<u64>, (self.centered_col(width) + self.offset_x) as u64, spans)
        }
    }
}

/// Width of a gauge bar, in cells.
pub const GAUGE_CELLS: usize = 14;

/// One system gauge line: the green label, `spacing`, the value right-justified
/// to two columns with '%', then the bar.
pub open spec fn gauge_line_view(label: Seq<char>, spacing: Seq<char>, value: int) -> Seq<
    SpanView,
> {
    seq![
        (label, Some(GREEN), false),
        (spacing + pad_left(decimal_text(value), 2) + "% "@, None::<u8>, false),
    ] + gauge_spans(value, GAUGE_CELLS as nat, ProgressColorScheme::System)
}

fn gauge_line(label: &str, spacing: &str, value: i32) -> (r: Vec<Span>)
    ensures
        spans_view(r@) == gauge_line_view(label@, spacing@, value as int),
{
    let mut text = String::from_str(spacing);
    let number = right_justify(decimal(value as i128).as_str(), 2);
    text.append(number.as_str());
    text.append("% ");
    let mut r = vec![tinted(String::from_str(label), GREEN), plain(text)];
    let mut bar = draw_progress(value, GAUGE_CELLS, ProgressColorScheme::System);
    let ghost head = spans_view(r@);
    let ghost tail = spans_view(bar@);
    r.append(&mut bar);
    proof {
        assert(spans_view(r@) =~= head + tail);
    }
    r
}

/// Where the system gauges go: centred in the box (each line is 22 columns),
/// otherwise shifted to line up under the separator at `dot_position`.
pub open spec fn gauge_col(ctx: DisplayContext, dot_position: u64) -> int {
    if ctx.in_box {
        ctx.centered_col(22)
    } else {
        ctx.offset_x + if dot_position + 2 >= 23 { dot_position + 2 - 23 } else { 0 }
    }
}

pub open spec fn gauge_lines_view(cpu: int, ram: int, disk: int) -> Seq<Seq<SpanView>> {
    seq![
        gauge_line_view("cpu"@, "  "@, cpu),
        gauge_line_view("ram"@, "  "@, ram),
        gauge_line_view("disk"@, " "@, disk),
    ]
}

/// The cpu, ram and disk gauges, one line each: on consecutive rows from `row`
/// in the box, as stream lines otherwise.
pub fn display_progress_bars(
    ctx: &DisplayContext,
    cpu: i32,
    ram: i32,
    disk: i32,
    dot_position: u64,
    row: &mut u64,
) -> (r: Vec<Placement>)
    requires
        ctx.wf(),
        *old(row) <= u64::MAX - 3,
        dot_position <= u64::MAX - 2,
        ctx.offset_x + dot_position <= u64::MAX,
    ensures
        r@.len() == 3,
        forall|k: int|
            0 <= k < 3 ==> #[trigger] r@[k]@ == (
                if ctx.in_box { Some((*old(row) + k) as u64) } else { None::<u64> },
                gauge_col(*ctx, dot_position) as u64,
                gauge_lines_view(cpu as int, ram as int, disk as int)[k],
            ),
        *final(row) == if ctx.in_box { (*old(row) + 3) as u64 } else { *old(row) },
{
    let col = if ctx.in_box {
        ctx.visual_center.saturating_sub(11)
    } else {
        let shift = (dot_position + 2).saturating_sub(23);
        ctx.offset_x + shift
    };
    let lines = vec![
        gauge_line("cpu", "  ", cpu),
        gauge_line("ram", "  ", ram),
        gauge_line("disk", " ", disk),
    ];
    let mut out: Vec<Placement> = Vec::new();
    let mut lines = lines;
    let ghost views = seq![spans_view(lines@[0]@), spans_view(lines@[1]@), spans_view(lines@[2]@)];
    proof {
        assert(views =~= gauge_lines_view(cpu as int, ram as int, disk as int));
    }
    let l2 = lines.pop().unwrap();
    let l1 = lines.pop().unwrap();
    let l0 = lines.pop().unwrap();
    let start = *row;
    let p0 = Placement { row: if ctx.in_box { Some(start) } else { None }, col, spans: l0 };
    let p1 = Placement { row: if ctx.in_box { Some(start + 1) } else { None }, col, spans: l1 };
    let p2 = Placement { row: if ctx.in_box { Some(start + 2) } else { None }, col, spans: l2 };
    if ctx.in_box {
        *row = start + 3;
    }
    let r = vec![p0, p1, p2];
    proof {
        assert(r@[0]@.2 == views[0]);
        assert(r@[1]@.2 == views[1]);
        assert(r@[2]@.2 == views[2]);
    }
    r
}

/// Uptime in words: days and hours from one day on, hours and minutes from
/// one hour on, minutes otherwise.
pub open spec fn uptime_text(seconds: nat) -> Seq<char> {
    let days = seconds / 86400;
    let hours = (seconds % 86400) / 3600;
    let minutes = (seconds % 3600) / 60;
    if days > 0 {
        decimal_text(days as int) + " days, "@ + decimal_text(hours as int) + " hrs"@
    } else if hours > 0 {
        decimal_text(hours as int) + " hrs, "@ + decimal_text(minutes as int) + " mins"@
    } else {
        decimal_text(minutes as int) + " mins"@
    }
}

/// Uptime of `seconds` in words.
pub fn format_uptime(seconds: u64) -> (r: String)
    ensures
        r@ == uptime_text(seconds as nat),
{
    let days = seconds / 86400;
    let hours = (seconds % 86400) / 3600;
    let minutes = (seconds % 3600) / 60;
    if days > 0 {
        let mut s = decimal(days as i128);
        s.append(" days, ");
        s.append(decimal(hours as i128).as_str());
        s.append(" hrs");
        s
    } else if hours > 0 {
        let mut s = decimal(hours as i128);
        s.append(" hrs, ");
        s.append(decimal(minutes as i128).as_str());
        s.append(" mins");
        s
    } else {
        let mut s = decimal(minutes as i128);
        s.append(" mins");
        s
    }
}

/// Every line has a row, within `lo..hi`.
pub open spec fn rows_within(v: Seq<PlacementView>, lo: int, hi: int) -> bool {
    forall|i: int|
        0 <= i < v.len() ==> (#[trigger] v[i]).0 is Some && lo <= v[i].0->0 && v[i].0->0 < hi
}

pub proof fn lemma_rows_widen(v: Seq<PlacementView>, lo: int, hi: int, lo2: int, hi2: int)
    requires
        rows_within(v, lo, hi),
        lo2 <= lo,
        hi <= hi2,
    ensures
        rows_within(v, lo2, hi2),
{
}

pub proof fn lemma_rows_join(a: Seq<PlacementView>, b: Seq<PlacementView>, lo: int, hi: int)
    requires
        rows_within(a, lo, hi),
        rows_within(b, lo, hi),
    ensures
        rows_within(a + b, lo, hi),
{
    assert forall|i: int| 0 <= i < (a + b).len() implies (#[trigger] (a + b)[i]).0 is Some && lo
        <= (a + b)[i].0->0 && (a + b)[i].0->0 < hi by {
        if i < a.len() {
            assert((a + b)[i] == a[i]);
        } else {
            assert((a + b)[i] == b[i - a.len()]);
        }
    }
}

} // verus!
