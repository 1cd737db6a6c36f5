//! Label/value lines with right-justified labels and a shared separator column.
use crate::text::{
    blanks, char_len, lemma_blanks, lemma_pad_left_len, line_text, pad_left, plain,
    right_justify, spaces, spans_view, tinted, Span, SpanView, GREEN,
};
use vstd::prelude::*;
use vstd::string::StringExecFns;

verus! {

/// One labelled value of the info panel.
pub struct MetricEntry {
    pub label: String,
    pub value: String,
}

impl View for MetricEntry {
    type V = (Seq<char>, Seq<char>);

    open spec fn view(&self) -> (Seq<char>, Seq<char>) {
        (self.label@, self.value@)
    }
}

pub open spec fn entries_view(entries: Seq<MetricEntry>) -> Seq<(Seq<char>, Seq<char>)> {
    entries.map_values(|e: MetricEntry| e@)
}

pub open spec fn lines_view(lines: Seq<Vec<Span>>) -> Seq<Seq<SpanView>> {
    lines.map_values(|l: Vec<Span>| spans_view(l@))
}

/// Blank columns before each label of the info panel.
pub const INFO_MARGIN: usize = 11;

/// The separator glyph between a label and its value.
pub open spec fn separator_glyph() -> char {
    '\u{f444}'
}

/// The longest label, in characters; 0 when there is none.
pub open spec fn max_label_width(entries: Seq<(Seq<char>, Seq<char>)>) -> nat
    decreases entries.len(),
{
    if entries.len() == 0 {
        0
    } else {
        let rest = max_label_width(entries.drop_last());
        let last = entries.last().0.len();
        if last > rest {
            last
        } else {
            rest
        }
    }
}

/// A line: `margin` blanks, the label right-justified to `width`, a blank, the
/// green separator glyph and a blank, a blank, then the value.
pub open spec fn aligned_spans(label: Seq<char>, width: nat, margin: nat, value: SpanView) -> Seq<
    SpanView,
> {
    seq![
        (blanks(margin) + pad_left(label, width) + seq![' '], None, false),
        ("\u{f444} "@, Some(GREEN), false),
        (seq![' '], None, false),
        value,
    ]
}

/// The info panel for `entries`, one line each, in order.
pub open spec fn formatted_lines(entries: Seq<(Seq<char>, Seq<char>)>) -> Seq<Seq<SpanView>> {
    Seq::new(
        entries.len(),
        |i: int|
            aligned_spans(
                entries[i].0,
                max_label_width(entries),
                INFO_MARGIN as nat,
                (entries[i].1, None, false),
            ),
    )
}

/// Column of the separator glyph in every line of the info panel.
pub open spec fn separator_column(entries: Seq<(Seq<char>, Seq<char>)>) -> nat {
    INFO_MARGIN as nat + max_label_width(entries) + 1
}

pub proof fn lemma_max_label_width(entries: Seq<(Seq<char>, Seq<char>)>)
    ensures
        forall|i: int| 0 <= i < entries.len() ==> #[trigger] entries[i].0.len() <= max_label_width(entries),
        entries.len() > 0 ==> exists|i: int| 0 <= i < entries.len() && #[trigger] entries[i].0.len() == max_label_width(entries),
    decreases entries.len(),
{
    if entries.len() > 0 {
        let rest = entries.drop_last();
        lemma_max_label_width(rest);
        assert forall|i: int| 0 <= i < entries.len() implies #[trigger] entries[i].0.len()
            <= max_label_width(entries) by {
            if i < entries.len() - 1 {
                assert(entries[i] == rest[i]);
            }
        }
        if entries.last().0.len() <= max_label_width(rest) && rest.len() > 0 {
            let j = choose|j: int| 0 <= j < rest.len() && #[trigger] rest[j].0.len() == max_label_width(rest);
            assert(entries[j] == rest[j]);
        } else {
            assert(entries[entries.len() - 1].0.len() == max_label_width(entries));
        }
    }
}

pub proof fn lemma_line_text_push(s: Seq<SpanView>, x: SpanView)
    ensures
        line_text(s.push(x)) == line_text(s) + x.0,
{
    assert(s.push(x).drop_last() =~= s);
}

pub proof fn lemma_line_text_four(a: SpanView, b: SpanView, c: SpanView, d: SpanView)
    ensures
        line_text(seq![a, b, c, d]) == a.0 + b.0 + c.0 + d.0,
{
    let e = Seq::<SpanView>::empty();
    lemma_line_text_push(e, a);
    lemma_line_text_push(e.push(a), b);
    lemma_line_text_push(e.push(a).push(b), c);
    lemma_line_text_push(e.push(a).push(b).push(c), d);
    assert(e.push(a).push(b).push(c).push(d) =~= seq![a, b, c, d]);
    assert(line_text(e) =~= Seq::<char>::empty());
    assert(a.0 + b.0 + c.0 + d.0 =~= Seq::<char>::empty() + a.0 + b.0 + c.0 + d.0);
}

/// In a line whose label fits the width, the separator glyph stands at column
/// `margin + width + 1`, after blanks and the label.
pub proof fn lemma_separator_at(label: Seq<char>, width: nat, margin: nat, value: SpanView)
    requires
        label.len() <= width,
    ensures
        line_text(aligned_spans(label, width, margin, value))[(margin + width + 1) as int]
            == separator_glyph(),
        line_text(aligned_spans(label, width, margin, value)).len() == margin + width + 4
            + value.0.len(),
{
    reveal_strlit("\u{f444} ");
    lemma_blanks(margin);
    lemma_pad_left_len(label, width);
    let sp = aligned_spans(label, width, margin, value);
    lemma_line_text_four(sp[0], sp[1], sp[2], sp[3]);
    assert(sp =~= seq![sp[0], sp[1], sp[2], sp[3]]);
    let t = line_text(sp);
    assert(sp[0].0.len() == margin + width + 1);
    assert(t[(margin + width + 1) as int] == sp[1].0[0]);
}

/// Whatever the entries, every line of the info panel has the separator glyph
/// at the same column.
pub proof fn lemma_separators_aligned(entries: Seq<(Seq<char>, Seq<char>)>)
    ensures
        forall|i: int|
            0 <= i < entries.len() ==> #[trigger] line_text(formatted_lines(entries)[i])[separator_column(
                entries,
            ) as int] == separator_glyph(),
{
    lemma_max_label_width(entries);
    assert forall|i: int| 0 <= i < entries.len() implies #[trigger] line_text(
        formatted_lines(entries)[i],
    )[separator_column(entries) as int] == separator_glyph() by {
        lemma_separator_at(
            entries[i].0,
            max_label_width(entries),
            INFO_MARGIN as nat,
            (entries[i].1, None, false),
        );
    }
}

/// Formatting the same entries twice gives the same lines: the panel depends
/// on the labels and values alone.
pub proof fn lemma_format_repeatable(a: Seq<MetricEntry>, b: Seq<MetricEntry>)
    requires
        entries_view(a) == entries_view(b),
    ensures
        formatted_lines(entries_view(a)) == formatted_lines(entries_view(b)),
{
}

/// The longest label among `items`, in characters.
pub fn label_width(items: &Vec<MetricEntry>) -> (r: usize)
    ensures
        r == max_label_width(entries_view(items@)),
{
    let mut w: usize = 0;
    let mut i: usize = 0;
    while i < items.len()
        invariant
            i <= items@.len(),
            w == max_label_width(entries_view(items@.subrange(0, i as int))),
        decreases items@.len() - i,
    {
        proof {
            assert(entries_view(items@.subrange(0, i + 1)).drop_last() =~= entries_view(
                items@.subrange(0, i as int),
            ));
        }
        let n = char_len(items[i].label.as_str());
        if n > w {
            w = n;
        }
        i = i + 1;
    }
    proof {
        assert(items@.subrange(0, items@.len() as int) =~= items@);
    }
    w
}

/// One aligned line: `margin` blanks, `label` right-justified to `width`, the
/// separator, then `value`.
pub fn aligned_line(label: &str, width: usize, margin: usize, value: Span) -> (r: Vec<Span>)
    ensures
        spans_view(r@) == aligned_spans(label@, width as nat, margin as nat, value@),
{
    let mut head = spaces(margin);
    let padded = right_justify(label, width);
    head.append(padded.as_str());
    head.append(" ");
    proof {
        reveal_strlit(" ");
    }
    let r = vec![
        plain(head),
        tinted(String::from_str("\u{f444} "), GREEN),
        plain(String::from_str(" ")),
        value,
    ];
    proof {
        assert(" "@ =~= seq![' ']);
        assert(spans_view(r@) =~= aligned_spans(label@, width as nat, margin as nat, value@));
    }
    r
}

/// The info panel: each entry on its own line, in order, labels right-justified
/// to the longest label and the separator glyph in one column for all lines.
/// No entries give no lines.
pub fn format_system_info(items: &Vec<MetricEntry>) -> (r: Vec<Vec<Span>>)
    ensures
        lines_view(r@) == formatted_lines(entries_view(items@)),
{
    let width = label_width(items);
    let mut lines: Vec<Vec<Span>> = Vec::new();
    let mut i: usize = 0;
    while i < items.len()
        invariant
            i <= items@.len(),
            width == max_label_width(entries_view(items@)),
            lines_view(lines@) == formatted_lines(entries_view(items@)).subrange(0, i as int),
        decreases items@.len() - i,
    {
        let e = &items[i];
        let value = plain(e.value.clone());
        let line = aligned_line(e.label.as_str(), width, INFO_MARGIN, value);
        let ghost prev = lines@;
        let ghost lv = spans_view(line@);
        let ghost all = formatted_lines(entries_view(items@));
        proof {
            assert(entries_view(items@)[i as int] == (e.label@, e.value@));
            assert(all[i as int] == lv);
        }
        lines.push(line);
        proof {
            assert(lines_view(lines@) =~= lines_view(prev).push(lv));
            assert(all.subrange(0, i + 1) =~= all.subrange(0, i as int).push(all[i as int]));
        }
        i = i + 1;
    }
    proof {
        assert(formatted_lines(entries_view(items@)).subrange(0, items@.len() as int)
            =~= formatted_lines(entries_view(items@)));
    }
    lines
}

/// Column of the separator glyph in the first line of the info panel, or 20
/// when the panel is empty (or the column is within 8 of the largest `usize`).
pub fn separator_position(items: &Vec<MetricEntry>) -> (r: usize)
    ensures
        items@.len() > 0 && separator_column(entries_view(items@)) <= usize::MAX - 8 ==> r
            == separator_column(entries_view(items@)) && line_text(
            formatted_lines(entries_view(items@))[0],
        )[r as int] == separator_glyph(),
        items@.len() == 0 || separator_column(entries_view(items@)) > usize::MAX - 8 ==> r
            == 20,
        r <= usize::MAX - 8,
{
    if items.len() == 0 {
        20
    } else {
        let w = label_width(items);
        proof {
            lemma_separators_aligned(entries_view(items@));
            assert(0 <= 0 < entries_view(items@).len());
        }
        if w > usize::MAX - (INFO_MARGIN + 9) {
            20
        } else {
            INFO_MARGIN + w + 1
        }
    }
}

} // verus!
