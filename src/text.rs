//! Styled text as plain values: a line is a sequence of spans, each with its
//! characters, an optional ANSI palette colour and a bold flag.
use crossterm::style::Stylize;
use vstd::prelude::*;
use vstd::string::StrSliceExecFns;
use vstd::string::StringExecFns;

verus! {

/// ANSI palette indices, as the terminal library numbers its named colours.
pub const DARK_RED: u8 = 1;
pub const DARK_GREEN: u8 = 2;
pub const DARK_YELLOW: u8 = 3;
pub const DARK_BLUE: u8 = 4;
pub const DARK_MAGENTA: u8 = 5;
pub const DARK_CYAN: u8 = 6;
pub const DARK_GREY: u8 = 8;
pub const RED: u8 = 9;
pub const GREEN: u8 = 10;
pub const YELLOW: u8 = 11;
pub const BLUE: u8 = 12;
pub const MAGENTA: u8 = 13;
pub const CYAN: u8 = 14;

/// A run of characters drawn in one style.
pub struct Span {
    pub text: String,
    pub color: Option<u8>,
    pub bold: bool,
}

/// What a span shows: its characters, colour and weight.
pub type SpanView = (Seq<char>, Option<u8>, bool);

impl View for Span {
    type V = SpanView;

    open spec fn view(&self) -> SpanView {
        (self.text@, self.color, self.bold)
    }
}

pub open spec fn spans_view(spans: Seq<Span>) -> Seq<SpanView> {
    spans.map_values(|s: Span| s@)
}

/// The characters of a line, styles dropped.
pub open spec fn line_text(spans: Seq<SpanView>) -> Seq<char>
    decreases spans.len(),
{
    if spans.len() == 0 {
        Seq::empty()
    } else {
        line_text(spans.drop_last()) + spans.last().0
    }
}

/// `n` copies of `unit`, one after another.
pub open spec fn repeat_seq(unit: Seq<char>, n: nat) -> Seq<char>
    decreases n,
{
    if n == 0 {
        Seq::empty()
    } else {
        repeat_seq(unit, (n - 1) as nat) + unit
    }
}

pub open spec fn blanks(n: nat) -> Seq<char> {
    repeat_seq(seq![' '], n)
}

/// `s` right-justified in a field of `width` characters.
pub open spec fn pad_left(s: Seq<char>, width: nat) -> Seq<char> {
    if s.len() < width {
        blanks((width - s.len()) as nat) + s
    } else {
        s
    }
}

pub open spec fn digit_char(d: int) -> char {
    if d == 0 {
        '0'
    } else if d == 1 {
        '1'
    } else if d == 2 {
        '2'
    } else if d == 3 {
        '3'
    } else if d == 4 {
        '4'
    } else if d == 5 {
        '5'
    } else if d == 6 {
        '6'
    } else if d == 7 {
        '7'
    } else if d == 8 {
        '8'
    } else {
        '9'
    }
}

/// Base-ten digits of a natural number, most significant first, no leading zero.
pub open spec fn digits(n: nat) -> Seq<char>
    decreases n,
{
    if n < 10 {
        seq![digit_char(n as int)]
    } else {
        digits(n / 10) + seq![digit_char((n % 10) as int)]
    }
}

/// An integer written in base ten, with a leading '-' when negative.
pub open spec fn decimal_text(n: int) -> Seq<char> {
    if n < 0 {
        seq!['-'] + digits((-n) as nat)
    } else {
        digits(n as nat)
    }
}

pub proof fn lemma_repeat_len(unit: Seq<char>, n: nat)
    ensures
        repeat_seq(unit, n).len() == n * unit.len(),
    decreases n,
{
    if n > 0 {
        lemma_repeat_len(unit, (n - 1) as nat);
        assert(n * unit.len() == (n - 1) * unit.len() + unit.len()) by (nonlinear_arith);
    } else {
        assert(n * unit.len() == 0) by (nonlinear_arith)
            requires
                n == 0,
        ;
    }
}

pub proof fn lemma_blanks(n: nat)
    ensures
        blanks(n).len() == n,
        forall|i: int| 0 <= i < n ==> #[trigger] blanks(n)[i] == ' ',
    decreases n,
{
    if n > 0 {
        lemma_blanks((n - 1) as nat);
        assert forall|i: int| 0 <= i < n implies #[trigger] blanks(n)[i] == ' ' by {
            if i < n - 1 {
                assert(blanks(n)[i] == blanks((n - 1) as nat)[i]);
            }
        }
    }
}

pub proof fn lemma_pad_left_len(s: Seq<char>, width: nat)
    ensures
        pad_left(s, width).len() == if s.len() < width { width } else { s.len() },
{
    if s.len() < width {
        lemma_blanks((width - s.len()) as nat);
    }
}

/// The one-character text of digit `d`.
fn digit_str(d: u128) -> (r: &'static str)
    requires
        d < 10,
    ensures
        r@ == seq![digit_char(d as int)],
{
    if d == 0 {
        proof {
            reveal_strlit("0");
            assert("0"@ =~= seq![digit_char(0)]);
        }
        "0"
    } else if d == 1 {
        proof {
            reveal_strlit("1");
            assert("1"@ =~= seq![digit_char(1)]);
        }
        "1"
    } else if d == 2 {
        proof {
            reveal_strlit("2");
            assert("2"@ =~= seq![digit_char(2)]);
        }
        "2"
    } else if d == 3 {
        proof {
            reveal_strlit("3");
            assert("3"@ =~= seq![digit_char(3)]);
        }
        "3"
    } else if d == 4 {
        proof {
            reveal_strlit("4");
            assert("4"@ =~= seq![digit_char(4)]);
        }
        "4"
    } else if d == 5 {
        proof {
            reveal_strlit("5");
            assert("5"@ =~= seq![digit_char(5)]);
        }
        "5"
    } else if d == 6 {
        proof {
            reveal_strlit("6");
            assert("6"@ =~= seq![digit_char(6)]);
        }
        "6"
    } else if d == 7 {
        proof {
            reveal_strlit("7");
            assert("7"@ =~= seq![digit_char(7)]);
        }
        "7"
    } else if d == 8 {
        proof {
            reveal_strlit("8");
            assert("8"@ =~= seq![digit_char(8)]);
        }
        "8"
    } else {
        proof {
            reveal_strlit("9");
            assert("9"@ =~= seq![digit_char(9)]);
        }
        "9"
    }
}

/// `n` written in base ten, with a leading '-' when negative.
pub fn decimal(n: i128) -> (r: String)
    ensures
        r@ == decimal_text(n as int),
{
    let magnitude: u128 = if n < 0 { (-(n + 1)) as u128 + 1 } else { n as u128 };
    let ghost whole = magnitude;
    let mut m: u128 = magnitude;
    let mut acc = String::new();
    proof {
        assert(digits(whole as nat) =~= digits(m as nat) + acc@);
    }
    while m >= 10
        invariant
            digits(whole as nat) == digits(m as nat) + acc@,
        decreases m,
    {
        let d = digit_str(m % 10);
        let mut next = String::from_str(d);
        next.append(acc.as_str());
        proof {
            assert(digits(m as nat) == digits((m / 10) as nat) + seq![digit_char((m % 10) as int)]);
            assert(digits(whole as nat) =~= digits((m / 10) as nat) + next@);
        }
        acc = next;
        m = m / 10;
    }
    let mut out = if n < 0 { String::from_str("-") } else { String::new() };
    proof {
        reveal_strlit("-");
        assert(digits(m as nat) == seq![digit_char(m as int)]);
    }
    out.append(digit_str(m));
    out.append(acc.as_str());
    proof {
        if n < 0 {
            assert(out@ =~= seq!['-'] + digits(whole as nat));
        } else {
            assert(out@ =~= digits(whole as nat));
        }
    }
    out
}

/// `n` copies of `unit`.
pub fn repeat_str(unit: &str, n: usize) -> (r: String)
    ensures
        r@ == repeat_seq(unit@, n as nat),
{
    let mut s = String::new();
    let mut i: usize = 0;
    while i < n
        invariant
            i <= n,
            s@ == repeat_seq(unit@, i as nat),
        decreases n - i,
    {
        s.append(unit);
        i = i + 1;
    }
    s
}

pub fn spaces(n: usize) -> (r: String)
    ensures
        r@ == blanks(n as nat),
{
    proof {
        reveal_strlit(" ");
        assert(" "@ =~= seq![' ']);
    }
    repeat_str(" ", n)
}

/// Number of characters (not bytes) of `s`.
pub fn char_len(s: &str) -> (r: usize)
    ensures
        r == s@.len(),
{
    s.unicode_len()
}

/// `s` right-justified in a field of `width` characters, as `{:>width$}` writes it.
pub fn right_justify(s: &str, width: usize) -> (r: String)
    ensures
        r@ == pad_left(s@, width as nat),
{
    let n = char_len(s);
    if n < width {
        let mut out = spaces(width - n);
        out.append(s);
        out
    } else {
        String::from_str(s)
    }
}

/// Bytes that UTF-8 takes for `c`.
pub open spec fn utf8_len(c: char) -> nat {
    if (c as u32) < 0x80 {
        1
    } else if (c as u32) < 0x800 {
        2
    } else if (c as u32) < 0x10000 {
        3
    } else {
        4
    }
}

/// Bytes that UTF-8 takes for `s`.
pub open spec fn utf8_bytes(s: Seq<char>) -> nat
    decreases s.len(),
{
    if s.len() == 0 {
        0
    } else {
        utf8_len(s[0]) + utf8_bytes(s.drop_first())
    }
}

/// The longest prefix of `s` that UTF-8 writes in at most `max_bytes` bytes:
/// a byte cut moved back to the last character boundary.
pub open spec fn byte_prefix(s: Seq<char>, max_bytes: int) -> Seq<char>
    decreases s.len(),
{
    if s.len() == 0 || utf8_len(s[0]) > max_bytes {
        Seq::empty()
    } else {
        seq![s[0]] + byte_prefix(s.drop_first(), max_bytes - utf8_len(s[0]))
    }
}

/// The byte prefix is a prefix of `s` that fits the budget, and is all of
/// `s` when `s` fits.
pub proof fn lemma_byte_prefix(s: Seq<char>, max_bytes: int)
    requires
        max_bytes >= 0,
    ensures
        byte_prefix(s, max_bytes).len() <= s.len(),
        byte_prefix(s, max_bytes) == s.subrange(0, byte_prefix(s, max_bytes).len() as int),
        utf8_bytes(byte_prefix(s, max_bytes)) <= max_bytes,
        utf8_bytes(s) <= max_bytes ==> byte_prefix(s, max_bytes) == s,
    decreases s.len(),
{
    if s.len() == 0 || utf8_len(s[0]) > max_bytes {
        assert(utf8_bytes(Seq::<char>::empty()) == 0);
        if s.len() > 0 {
            assert(utf8_bytes(s) >= utf8_len(s[0]));
        }
        assert(s.subrange(0, 0) =~= Seq::<char>::empty());
    } else {
        let rest = s.drop_first();
        let m = max_bytes - utf8_len(s[0]);
        lemma_byte_prefix(rest, m);
        let p = byte_prefix(rest, m);
        let q = seq![s[0]] + p;
        assert(q[0] == s[0]);
        assert(q.drop_first() =~= p);
        assert(q =~= s.subrange(0, q.len() as int));
        if utf8_bytes(s) <= max_bytes {
            assert(q =~= s);
        }
    }
}

fn char_bytes(c: char) -> (r: usize)
    ensures
        r == utf8_len(c),
{
    let v = c as u32;
    if v < 0x80 {
        1
    } else if v < 0x800 {
        2
    } else if v < 0x10000 {
        3
    } else {
        4
    }
}

/// The longest prefix of `s` that fits in `max_len` UTF-8 bytes, ending on a
/// character boundary; all of `s` when it fits.
pub fn truncate(s: &str, max_len: usize) -> (r: String)
    ensures
        r@ == byte_prefix(s@, max_len as int),
{
    let n = char_len(s);
    let mut k: usize = 0;
    let mut room: usize = max_len;
    let mut fits = true;
    proof {
        assert(s@.subrange(0, 0) =~= Seq::<char>::empty());
        assert(s@.subrange(0, n as int) =~= s@);
    }
    while k < n && fits
        invariant
            n == s@.len(),
            k <= n,
            room <= max_len,
            fits ==> byte_prefix(s@, max_len as int) == s@.subrange(0, k as int) + byte_prefix(
                s@.subrange(k as int, n as int),
                room as int,
            ),
            !fits ==> byte_prefix(s@, max_len as int) == s@.subrange(0, k as int),
        decreases n - k + if fits { 1int } else { 0int },
    {
        let c = s.get_char(k);
        let b = char_bytes(c);
        let ghost rest = s@.subrange(k as int, n as int);
        proof {
            assert(rest[0] == c);
            assert(rest.drop_first() =~= s@.subrange(k + 1, n as int));
        }
        if b > room {
            proof {
                assert(byte_prefix(rest, room as int) =~= Seq::<char>::empty());
                assert(s@.subrange(0, k as int) + Seq::<char>::empty() =~= s@.subrange(0, k as int));
            }
            fits = false;
        } else {
            proof {
                assert(s@.subrange(0, k as int) + (seq![c] + byte_prefix(
                    s@.subrange(k + 1, n as int),
                    room - b,
                )) =~= s@.subrange(0, k + 1) + byte_prefix(s@.subrange(k + 1, n as int), room - b));
            }
            room = room - b;
            k = k + 1;
        }
    }
    proof {
        if fits {
            assert(s@.subrange(n as int, n as int) =~= Seq::<char>::empty());
            assert(byte_prefix(Seq::<char>::empty(), room as int) =~= Seq::<char>::empty());
            assert(s@.subrange(0, n as int) + Seq::<char>::empty() =~= s@.subrange(0, n as int));
        }
    }
    String::from_str(s.substring_char(0, k))
}

pub fn plain(text: String) -> (r: Span)
    ensures
        r@ == (text@, None::<u8>, false),
{
    Span { text, color: None, bold: false }
}

pub fn tinted(text: String, color: u8) -> (r: Span)
    ensures
        r@ == (text@, Some(color), false),
{
    Span { text, color: Some(color), bold: false }
}

pub fn tinted_bold(text: String, color: u8) -> (r: Span)
    ensures
        r@ == (text@, Some(color), true),
{
    Span { text, color: Some(color), bold: true }
}

/// Relies on crossterm's `style(..).with(Color::AnsiValue(..))` and its `Display`:
/// the text framed by colour escape sequences. Those sequences, and on some
/// consoles the text itself, depend on the environment (`NO_COLOR`) and the
/// platform, so nothing is promised of the result.
#[verifier::external_body]
fn paint(text: &str, color: u8) -> String {
    crossterm::style::style(text).with(crossterm::style::Color::AnsiValue(color)).to_string()
}

/// Relies on crossterm's `style(..).with(..).bold()` and its `Display`, as `paint`
/// does, with the bold attribute added; nothing is promised of the result.
#[verifier::external_body]
fn paint_bold(text: &str, color: u8) -> String {
    crossterm::style::style(text).with(crossterm::style::Color::AnsiValue(color)).bold().to_string()
}

/// The pieces of a text, one after another.
pub open spec fn concat(pieces: Seq<Seq<char>>) -> Seq<char>
    decreases pieces.len(),
{
    if pieces.len() == 0 {
        Seq::empty()
    } else {
        concat(pieces.drop_last()) + pieces.last()
    }
}

/// `pieces` has one piece per span, and each uncoloured span's piece is its
/// text.
pub open spec fn pieces_match(pieces: Seq<Seq<char>>, spans: Seq<Span>) -> bool {
    &&& pieces.len() == spans.len()
    &&& forall|k: int|
        0 <= k < spans.len() && (#[trigger] spans[k]).color is None ==> pieces[k] == spans[k].text@
}

/// The terminal text of a line: one piece per span, in order; plain spans as
/// they are, coloured spans through the terminal library's escape sequences.
pub fn render_spans(spans: &Vec<Span>) -> (r: String)
    ensures
        exists|pieces: Seq<Seq<char>>| pieces_match(pieces, spans@) && r@ == concat(pieces),
        (forall|k: int| 0 <= k < spans@.len() ==> (#[trigger] spans@[k]).color is None)
            ==> r@ == line_text(spans_view(spans@)),
{
    let mut out = String::new();
    let mut i: usize = 0;
    let ghost mut pieces: Seq<Seq<char>> = Seq::empty();
    while i < spans.len()
        invariant
            i <= spans@.len(),
            pieces_match(pieces, spans@.subrange(0, i as int)),
            out@ == concat(pieces),
            (forall|k: int| 0 <= k < i ==> (#[trigger] spans@[k]).color is None)
                ==> out@ == line_text(spans_view(spans@.subrange(0, i as int))),
        decreases spans@.len() - i,
    {
        let s = &spans[i];
        let ghost before = out@;
        proof {
            assert(spans@.subrange(0, i + 1).drop_last() =~= spans@.subrange(0, i as int));
            assert(spans_view(spans@.subrange(0, i + 1)).drop_last() =~= spans_view(
                spans@.subrange(0, i as int),
            ));
        }
        match s.color {
            None => {
                out.append(s.text.as_str());
            },
            Some(c) => {
                let painted = if s.bold {
                    paint_bold(s.text.as_str(), c)
                } else {
                    paint(s.text.as_str(), c)
                };
                out.append(painted.as_str());
            },
        }
        proof {
            let piece = out@.subrange(before.len() as int, out@.len() as int);
            assert(out@ =~= before + piece);
            let np = pieces.push(piece);
            assert(np.drop_last() =~= pieces);
            assert(s.color is None ==> piece =~= s.text@);
            assert forall|k: int|
                0 <= k < i + 1 && (#[trigger] spans@.subrange(0, i + 1)[k]).color is None implies np[k]
                == spans@.subrange(0, i + 1)[k].text@ by {
                if k < i {
                    assert(spans@.subrange(0, i + 1)[k] == spans@.subrange(0, i as int)[k]);
                }
            }
            pieces = np;
        }
        i = i + 1;
    }
    proof {
        assert(spans@.subrange(0, spans@.len() as int) =~= spans@);
    }
    out
}

} // verus!
