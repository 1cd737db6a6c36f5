//! The computing parts of metric collection: what is made of the raw values
//! that the system hands over.
use crate::text::char_len;
use vstd::prelude::*;
use vstd::string::{StrSliceExecFns, StringExecFns};

verus! {

/// `used` as a whole percentage of `total`, rounded down; 0 when `total` is 0.
pub open spec fn usage_percent_spec(used: int, total: int) -> int {
    if total <= 0 {
        0
    } else if 100 * used / total > i32::MAX {
        i32::MAX as int
    } else {
        100 * used / total
    }
}

/// `used` as a whole percentage of `total`, rounded down; 0 when `total` is 0.
pub fn usage_percent(used: u64, total: u64) -> (r: i32)
    ensures
        r == usage_percent_spec(used as int, total as int),
{
    if total == 0 {
        0
    } else {
        let q: u128 = (used as u128) * 100 / (total as u128);
        if q > i32::MAX as u128 {
            i32::MAX
        } else {
            q as i32
        }
    }
}

/// Share of a disk in use, from its total and available space.
pub fn get_disk_usage(total: u64, available: u64) -> (r: i32)
    ensures
        r == usage_percent_spec(if available >= total { 0 } else { total - available }, total as int),
{
    usage_percent(total.saturating_sub(available), total)
}

/// `path` with a leading "~/" standing for `home`.
pub open spec fn expanded(path: Seq<char>, home: Option<Seq<char>>) -> Seq<char> {
    match home {
        Some(h) => if path.len() >= 2 && path[0] == '~' && path[1] == '/' {
            h + path.subrange(1, path.len() as int)
        } else {
            path
        },
        None => path,
    }
}

/// `path` with a leading "~/" replaced by `home`, when it is known.
pub fn expand_home(path: &str, home: Option<&str>) -> (r: String)
    ensures
        r@ == expanded(path@, match home {
            Some(h) => Some(h@),
            None => None,
        }),
{
    let n = char_len(path);
    match home {
        Some(h) => {
            if n >= 2 && path.get_char(0) == '~' && path.get_char(1) == '/' {
                let mut out = String::from_str(h);
                out.append(path.substring_char(1, n));
                out
            } else {
                String::from_str(path)
            }
        },
        None => String::from_str(path),
    }
}

/// The lowercase form of a text, as the standard library's Unicode case
/// mapping gives it.
pub uninterp spec fn lower_of(s: Seq<char>) -> Seq<char>;

/// Relies on `str::to_lowercase`: the Unicode lowercase mapping, which depends
/// on the characters alone.
#[verifier::external_body]
fn lowercase(s: &str) -> (r: String)
    ensures
        r@ == lower_of(s@),
{
    s.to_lowercase()
}

/// `needle` occurs in `hay` starting at `i`.
pub open spec fn occurs_at(hay: Seq<char>, needle: Seq<char>, i: int) -> bool {
    0 <= i && i + needle.len() <= hay.len() && hay.subrange(i, i + needle.len()) == needle
}

pub open spec fn has_infix(hay: Seq<char>, needle: Seq<char>) -> bool {
    exists|i: int| occurs_at(hay, needle, i)
}

/// Whether `needle` occurs in `hay`.
pub fn contains(hay: &str, needle: &str) -> (r: bool)
    ensures
        r == has_infix(hay@, needle@),
{
    let n = char_len(hay);
    let m = char_len(needle);
    if m > n {
        proof {
            assert forall|i: int| !occurs_at(hay@, needle@, i) by {}
        }
        return false;
    }
    if m == 0 {
        proof {
            assert(hay@.subrange(0, 0) =~= needle@);
            assert(occurs_at(hay@, needle@, 0));
        }
        return true;
    }
    let target = String::from_str(needle);
    let mut i: usize = 0;
    while i <= n - m
        invariant
            n == hay@.len(),
            m == needle@.len(),
            1 <= m <= n,
            i <= n - m + 1,
            target@ == needle@,
            forall|j: int| 0 <= j < i ==> !occurs_at(hay@, needle@, j),
        decreases n - m + 1 - i,
    {
        let part = String::from_str(hay.substring_char(i, i + m));
        if part == target {
            proof {
                assert(occurs_at(hay@, needle@, i as int));
            }
            return true;
        }
        i = i + 1;
    }
    proof {
        assert forall|j: int| !occurs_at(hay@, needle@, j) by {
            if 0 <= j && j + m <= n {
                assert(j < i);
            }
        }
    }
    false
}

/// The logo file of a distribution, from its lowercase name: the first of a
/// fixed list of names that occurs in it picks the file, "linux.svg" otherwise.
pub open spec fn logo_name_of(lower: Seq<char>) -> Seq<char> {
    if has_infix(lower, "arch"@) {
        "arch.svg"@
    } else if has_infix(lower, "debian"@) {
        "debian.svg"@
    } else if has_infix(lower, "endeavour"@) {
        "endeavouros.svg"@
    } else if has_infix(lower, "fedora"@) {
        "fedora.svg"@
    } else if has_infix(lower, "garuda"@) {
        "garuda.svg"@
    } else if has_infix(lower, "gentoo"@) {
        "gentoo.svg"@
    } else if has_infix(lower, "guix"@) {
        "guix.svg"@
    } else if has_infix(lower, "lmde"@) {
        "lmde.svg"@
    } else if has_infix(lower, "macos"@) {
        "macos.svg"@
    } else if has_infix(lower, "manjaro"@) {
        "manjaro.svg"@
    } else if has_infix(lower, "mint"@) {
        "mint.svg"@
    } else if has_infix(lower, "nixos"@) {
        "nixos.svg"@
    } else if has_infix(lower, "obsidian"@) {
        "obsidian.svg"@
    } else if has_infix(lower, "popos"@) {
        "popos.svg"@
    } else if has_infix(lower, "ubuntu"@) {
        "ubuntu.svg"@
    } else if has_infix(lower, "venom"@) {
        "venom.svg"@
    } else if has_infix(lower, "windows"@) {
        "windows.svg"@
    } else {
        "linux.svg"@
    }
}

/// The logo file for a distribution name that is already lowercase.
pub fn logo_name_for_lower(lower: &str) -> (r: &'static str)
    ensures
        r@ == logo_name_of(lower@),
{
    if contains(lower, "arch") {
        "arch.svg"
    } else if contains(lower, "debian") {
        "debian.svg"
    } else if contains(lower, "endeavour") {
        "endeavouros.svg"
    } else if contains(lower, "fedora") {
        "fedora.svg"
    } else if contains(lower, "garuda") {
        "garuda.svg"
    } else if contains(lower, "gentoo") {
        "gentoo.svg"
    } else if contains(lower, "guix") {
        "guix.svg"
    } else if contains(lower, "lmde") {
        "lmde.svg"
    } else if contains(lower, "macos") {
        "macos.svg"
    } else if contains(lower, "manjaro") {
        "manjaro.svg"
    } else if contains(lower, "mint") {
        "mint.svg"
    } else if contains(lower, "nixos") {
        "nixos.svg"
    } else if contains(lower, "obsidian") {
        "obsidian.svg"
    } else if contains(lower, "popos") {
        "popos.svg"
    } else if contains(lower, "ubuntu") {
        "ubuntu.svg"
    } else if contains(lower, "venom") {
        "venom.svg"
    } else if contains(lower, "windows") {
        "windows.svg"
    } else {
        "linux.svg"
    }
}

/// The logo file for a distribution name, matched without regard to case.
pub fn get_logo_name(distro: &str) -> (r: &'static str)
    ensures
        r@ == logo_name_of(lower_of(distro@)),
{
    let lower = lowercase(distro);
    logo_name_for_lower(lower.as_str())
}

/// The window manager's name from the desktop variable: Hyprland and Sway
/// are written in their own case whatever the variable's case, anything else
/// is kept as it is. `lower` is the variable in lowercase.
pub open spec fn wm_name_of(desktop: Seq<char>, lower: Seq<char>) -> Seq<char> {
    if lower == "hyprland"@ {
        "Hyprland"@
    } else if lower == "sway"@ {
        "Sway"@
    } else {
        desktop
    }
}

/// The window manager's name from `desktop` and its lowercase form `lower`.
pub fn wm_name_for(desktop: &str, lower: &str) -> (r: String)
    ensures
        r@ == wm_name_of(desktop@, lower@),
{
    let l = String::from_str(lower);
    if l == String::from_str("hyprland") {
        String::from_str("Hyprland")
    } else if l == String::from_str("sway") {
        String::from_str("Sway")
    } else {
        String::from_str(desktop)
    }
}

/// The window manager's name from the desktop variable.
pub fn get_window_manager(desktop: &str) -> (r: String)
    ensures
        r@ == wm_name_of(desktop@, lower_of(desktop@)),
{
    let lower = lowercase(desktop);
    wm_name_for(desktop, lower.as_str())
}

/// The parts of `s` between separators `sep`, in order; `s` without one is a
/// single part.
pub open spec fn split_parts(s: Seq<char>, sep: char) -> Seq<Seq<char>>
    decreases s.len(),
{
    if s.len() == 0 {
        seq![Seq::empty()]
    } else {
        let t = split_parts(s.drop_last(), sep);
        if s.last() == sep {
            t.push(Seq::empty())
        } else {
            t.update(t.len() - 1, t.last().push(s.last()))
        }
    }
}

pub open spec fn strings_view(v: Seq<String>) -> Seq<Seq<char>> {
    v.map_values(|s: String| s@)
}

pub proof fn lemma_split_parts_nonempty(s: Seq<char>, sep: char)
    ensures
        split_parts(s, sep).len() >= 1,
    decreases s.len(),
{
    if s.len() > 0 {
        lemma_split_parts_nonempty(s.drop_last(), sep);
    }
}

/// The parts of `s` between separators `sep`, as `str::split` gives them.
pub fn split_on(s: &str, sep: char) -> (r: Vec<String>)
    ensures
        strings_view(r@) == split_parts(s@, sep),
{
    let n = char_len(s);
    let mut start: usize = 0;
    let mut out: Vec<String> = Vec::new();
    let mut i: usize = 0;
    proof {
        assert(s@.subrange(0, 0) =~= Seq::<char>::empty());
        assert(strings_view(out@).push(s@.subrange(0, 0)) =~= seq![Seq::<char>::empty()]);
    }
    while i < n
        invariant
            n == s@.len(),
            start <= i <= n,
            split_parts(s@.subrange(0, i as int), sep) == strings_view(out@).push(
                s@.subrange(start as int, i as int),
            ),
        decreases n - i,
    {
        let c = s.get_char(i);
        let ghost part = s@.subrange(start as int, i as int);
        let ghost done = strings_view(out@);
        proof {
            assert(s@.subrange(0, i + 1).drop_last() =~= s@.subrange(0, i as int));
            assert(s@.subrange(0, i + 1).last() == c);
        }
        if c == sep {
            out.push(String::from_str(s.substring_char(start, i)));
            proof {
                assert(strings_view(out@) =~= done.push(part));
                assert(s@.subrange((i + 1) as int, (i + 1) as int) =~= Seq::<char>::empty());
            }
            start = i + 1;
        } else {
            proof {
                lemma_split_parts_nonempty(s@.subrange(0, i as int), sep);
                assert(part.push(c) =~= s@.subrange(start as int, i + 1));
                assert(done.push(part).update(done.len() as int, part.push(c)) =~= done.push(
                    s@.subrange(start as int, i + 1),
                ));
            }
        }
        i = i + 1;
    }
    let ghost done = strings_view(out@);
    out.push(String::from_str(s.substring_char(start, n)));
    proof {
        assert(s@.subrange(0, n as int) =~= s@);
        assert(strings_view(out@) =~= done.push(s@.subrange(start as int, n as int)));
    }
    out
}

/// Whether the standard library counts a character as numeric (Unicode
/// numeric categories).
pub uninterp spec fn numeric(c: char) -> bool;

/// Numeric characters: among ASCII the digits alone, beyond it as the
/// standard library decides.
pub open spec fn numeric_char(c: char) -> bool {
    if (c as u32) < 0x80 {
        '0' <= c <= '9'
    } else {
        numeric(c)
    }
}

/// Relies on `char::is_numeric`: true for the Unicode numeric categories
/// (Nd, Nl, No), which among ASCII characters hold the digits alone.
#[verifier::external_body]
fn is_numeric(c: char) -> (r: bool)
    ensures
        r == numeric(c),
        r == numeric_char(c),
{
    c.is_numeric()
}

pub open spec fn is_number_run(s: Seq<char>) -> bool {
    s.len() > 0 && forall|k: int| 0 <= k < s.len() ==> numeric_char(#[trigger] s[k])
}

/// Whether `s` is a non-empty run of numeric characters.
pub fn is_number_text(s: &str) -> (r: bool)
    ensures
        r == is_number_run(s@),
{
    let n = char_len(s);
    if n == 0 {
        return false;
    }
    let mut i: usize = 0;
    while i < n
        invariant
            n == s@.len(),
            i <= n,
            forall|k: int| 0 <= k < i ==> numeric_char(#[trigger] s@[k]),
        decreases n - i,
    {
        if !is_numeric(s.get_char(i)) {
            return false;
        }
        i = i + 1;
    }
    true
}

/// The first part that is a non-empty run of numeric characters.
pub open spec fn first_number_part(parts: Seq<Seq<char>>) -> Option<Seq<char>>
    decreases parts.len(),
{
    if parts.len() == 0 {
        None
    } else if is_number_run(parts[0]) {
        Some(parts[0])
    } else {
        first_number_part(parts.drop_first())
    }
}

pub proof fn lemma_first_number_push(parts: Seq<Seq<char>>, x: Seq<char>)
    ensures
        first_number_part(parts.push(x)) == match first_number_part(parts) {
            Some(p) => Some(p),
            None => if is_number_run(x) {
                Some(x)
            } else {
                None
            },
        },
    decreases parts.len(),
{
    if parts.len() == 0 {
        assert(parts.push(x) =~= seq![x]);
        assert(seq![x].drop_first() =~= Seq::<Seq<char>>::empty());
        assert(first_number_part(Seq::<Seq<char>>::empty()) == None::<Seq<char>>);
        assert(seq![x][0] == x);
    } else {
        assert(parts.push(x)[0] == parts[0]);
        assert(parts.push(x).drop_first() =~= parts.drop_first().push(x));
        lemma_first_number_push(parts.drop_first(), x);
    }
}

/// The generation number in a profile link such as "system-123-link": the
/// first part between dashes made only of numeric characters.
pub fn extract_generation(path: &str) -> (r: Option<String>)
    ensures
        crate::system_info::opt_view(r) == first_number_part(split_parts(path@, '-')),
{
    let parts = split_on(path, '-');
    let ghost pv = strings_view(parts@);
    let mut found: Option<String> = None;
    let mut k: usize = 0;
    proof {
        assert(pv.subrange(0, 0) =~= Seq::<Seq<char>>::empty());
    }
    while k < parts.len()
        invariant
            pv == strings_view(parts@),
            k <= parts@.len(),
            crate::system_info::opt_view(found) == first_number_part(pv.subrange(0, k as int)),
        decreases parts@.len() - k,
    {
        proof {
            lemma_first_number_push(pv.subrange(0, k as int), pv[k as int]);
            assert(pv.subrange(0, k + 1) =~= pv.subrange(0, k as int).push(pv[k as int]));
        }
        if found.is_none() && is_number_text(parts[k].as_str()) {
            found = Some(parts[k].clone());
        }
        k = k + 1;
    }
    proof {
        assert(pv.subrange(0, parts@.len() as int) =~= pv);
    }
    found
}

/// Whether the standard library counts a character as white space (the
/// Unicode White_Space property).
pub uninterp spec fn white_space(c: char) -> bool;

/// White space: among ASCII the blank and U+0009 to U+000D, beyond it as the
/// standard library decides.
pub open spec fn space_char(c: char) -> bool {
    if (c as u32) < 0x80 {
        c == ' ' || ('\t' <= c <= '\r')
    } else {
        white_space(c)
    }
}

/// Relies on `char::is_whitespace`: the Unicode White_Space property, which
/// among ASCII characters holds of U+0009 to U+000D and the blank alone.
#[verifier::external_body]
fn is_whitespace(c: char) -> (r: bool)
    ensures
        r == white_space(c),
        r == space_char(c),
{
    c.is_whitespace()
}

pub open spec fn strip_front(s: Seq<char>) -> Seq<char>
    decreases s.len(),
{
    if s.len() > 0 && space_char(s[0]) {
        strip_front(s.drop_first())
    } else {
        s
    }
}

pub open spec fn strip_back(s: Seq<char>) -> Seq<char>
    decreases s.len(),
{
    if s.len() > 0 && space_char(s.last()) {
        strip_back(s.drop_last())
    } else {
        s
    }
}

/// `s` without leading and trailing white space, as `str::trim` gives it.
pub open spec fn trimmed(s: Seq<char>) -> Seq<char> {
    strip_back(strip_front(s))
}

/// `s` without leading and trailing white space.
pub fn trim(s: &str) -> (r: String)
    ensures
        r@ == trimmed(s@),
{
    let n = char_len(s);
    let mut a: usize = 0;
    proof {
        assert(s@.subrange(0, n as int) =~= s@);
    }
    while a < n && is_whitespace(s.get_char(a))
        invariant
            n == s@.len(),
            a <= n,
            strip_front(s@) == strip_front(s@.subrange(a as int, n as int)),
        decreases n - a,
    {
        proof {
            assert(s@.subrange(a as int, n as int).drop_first() =~= s@.subrange(a + 1, n as int));
        }
        a = a + 1;
    }
    proof {
        assert(s@.subrange(0, n as int) =~= s@);
    }
    let mut b: usize = n;
    while b > a && is_whitespace(s.get_char(b - 1))
        invariant
            n == s@.len(),
            a <= b <= n,
            strip_front(s@) == s@.subrange(a as int, n as int),
            trimmed(s@) == strip_back(s@.subrange(a as int, b as int)),
        decreases b - a,
    {
        proof {
            assert(s@.subrange(a as int, b as int).drop_last() =~= s@.subrange(a as int, b - 1));
        }
        b = b - 1;
    }
    String::from_str(s.substring_char(a, b))
}

/// `s` with each occurrence of `from`, scanned left to right without
/// overlap, replaced by `to`, as `str::replace` gives it.
pub open spec fn replaced(s: Seq<char>, from: Seq<char>, to: Seq<char>) -> Seq<char>
    decreases s.len(),
{
    if from.len() == 0 || s.len() < from.len() {
        s
    } else if s.subrange(0, from.len() as int) == from {
        to + replaced(s.subrange(from.len() as int, s.len() as int), from, to)
    } else {
        seq![s[0]] + replaced(s.drop_first(), from, to)
    }
}

/// `s` with each occurrence of the non-empty `from` replaced by `to`.
pub(crate) fn replace_all(s: &str, from: &str, to: &str) -> (r: String)
    requires
        from@.len() > 0,
    ensures
        r@ == replaced(s@, from@, to@),
{
    let n = char_len(s);
    let m = char_len(from);
    let pattern = String::from_str(from);
    let mut out = String::new();
    let mut i: usize = 0;
    proof {
        assert(s@.subrange(0, n as int) =~= s@);
        assert(out@ + replaced(s@, from@, to@) =~= replaced(s@, from@, to@));
    }
    while i < n
        invariant
            n == s@.len(),
            m == from@.len(),
            m > 0,
            i <= n,
            pattern@ == from@,
            replaced(s@, from@, to@) == out@ + replaced(s@.subrange(i as int, n as int), from@, to@),
        decreases n - i,
    {
        let ghost rest = s@.subrange(i as int, n as int);
        if n - i < m {
            proof {
                assert(replaced(rest, from@, to@) == rest);
            }
            out.append(s.substring_char(i, n));
            proof {
                assert(s@.subrange(n as int, n as int) =~= Seq::<char>::empty());
                assert(replaced(Seq::<char>::empty(), from@, to@) == Seq::<char>::empty());
                assert(out@ + Seq::<char>::empty() =~= out@);
            }
            i = n;
        } else if String::from_str(s.substring_char(i, i + m)) == pattern {
            proof {
                assert(rest.subrange(0, m as int) =~= s@.subrange(i as int, i + m));
                assert(rest.subrange(m as int, rest.len() as int) =~= s@.subrange(i + m, n as int));
            }
            out.append(to);
            i = i + m;
        } else {
            proof {
                assert(rest.subrange(0, m as int) =~= s@.subrange(i as int, i + m));
                assert(rest.drop_first() =~= s@.subrange(i + 1, n as int));
                assert(s@.subrange(i as int, i + 1) =~= seq![rest[0]]);
            }
            out.append(s.substring_char(i, i + 1));
            i = i + 1;
        }
    }
    proof {
        assert(s@.subrange(n as int, n as int) =~= Seq::<char>::empty());
        assert(replaced(Seq::<char>::empty(), from@, to@) == Seq::<char>::empty());
        assert(out@ + Seq::<char>::empty() =~= out@);
    }
    out
}

/// A processor's brand string tidied: trimmed, the "(R)" and "(TM)" marks
/// dropped, double blanks made single, trimmed again.
pub open spec fn cpu_model_of(brand: Seq<char>) -> Seq<char> {
    trimmed(
        replaced(
            replaced(replaced(trimmed(brand), "(R)"@, ""@), "(TM)"@, ""@),
            "  "@,
            " "@,
        ),
    )
}

/// The processor's brand string tidied for display.
pub fn get_cpu_model(brand: &str) -> (r: String)
    ensures
        r@ == cpu_model_of(brand@),
{
    proof {
        reveal_strlit("(R)");
        reveal_strlit("(TM)");
        reveal_strlit("  ");
    }
    let t = trim(brand);
    let a = replace_all(t.as_str(), "(R)", "");
    let b = replace_all(a.as_str(), "(TM)", "");
    let c = replace_all(b.as_str(), "  ", " ");
    trim(c.as_str())
}

/// A display controller's line of `lspci` output.
pub open spec fn is_gpu_line(line: Seq<char>) -> bool {
    has_infix(line, "VGA compatible controller"@) || has_infix(line, "3D controller"@)
}

/// A graphics card's name tidied: vendor names shortened, the "[AMD/ATI]" tag
/// dropped, trimmed.
pub open spec fn gpu_name_of(part: Seq<char>) -> Seq<char> {
    trimmed(
        replaced(
            replaced(
                replaced(
                    replaced(
                        replaced(trimmed(part), "NVIDIA Corporation"@, "NVIDIA"@),
                        "Advanced Micro Devices, Inc. [AMD/ATI]"@,
                        "AMD"@,
                    ),
                    "Advanced Micro Devices, Inc."@,
                    "AMD"@,
                ),
                "Intel Corporation"@,
                "Intel"@,
            ),
            "[AMD/ATI]"@,
            ""@,
        ),
    )
}

/// The card named by the first display controller line that has a third
/// colon-separated field.
pub open spec fn gpu_from_lines(lines: Seq<Seq<char>>) -> Option<Seq<char>>
    decreases lines.len(),
{
    if lines.len() == 0 {
        None
    } else if is_gpu_line(lines[0]) && split_parts(lines[0], ':').len() > 2 {
        Some(gpu_name_of(split_parts(lines[0], ':')[2]))
    } else {
        gpu_from_lines(lines.drop_first())
    }
}

fn gpu_name(part: &str) -> (r: String)
    ensures
        r@ == gpu_name_of(part@),
{
    proof {
        reveal_strlit("NVIDIA Corporation");
        reveal_strlit("Advanced Micro Devices, Inc. [AMD/ATI]");
        reveal_strlit("Advanced Micro Devices, Inc.");
        reveal_strlit("Intel Corporation");
        reveal_strlit("[AMD/ATI]");
    }
    let t = trim(part);
    let a = replace_all(t.as_str(), "NVIDIA Corporation", "NVIDIA");
    let b = replace_all(a.as_str(), "Advanced Micro Devices, Inc. [AMD/ATI]", "AMD");
    let c = replace_all(b.as_str(), "Advanced Micro Devices, Inc.", "AMD");
    let d = replace_all(c.as_str(), "Intel Corporation", "Intel");
    let e = replace_all(d.as_str(), "[AMD/ATI]", "");
    trim(e.as_str())
}

/// The graphics card named in `lspci` output, if a display controller line
/// names one.
pub fn get_gpu(lspci: &str) -> (r: Option<String>)
    ensures
        crate::system_info::opt_view(r) == gpu_from_lines(split_parts(lspci@, '\n')),
{
    let lines = split_on(lspci, '\n');
    let ghost lv = strings_view(lines@);
    let mut k: usize = 0;
    proof {
        assert(lv.subrange(0, lv.len() as int) =~= lv);
    }
    while k < lines.len()
        invariant
            lv == strings_view(lines@),
            lv == split_parts(lspci@, '\n'),
            k <= lines@.len(),
            gpu_from_lines(lv) == gpu_from_lines(lv.subrange(k as int, lv.len() as int)),
        decreases lines@.len() - k,
    {
        let line = lines[k].as_str();
        let ghost rest = lv.subrange(k as int, lv.len() as int);
        proof {
            assert(rest[0] == line@);
            assert(rest.drop_first() =~= lv.subrange(k + 1, lv.len() as int));
        }
        if contains(line, "VGA compatible controller") || contains(line, "3D controller") {
            let parts = split_on(line, ':');
            proof {
                assert(strings_view(parts@).len() == parts@.len());
            }
            if parts.len() > 2 {
                let name = gpu_name(parts[2].as_str());
                proof {
                    assert(strings_view(parts@)[2] == parts@[2]@);
                    assert(split_parts(rest[0], ':') == strings_view(parts@));
                    assert(is_gpu_line(rest[0]));
                    assert(gpu_from_lines(rest) == Some(name@));
                }
                return Some(name);
            }
        }
        k = k + 1;
    }
    proof {
        assert(lv.subrange(lv.len() as int, lv.len() as int) =~= Seq::<Seq<char>>::empty());
    }
    None
}

pub open spec fn starts_with_seq(s: Seq<char>, prefix: Seq<char>) -> bool {
    prefix.len() <= s.len() && s.subrange(0, prefix.len() as int) == prefix
}

/// Whether `s` begins with `prefix`.
pub fn starts_with(s: &str, prefix: &str) -> (r: bool)
    ensures
        r == starts_with_seq(s@, prefix@),
{
    let n = char_len(s);
    let m = char_len(prefix);
    if m > n {
        false
    } else {
        String::from_str(s.substring_char(0, m)) == String::from_str(prefix)
    }
}

/// The theme named by the first "gtk-theme-name" line that has a value after
/// '=', trimmed.
pub open spec fn theme_from_lines(lines: Seq<Seq<char>>) -> Option<Seq<char>>
    decreases lines.len(),
{
    if lines.len() == 0 {
        None
    } else if starts_with_seq(lines[0], "gtk-theme-name"@) && split_parts(lines[0], '=').len() > 1 {
        Some(trimmed(split_parts(lines[0], '=')[1]))
    } else {
        theme_from_lines(lines.drop_first())
    }
}

/// The GTK theme: the theme variable when set, otherwise the one named in the
/// GTK settings file's text, if any.
pub fn get_theme(env_theme: Option<String>, settings: Option<&str>) -> (r: Option<String>)
    ensures
        crate::system_info::opt_view(r) == match env_theme {
            Some(t) => Some(t@),
            None => match settings {
                Some(text) => theme_from_lines(split_parts(text@, '\n')),
                None => None,
            },
        },
{
    if let Some(t) = env_theme {
        return Some(t);
    }
    let text = match settings {
        Some(text) => text,
        None => {
            return None;
        },
    };
    let lines = split_on(text, '\n');
    let ghost lv = strings_view(lines@);
    let mut k: usize = 0;
    proof {
        assert(lv.subrange(0, lv.len() as int) =~= lv);
    }
    while k < lines.len()
        invariant
            lv == strings_view(lines@),
            lv == split_parts(text@, '\n'),
            env_theme is None,
            settings == Some(text),
            k <= lines@.len(),
            theme_from_lines(lv) == theme_from_lines(lv.subrange(k as int, lv.len() as int)),
        decreases lines@.len() - k,
    {
        let line = lines[k].as_str();
        let ghost rest = lv.subrange(k as int, lv.len() as int);
        proof {
            assert(rest[0] == line@);
            assert(rest.drop_first() =~= lv.subrange(k + 1, lv.len() as int));
        }
        if starts_with(line, "gtk-theme-name") {
            let parts = split_on(line, '=');
            proof {
                assert(strings_view(parts@).len() == parts@.len());
            }
            if parts.len() > 1 {
                let theme = trim(parts[1].as_str());
                proof {
                    assert(strings_view(parts@)[1] == parts@[1]@);
                    assert(split_parts(rest[0], '=') == strings_view(parts@));
                    assert(starts_with_seq(rest[0], "gtk-theme-name"@));
                    assert(theme_from_lines(rest) == Some(theme@));
                }
                return Some(theme);
            }
        }
        k = k + 1;
    }
    proof {
        assert(lv.subrange(lv.len() as int, lv.len() as int) =~= Seq::<Seq<char>>::empty());
    }
    None
}

} // verus!
