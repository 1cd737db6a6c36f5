//! The collected metrics, and which of them the info panel shows.
use crate::align::{entries_view, MetricEntry};
use crate::challenge::ymd_midnight;
use crate::config::DisplayConfig;
use crate::text::{byte_prefix, decimal, decimal_text, truncate};
use vstd::prelude::*;
use vstd::string::StringExecFns;

verus! {

/// One value per metric; none when it could not be read.
pub struct SystemInfo {
    pub distro: Option<String>,
    pub age: Option<String>,
    pub kernel: Option<String>,
    pub packages: Option<String>,
    pub shell: Option<String>,
    pub term: Option<String>,
    pub wm: Option<String>,
    pub cpu: Option<String>,
    pub gpu: Option<String>,
    pub theme: Option<String>,
    pub nix: Option<String>,
}

pub open spec fn opt_view(o: Option<String>) -> Option<Seq<char>> {
    match o {
        Some(s) => Some(s@),
        None => None,
    }
}

/// The panel entry of one field: present when the field is enabled and has a
/// value, the value cut to its longest prefix of at most `max_len` UTF-8
/// bytes.
pub open spec fn field_entry(
    label: Seq<char>,
    value: Option<Seq<char>>,
    enabled: bool,
    max_len: nat,
) -> Seq<(Seq<char>, Seq<char>)> {
    match value {
        Some(v) => if enabled {
            seq![(label, byte_prefix(v, max_len as int))]
        } else {
            Seq::empty()
        },
        None => Seq::empty(),
    }
}

/// Longest value shown for most fields, in UTF-8 bytes.
pub const MAX_VALUE_LEN: usize = 50;

/// Longest value shown for the graphics card, in UTF-8 bytes.
pub const MAX_GPU_LEN: usize = 55;

impl SystemInfo {
    pub open spec fn all_none(&self) -> bool {
        &&& self.distro is None && self.age is None && self.kernel is None
        &&& self.packages is None && self.shell is None && self.term is None
        &&& self.wm is None && self.cpu is None && self.gpu is None
        &&& self.theme is None && self.nix is None
    }

    /// The panel entries, in display order: distro, age (only with
    /// `include_age`), kernel, packages, shell, term, wm, cpu, gpu, theme, nix.
    pub open spec fn info_items_view(&self, include_age: bool, c: &DisplayConfig) -> Seq<
        (Seq<char>, Seq<char>),
    > {
        field_entry("distro"@, opt_view(self.distro), c.distro, 50) + field_entry(
            "age"@,
            opt_view(self.age),
            include_age && c.age,
            50,
        ) + field_entry("kernel"@, opt_view(self.kernel), c.kernel, 50) + field_entry(
            "packages"@,
            opt_view(self.packages),
            c.packages,
            50,
        ) + field_entry("shell"@, opt_view(self.shell), c.shell, 50) + field_entry(
            "term"@,
            opt_view(self.term),
            c.term,
            50,
        ) + field_entry("wm"@, opt_view(self.wm), c.wm, 50) + field_entry(
            "cpu"@,
            opt_view(self.cpu),
            c.cpu,
            50,
        ) + field_entry("gpu"@, opt_view(self.gpu), c.gpu, 55) + field_entry(
            "theme"@,
            opt_view(self.theme),
            c.theme,
            50,
        ) + field_entry("nix"@, opt_view(self.nix), c.nix, 50)
    }

    /// No metric known yet.
    pub fn new() -> (r: Self)
        ensures
            r.all_none(),
    {
        SystemInfo {
            distro: None,
            age: None,
            kernel: None,
            packages: None,
            shell: None,
            term: None,
            wm: None,
            cpu: None,
            gpu: None,
            theme: None,
            nix: None,
        }
    }

    /// The info panel's entries: each enabled field that has a value, in
    /// display order, each value cut to its longest prefix of at most 50 UTF-8
    /// bytes (55 for the graphics card). The age is left out
    /// unless `include_age`.
    pub fn to_info_items(&self, include_age: bool, display_config: &DisplayConfig) -> (r: Vec<
        MetricEntry,
    >)
        ensures
            entries_view(r@) == self.info_items_view(include_age, display_config),
            r@.len() <= 11,
    {
        let c = display_config;
        let mut items: Vec<MetricEntry> = Vec::new();
        add_if_enabled(&mut items, "distro", &self.distro, c.distro, MAX_VALUE_LEN);
        add_if_enabled(&mut items, "age", &self.age, include_age && c.age, MAX_VALUE_LEN);
        add_if_enabled(&mut items, "kernel", &self.kernel, c.kernel, MAX_VALUE_LEN);
        add_if_enabled(&mut items, "packages", &self.packages, c.packages, MAX_VALUE_LEN);
        add_if_enabled(&mut items, "shell", &self.shell, c.shell, MAX_VALUE_LEN);
        add_if_enabled(&mut items, "term", &self.term, c.term, MAX_VALUE_LEN);
        add_if_enabled(&mut items, "wm", &self.wm, c.wm, MAX_VALUE_LEN);
        add_if_enabled(&mut items, "cpu", &self.cpu, c.cpu, MAX_VALUE_LEN);
        add_if_enabled(&mut items, "gpu", &self.gpu, c.gpu, MAX_GPU_LEN);
        add_if_enabled(&mut items, "theme", &self.theme, c.theme, MAX_VALUE_LEN);
        add_if_enabled(&mut items, "nix", &self.nix, c.nix, MAX_VALUE_LEN);
        proof {
            let e = Seq::<(Seq<char>, Seq<char>)>::empty();
            assert(entries_view(Seq::<MetricEntry>::empty()) =~= e);
            assert(e + self.info_items_view(include_age, c) =~= self.info_items_view(
                include_age,
                c,
            ));
        }
        items
    }
}

/// Appends the entry of one field, as `field_entry` gives it.
fn add_if_enabled(
    items: &mut Vec<MetricEntry>,
    label: &str,
    value: &Option<String>,
    enabled: bool,
    max_len: usize,
)
    ensures
        entries_view(final(items)@) == entries_view(old(items)@) + field_entry(
            label@,
            opt_view(*value),
            enabled,
            max_len as nat,
        ),
        final(items)@.len() <= old(items)@.len() + 1,
{
    let ghost before = entries_view(items@);
    if enabled {
        if let Some(v) = value {
            let e = MetricEntry {
                label: String::from_str(label),
                value: truncate(v.as_str(), max_len),
            };
            items.push(e);
            proof {
                assert(entries_view(items@) =~= before + field_entry(
                    label@,
                    opt_view(*value),
                    enabled,
                    max_len as nat,
                ));
            }
            return ;
        }
    }
    proof {
        assert(entries_view(items@) =~= before + Seq::<(Seq<char>, Seq<char>)>::empty());
    }
}

/// Days from the date that `date_str` writes as `YYYY-MM-DD` to the day
/// numbered `today` (days since the Unix epoch); none when the text is not
/// such a date.
pub fn calculate_days_from_date(date_str: &str, today: i64) -> (r: Option<i128>)
    ensures
        r == match ymd_midnight(date_str@) {
            Some(t) => Some((today - t / 86400) as i128),
            None => None::<i128>,
        },
{
    match crate::challenge::parse_ymd(date_str) {
        Some(t) => Some(today as i128 - (crate::challenge::day_number(t) as i128)),
        None => None,
    }
}

/// The age shown in the panel, "<n> days": from the custom install date when
/// one is set and reads as a date (counted to the day `today`), otherwise
/// from `fs_age_secs`, the age of the root file system in seconds.
pub fn describe_age(display_config: &DisplayConfig, today: i64, fs_age_secs: u64) -> (r: String)
    ensures
        r@ == decimal_text(
            match display_config.custom_install_date {
                Some(s) => match ymd_midnight(s@) {
                    Some(t) => today - t / 86400,
                    None => (fs_age_secs / 86400) as int,
                },
                None => (fs_age_secs / 86400) as int,
            },
        ) + " days"@,
{
    let days: i128 = match &display_config.custom_install_date {
        Some(s) => match calculate_days_from_date(s.as_str(), today) {
            Some(d) => d,
            None => (fs_age_secs / 86400) as i128,
        },
        None => (fs_age_secs / 86400) as i128,
    };
    let mut out = decimal(days);
    out.append(" days");
    out
}

} // verus!
