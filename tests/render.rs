use huginn::align::{format_system_info, separator_position, MetricEntry};
use huginn::challenge::{challenge_block, challenge_status, get_install_time, run_challenge_countdown};
use huginn::compose::{compose_screen, run_fetch_internal, PanelInputs};
use huginn::config::{Config, DisplayConfig, LogoConfig};
use huginn::gauge::{draw_progress, ProgressColorScheme};
use huginn::layout::{draw_outer_box, format_uptime, get_colorbar, DisplayContext, Placement};
use huginn::system_info::{calculate_days_from_date, describe_age, SystemInfo};
use huginn::text::{decimal, render_spans, right_justify, truncate, Span};

const DAY: i64 = 86400;
const NOW: i64 = 1_760_000_000;

fn entry(label: &str, value: &str) -> MetricEntry {
    MetricEntry { label: label.to_string(), value: value.to_string() }
}

fn text_of(spans: &[Span]) -> String {
    spans.iter().map(|s| s.text.as_str()).collect()
}

fn chars(s: &str) -> Vec<char> {
    s.chars().collect()
}

#[test]
fn gauge_split_matches_floor() {
    for p in 0..=100 {
        for w in [0usize, 1, 7, 14, 33, 100] {
            let bar = draw_progress(p, w, ProgressColorScheme::System);
            let filled = bar[0].text.chars().count();
            let empty = bar[1].text.chars().count();
            assert_eq!(filled + empty, w);
            assert_eq!(filled, (p as usize) * w / 100);
        }
    }
}

#[test]
fn gauge_exact_half() {
    let bar = draw_progress(50, 14, ProgressColorScheme::System);
    assert_eq!(bar[0].text, "━━━━━━━");
    assert_eq!(bar[1].text, "━━━━━━━");
    assert_eq!(bar[0].color, Some(11));
    assert_eq!(bar[1].color, Some(8));
}

#[test]
fn gauge_clamps_out_of_range() {
    let low = draw_progress(-40, 14, ProgressColorScheme::System);
    assert_eq!(low[0].text.chars().count(), 0);
    assert_eq!(low[1].text.chars().count(), 14);
    let high = draw_progress(250, 14, ProgressColorScheme::System);
    assert_eq!(high[0].text.chars().count(), 14);
    assert_eq!(high[1].text.chars().count(), 0);
    assert_eq!(high[0].color, Some(1));
}

#[test]
fn gauge_tiers_both_palettes() {
    let cases = [(95, 1, 10), (90, 1, 10), (89, 9, 2), (70, 9, 2), (69, 11, 3), (50, 11, 3), (49, 2, 6), (30, 2, 6), (29, 10, 14), (0, 10, 14)];
    for (p, sys, chal) in cases {
        assert_eq!(draw_progress(p, 10, ProgressColorScheme::System)[0].color, Some(sys));
        assert_eq!(draw_progress(p, 10, ProgressColorScheme::Challenge)[0].color, Some(chal));
    }
}

#[test]
fn separators_share_one_column() {
    let items = vec![entry("distro", "Arch Linux"), entry("wm", "Sway"), entry("packages", "1234"), entry("cpu", "Ryzen")];
    let lines = format_system_info(&items);
    assert_eq!(lines.len(), 4);
    let col = separator_position(&items);
    assert_eq!(col, 11 + 8 + 1);
    for line in &lines {
        let t = chars(&text_of(line));
        assert_eq!(t[col], '\u{f444}');
        assert_eq!(t.iter().filter(|c| **c == '\u{f444}').count(), 1);
    }
    assert_eq!(text_of(&lines[1]), format!("{}wm \u{f444}  Sway", " ".repeat(17)));
}

#[test]
fn empty_entries_give_no_lines() {
    let items: Vec<MetricEntry> = Vec::new();
    assert!(format_system_info(&items).is_empty());
    assert_eq!(separator_position(&items), 20);
}

#[test]
fn formatting_twice_is_identical() {
    let items = vec![entry("distro", "NixOS"), entry("kernel", "6.9.1")];
    let a: Vec<String> = format_system_info(&items).iter().map(|l| render_spans(l)).collect();
    let b: Vec<String> = format_system_info(&items).iter().map(|l| render_spans(l)).collect();
    assert_eq!(a, b);
}

#[test]
fn challenge_complete_after_window() {
    let s = challenge_status(1, 0, NOW - 400 * DAY, NOW);
    assert_eq!(s.total_days, 365);
    assert_eq!(s.days_old, 400);
    assert_eq!(s.progress, 100);
    assert!(s.time_left.is_none());
    let (_, block) = challenge_block(&s, "2024-09-01", 10);
    assert!(text_of(&block[1].spans).ends_with("400 days"));
    assert!(text_of(&block[2].spans).contains("Challenge Complete!"));
}

#[test]
fn challenge_in_progress() {
    let s = challenge_status(2, 0, NOW - 100 * DAY, NOW);
    assert_eq!(s.total_days, 730);
    assert_eq!(s.progress, 13);
    assert_eq!(s.time_left, Some((630, 0)));
    let (end, block) = challenge_block(&s, "2025-01-01", 10);
    assert_eq!(end, 13);
    assert!(text_of(&block[2].spans).contains("Time Left"));
    assert!(text_of(&block[2].spans).ends_with("630 days, 0 hours"));
    assert!(text_of(&block[3].spans).starts_with(" 13% "));
}

#[test]
fn challenge_hours_and_months() {
    let s = challenge_status(0, 1, NOW - 5 * 3600, NOW);
    assert_eq!(s.total_days, 30);
    assert_eq!(s.days_old, 0);
    assert_eq!(s.time_left, Some((29, 19)));
    assert_eq!(challenge_status(0, 6, NOW, NOW).total_days, 183);
}

#[test]
fn empty_window_is_complete() {
    let s = challenge_status(0, 0, NOW - 3 * DAY, NOW);
    assert_eq!(s.total_days, 0);
    assert_eq!(s.progress, 100);
    assert!(s.time_left.is_none());
    let neg = challenge_status(-3, -2, NOW, NOW);
    assert_eq!(neg.total_days, 0);
    assert_eq!(neg.progress, 100);
}

#[test]
fn future_install_rounds_age_down() {
    let s = challenge_status(1, 0, NOW + 3600, NOW);
    assert_eq!(s.days_old, -1);
    assert_eq!(s.progress, 0);
}

#[test]
fn custom_install_date_is_parsed() {
    let mut d = DisplayConfig::default();
    d.custom_install_date = Some("2024-01-15".to_string());
    assert_eq!(get_install_time(&d, 7), 1_705_276_800);
    d.custom_install_date = Some("not a date".to_string());
    assert_eq!(get_install_time(&d, 7), 7);
    d.custom_install_date = None;
    assert_eq!(get_install_time(&d, 7), 7);
}

#[test]
fn countdown_shows_install_date() {
    let mut d = DisplayConfig::default();
    d.custom_install_date = Some("2024-01-15".to_string());
    let (end, block) = run_challenge_countdown(2, 0, 12, &d, 0, 1_705_276_800 + 10 * DAY);
    assert_eq!(end, 15);
    assert_eq!(block.len(), 4);
    assert_eq!(block[0].row, Some(12));
    assert_eq!(block[0].col, 50);
    assert_eq!(text_of(&block[0].spans), "  Installed \u{f444}  2024-01-15");
    assert_eq!(block[3].col, 53);
}

#[test]
fn days_from_date() {
    let today = (1_705_276_800 / DAY) + 3;
    assert_eq!(calculate_days_from_date("2024-01-15", today), Some(3));
    assert_eq!(calculate_days_from_date("15/01/2024", today), None);
    let mut d = DisplayConfig::default();
    assert_eq!(describe_age(&d, today, 5 * DAY as u64 + 7), "5 days");
    d.custom_install_date = Some("2024-01-15".to_string());
    assert_eq!(describe_age(&d, today, 0), "3 days");
}

#[test]
fn box_rows_and_borders() {
    let b = draw_outer_box(3);
    assert_eq!(b.len(), 8);
    assert_eq!(b[0].row, Some(1));
    assert_eq!(text_of(&b[0].spans).chars().count(), 87);
    assert_eq!(b[7].row, Some(5));
    let sides: Vec<&Placement> = b.iter().filter(|p| text_of(&p.spans) == "│").collect();
    assert_eq!(sides.len(), 6);
    assert_eq!(b[2].col, 88);
    let empty = draw_outer_box(0);
    assert_eq!(empty.len(), 2);
    assert_eq!(empty[1].row, Some(2));
}

fn sample_info() -> SystemInfo {
    let mut info = SystemInfo::new();
    info.distro = Some("Fedora Linux 40".to_string());
    info.age = Some("120 days".to_string());
    info.kernel = Some("6.8.9".to_string());
    info.shell = Some("zsh".to_string());
    info
}

fn sample_inputs() -> PanelInputs {
    PanelInputs { user: "ada".to_string(), uptime_secs: 3 * 3600 + 5 * 60, info: sample_info(), cpu: 12, ram: 55, disk: 91 }
}

#[test]
fn boxed_screen_height_follows_content() {
    let mut config = Config::default();
    config.display.mode = "challenge".to_string();
    let inputs = sample_inputs();
    let s = compose_screen(false, Some(2), Some(0), &config, &inputs, NOW - 100 * DAY, NOW);
    // three entries (age is left out in the box), distro logo of 10 rows
    let h = s.box_height.unwrap();
    assert_eq!(h, 10 + 14 + 3);
    let content = s.placements.len() - (2 * h as usize + 2);
    let max_row = s.placements[..content].iter().map(|p| p.row.unwrap()).max().unwrap();
    assert_eq!(max_row, 10 + 12 + 3);
    assert_eq!(h, max_row + 2);
    let sides = s.placements[content..].iter().filter(|p| text_of(&p.spans) == "│").count();
    assert_eq!(sides as u64, 2 * h);
    for p in &s.placements[..content] {
        let r = p.row.unwrap();
        assert!(r >= 2 && r < h);
    }
}

#[test]
fn streamed_panel_has_no_rows() {
    let config = Config::default();
    let inputs = sample_inputs();
    let s = compose_screen(false, None, None, &config, &inputs, 0, NOW);
    assert!(s.box_height.is_none());
    assert_eq!(s.placements.len(), 4 + 10);
    assert!(s.placements.iter().all(|p| p.row.is_none()));
    assert_eq!(text_of(&s.placements[3].spans), "Hi! ada");
    assert_eq!(text_of(&s.placements[4].spans), "up 3 hrs, 5 mins");
    assert!(text_of(&s.placements[7].spans).contains("120 days"));
}

#[test]
fn panel_rows_in_box() {
    let config = Config::default();
    let inputs = sample_inputs();
    let p = run_fetch_internal(true, &config, &inputs);
    assert_eq!(p.end_row, 10 + 13 + 3);
    assert_eq!(p.second_info_row, 20);
    assert_eq!(p.visual_center, 44);
    assert_eq!(p.placements[0].row, Some(14));
    assert_eq!(p.placements[0].col, 32);
    assert_eq!(p.placements[3].col, 4);
    assert_eq!(p.logo.col, 34);
    assert_eq!(p.logo.row, 3);
}

#[test]
fn custom_logo_spot() {
    let mut config = Config::default();
    config.logo = LogoConfig { custom_path: "/tmp/me.png".to_string(), width: Some(30), height: None };
    let p = run_fetch_internal(true, &config, &sample_inputs());
    assert_eq!((p.logo.col, p.logo.row, p.logo.width, p.logo.height), (29, 2, 30, 18));
    assert_eq!(p.placements[0].row, Some(22));
}

#[test]
fn info_items_follow_toggles() {
    let mut info = sample_info();
    info.gpu = Some("x".repeat(80));
    let mut d = DisplayConfig::default();
    d.kernel = false;
    let items = info.to_info_items(true, &d);
    let labels: Vec<&str> = items.iter().map(|e| e.label.as_str()).collect();
    assert_eq!(labels, vec!["distro", "age", "shell", "gpu"]);
    assert_eq!(items[3].value.chars().count(), 55);
    let boxed = info.to_info_items(false, &d);
    assert_eq!(boxed.len(), 3);
}

#[test]
fn uptime_words() {
    assert_eq!(format_uptime(59), "0 mins");
    assert_eq!(format_uptime(3 * 3600 + 120), "3 hrs, 2 mins");
    assert_eq!(format_uptime(2 * 86400 + 5 * 3600 + 7), "2 days, 5 hrs");
}

#[test]
fn colorbar_has_25_blocks() {
    let bar = get_colorbar();
    assert_eq!(bar.len(), 25);
    assert_eq!(bar[0].text, "░");
    assert_eq!(bar[24].color, Some(13));
}

#[test]
fn centering_saturates() {
    let ctx = DisplayContext { in_box: false, offset_x: 3, visual_center: 5 };
    let p = ctx.print_centered(None, Vec::new(), 40);
    assert_eq!(p.col, 3);
    let q = ctx.print_line(None, Vec::new());
    assert_eq!((q.row, q.col), (None, 3));
}

#[test]
fn text_helpers() {
    assert_eq!(right_justify("7", 3), "  7");
    assert_eq!(decimal(-42), "-42");
    assert_eq!(decimal(0), "0");
    assert_eq!(decimal(i128::MIN), i128::MIN.to_string());
    assert_eq!(truncate("héllo", 2), "h");
    assert_eq!(truncate("héllo", 3), "hé");
    assert_eq!(truncate("abc", 10), "abc");
    let plain = vec![Span { text: "ab".to_string(), color: None, bold: false }];
    assert_eq!(render_spans(&plain), "ab");
    let colored = vec![Span { text: "ab".to_string(), color: Some(10), bold: true }];
    let painted = render_spans(&colored);
    assert!(painted.contains("ab"));
    assert_ne!(painted, "ab");
    assert!(painted.contains('\u{1b}'));
}

#[test]
fn challenge_mode_switch() {
    let mut d = DisplayConfig::default();
    assert!(!d.in_challenge_mode(false));
    assert!(d.in_challenge_mode(true));
    d.mode = "challenge".to_string();
    assert!(d.in_challenge_mode(false));
}

#[test]
fn values_cut_by_bytes() {
    let mut info = SystemInfo::new();
    let wide = format!("{}éb", "a".repeat(48));
    info.distro = Some(wide.clone());
    info.kernel = Some(format!("{}é", "a".repeat(49)));
    info.shell = Some("a".repeat(50));
    let items = info.to_info_items(true, &DisplayConfig::default());
    assert_eq!(items[0].value, format!("{}é", "a".repeat(48)));
    assert_eq!(items[0].value.len(), 50);
    assert_eq!(items[1].value, "a".repeat(49));
    assert_eq!(items[2].value, "a".repeat(50));
}
