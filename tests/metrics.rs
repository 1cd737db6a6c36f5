use huginn::metrics::{
    contains, expand_home, extract_generation, get_cpu_model, get_disk_usage, get_gpu,
    get_logo_name, get_theme, get_window_manager, logo_name_for_lower, split_on, starts_with, trim,
    usage_percent, wm_name_for,
};

#[test]
fn usage_is_floor_percent() {
    assert_eq!(usage_percent(1, 3), 33);
    assert_eq!(usage_percent(2, 3), 66);
    assert_eq!(usage_percent(5, 0), 0);
    assert_eq!(usage_percent(10, 10), 100);
    assert_eq!(get_disk_usage(200, 50), 75);
    assert_eq!(get_disk_usage(100, 150), 0);
}

#[test]
fn home_is_expanded() {
    assert_eq!(expand_home("~/pics/logo.png", Some("/home/ada")), "/home/ada/pics/logo.png");
    assert_eq!(expand_home("~/x", None), "~/x");
    assert_eq!(expand_home("/etc/x~/y", Some("/h")), "/etc/x~/y");
    assert_eq!(expand_home("~", Some("/h")), "~");
}

#[test]
fn logo_names() {
    assert_eq!(get_logo_name("Arch Linux"), "arch.svg");
    assert_eq!(get_logo_name("EndeavourOS"), "endeavouros.svg");
    assert_eq!(get_logo_name("Linux Mint 21"), "mint.svg");
    assert_eq!(get_logo_name("NixOS 24.05"), "nixos.svg");
    assert_eq!(get_logo_name("Slackware"), "linux.svg");
    assert_eq!(logo_name_for_lower("Fedora"), "linux.svg");
}

#[test]
fn window_manager_names() {
    assert_eq!(get_window_manager("HYPRLAND"), "Hyprland");
    assert_eq!(get_window_manager("sway"), "Sway");
    assert_eq!(get_window_manager("GNOME"), "GNOME");
    assert_eq!(wm_name_for("X", "sway"), "Sway");
}

#[test]
fn nix_generation() {
    assert_eq!(extract_generation("system-123-link"), Some("123".to_string()));
    assert_eq!(extract_generation("/nix/store/abc-nixos-system-24"), Some("24".to_string()));
    assert_eq!(extract_generation("system--link"), None);
    assert_eq!(extract_generation(""), None);
    assert_eq!(extract_generation("system-12a-7-link"), Some("7".to_string()));
}

#[test]
fn splitting_and_search() {
    assert_eq!(split_on("a:b::c", ':'), vec!["a", "b", "", "c"]);
    assert_eq!(split_on("", ':'), vec![""]);
    assert!(contains("hello world", "o w"));
    assert!(!contains("hello", "hello!"));
    assert!(contains("abc", ""));
    assert!(starts_with("gtk-theme-name=x", "gtk-theme-name"));
    assert!(!starts_with("gtk", "gtk-theme-name"));
    assert_eq!(trim("  \t padded \r\n"), "padded");
}

#[test]
fn cpu_brand_is_tidied() {
    assert_eq!(
        get_cpu_model("  Intel(R) Core(TM) i7-8650U CPU @ 1.90GHz "),
        "Intel Core i7-8650U CPU @ 1.90GHz"
    );
    assert_eq!(get_cpu_model("AMD Ryzen 7 5800X 8-Core Processor"), "AMD Ryzen 7 5800X 8-Core Processor");
}

#[test]
fn gpu_from_lspci_output() {
    let out = "00:00.0 Host bridge: Intel Corporation Device 9b61\n00:02.0 VGA compatible controller: Intel Corporation UHD Graphics 620 (rev 07)\n01:00.0 3D controller: NVIDIA Corporation GP108M\n";
    assert_eq!(get_gpu(out), Some("Intel UHD Graphics 620 (rev 07)".to_string()));
    let amd = "03:00.0 VGA compatible controller: Advanced Micro Devices, Inc. [AMD/ATI] Navi 23\n";
    assert_eq!(get_gpu(amd), Some("AMD Navi 23".to_string()));
    assert_eq!(get_gpu("00:1f.3 Audio device: Intel Corporation\n"), None);
}

#[test]
fn theme_lookup() {
    let ini = "[Settings]\ngtk-icon-theme-name=Papirus\ngtk-theme-name = Adwaita-dark \r\n";
    assert_eq!(get_theme(None, Some(ini)), Some("Adwaita-dark".to_string()));
    assert_eq!(get_theme(Some("Nord".to_string()), Some(ini)), Some("Nord".to_string()));
    assert_eq!(get_theme(None, Some("[Settings]\n")), None);
    assert_eq!(get_theme(None, None), None);
}
