use rw_fetch::config::fallback_command;
use rw_fetch::config::format_error;
use rw_fetch::config::format_label;
use rw_fetch::config::format_separator;
use rw_fetch::config::format_value;
use rw_fetch::config::system_info_order;
use rw_fetch::config::FetcherType;
use rw_fetch::config::NativeQuery;
use rw_fetch::config::CACHE_FILE_NAME;
use rw_fetch::config::GPU_COMMAND;
use rw_fetch::config::IMAGE_INFO_SEPARATOR;
use rw_fetch::config::MAX_FETCH_THREADS;
use rw_fetch::config::PACKAGES_COMMAND;
use rw_fetch::config::RESET_COLOR_STR;
use rw_fetch::config::SYS_INFO_KV_SEPARATOR;
use rw_fetch::config::SYS_INFO_SEPARATOR_CHAR;
use rw_fetch::config::WM_COMMAND;

#[test]
fn constants_have_their_values() {
    assert_eq!(CACHE_FILE_NAME, "cache.json");
    assert_eq!(MAX_FETCH_THREADS, 12);
    assert_eq!(SYS_INFO_KV_SEPARATOR, ":");
    assert_eq!(RESET_COLOR_STR, "\x1b[0m");
    assert_eq!(SYS_INFO_SEPARATOR_CHAR, '-');
    assert_eq!(IMAGE_INFO_SEPARATOR, "  │  ");
}

#[test]
fn format_label_without_colours() {
    colored::control::set_override(false);
    assert_eq!(format_label("OS"), "OS\x1b[0m:");
    assert_eq!(format_label(""), "\x1b[0m:");
}

#[test]
fn format_value_without_colours() {
    colored::control::set_override(false);
    assert_eq!(format_value("Linux"), " Linux");
    assert_eq!(format_value(""), " ");
}

#[test]
fn format_error_without_colours() {
    colored::control::set_override(false);
    assert_eq!(format_error("N/A"), " N/A");
}

#[test]
fn format_separator_draws_a_line_of_dashes() {
    colored::control::set_override(false);
    assert_eq!(format_separator("", 5), "-----");
    assert_eq!(format_separator("", 0), "");
}

#[test]
fn format_separator_centres_a_heading() {
    colored::control::set_override(false);
    assert_eq!(format_separator("Hardware", 12), "  Hardware  ");
    assert_eq!(format_separator("Hardware", 13), "  Hardware  ");
    assert_eq!(format_separator("Hardware", 8), "Hardware");
    assert_eq!(format_separator("Hardware", 3), "Hardware");
    assert_eq!(format_separator("é│", 6), "  é│  ");
}

#[test]
fn fallback_command_knows_seven_keys() {
    for key in ["Packages", "Resolution", "WM", "Theme", "Icons", "Terminal Font", "GPU"] {
        assert!(fallback_command(key).is_some(), "for {}", key);
    }
    assert_eq!(fallback_command("Packages"), Some(PACKAGES_COMMAND));
    assert_eq!(fallback_command("WM"), Some(WM_COMMAND));
    assert_eq!(fallback_command("GPU"), Some(GPU_COMMAND));
    assert!(WM_COMMAND.contains("XDG_CURRENT_DESKTOP"));
    assert!(GPU_COMMAND.contains("lspci"));
}

#[test]
fn fallback_command_of_an_unknown_key() {
    assert_eq!(fallback_command("Foo"), None);
    assert_eq!(fallback_command(""), None);
    assert_eq!(fallback_command("wm"), None);
    assert_eq!(fallback_command("GPU "), None);
}

#[test]
fn system_info_order_lists_the_rows() {
    let table = system_info_order();
    assert_eq!(table.len(), 19);
    let labels: Vec<&str> = table.iter().map(|item| item.label).collect();
    assert_eq!(
        labels,
        vec![
            "User@Host",
            "",
            "OS",
            "Kernel",
            "Uptime",
            "Shell",
            "Resolution",
            "WM",
            "Theme",
            "Icons",
            "Terminal",
            "Terminal Font",
            "",
            "Hardware",
            "CPU",
            "GPU",
            "Memory",
            "",
            "Color Palette",
        ]
    );
    assert!(matches!(table[0].fetcher_type, FetcherType::SysinfoFn(NativeQuery::UserHost)));
    assert!(matches!(table[1].fetcher_type, FetcherType::Separator("")));
    assert!(matches!(table[6].fetcher_type, FetcherType::ShellCommand("Resolution")));
    assert!(matches!(table[13].fetcher_type, FetcherType::Separator("Hardware")));
    assert!(matches!(table[18].fetcher_type, FetcherType::SysinfoFn(NativeQuery::ColorPalette)));
    for item in table.iter() {
        if let FetcherType::ShellCommand(key) = item.fetcher_type {
            assert!(fallback_command(key).is_some(), "for {}", key);
        }
    }
}
