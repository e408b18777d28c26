use rw_fetch::config::format_error;
use rw_fetch::config::format_label;
use rw_fetch::config::format_separator;
use rw_fetch::config::format_value;
use rw_fetch::config::FetcherType;
use rw_fetch::config::NativeQuery;
use rw_fetch::config::SysInfoItem;
use rw_fetch::report::format_outcome;
use rw_fetch::report::format_results;
use rw_fetch::dispatch::FetchOutcome;
use rw_fetch::sysinfo_fetchers::describe_outcome;
use rw_fetch::sysinfo_fetchers::fetch_shell_command;
use rw_fetch::sysinfo_fetchers::get_cpu;
use rw_fetch::sysinfo_fetchers::get_kernel;
use rw_fetch::sysinfo_fetchers::get_os;
use rw_fetch::sysinfo_fetchers::get_shell;
use rw_fetch::sysinfo_fetchers::get_terminal;
use rw_fetch::sysinfo_fetchers::get_user_host;
use rw_fetch::sysinfo_fetchers::CommandOutcome;
use rw_fetch::sysinfo_fetchers::HostFacts;

fn no_facts() -> HostFacts {
    HostFacts {
        user_name: None,
        host_name: None,
        os_name: None,
        os_version: None,
        kernel_version: None,
        uptime_seconds: 0,
        shell: None,
        term_program: None,
        term: None,
        cpus: Vec::new(),
        total_memory: 0,
        used_memory: 0,
    }
}

fn some(text: &str) -> Option<String> {
    Some(text.to_string())
}

fn strings(items: &[&str]) -> Vec<String> {
    items.iter().map(|s| s.to_string()).collect()
}

fn query(label: &'static str, q: NativeQuery) -> SysInfoItem {
    SysInfoItem { label, fetcher_type: FetcherType::SysinfoFn(q) }
}

fn finished(success: bool, code: Option<i32>, stdout: &str, stderr: &str) -> CommandOutcome {
    CommandOutcome::Finished { success, code, stdout: stdout.to_string(), stderr: stderr.to_string() }
}

#[test]
fn format_label_with_colours() {
    colored::control::set_override(true);
    assert_eq!(format_label("OS"), "\x1b[1;34mOS\x1b[0m\x1b[0m:");
    assert_eq!(format_label(""), "\x1b[1;34m\x1b[0m\x1b[0m:");
}

#[test]
fn format_value_with_colours() {
    colored::control::set_override(true);
    assert_eq!(format_value("Linux"), " \x1b[97mLinux\x1b[0m");
}

#[test]
fn format_value_keeps_its_colour_across_resets_in_the_text() {
    colored::control::set_override(true);
    assert_eq!(format_value("a\x1b[0mb"), " \x1b[97ma\x1b[0m\x1b[97mb\x1b[0m");
    assert_eq!(
        format_value("\x1b[0m\x1b[0mx\x1b[0"),
        " \x1b[97m\x1b[0m\x1b[97m\x1b[0m\x1b[97mx\x1b[0\x1b[0m"
    );
}

#[test]
fn format_error_with_colours() {
    colored::control::set_override(true);
    assert_eq!(format_error("N/A"), " \x1b[31mN/A\x1b[0m");
}

#[test]
fn get_kernel_without_a_version_is_an_error() {
    colored::control::set_override(true);
    assert_eq!(get_kernel(&no_facts()), " \x1b[31mN/A\x1b[0m");
}

#[test]
fn get_terminal_without_a_variable_is_an_error() {
    colored::control::set_override(true);
    let mut facts = no_facts();
    assert_eq!(get_terminal(&facts), " \x1b[31mN/A\x1b[0m");
    facts.term_program = some("");
    facts.term = some("");
    assert_eq!(get_terminal(&facts), " \x1b[31mN/A\x1b[0m");
    facts.term = some("xterm");
    assert_eq!(get_terminal(&facts), " \x1b[97mxterm\x1b[0m");
}

#[test]
fn get_user_host_is_a_value_whatever_is_known() {
    colored::control::set_override(true);
    let mut facts = no_facts();
    assert_eq!(get_user_host(&facts), " \x1b[97mN/A@N/A\x1b[0m");
    facts.user_name = some("ada");
    facts.host_name = some("engine");
    assert_eq!(get_user_host(&facts), " \x1b[97mada@engine\x1b[0m");
}

#[test]
fn get_shell_without_the_variable_is_an_error() {
    colored::control::set_override(true);
    assert_eq!(get_shell(&no_facts()), " \x1b[31mN/A\x1b[0m");
}

#[test]
fn get_cpu_without_a_processor_is_an_error() {
    colored::control::set_override(true);
    assert_eq!(get_cpu(&no_facts()), " \x1b[31mN/A\x1b[0m");
}

#[test]
fn format_outcome_with_colours() {
    colored::control::set_override(true);
    let mut out = Vec::new();
    format_outcome(&query("OS", NativeQuery::Os), &strings(&[" Linux"]), 4, &mut out);
    assert_eq!(out, strings(&["\x1b[1;34mOS  \x1b[0m\x1b[0m: Linux"]));
    let mut none = Vec::new();
    format_outcome(&query("OS", NativeQuery::Os), &Vec::new(), 2, &mut none);
    assert_eq!(none, strings(&["\x1b[1;34mOS\x1b[0m\x1b[0m: \x1b[31mN/A\x1b[0m"]));
}

#[test]
fn format_separator_with_colours() {
    colored::control::set_override(true);
    assert_eq!(format_separator("", 3), "\x1b[34m---\x1b[0m");
    assert_eq!(format_separator("", 0), "\x1b[34m\x1b[0m");
    assert_eq!(format_separator("Hardware", 10), " \x1b[1;34mHardware\x1b[0m ");
    assert_eq!(format_separator("Hardware", 2), "\x1b[1;34mHardware\x1b[0m");
}

#[test]
fn get_os_with_colours() {
    colored::control::set_override(true);
    let mut facts = no_facts();
    facts.os_version = some("12");
    assert_eq!(get_os(&facts), " \x1b[31mN/A\x1b[0m");
    facts.os_name = some("Linux");
    assert_eq!(get_os(&facts), " \x1b[97mLinux 12\x1b[0m");
}

#[test]
fn get_kernel_with_colours() {
    colored::control::set_override(true);
    let mut facts = no_facts();
    facts.kernel_version = some("6.1.0-18-amd64");
    assert_eq!(get_kernel(&facts), " \x1b[97m6.1.0-18-amd64\x1b[0m");
}

#[test]
fn describe_outcome_with_colours() {
    colored::control::set_override(true);
    assert_eq!(describe_outcome(&finished(true, Some(0), "GNOME\n", "")), " \x1b[97mGNOME\x1b[0m");
    assert_eq!(describe_outcome(&finished(true, Some(0), "", "")), " \x1b[31mN/A\x1b[0m");
    assert_eq!(describe_outcome(&finished(false, Some(2), "", "bad")), " \x1b[31mCmd Err: bad\x1b[0m");
    assert_eq!(describe_outcome(&finished(false, Some(2), "", "")), " \x1b[31mExit 2\x1b[0m");
    let refused = CommandOutcome::NotStarted { kind: "permission denied".to_string() };
    assert_eq!(describe_outcome(&refused), " \x1b[31mExec Err: permission denied\x1b[0m");
}

#[test]
fn fetch_shell_command_with_an_unknown_key_in_colour() {
    colored::control::set_override(true);
    let run = |_script: &'static str| finished(true, Some(0), "never", "");
    assert_eq!(fetch_shell_command("Foo", &run), " \x1b[31mNo cmd for Foo\x1b[0m");
}

#[test]
fn format_results_with_colours() {
    colored::control::set_override(true);
    let table = vec![query("OS", NativeQuery::Os), query("GPU", NativeQuery::Os)];
    let results = vec![
        FetchOutcome { index: 0, lines: strings(&[" \x1b[97mLinux\x1b[0m", "more"]) },
        FetchOutcome { index: 1, lines: Vec::new() },
    ];
    assert_eq!(
        format_results(&table, &results, 3),
        strings(&[
            "\x1b[1;34mOS \x1b[0m\x1b[0m: \x1b[97mLinux\x1b[0m",
            "     more",
            "\x1b[1;34mGPU\x1b[0m\x1b[0m: \x1b[31mN/A\x1b[0m",
        ])
    );
}
