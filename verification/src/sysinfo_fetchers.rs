//! Turns raw host facts into the value strings of the display.

use crate::config::fallback_command;
use crate::config::fallback_script;
use crate::config::format_error;
use crate::config::format_value;
use crate::config::is_error;
use crate::config::reads;
use crate::config::Reading;
use crate::config::NativeQuery;
use crate::rounding::double_precision;
use crate::rounding::half_even;
use crate::rounding::in_double_precision;
use crate::rounding::percent_of;
use crate::rounding::percent_used;
use crate::rounding::round_half_even;
use crate::text::decimal;
use crate::text::digit;
use crate::text::join;
use crate::text::joined;
use crate::text::push_decimal;
use crate::text::push_digit;
use crate::text::remove_all;
use crate::text::trim;
use crate::text::trimmed;
use crate::text::truncate_chars;
use crate::text::truncated;
use crate::text::view_of;
use crate::text::without;
use crate::text::views;
use std::path::Path;
use vstd::prelude::*;
use vstd::string::StringExecFns;

verus! {

/// Bytes in a kibibyte.
pub const KIB: u64 = 1024;

/// Bytes in a mebibyte.
pub const MIB: u64 = 1024 * 1024;

/// Bytes in a gibibyte.
pub const GIB: u64 = 1024 * 1024 * 1024;

/// A number of tenths with one decimal place: `15` reads `"1.5"`.
pub open spec fn one_decimal(tenths: nat) -> Seq<char> {
    decimal(tenths / 10) + "."@ + seq![digit(tenths % 10)]
}

/// How a size in bytes reads: in the largest of GiB, MiB and KiB that it
/// reaches, rounded to one decimal place; in whole bytes below a kibibyte.
pub open spec fn bytes_text(bytes: nat) -> Seq<char> {
    if bytes >= GIB {
        one_decimal(half_even(10 * in_double_precision(bytes), GIB as nat)) + " GiB"@
    } else if bytes >= MIB {
        one_decimal(half_even(10 * bytes, MIB as nat)) + " MiB"@
    } else if bytes >= KIB {
        one_decimal(half_even(10 * bytes, KIB as nat)) + " KiB"@
    } else {
        decimal(bytes) + " B"@
    }
}

/// Appends a number of tenths with one decimal place.
fn push_one_decimal(out: &mut String, tenths: u64)
    ensures
        final(out)@ == old(out)@ + one_decimal(tenths as nat),
{
    push_decimal(out, (tenths / 10) as u128);
    out.append(".");
    push_digit(out, tenths % 10);
}

/// `value` in units of `unit`, rounded to one decimal place, before `suffix`.
fn scaled_string(value: u128, unit: u64, suffix: &str) -> (s: String)
    requires
        unit >= 1024,
        value <= 0xffff_ffff_ffff_ffff + 4096,
    ensures
        s@ == one_decimal(half_even(10 * value as nat, unit as nat)) + suffix@,
{
    let tenths = round_half_even(10 * value, unit as u128);
    assert(tenths <= 0xffff_ffff_ffff_ffff) by (nonlinear_arith)
        requires
            tenths <= (10 * value) / (unit as int) + 1,
            unit >= 1024,
            value <= 0xffff_ffff_ffff_ffff + 4096,
    ;
    let mut s = String::new();
    push_one_decimal(&mut s, tenths as u64);
    s.append(suffix);
    s
}

/// A size in bytes in the largest binary unit that it reaches.
pub fn format_bytes(bytes: u64) -> (s: String)
    ensures
        s@ == bytes_text(bytes as nat),
{
    if bytes >= GIB {
        scaled_string(double_precision(bytes), GIB, " GiB")
    } else if bytes >= MIB {
        scaled_string(bytes as u128, MIB, " MiB")
    } else if bytes >= KIB {
        scaled_string(bytes as u128, KIB, " KiB")
    } else {
        let mut s = String::new();
        push_decimal(&mut s, bytes as u128);
        s.append(" B");
        s
    }
}

/// A count with its unit: `"1 day"`, `"3 days"`.
pub open spec fn quantity(n: nat, singular: Seq<char>, plural: Seq<char>) -> Seq<char> {
    decimal(n) + " "@ + if n == 1 {
        singular
    } else {
        plural
    }
}

/// The non-zero parts of a duration, largest unit first: days, hours, minutes.
pub open spec fn duration_parts(total_seconds: nat) -> Seq<Seq<char>> {
    let days = total_seconds / 86400;
    let hours = (total_seconds % 86400) / 3600;
    let minutes = (total_seconds % 3600) / 60;
    (if days > 0 {
        seq![quantity(days, "day"@, "days"@)]
    } else {
        seq![]
    }) + (if hours > 0 {
        seq![quantity(hours, "hour"@, "hours"@)]
    } else {
        seq![]
    }) + (if minutes > 0 {
        seq![quantity(minutes, "minute"@, "minutes"@)]
    } else {
        seq![]
    })
}

/// How an uptime of `total_seconds` reads: `"Just booted"` for zero, the
/// seconds alone under a minute, else days, hours and minutes separated by
/// `", "`, the zero ones left out.
pub open spec fn duration_text(total_seconds: nat) -> Seq<char> {
    if total_seconds == 0 {
        "Just booted"@
    } else if duration_parts(total_seconds).len() == 0 {
        decimal(total_seconds % 60) + " seconds"@
    } else {
        joined(duration_parts(total_seconds), ", "@)
    }
}

/// A count with its unit.
fn quantity_string(n: u64, singular: &str, plural: &str) -> (s: String)
    ensures
        s@ == quantity(n as nat, singular@, plural@),
{
    let mut s = String::new();
    push_decimal(&mut s, n as u128);
    s.append(" ");
    if n == 1 {
        s.append(singular);
    } else {
        s.append(plural);
    }
    s
}

/// A duration in seconds as days, hours and minutes.
pub fn format_duration_secs(total_seconds: u64) -> (s: String)
    ensures
        s@ == duration_text(total_seconds as nat),
{
    if total_seconds == 0 {
        return String::from_str("Just booted");
    }
    let days = total_seconds / (24 * 3600);
    let remaining_seconds = total_seconds % (24 * 3600);
    let hours = remaining_seconds / 3600;
    let remaining_seconds = remaining_seconds % 3600;
    let minutes = remaining_seconds / 60;
    assert(remaining_seconds == total_seconds % 3600) by {
        assert(total_seconds % 86400 % 3600 == total_seconds % 3600) by (nonlinear_arith);
    }

    let mut parts: Vec<String> = Vec::new();
    if days > 0 {
        parts.push(quantity_string(days, "day", "days"));
    }
    if hours > 0 {
        parts.push(quantity_string(hours, "hour", "hours"));
    }
    if minutes > 0 {
        parts.push(quantity_string(minutes, "minute", "minutes"));
    }
    assert(views(parts@) == duration_parts(total_seconds as nat));

    if parts.len() == 0 {
        let mut s = String::new();
        push_decimal(&mut s, (total_seconds % 60) as u128);
        s.append(" seconds");
        s
    } else {
        join(&parts, ", ")
    }
}

/// Longest failure message that is shown, in characters.
pub const ERROR_MESSAGE_LIMIT: usize = 50;

/// What running a shell command came to.
#[derive(Debug)]
pub enum CommandOutcome {
    /// The command ran to its end. `code` is its exit code, if it left one;
    /// the two texts are what it wrote, decoded.
    Finished { success: bool, code: Option<i32>, stdout: String, stderr: String },
    /// The shell could not be started; `kind` names the reason.
    NotStarted { kind: String },
}

/// A whole number in base ten, with a minus sign where it is negative.
pub open spec fn signed_decimal(n: int) -> Seq<char> {
    if n < 0 {
        "-"@ + decimal((-n) as nat)
    } else {
        decimal(n as nat)
    }
}

/// What is said of a command that failed: what it wrote to standard error,
/// or else its exit code, `"?"` where it left none.
pub open spec fn failure_message(code: Option<i32>, stderr: Seq<char>) -> Seq<char> {
    if stderr.len() > 0 {
        "Cmd Err: "@ + trimmed(stderr)
    } else {
        "Exit "@ + match code {
            Some(c) => signed_decimal(c as int),
            None => "?"@,
        }
    }
}

/// What the outcome of a command reads: its trimmed output, and a failure
/// that reads `"N/A"` where that is empty; for a command that failed, the
/// first [`ERROR_MESSAGE_LIMIT`] characters of the failure message; for a
/// shell that did not start, the reason.
pub open spec fn outcome_reading(outcome: CommandOutcome) -> Reading {
    match outcome {
        CommandOutcome::Finished { success, code, stdout, stderr } => if success {
            if trimmed(stdout@).len() == 0 {
                Reading::Failure("N/A"@)
            } else {
                Reading::Value(trimmed(stdout@))
            }
        } else {
            Reading::Failure(
                truncated(failure_message(code, stderr@), ERROR_MESSAGE_LIMIT as nat),
            )
        },
        CommandOutcome::NotStarted { kind } => Reading::Failure("Exec Err: "@ + kind@),
    }
}

/// `out` is the display line for `outcome`, with colours or without.
pub open spec fn describes(outcome: CommandOutcome, out: Seq<char>) -> bool {
    reads(out, outcome_reading(outcome))
}

/// Appends `n` in base ten, with a minus sign where it is negative.
fn push_signed_decimal(out: &mut String, n: i32)
    ensures
        final(out)@ == old(out)@ + signed_decimal(n as int),
{
    if n < 0 {
        out.append("-");
        let magnitude: i64 = -(n as i64);
        push_decimal(out, magnitude as u128);
    } else {
        push_decimal(out, n as u128);
    }
}

/// Turns the outcome of a command into its display line.
pub fn describe_outcome(outcome: &CommandOutcome) -> (out: String)
    ensures
        describes(*outcome, out@),
{
    match outcome {
        CommandOutcome::Finished { success, code, stdout, stderr } => {
            if *success {
                let shown = trim(stdout.as_str());
                if shown.as_str().is_empty() {
                    format_error("N/A")
                } else {
                    format_value(shown.as_str())
                }
            } else {
                let mut message = String::new();
                if !stderr.as_str().is_empty() {
                    message.append("Cmd Err: ");
                    let said = trim(stderr.as_str());
                    message.append(said.as_str());
                } else {
                    message.append("Exit ");
                    match code {
                        Some(c) => {
                            push_signed_decimal(&mut message, *c);
                        },
                        None => {
                            message.append("?");
                        },
                    }
                }
                let kept = truncate_chars(message.as_str(), ERROR_MESSAGE_LIMIT);
                format_error(kept.as_str())
            }
        },
        CommandOutcome::NotStarted { kind } => {
            let mut message = String::from_str("Exec Err: ");
            message.append(kind.as_str());
            format_error(message.as_str())
        },
    }
}

/// The display line for the fallback command filed under `command_key`.
///
/// `run` is handed the script and answers with what running it under a
/// shell came to; it is not called where no script is filed under the key.
pub fn fetch_shell_command<R>(command_key: &str, run: &R) -> (out: String) where
    R: Fn(&'static str) -> CommandOutcome,

    requires
        fallback_script(command_key@) matches Some(script) ==> call_requires(*run, (script,)),
    ensures
        match fallback_script(command_key@) {
            None => is_error(out@, "No cmd for "@ + command_key@),
            Some(script) => exists|outcome: CommandOutcome|
                call_ensures(*run, (script,), outcome) && #[trigger] describes(outcome, out@),
        },
{
    match fallback_command(command_key) {
        Some(script) => {
            let outcome = run(script);
            let out = describe_outcome(&outcome);
            assert(describes(outcome, out@));
            out
        },
        None => {
            let mut message = String::from_str("No cmd for ");
            message.append(command_key);
            format_error(message.as_str())
        },
    }
}

/// One processor of the host.
#[derive(Debug)]
pub struct CpuFacts {
    pub brand: String,
    pub frequency_mhz: u64,
}

/// The facts read from the host, taken once before any worker starts and
/// only read afterwards.
#[derive(Debug)]
pub struct HostFacts {
    /// Name of the user that runs the program.
    pub user_name: Option<String>,
    pub host_name: Option<String>,
    pub os_name: Option<String>,
    pub os_version: Option<String>,
    pub kernel_version: Option<String>,
    pub uptime_seconds: u64,
    /// The `SHELL` variable of the environment.
    pub shell: Option<String>,
    /// The `TERM_PROGRAM` variable of the environment.
    pub term_program: Option<String>,
    /// The `TERM` variable of the environment.
    pub term: Option<String>,
    pub cpus: Vec<CpuFacts>,
    /// Bytes of memory installed.
    pub total_memory: u64,
    /// Bytes of memory in use.
    pub used_memory: u64,
}

/// The text of `field`, or `fallback` where it is absent.
pub open spec fn text_or(field: Option<String>, fallback: Seq<char>) -> Seq<char> {
    match field {
        Some(s) => s@,
        None => fallback,
    }
}

/// The text of `field`, or `fallback` where it is absent.
fn field_or<'a>(field: &'a Option<String>, fallback: &'a str) -> (s: &'a str)
    ensures
        s@ == text_or(*field, fallback@),
{
    match field {
        Some(s) => s.as_str(),
        None => fallback,
    }
}

/// `user@host`, each part `"N/A"` where it is not known.
pub open spec fn user_host_text(facts: HostFacts) -> Seq<char> {
    text_or(facts.user_name, "N/A"@) + "@"@ + text_or(facts.host_name, "N/A"@)
}

/// Who runs the program, and where.
pub fn get_user_host(s: &HostFacts) -> (out: String)
    ensures
        reads(out@, Reading::Value(user_host_text(*s))),
{
    let mut text = String::from_str(field_or(&s.user_name, "N/A"));
    text.append("@");
    text.append(field_or(&s.host_name, "N/A"));
    format_value(text.as_str())
}

/// What the operating system reads: its name, and its version where that
/// is known and not empty, without white space at the ends. A failure where
/// the name is not known.
pub open spec fn os_reading(facts: HostFacts) -> Reading {
    match facts.os_name {
        Some(name) => Reading::Value(
            trimmed(
                if text_or(facts.os_version, ""@).len() > 0 {
                    name@ + " "@ + text_or(facts.os_version, ""@)
                } else {
                    name@
                },
            ),
        ),
        None => Reading::Failure("N/A"@),
    }
}

/// The operating system and its version.
pub fn get_os(s: &HostFacts) -> (out: String)
    ensures
        reads(out@, os_reading(*s)),
{
    match &s.os_name {
        Some(name) => {
            let mut text = name.clone();
            let version = field_or(&s.os_version, "");
            if !version.is_empty() {
                text.append(" ");
                text.append(version);
            }
            let shown = trim(text.as_str());
            format_value(shown.as_str())
        },
        None => format_error("N/A"),
    }
}

/// What the kernel reads: its version, a failure where that is not known.
pub open spec fn kernel_reading(facts: HostFacts) -> Reading {
    match facts.kernel_version {
        Some(version) => Reading::Value(version@),
        None => Reading::Failure("N/A"@),
    }
}

/// The version of the kernel.
pub fn get_kernel(s: &HostFacts) -> (out: String)
    ensures
        reads(out@, kernel_reading(*s)),
{
    match &s.kernel_version {
        Some(version) => format_value(version.as_str()),
        None => format_error("N/A"),
    }
}

/// How long the host has been up.
pub fn get_uptime(s: &HostFacts) -> (out: String)
    ensures
        reads(out@, Reading::Value(duration_text(s.uptime_seconds as nat))),
{
    let text = format_duration_secs(s.uptime_seconds);
    format_value(text.as_str())
}

/// The final component of a path as `std::path::Path::file_name` finds it,
/// absent where the path ends in `..` or has no component. Paths are read
/// by the rules of the platform that the crate is built for.
pub uninterp spec fn file_name_of(path: Seq<char>) -> Option<Seq<char>>;

/// `std::path::Path::file_name` on the path that `path` spells: its final
/// component, as text.
#[verifier::external_body]
fn path_file_name(path: &str) -> (name: Option<String>)
    ensures
        view_of(name) == file_name_of(path@),
{
    match Path::new(path).file_name() {
        Some(name) => Some(name.to_string_lossy().into_owned()),
        None => None,
    }
}

/// What a shell is called, given the path to it and the final component of
/// that path: the component, or the whole path where it has none.
pub open spec fn shell_name_text(path: Seq<char>, file_name: Option<Seq<char>>) -> Seq<char> {
    match file_name {
        Some(name) => name,
        None => path,
    }
}

/// What a shell is called, given the path to it and the final component of
/// that path.
pub fn shell_name(path: &str, file_name: Option<String>) -> (name: String)
    ensures
        name@ == shell_name_text(path@, view_of(file_name)),
{
    match file_name {
        Some(n) => n,
        None => String::from_str(path),
    }
}

/// What the shell reads: the final component of the `SHELL` variable, or
/// the whole of it where it has no such component. A failure where the
/// variable is not set.
pub open spec fn shell_reading(facts: HostFacts) -> Reading {
    match facts.shell {
        Some(path) => Reading::Value(shell_name_text(path@, file_name_of(path@))),
        None => Reading::Failure("N/A"@),
    }
}

/// The name of the user's shell.
pub fn get_shell(s: &HostFacts) -> (out: String)
    ensures
        reads(out@, shell_reading(*s)),
{
    match &s.shell {
        Some(path) => {
            let file_name = path_file_name(path.as_str());
            let name = shell_name(path.as_str(), file_name);
            format_value(name.as_str())
        },
        None => format_error("N/A"),
    }
}

/// What the terminal reads: the `TERM_PROGRAM` variable without any
/// `".app"` in it, else the `TERM` variable; a variable that is empty counts
/// as not set. A failure where neither is set.
pub open spec fn terminal_reading(facts: HostFacts) -> Reading {
    if text_or(facts.term_program, ""@).len() > 0 {
        Reading::Value(without(text_or(facts.term_program, ""@), ".app"@))
    } else if text_or(facts.term, ""@).len() > 0 {
        Reading::Value(text_or(facts.term, ""@))
    } else {
        Reading::Failure("N/A"@)
    }
}

/// The terminal in use.
pub fn get_terminal(s: &HostFacts) -> (out: String)
    ensures
        reads(out@, terminal_reading(*s)),
{
    let program = field_or(&s.term_program, "");
    let term = field_or(&s.term, "");
    if !program.is_empty() {
        let shown = remove_all(program, ".app");
        format_value(shown.as_str())
    } else if !term.is_empty() {
        format_value(term)
    } else {
        format_error("N/A")
    }
}

/// What is said of a processor: its brand, trimmed, unless that is empty;
/// the number of processors, unless zero; the frequency, unless zero.
pub open spec fn cpu_parts(brand: Seq<char>, count: nat, frequency_mhz: nat) -> Seq<Seq<char>> {
    (if trimmed(brand).len() > 0 {
        seq![trimmed(brand)]
    } else {
        seq![]
    }) + (if count > 0 {
        seq!["("@ + decimal(count) + " Cores)"@]
    } else {
        seq![]
    }) + (if frequency_mhz > 0 {
        seq!["@ "@ + decimal(frequency_mhz) + "MHz"@]
    } else {
        seq![]
    })
}

/// The processor line: the parts of [`cpu_parts`] for the first processor,
/// with a space between them.
pub open spec fn cpu_text(facts: HostFacts) -> Seq<char> {
    joined(
        cpu_parts(
            facts.cpus@[0].brand@,
            facts.cpus@.len(),
            facts.cpus@[0].frequency_mhz as nat,
        ),
        " "@,
    )
}

/// What the processor reads: a failure where the host reports none.
pub open spec fn cpu_reading(facts: HostFacts) -> Reading {
    if facts.cpus@.len() == 0 {
        Reading::Failure("N/A"@)
    } else {
        Reading::Value(cpu_text(facts))
    }
}

/// The processor: brand, number of processors, frequency.
pub fn get_cpu(s: &HostFacts) -> (out: String)
    ensures
        reads(out@, cpu_reading(*s)),
{
    if s.cpus.len() == 0 {
        return format_error("N/A");
    }
    let cpu = &s.cpus[0];
    let core_count = s.cpus.len();
    let mut parts: Vec<String> = Vec::new();
    let brand = trim(cpu.brand.as_str());
    if !brand.as_str().is_empty() {
        parts.push(brand);
    }
    if core_count > 0 {
        let mut cores = String::from_str("(");
        push_decimal(&mut cores, core_count as u128);
        cores.append(" Cores)");
        parts.push(cores);
    }
    if cpu.frequency_mhz > 0 {
        let mut frequency = String::from_str("@ ");
        push_decimal(&mut frequency, cpu.frequency_mhz as u128);
        frequency.append("MHz");
        parts.push(frequency);
    }
    assert(views(parts@) == cpu_parts(
        cpu.brand@,
        core_count as nat,
        cpu.frequency_mhz as nat,
    ));
    let text = join(&parts, " ");
    format_value(text.as_str())
}

/// One row of eight colour swatches: for each colour `i` from 0 to 7, the
/// sequence that selects background `prefix` followed by `i`, then two
/// blanks.
pub open spec fn swatches(prefix: Seq<char>, upto: nat) -> Seq<char>
    decreases upto,
{
    if upto == 0 {
        Seq::empty()
    } else {
        swatches(prefix, (upto - 1) as nat) + "\x1b["@ + prefix + decimal((upto - 1) as nat) + "m  "@
    }
}

/// The palette: a row of the eight normal colours and a row of the eight
/// bright ones, each behind a blank and followed by a reset, with a line
/// feed between them.
pub open spec fn color_palette_text() -> Seq<char> {
    " "@ + swatches("4"@, 8) + "\x1b[0m\n "@ + swatches("10"@, 8) + "\x1b[0m"@
}

/// Appends one row of eight colour swatches.
fn push_swatches(out: &mut String, prefix: &str)
    ensures
        final(out)@ == old(out)@ + swatches(prefix@, 8),
{
    let mut i: u64 = 0;
    while i < 8
        invariant
            i <= 8,
            out@ == old(out)@ + swatches(prefix@, i as nat),
        decreases 8 - i,
    {
        out.append("\x1b[");
        out.append(prefix);
        push_decimal(out, i as u128);
        out.append("m  ");
        i += 1;
    }
}

/// Two rows of colour swatches.
pub fn get_color_palette(_s: &HostFacts) -> (out: String)
    ensures
        out@ == color_palette_text(),
{
    let mut out = String::from_str(" ");
    push_swatches(&mut out, "4");
    out.append("\x1b[0m\n ");
    push_swatches(&mut out, "10");
    out.append("\x1b[0m");
    out
}

/// The memory line: what is in use, what is installed, and the share in
/// use in percent.
pub open spec fn memory_text(facts: HostFacts) -> Seq<char> {
    bytes_text(facts.used_memory as nat) + " / "@ + bytes_text(facts.total_memory as nat) + " ("@
        + decimal(percent_used(facts.used_memory as nat, facts.total_memory as nat)) + "%)"@
}

/// What the memory reads: a failure where the host reports none installed.
pub open spec fn memory_reading(facts: HostFacts) -> Reading {
    if facts.total_memory == 0 {
        Reading::Failure("N/A"@)
    } else {
        Reading::Value(memory_text(facts))
    }
}

/// Memory in use and installed.
pub fn get_memory(s: &HostFacts) -> (out: String)
    ensures
        reads(out@, memory_reading(*s)),
{
    let total = s.total_memory;
    let used = s.used_memory;
    if total > 0 {
        let mut text = format_bytes(used);
        text.append(" / ");
        let installed = format_bytes(total);
        text.append(installed.as_str());
        text.append(" (");
        push_decimal(&mut text, percent_of(used, total));
        text.append("%)");
        format_value(text.as_str())
    } else {
        format_error("N/A")
    }
}

/// `out` answers `query` from `facts`: the palette as it is, any other
/// fact as its reading is displayed.
pub open spec fn native_text_matches(query: NativeQuery, facts: HostFacts, out: Seq<char>) -> bool {
    match query {
        NativeQuery::UserHost => reads(out, Reading::Value(user_host_text(facts))),
        NativeQuery::Os => reads(out, os_reading(facts)),
        NativeQuery::Kernel => reads(out, kernel_reading(facts)),
        NativeQuery::Uptime => reads(out, Reading::Value(duration_text(facts.uptime_seconds as nat))),
        NativeQuery::Shell => reads(out, shell_reading(facts)),
        NativeQuery::Terminal => reads(out, terminal_reading(facts)),
        NativeQuery::Cpu => reads(out, cpu_reading(facts)),
        NativeQuery::Memory => reads(out, memory_reading(facts)),
        NativeQuery::ColorPalette => out == color_palette_text(),
    }
}

/// Answers a query from the facts.
pub fn native_query(query: NativeQuery, facts: &HostFacts) -> (out: String)
    ensures
        native_text_matches(query, *facts, out@),
{
    match query {
        NativeQuery::UserHost => get_user_host(facts),
        NativeQuery::Os => get_os(facts),
        NativeQuery::Kernel => get_kernel(facts),
        NativeQuery::Uptime => get_uptime(facts),
        NativeQuery::Shell => get_shell(facts),
        NativeQuery::Terminal => get_terminal(facts),
        NativeQuery::Cpu => get_cpu(facts),
        NativeQuery::Memory => get_memory(facts),
        NativeQuery::ColorPalette => get_color_palette(facts),
    }
}

} // verus!

