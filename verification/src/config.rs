//! What is fetched, in which order, and how a fetched value is dressed for
//! the terminal.

use crate::text::push_repeated;
use crate::text::repeated;
use crate::text::same_text;
use colored::Color;
use colored::Colorize;
use vstd::prelude::*;
use vstd::string::StrSliceExecFns;
use vstd::string::StringExecFns;

verus! {

/// Name of the file, beside the executable, that holds the rendered art.
pub const CACHE_FILE_NAME: &'static str = "cache.json";

/// Size of the worker pool that fetches the facts.
pub const MAX_FETCH_THREADS: usize = 12;

/// Stands between a label and its value.
pub const SYS_INFO_KV_SEPARATOR: &'static str = ":";

/// Ends every colour and style that is in force.
pub const RESET_COLOR_STR: &'static str = "\x1b[0m";

/// [`SYS_INFO_KV_SEPARATOR`] takes one byte.
pub proof fn lemma_kv_separator_len()
    ensures
        SYS_INFO_KV_SEPARATOR.len() == 1,
        SYS_INFO_KV_SEPARATOR@ == seq![':'],
{
    broadcast use vstd::string::is_ascii_spec_bytes;

    reveal_strlit(":");
    assert(SYS_INFO_KV_SEPARATOR@ =~= seq![':']);
    assert(vstd::string::is_ascii(SYS_INFO_KV_SEPARATOR));
}

/// The character a plain separator line is drawn with.
pub const SYS_INFO_SEPARATOR_CHAR: char = '-';

/// Stands between the art and the facts on each printed line.
pub const IMAGE_INFO_SEPARATOR: &'static str = "  │  ";

/// Counts the installed packages of each package manager it finds.
pub const PACKAGES_COMMAND: &'static str = r#"
            pkgs=''; updated=0
            append_pkg() { local name="$1"; local count="$2"; [ "$count" -gt 0 ] && pkgs="${pkgs}${pkgs:+, }$name ($count)"; updated=1; }
            if command -v dpkg-query >/dev/null; then append_pkg "apt" "$(dpkg-query -W -f='${Status}\n' 2>/dev/null | grep -c '^install ok installed')";
            elif command -v rpm >/dev/null; then append_pkg "rpm" "$(rpm -qa --nosignature --nodigest 2>/dev/null | wc -l)"; fi
            if command -v snap >/dev/null; then count=$(snap list 2>/dev/null | wc -l); [ "$count" -gt 1 ] && count=$((count-1)) || count=0; if [ "$count" -gt 0 ] || snap list >/dev/null 2>&1; then append_pkg "snap" "$count"; fi; fi
            if command -v flatpak >/dev/null; then count=$(flatpak list --app --columns=application 2>/dev/null | wc -l); [ "$count" -gt 1 ] && count=$((count-1)) || count=0; if [ "$count" -gt 0 ] || flatpak list >/dev/null 2>&1; then append_pkg "flatpak" "$count"; fi; fi
            [ "$updated" -eq 0 ] && pkgs="N/A" # Show N/A if no managers found/counted
            printf '%s' "$pkgs"
        "#;

/// Asks the display server for the current resolution.
pub const RESOLUTION_COMMAND: &'static str = r#"
            res=""
            if command -v xrandr >/dev/null; then res=$(xrandr --current 2>/dev/null | awk '/\*/ {print $1; exit}');
            elif command -v swaymsg >/dev/null; then res=$(swaymsg -t get_outputs | jq -r '.[] | select(.active) | .current_mode | "\(.width)x\(.height)"' 2>/dev/null | paste -sd ',' -);
            elif [ "$(uname -s)" = "Darwin" ]; then res=$(system_profiler SPDisplaysDataType 2>/dev/null | awk '/Resolution:/ {print $2 "x" $4; exit}'); fi
            printf "%s" "${res:-N/A}"
        "#;

/// Names the desktop session or window manager.
pub const WM_COMMAND: &'static str = r#"
            wm=""
            if [ -n "$XDG_CURRENT_DESKTOP" ]; then wm="$XDG_CURRENT_DESKTOP";
            elif [ -n "$DESKTOP_SESSION" ]; then wm="$DESKTOP_SESSION";
            elif command -v wmctrl >/dev/null; then wm=$(wmctrl -m 2>/dev/null | awk '/Name:/ {print $2}'); fi
            # Add more pgrep checks if desired, but keep it concise for fallback
            printf "%s" "${wm:-N/A}"
        "#;

/// Names the desktop theme.
pub const THEME_COMMAND: &'static str = r#"
            theme=""
            append_theme() { local val="$1"; local name="$2"; [ -n "$val" ] && theme="${theme}${theme:+, }$name: $val"; }
            if command -v gsettings >/dev/null; then append_theme "$(gsettings get org.gnome.desktop.interface gtk-theme 2>/dev/null | tr -d "'")" "GTK"; fi
            if command -v kreadconfig5 >/dev/null; then append_theme "$(kreadconfig5 --group LookAndFeel --key name 2>/dev/null)" "Plasma"; fi
            printf "%s" "${theme:-N/A}"
        "#;

/// Names the icon theme.
pub const ICONS_COMMAND: &'static str = r#"
            icons=""
            if command -v gsettings >/dev/null; then icons=$(gsettings get org.gnome.desktop.interface icon-theme 2>/dev/null | tr -d "'"); fi
            if [ -z "$icons" ] && command -v kreadconfig5 >/dev/null; then icons=$(kreadconfig5 --group Icons --key Theme 2>/dev/null); fi
            printf "%s" "${icons:-N/A}"
        "#;

/// Names the font of the default terminal profile.
pub const TERMINAL_FONT_COMMAND: &'static str = r#"
            font="N/A" # Default to N/A
            if command -v gsettings >/dev/null; then
                 profile_id=$(gsettings get org.gnome.Terminal.ProfilesList default 2>/dev/null | tr -d "'")
                 if [ -n "$profile_id" ]; then
                      profile_path="/org/gnome/terminal/legacy/profiles:/:$profile_id/"
                      use_sys=$(gsettings get org.gnome.Terminal.Legacy.Profile:"$profile_path" use-system-font 2>/dev/null)
                      if [ "$use_sys" = "true" ]; then
                           font=$(gsettings get org.gnome.desktop.interface monospace-font-name 2>/dev/null | tr -d "'")" (Sys)"
                      else
                           font=$(gsettings get org.gnome.Terminal.Legacy.Profile:"$profile_path" font 2>/dev/null | tr -d "'")
                      fi
                 fi
            fi
            printf "%s" "$font"
         "#;

/// Names the first graphics adapter.
pub const GPU_COMMAND: &'static str = r#"
            gpu="N/A"
            if command -v lspci > /dev/null; then
                 gpu=$(lspci 2>/dev/null | grep -E 'VGA|3D|Display' | head -n1 | cut -d':' -f3- | sed 's/^[ \t]*//; s/ (rev ..)$//')
            elif [ "$(uname -s)" = "Darwin" ]; then
                 gpu=$(system_profiler SPDisplaysDataType 2>/dev/null | awk -F': ' '/Chipset Model:/ {print $2; exit}')
            fi
            printf "%s" "${gpu:-N/A}"
         "#;

/// The shell script filed under `key`, if there is one.
pub open spec fn fallback_script(key: Seq<char>) -> Option<&'static str> {
    if key == "Packages"@ {
        Some(PACKAGES_COMMAND)
    }     else if key == "Resolution"@ {
        Some(RESOLUTION_COMMAND)
    }     else if key == "WM"@ {
        Some(WM_COMMAND)
    }     else if key == "Theme"@ {
        Some(THEME_COMMAND)
    }     else if key == "Icons"@ {
        Some(ICONS_COMMAND)
    }     else if key == "Terminal Font"@ {
        Some(TERMINAL_FONT_COMMAND)
    }     else if key == "GPU"@ {
        Some(GPU_COMMAND)
    } else {
        None
    }
}

/// Looks up the shell script filed under `key`.
pub fn fallback_command(key: &str) -> (script: Option<&'static str>)
    ensures
        script == fallback_script(key@),
{
    if same_text(key, "Packages") {
        Some(PACKAGES_COMMAND)
    }     else if same_text(key, "Resolution") {
        Some(RESOLUTION_COMMAND)
    }     else if same_text(key, "WM") {
        Some(WM_COMMAND)
    }     else if same_text(key, "Theme") {
        Some(THEME_COMMAND)
    }     else if same_text(key, "Icons") {
        Some(ICONS_COMMAND)
    }     else if same_text(key, "Terminal Font") {
        Some(TERMINAL_FONT_COMMAND)
    }     else if same_text(key, "GPU") {
        Some(GPU_COMMAND)
    } else {
        None
    }
}

/// The facts that are read from the host itself.
#[derive(Clone, Copy, Debug)]
pub enum NativeQuery {
    UserHost,
    Os,
    Kernel,
    Uptime,
    Shell,
    Terminal,
    Cpu,
    Memory,
    ColorPalette,
}

/// How one row of the display gets its lines.
#[derive(Clone, Copy, Debug)]
pub enum FetcherType {
    /// A fact read from the host.
    SysinfoFn(NativeQuery),
    /// The output of the fallback command filed under this key.
    ShellCommand(&'static str),
    /// No fact: a separator, a line of dashes where the text is empty.
    Separator(&'static str),
}

/// One row of the display.
#[derive(Clone, Copy, Debug)]
pub struct SysInfoItem {
    /// Shown before the value; for a separator, its heading.
    pub label: &'static str,
    pub fetcher_type: FetcherType,
}

impl SysInfoItem {
    /// Whether the row is a separator, which has neither label nor value.
    pub open spec fn is_separator(self) -> bool {
        self.fetcher_type is Separator
    }
}

/// The rows of the display, top to bottom.
pub open spec fn system_info_table() -> Seq<SysInfoItem> {
    seq![
        SysInfoItem { label: "User@Host", fetcher_type: FetcherType::SysinfoFn(NativeQuery::UserHost) },
        SysInfoItem { label: "", fetcher_type: FetcherType::Separator("") },
        SysInfoItem { label: "OS", fetcher_type: FetcherType::SysinfoFn(NativeQuery::Os) },
        SysInfoItem { label: "Kernel", fetcher_type: FetcherType::SysinfoFn(NativeQuery::Kernel) },
        SysInfoItem { label: "Uptime", fetcher_type: FetcherType::SysinfoFn(NativeQuery::Uptime) },
        SysInfoItem { label: "Shell", fetcher_type: FetcherType::SysinfoFn(NativeQuery::Shell) },
        SysInfoItem { label: "Resolution", fetcher_type: FetcherType::ShellCommand("Resolution") },
        SysInfoItem { label: "WM", fetcher_type: FetcherType::ShellCommand("WM") },
        SysInfoItem { label: "Theme", fetcher_type: FetcherType::ShellCommand("Theme") },
        SysInfoItem { label: "Icons", fetcher_type: FetcherType::ShellCommand("Icons") },
        SysInfoItem { label: "Terminal", fetcher_type: FetcherType::SysinfoFn(NativeQuery::Terminal) },
        SysInfoItem {
            label: "Terminal Font",
            fetcher_type: FetcherType::ShellCommand("Terminal Font"),
        },
        SysInfoItem { label: "", fetcher_type: FetcherType::Separator("") },
        SysInfoItem { label: "Hardware", fetcher_type: FetcherType::Separator("Hardware") },
        SysInfoItem { label: "CPU", fetcher_type: FetcherType::SysinfoFn(NativeQuery::Cpu) },
        SysInfoItem { label: "GPU", fetcher_type: FetcherType::ShellCommand("GPU") },
        SysInfoItem { label: "Memory", fetcher_type: FetcherType::SysinfoFn(NativeQuery::Memory) },
        SysInfoItem { label: "", fetcher_type: FetcherType::Separator("") },
        SysInfoItem {
            label: "Color Palette",
            fetcher_type: FetcherType::SysinfoFn(NativeQuery::ColorPalette),
        },
    ]
}

/// The rows of the display, top to bottom.
pub fn system_info_order() -> (table: Vec<SysInfoItem>)
    ensures
        table@ == system_info_table(),
{
    let table = vec![
        SysInfoItem { label: "User@Host", fetcher_type: FetcherType::SysinfoFn(NativeQuery::UserHost) },
        SysInfoItem { label: "", fetcher_type: FetcherType::Separator("") },
        SysInfoItem { label: "OS", fetcher_type: FetcherType::SysinfoFn(NativeQuery::Os) },
        SysInfoItem { label: "Kernel", fetcher_type: FetcherType::SysinfoFn(NativeQuery::Kernel) },
        SysInfoItem { label: "Uptime", fetcher_type: FetcherType::SysinfoFn(NativeQuery::Uptime) },
        SysInfoItem { label: "Shell", fetcher_type: FetcherType::SysinfoFn(NativeQuery::Shell) },
        SysInfoItem { label: "Resolution", fetcher_type: FetcherType::ShellCommand("Resolution") },
        SysInfoItem { label: "WM", fetcher_type: FetcherType::ShellCommand("WM") },
        SysInfoItem { label: "Theme", fetcher_type: FetcherType::ShellCommand("Theme") },
        SysInfoItem { label: "Icons", fetcher_type: FetcherType::ShellCommand("Icons") },
        SysInfoItem { label: "Terminal", fetcher_type: FetcherType::SysinfoFn(NativeQuery::Terminal) },
        SysInfoItem {
            label: "Terminal Font",
            fetcher_type: FetcherType::ShellCommand("Terminal Font"),
        },
        SysInfoItem { label: "", fetcher_type: FetcherType::Separator("") },
        SysInfoItem { label: "Hardware", fetcher_type: FetcherType::Separator("Hardware") },
        SysInfoItem { label: "CPU", fetcher_type: FetcherType::SysinfoFn(NativeQuery::Cpu) },
        SysInfoItem { label: "GPU", fetcher_type: FetcherType::ShellCommand("GPU") },
        SysInfoItem { label: "Memory", fetcher_type: FetcherType::SysinfoFn(NativeQuery::Memory) },
        SysInfoItem { label: "", fetcher_type: FetcherType::Separator("") },
        SysInfoItem {
            label: "Color Palette",
            fetcher_type: FetcherType::SysinfoFn(NativeQuery::ColorPalette),
        },
    ];
    assert(table@ =~= system_info_table());
    table
}

/// The colours the display uses.
#[derive(Clone, Copy, Debug)]
pub enum Hue {
    Blue,
    BrightWhite,
    Red,
}

/// The colour of labels, which are bold as well.
pub const LABEL_COLOR: Hue = Hue::Blue;

/// The colour of values.
pub const VALUE_COLOR: Hue = Hue::BrightWhite;

/// The colour of values that stand for a failure.
pub const ERROR_COLOR: Hue = Hue::Red;

/// The colour of separators; a heading is bold as well.
pub const SEPARATOR_COLOR: Hue = Hue::Blue;

/// The characters of [`RESET_COLOR_STR`].
pub open spec fn reset_sequence() -> Seq<char> {
    seq!['\u{1b}', '[', '0', 'm']
}

/// The foreground code of a colour in a "select graphic rendition" sequence.
pub open spec fn hue_code(hue: Hue) -> Seq<char> {
    match hue {
        Hue::Blue => seq!['3', '4'],
        Hue::BrightWhite => seq!['9', '7'],
        Hue::Red => seq!['3', '1'],
    }
}

/// The escape sequence that switches a colour on, after bold where asked.
pub open spec fn style_open(hue: Hue, bold: bool) -> Seq<char> {
    seq!['\u{1b}', '['] + (if bold {
        seq!['1', ';']
    } else {
        Seq::empty()
    }) + hue_code(hue) + seq!['m']
}

/// `text` with `open` put again behind each reset sequence inside it, found
/// from the left. This is how `colored` lets a style that is laid over the
/// whole text survive the resets inside it.
pub open spec fn restyled(text: Seq<char>, open: Seq<char>) -> Seq<char>
    decreases text.len(),
{
    if text.len() == 0 {
        text
    } else if reset_sequence().is_prefix_of(text) {
        reset_sequence() + open + restyled(text.skip(4), open)
    } else {
        seq![text[0]] + restyled(text.skip(1), open)
    }
}

/// `text` in the given colour: switched on before it, reset behind it.
pub open spec fn painted(text: Seq<char>, hue: Hue, bold: bool) -> Seq<char> {
    style_open(hue, bold) + restyled(text, style_open(hue, bold)) + reset_sequence()
}

/// What a terminal is sent for `text`: painted where colours are in use,
/// else `text` as it is.
pub open spec fn shown(text: Seq<char>, hue: Hue, bold: bool, colorize: bool) -> Seq<char> {
    if colorize {
        painted(text, hue, bold)
    } else {
        text
    }
}

/// `colored::Colorize::color` followed by `to_string`: the text in the given
/// foreground colour. With colours in use that is the sequence that selects
/// the colour, the text with that sequence repeated behind every reset
/// inside it, and a reset; without, the text as it is. Whether colours are
/// used is decided by the environment (`NO_COLOR`, `CLICOLOR`,
/// `CLICOLOR_FORCE`, whether standard output is a terminal) and by
/// `colored::control::set_override`, so the result is one of two strings.
/// `colored` asks that question more than once while it formats; the two
/// strings are all there is as long as the answer is not changed, by
/// another thread, while one text is being formatted.
#[verifier::external_body]
fn paint(text: &str, hue: Hue) -> (out: String)
    ensures
        out@ == shown(text@, hue, false, false) || out@ == shown(text@, hue, false, true),
{
    let color = match hue {
        Hue::Blue => Color::Blue,
        Hue::BrightWhite => Color::BrightWhite,
        Hue::Red => Color::Red,
    };
    text.color(color).to_string()
}

/// `colored::Colorize::color`, `colored::Colorize::bold` and `to_string`: as
/// [`paint`], with bold selected before the colour.
#[verifier::external_body]
fn paint_bold(text: &str, hue: Hue) -> (out: String)
    ensures
        out@ == shown(text@, hue, true, false) || out@ == shown(text@, hue, true, true),
{
    let color = match hue {
        Hue::Blue => Color::Blue,
        Hue::BrightWhite => Color::BrightWhite,
        Hue::Red => Color::Red,
    };
    text.color(color).bold().to_string()
}

/// A label as displayed: in bold and in its colour, then a reset and the
/// separator.
pub open spec fn label_text(label: Seq<char>, colorize: bool) -> Seq<char> {
    shown(label, LABEL_COLOR, true, colorize) + RESET_COLOR_STR@ + SYS_INFO_KV_SEPARATOR@
}

/// A value as displayed: a space, then the value in its colour.
pub open spec fn value_text(value: Seq<char>, colorize: bool) -> Seq<char> {
    " "@ + shown(value, VALUE_COLOR, false, colorize)
}

/// A failed value as displayed: a space, then the value in the colour of
/// failures.
pub open spec fn error_text(value: Seq<char>, colorize: bool) -> Seq<char> {
    " "@ + shown(value, ERROR_COLOR, false, colorize)
}

/// Blanks on each side of a heading of `len` characters centred in `width`.
pub open spec fn centering(len: nat, width: nat) -> nat {
    if width > len {
        ((width - len) / 2) as nat
    } else {
        0
    }
}

/// A separator as displayed: a line of `width` dashes where `text` is
/// empty, else `text` in bold, centred in `width`; either in the colour of
/// separators.
pub open spec fn separator_text(text: Seq<char>, width: nat, colorize: bool) -> Seq<char> {
    if text.len() == 0 {
        shown(repeated(SYS_INFO_SEPARATOR_CHAR, width), SEPARATOR_COLOR, false, colorize)
    } else {
        repeated(' ', centering(text.len(), width)) + shown(text, SEPARATOR_COLOR, true, colorize)
            + repeated(' ', centering(text.len(), width))
    }
}

/// `out` is `label` as displayed, with colours or without.
pub open spec fn is_label(out: Seq<char>, label: Seq<char>) -> bool {
    out == label_text(label, false) || out == label_text(label, true)
}

/// `out` is `value` as displayed, with colours or without.
pub open spec fn is_value(out: Seq<char>, value: Seq<char>) -> bool {
    out == value_text(value, false) || out == value_text(value, true)
}

/// `out` is the failed value `value` as displayed, with colours or without.
pub open spec fn is_error(out: Seq<char>, value: Seq<char>) -> bool {
    out == error_text(value, false) || out == error_text(value, true)
}

/// What a fact reads: a value, or what is said of a failure.
pub enum Reading {
    Value(Seq<char>),
    Failure(Seq<char>),
}

/// `out` is the reading as displayed: a value as a value, a failure as an
/// error.
pub open spec fn reads(out: Seq<char>, reading: Reading) -> bool {
    match reading {
        Reading::Value(value) => is_value(out, value),
        Reading::Failure(message) => is_error(out, message),
    }
}

/// `out` is a separator as displayed, with colours or without.
pub open spec fn is_separator(out: Seq<char>, text: Seq<char>, width: nat) -> bool {
    out == separator_text(text, width, false) || out == separator_text(text, width, true)
}

/// Dresses a label.
pub fn format_label(label: &str) -> (out: String)
    ensures
        is_label(out@, label@),
{
    let mut out = paint_bold(label, LABEL_COLOR);
    out.append(RESET_COLOR_STR);
    out.append(SYS_INFO_KV_SEPARATOR);
    out
}

/// Dresses a value.
pub fn format_value(value: &str) -> (out: String)
    ensures
        is_value(out@, value@),
{
    let mut out = String::from_str(" ");
    let body = paint(value, VALUE_COLOR);
    out.append(body.as_str());
    out
}

/// Dresses a value that stands for a failure.
pub fn format_error(value: &str) -> (out: String)
    ensures
        is_error(out@, value@),
{
    let mut out = String::from_str(" ");
    let body = paint(value, ERROR_COLOR);
    out.append(body.as_str());
    out
}

/// Draws a separator `width` characters wide.
pub fn format_separator(text: &str, width: usize) -> (out: String)
    ensures
        is_separator(out@, text@, width as nat),
{
    if text.is_empty() {
        let mut line = String::new();
        push_repeated(&mut line, SYS_INFO_SEPARATOR_CHAR, width);
        paint(line.as_str(), SEPARATOR_COLOR)
    } else {
        let text_len = text.unicode_len();
        let padding = if width > text_len {
            (width - text_len) / 2
        } else {
            0
        };
        let mut out = String::new();
        push_repeated(&mut out, ' ', padding);
        let body = paint_bold(text, SEPARATOR_COLOR);
        out.append(body.as_str());
        push_repeated(&mut out, ' ', padding);
        out
    }
}

} // verus!
