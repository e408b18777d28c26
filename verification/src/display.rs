//! Lays the art and the facts out side by side.

use crate::config::IMAGE_INFO_SEPARATOR;
use crate::pattern::regex_accepts;
use crate::pattern::regex_replace_all;
use crate::pattern::Pattern;
use crate::text::push_repeated;
use crate::text::repeated;
use crate::text::split_lines;
use crate::text::lines_of;
use crate::text::views;
use vstd::prelude::*;
use vstd::string::StringExecFns;

verus! {

/// Matches one control sequence of a terminal: escape, an opening bracket,
/// parameters, and the letter that ends it.
pub const ANSI_PATTERN: &'static str = r"\x1b\[[0-9;?]*[a-zA-Z]";

/// Compiles [`ANSI_PATTERN`]. Nothing where it is refused as a regular
/// expression.
pub fn ansi_pattern() -> (made: Option<Pattern>)
    ensures
        match made {
            Some(compiled) => compiled.source() == ANSI_PATTERN@,
            None => !regex_accepts(ANSI_PATTERN@),
        },
{
    Pattern::compile(ANSI_PATTERN)
}

/// `line` as it shows on a terminal: without its control sequences.
pub open spec fn visible_text(line: Seq<char>) -> Seq<char> {
    regex_replace_all(ANSI_PATTERN@, line, ""@)
}

/// The number of columns that `line` takes on a terminal.
pub open spec fn visible_width(line: Seq<char>) -> usize {
    visible_text(line).len() as usize
}

/// The number of characters of `line` that show on a terminal, given the
/// compiled [`ANSI_PATTERN`].
pub fn get_visible_width(ansi: &Pattern, line: &str) -> (width: usize)
    requires
        ansi.source() == ANSI_PATTERN@,
    ensures
        width == visible_width(line@),
{
    let shown = ansi.replace_all(line, "");
    shown.as_str().unicode_len()
}

/// The largest of `widths`, zero where there is none.
pub open spec fn max_width(widths: Seq<usize>) -> nat
    decreases widths.len(),
{
    if widths.len() == 0 {
        0
    } else if widths.last() > max_width(widths.drop_last()) {
        widths.last() as nat
    } else {
        max_width(widths.drop_last())
    }
}

/// Line `i` of `lines`, empty where there is no such line.
pub open spec fn line_or_empty(lines: Seq<Seq<char>>, i: int) -> Seq<char> {
    if 0 <= i < lines.len() {
        lines[i]
    } else {
        Seq::empty()
    }
}

/// Width `i` of `widths`, `blank` where there is no such width.
pub open spec fn width_or(widths: Seq<usize>, i: int, blank: usize) -> nat {
    if 0 <= i < widths.len() {
        widths[i] as nat
    } else {
        blank as nat
    }
}

/// One printed line: the art, blanks up to the width of the widest line of
/// art and, unless the fact is empty, the separator and the fact.
pub open spec fn row(art: Seq<char>, art_width: nat, widest: nat, info: Seq<char>) -> Seq<char> {
    art + repeated(
        ' ',
        if widest > art_width {
            (widest - art_width) as nat
        } else {
            0
        },
    ) + if info.len() > 0 {
        IMAGE_INFO_SEPARATOR@ + info
    } else {
        Seq::empty()
    }
}

/// The printed lines: as many as the longer of art and facts has, line `i`
/// of the art beside line `i` of the facts. `widths` holds the width of
/// each line of art, `blank` the width of an empty line.
pub open spec fn rows(
    art: Seq<Seq<char>>,
    widths: Seq<usize>,
    blank: usize,
    info: Seq<Seq<char>>,
) -> Seq<Seq<char>> {
    Seq::new(
        if art.len() > info.len() {
            art.len()
        } else {
            info.len()
        },
        |i: int|
            row(
                line_or_empty(art, i),
                width_or(widths, i, blank),
                max_width(widths),
                line_or_empty(info, i),
            ),
    )
}

/// The largest of `widths`.
fn widest(widths: &Vec<usize>) -> (w: usize)
    ensures
        w == max_width(widths@),
{
    let mut w: usize = 0;
    let mut i: usize = 0;
    assert(widths@.take(0) =~= Seq::<usize>::empty());
    while i < widths.len()
        invariant
            i <= widths.len(),
            w == max_width(widths@.take(i as int)),
        decreases widths.len() - i,
    {
        assert(widths@.take(i + 1).drop_last() == widths@.take(i as int));
        if widths[i] > w {
            w = widths[i];
        }
        i += 1;
    }
    assert(widths@.take(widths.len() as int) == widths@);
    w
}

/// Puts the lines of art and the facts side by side, given the width that
/// each line of art takes on a terminal.
pub fn compose_rows(
    art: &Vec<String>,
    widths: &Vec<usize>,
    blank: usize,
    info: &Vec<String>,
) -> (out: Vec<String>)
    requires
        widths.len() == art.len(),
    ensures
        views(out@) == rows(views(art@), widths@, blank, views(info@)),
{
    let widest = widest(widths);
    let count = if art.len() > info.len() {
        art.len()
    } else {
        info.len()
    };
    let mut out: Vec<String> = Vec::new();
    let mut i: usize = 0;
    while i < count
        invariant
            i <= count,
            count == if art.len() > info.len() {
                art.len()
            } else {
                info.len()
            },
            widths.len() == art.len(),
            widest == max_width(widths@),
            out.len() == i,
            forall|k: int|
                0 <= k < i ==> (#[trigger] out[k])@ == row(
                    line_or_empty(views(art@), k),
                    width_or(widths@, k, blank),
                    max_width(widths@),
                    line_or_empty(views(info@), k),
                ),
        decreases count - i,
    {
        let mut line = String::new();
        let width = if i < art.len() {
            line.append(art[i].as_str());
            widths[i]
        } else {
            blank
        };
        let padding = if widest > width {
            widest - width
        } else {
            0
        };
        push_repeated(&mut line, ' ', padding);
        if i < info.len() && !info[i].as_str().is_empty() {
            line.append(IMAGE_INFO_SEPARATOR);
            line.append(info[i].as_str());
        }
        proof {
            assert(line@ =~= row(
                line_or_empty(views(art@), i as int),
                width_or(widths@, i as int, blank),
                max_width(widths@),
                line_or_empty(views(info@), i as int),
            ));
        }
        out.push(line);
        i += 1;
    }
    assert(views(out@) =~= rows(views(art@), widths@, blank, views(info@)));
    out
}

/// The width that each of `lines` takes on a terminal.
pub open spec fn visible_widths(lines: Seq<Seq<char>>) -> Seq<usize> {
    lines.map_values(|line: Seq<char>| visible_width(line))
}

/// The lines to print for a piece of art and the facts beside it, given
/// the compiled [`ANSI_PATTERN`]: line by line the art, padded to the width
/// that its widest line takes on a terminal, and the fact.
pub fn display_art_and_info(ansi: &Pattern, ansi_art: &str, sys_info_lines: &Vec<String>) -> (out:
    Vec<String>)
    requires
        ansi.source() == ANSI_PATTERN@,
    ensures
        views(out@) == rows(
            lines_of(ansi_art@),
            visible_widths(lines_of(ansi_art@)),
            visible_width(Seq::empty()),
            views(sys_info_lines@),
        ),
{
    let art = split_lines(ansi_art);
    let mut widths: Vec<usize> = Vec::new();
    let mut i: usize = 0;
    while i < art.len()
        invariant
            i <= art.len(),
            ansi.source() == ANSI_PATTERN@,
            views(art@) == lines_of(ansi_art@),
            widths@ == visible_widths(lines_of(ansi_art@).take(i as int)),
        decreases art.len() - i,
    {
        let w = get_visible_width(ansi, art[i].as_str());
        widths.push(w);
        proof {
            let lines = lines_of(ansi_art@);
            assert(lines[i as int] == art@[i as int]@);
            assert(widths@ =~= visible_widths(lines.take(i + 1)));
        }
        i += 1;
    }
    assert(lines_of(ansi_art@).take(art.len() as int) == lines_of(ansi_art@));
    proof {
        reveal_strlit("");
        assert(""@ =~= Seq::<char>::empty());
    }
    let blank = get_visible_width(ansi, "");
    compose_rows(&art, &widths, blank, sys_info_lines)
}

} // verus!
