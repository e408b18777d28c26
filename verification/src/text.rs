//! Character-level helpers shared by the formatting code.
//!
//! Every string in this crate is described by its sequence of characters
//! (`s@`); the functions here build such sequences piece by piece.

use vstd::prelude::*;
use vstd::string::StringExecFns;

verus! {

/// The view of each string of `lines`, in order.
pub open spec fn views(lines: Seq<String>) -> Seq<Seq<char>> {
    lines.map_values(|s: String| s@)
}

/// The view of the string that `text` holds, if it holds one.
pub open spec fn view_of(text: Option<String>) -> Option<Seq<char>> {
    match text {
        Some(s) => Some(s@),
        None => None,
    }
}

/// The decimal digit that stands for `d`, for `d` below ten.
pub open spec fn digit(d: nat) -> char {
    if d == 0 {
        '0'
    } else if d == 1 {
        '1'
    } else if d == 2 {
        '2'
    } else if d == 3 {
        '3'
    } else if d == 4 {
        '4'
    } else if d == 5 {
        '5'
    } else if d == 6 {
        '6'
    } else if d == 7 {
        '7'
    } else if d == 8 {
        '8'
    } else {
        '9'
    }
}

/// `n` written in base ten, without leading zeros.
pub open spec fn decimal(n: nat) -> Seq<char>
    decreases n,
{
    if n < 10 {
        seq![digit(n)]
    } else {
        decimal(n / 10).push(digit(n % 10))
    }
}

/// `n` copies of `c`.
pub open spec fn repeated(c: char, n: nat) -> Seq<char> {
    Seq::new(n, |i: int| c)
}

/// `text` followed by as many spaces as it takes to reach `width` characters;
/// `text` itself where it is already that long.
pub open spec fn padded(text: Seq<char>, width: nat) -> Seq<char> {
    if text.len() >= width {
        text
    } else {
        text + repeated(' ', (width - text.len()) as nat)
    }
}

/// The members of `parts` in order, with `sep` between each two neighbours.
pub open spec fn joined(parts: Seq<Seq<char>>, sep: Seq<char>) -> Seq<char>
    decreases parts.len(),
{
    if parts.len() == 0 {
        Seq::empty()
    } else if parts.len() == 1 {
        parts[0]
    } else {
        joined(parts.drop_last(), sep) + sep + parts.last()
    }
}

/// The first `limit` characters of `text`, or all of it where it has fewer.
pub open spec fn truncated(text: Seq<char>, limit: nat) -> Seq<char> {
    if text.len() <= limit {
        text
    } else {
        text.take(limit as int)
    }
}

/// `String::push`: appends one character to the end of the string.
#[verifier::external_body]
pub(crate) fn push_char(out: &mut String, c: char)
    ensures
        final(out)@ == old(out)@.push(c),
{
    out.push(c);
}

/// The characters of `s`, in order.
pub fn chars_of(s: &str) -> (v: Vec<char>)
    ensures
        v@ == s@,
{
    let mut v: Vec<char> = Vec::new();
    for c in it: s.chars()
        invariant
            v@ == it.seq().take(it.index() as int),
    {
        v.push(c);
    }
    v
}

/// The string made of the characters `v[from..to]`.
pub fn string_of(v: &Vec<char>, from: usize, to: usize) -> (s: String)
    requires
        from <= to <= v.len(),
    ensures
        s@ == v@.subrange(from as int, to as int),
{
    let mut s = String::new();
    let mut i: usize = from;
    while i < to
        invariant
            from <= i <= to <= v.len(),
            s@ == v@.subrange(from as int, i as int),
        decreases to - i,
    {
        push_char(&mut s, v[i]);
        i += 1;
    }
    s
}

/// The decimal digit that stands for `d`.
fn digit_char(d: u64) -> (c: char)
    requires
        d < 10,
    ensures
        c == digit(d as nat),
{
    if d == 0 {
        '0'
    } else if d == 1 {
        '1'
    } else if d == 2 {
        '2'
    } else if d == 3 {
        '3'
    } else if d == 4 {
        '4'
    } else if d == 5 {
        '5'
    } else if d == 6 {
        '6'
    } else if d == 7 {
        '7'
    } else if d == 8 {
        '8'
    } else {
        '9'
    }
}

/// Appends the digit that stands for `d`.
pub fn push_digit(out: &mut String, d: u64)
    requires
        d < 10,
    ensures
        final(out)@ == old(out)@ + seq![digit(d as nat)],
{
    push_char(out, digit_char(d));
}

/// Appends `n` in base ten.
pub fn push_decimal(out: &mut String, n: u128)
    ensures
        final(out)@ == old(out)@ + decimal(n as nat),
    decreases n,
{
    if n >= 10 {
        push_decimal(out, n / 10);
    }
    push_char(out, digit_char((n % 10) as u64));
}

/// Appends `n` copies of `c`.
pub fn push_repeated(out: &mut String, c: char, n: usize)
    ensures
        final(out)@ == old(out)@ + repeated(c, n as nat),
{
    let mut i: usize = 0;
    while i < n
        invariant
            i <= n,
            out@ == old(out)@ + repeated(c, i as nat),
        decreases n - i,
    {
        push_char(out, c);
        i += 1;
    }
}

/// `text` padded with spaces on the right to `width` characters.
pub fn pad_right(text: &str, width: usize) -> (s: String)
    ensures
        s@ == padded(text@, width as nat),
{
    let mut s = String::from_str(text);
    let len = text.unicode_len();
    if len < width {
        push_repeated(&mut s, ' ', width - len);
    }
    s
}

/// The strings of `parts` in order, with `sep` between each two neighbours.
pub fn join(parts: &Vec<String>, sep: &str) -> (s: String)
    ensures
        s@ == joined(views(parts@), sep@),
{
    let mut s = String::new();
    let mut i: usize = 0;
    while i < parts.len()
        invariant
            i <= parts.len(),
            s@ == joined(views(parts@).take(i as int), sep@),
        decreases parts.len() - i,
    {
        proof {
            let all = views(parts@);
            assert(all.take(i + 1).drop_last() == all.take(i as int));
            assert(all.take(i + 1).last() == parts@[i as int]@);
        }
        if i > 0 {
            s.append(sep);
        }
        s.append(parts[i].as_str());
        i += 1;
    }
    proof {
        assert(views(parts@).take(parts.len() as int) == views(parts@));
    }
    s
}

/// The first `limit` characters of `text`.
pub fn truncate_chars(text: &str, limit: usize) -> (s: String)
    ensures
        s@ == truncated(text@, limit as nat),
{
    let chars = chars_of(text);
    if chars.len() <= limit {
        proof {
            assert(chars@.subrange(0, chars.len() as int) == chars@);
        }
        string_of(&chars, 0, chars.len())
    } else {
        string_of(&chars, 0, limit)
    }
}

/// Whether two strings hold the same characters.
pub fn same_text(a: &str, b: &str) -> (same: bool)
    ensures
        same == (a@ == b@),
{
    let left = chars_of(a);
    let right = chars_of(b);
    if left.len() != right.len() {
        return false;
    }
    let mut i: usize = 0;
    while i < left.len()
        invariant
            i <= left.len(),
            left.len() == right.len(),
            left@ == a@,
            right@ == b@,
            forall|k: int| 0 <= k < i ==> left@[k] == right@[k],
        decreases left.len() - i,
    {
        if left[i] != right[i] {
            return false;
        }
        i += 1;
    }
    assert(left@ =~= right@);
    true
}

/// Whether `c` is white space, as Unicode defines it.
pub open spec fn is_space(c: char) -> bool {
    let u = c as u32;
    ||| 0x09 <= u <= 0x0d
    ||| u == 0x20
    ||| u == 0x85
    ||| u == 0xa0
    ||| u == 0x1680
    ||| 0x2000 <= u <= 0x200a
    ||| u == 0x2028
    ||| u == 0x2029
    ||| u == 0x202f
    ||| u == 0x205f
    ||| u == 0x3000
}

/// `text` without the white space it starts with.
pub open spec fn trimmed_start(text: Seq<char>) -> Seq<char>
    decreases text.len(),
{
    if text.len() > 0 && is_space(text[0]) {
        trimmed_start(text.skip(1))
    } else {
        text
    }
}

/// `text` without the white space it ends with.
pub open spec fn trimmed_end(text: Seq<char>) -> Seq<char>
    decreases text.len(),
{
    if text.len() > 0 && is_space(text.last()) {
        trimmed_end(text.drop_last())
    } else {
        text
    }
}

/// `text` without the white space at either end.
pub open spec fn trimmed(text: Seq<char>) -> Seq<char> {
    trimmed_end(trimmed_start(text))
}

/// `text` with every occurrence of `pattern` taken out, found from the left
/// and never overlapping.
pub open spec fn without(text: Seq<char>, pattern: Seq<char>) -> Seq<char>
    decreases text.len(),
{
    if pattern.len() == 0 || text.len() == 0 {
        text
    } else if pattern.is_prefix_of(text) {
        without(text.skip(pattern.len() as int), pattern)
    } else {
        seq![text[0]] + without(text.skip(1), pattern)
    }
}

/// Where the first line of `text` ends: at its first line feed, or at the
/// end of `text` where it has none.
pub open spec fn line_end(text: Seq<char>) -> nat
    decreases text.len(),
{
    if text.len() == 0 || text[0] == '\n' {
        0
    } else {
        1 + line_end(text.skip(1))
    }
}

/// `line` without the carriage return it ends with, if it ends with one.
pub open spec fn without_return(line: Seq<char>) -> Seq<char> {
    if line.len() > 0 && line.last() == '\r' {
        line.drop_last()
    } else {
        line
    }
}

/// The lines of `text`. A line ends at a line feed, which is not part of
/// it, nor is a carriage return just before the line feed. What follows the
/// last line feed is a line too, unless it is empty.
pub open spec fn lines_of(text: Seq<char>) -> Seq<Seq<char>>
    decreases text.len(),
{
    if text.len() == 0 {
        seq![]
    } else if line_end(text) >= text.len() {
        seq![text]
    } else {
        seq![without_return(text.take(line_end(text) as int))] + lines_of(
            text.skip(line_end(text) as int + 1),
        )
    }
}

/// Whether `c` is white space.
pub fn is_space_char(c: char) -> (b: bool)
    ensures
        b == is_space(c),
{
    let u = c as u32;
    (0x09 <= u && u <= 0x0d) || u == 0x20 || u == 0x85 || u == 0xa0 || u == 0x1680 || (0x2000 <= u
        && u <= 0x200a) || u == 0x2028 || u == 0x2029 || u == 0x202f || u == 0x205f || u == 0x3000
}

/// White space at the start does not change what is left of a text once
/// its start is trimmed.
proof fn lemma_trimmed_start_skips(text: Seq<char>, i: int)
    requires
        0 <= i <= text.len(),
        forall|k: int| 0 <= k < i ==> is_space(text[k]),
    ensures
        trimmed_start(text) == trimmed_start(text.skip(i)),
    decreases i,
{
    if i > 0 {
        lemma_trimmed_start_skips(text.skip(1), i - 1);
        assert(text.skip(1).skip(i - 1) == text.skip(i));
    } else {
        assert(text.skip(0) == text);
    }
}

/// White space at the end does not change what is left of a text once its
/// end is trimmed.
proof fn lemma_trimmed_end_drops(text: Seq<char>, j: int)
    requires
        0 <= j <= text.len(),
        forall|k: int| j <= k < text.len() ==> is_space(text[k]),
    ensures
        trimmed_end(text) == trimmed_end(text.take(j)),
    decreases text.len() - j,
{
    if j < text.len() {
        lemma_trimmed_end_drops(text.drop_last(), j);
        assert(text.drop_last().take(j) == text.take(j));
    } else {
        assert(text.take(j) == text);
    }
}

/// `text` without the white space at either end.
pub fn trim(text: &str) -> (s: String)
    ensures
        s@ == trimmed(text@),
{
    let chars = chars_of(text);
    let mut start: usize = 0;
    while start < chars.len() && is_space_char(chars[start])
        invariant
            start <= chars.len(),
            forall|k: int| 0 <= k < start ==> is_space(chars@[k]),
        decreases chars.len() - start,
    {
        start += 1;
    }
    let mut end: usize = chars.len();
    while end > start && is_space_char(chars[end - 1])
        invariant
            start <= end <= chars.len(),
            forall|k: int| end <= k < chars.len() ==> is_space(chars@[k]),
        decreases end,
    {
        end -= 1;
    }
    proof {
        let rest = chars@.skip(start as int);
        lemma_trimmed_start_skips(chars@, start as int);
        assert(trimmed_start(chars@) == rest);
        assert forall|k: int| end - start <= k < rest.len() implies is_space(rest[k]) by {
            assert(rest[k] == chars@[k + start]);
        }
        lemma_trimmed_end_drops(rest, end - start);
        let kept = rest.take(end - start);
        assert(kept == chars@.subrange(start as int, end as int));
        if kept.len() > 0 {
            assert(kept.last() == chars@[end - 1]);
        }
        assert(trimmed_end(kept) == kept);
    }
    string_of(&chars, start, end)
}

/// Whether `pattern` stands in `chars` at position `at`.
fn starts_at(chars: &Vec<char>, at: usize, pattern: &Vec<char>) -> (b: bool)
    requires
        at <= chars.len(),
    ensures
        b == pattern@.is_prefix_of(chars@.skip(at as int)),
{
    if pattern.len() > chars.len() - at {
        return false;
    }
    let mut i: usize = 0;
    while i < pattern.len()
        invariant
            i <= pattern.len(),
            at <= chars.len(),
            pattern.len() <= chars.len() - at,
            forall|k: int| 0 <= k < i ==> pattern@[k] == chars@[at + k],
        decreases pattern.len() - i,
    {
        if pattern[i] != chars[at + i] {
            proof {
                let rest = chars@.skip(at as int);
                if pattern@.is_prefix_of(rest) {
                    assert(rest.subrange(0, pattern@.len() as int)[i as int] == pattern@[i as int]);
                }
            }
            return false;
        }
        i += 1;
    }
    proof {
        let rest = chars@.skip(at as int);
        assert(rest.subrange(0, pattern@.len() as int) =~= pattern@);
    }
    true
}

/// `text` with every occurrence of `pattern` taken out.
pub fn remove_all(text: &str, pattern: &str) -> (s: String)
    ensures
        s@ == without(text@, pattern@),
{
    let chars = chars_of(text);
    let wanted = chars_of(pattern);
    if wanted.len() == 0 {
        return String::from_str(text);
    }
    let mut s = String::new();
    let mut at: usize = 0;
    assert(chars@.skip(0) == chars@);
    while at < chars.len()
        invariant
            at <= chars.len(),
            wanted.len() > 0,
            without(chars@, wanted@) == s@ + without(chars@.skip(at as int), wanted@),
        decreases chars.len() - at,
    {
        let ghost rest = chars@.skip(at as int);
        if starts_at(&chars, at, &wanted) {
            proof {
                assert(rest.skip(wanted.len() as int) == chars@.skip(at + wanted.len()));
            }
            at += wanted.len();
        } else {
            proof {
                assert(rest.skip(1) == chars@.skip(at + 1));
                assert(rest[0] == chars@[at as int]);
                assert(s@.push(chars@[at as int]) + without(rest.skip(1), wanted@) == s@ + (
                seq![rest[0]] + without(rest.skip(1), wanted@)));
            }
            push_char(&mut s, chars[at]);
            at += 1;
        }
    }
    proof {
        assert(chars@.skip(chars.len() as int).len() == 0);
    }
    s
}

/// The first line ends at `n` where no line feed stands before `n` and one
/// stands at `n`, or the text ends there.
proof fn lemma_line_end_is(text: Seq<char>, n: int)
    requires
        0 <= n <= text.len(),
        forall|k: int| 0 <= k < n ==> text[k] != '\n',
        n < text.len() ==> text[n] == '\n',
    ensures
        line_end(text) == n,
    decreases text.len(),
{
    if text.len() == 0 || text[0] == '\n' {
    } else {
        assert forall|k: int| 0 <= k < n - 1 implies text.skip(1)[k] != '\n' by {
            assert(text.skip(1)[k] == text[k + 1]);
        }
        lemma_line_end_is(text.skip(1), n - 1);
    }
}

/// The lines of `text`.
pub fn split_lines(text: &str) -> (lines: Vec<String>)
    ensures
        views(lines@) == lines_of(text@),
{
    let chars = chars_of(text);
    let mut lines: Vec<String> = Vec::new();
    let mut at: usize = 0;
    assert(chars@.skip(0) == chars@);
    assert(views(lines@) == Seq::<Seq<char>>::empty());
    while at < chars.len()
        invariant
            at <= chars.len(),
            lines_of(chars@) == views(lines@) + lines_of(chars@.skip(at as int)),
        decreases chars.len() - at,
    {
        let ghost rest = chars@.skip(at as int);
        let mut end: usize = at;
        while end < chars.len() && chars[end] != '\n'
            invariant
                at <= end <= chars.len(),
                forall|k: int| at <= k < end ==> chars@[k] != '\n',
            decreases chars.len() - end,
        {
            end += 1;
        }
        proof {
            assert forall|k: int| 0 <= k < end - at implies rest[k] != '\n' by {
                assert(rest[k] == chars@[at + k]);
            }
            lemma_line_end_is(rest, end - at);
        }
        let ghost before = views(lines@);
        if end == chars.len() {
            let line = string_of(&chars, at, end);
            proof {
                assert(line@ == rest);
                assert(chars@.skip(end as int).len() == 0);
                assert(lines_of(chars@.skip(end as int)) == Seq::<Seq<char>>::empty());
            }
            lines.push(line);
            proof {
                assert(views(lines@) == before + seq![rest]);
            }
            at = end;
        } else {
            let stop = if end > at && chars[end - 1] == '\r' {
                end - 1
            } else {
                end
            };
            let line = string_of(&chars, at, stop);
            proof {
                let first = rest.take(end - at);
                assert(first == chars@.subrange(at as int, end as int));
                if first.len() > 0 {
                    assert(first.last() == chars@[end - 1]);
                }
                assert(line@ == without_return(first));
                assert(rest.skip(end - at + 1) == chars@.skip(end + 1));
            }
            lines.push(line);
            proof {
                assert(views(lines@) == before + seq![line@]);
            }
            at = end + 1;
        }
    }
    proof {
        assert(chars@.skip(chars.len() as int).len() == 0);
    }
    lines
}

} // verus!
