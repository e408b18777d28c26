//! From the table and the host's facts to the lines of the display.

use crate::config::error_text;
use crate::config::fallback_script;
use crate::config::format_error;
use crate::config::format_label;
use crate::config::format_separator;
use crate::config::is_error;
use crate::config::is_separator;
use crate::config::label_text;
use crate::config::lemma_kv_separator_len;
use crate::config::FetcherType;
use crate::config::SysInfoItem;
use crate::config::SYS_INFO_KV_SEPARATOR;
use crate::dispatch::descriptor_of;
use crate::dispatch::answer_rows;
use crate::dispatch::lemma_dispatched_answers_rows;
use crate::dispatch::lemma_restored_holds_arrivals;
use crate::dispatch::restored;
use crate::dispatch::in_order;
use crate::dispatch::run_all;
use crate::dispatch::DispatchError;
use crate::dispatch::FetchDescriptor;
use crate::dispatch::FetchOutcome;
use crate::sysinfo_fetchers::describes;
use crate::sysinfo_fetchers::fetch_shell_command;
use crate::sysinfo_fetchers::native_query;
use crate::sysinfo_fetchers::native_text_matches;
use crate::sysinfo_fetchers::CommandOutcome;
use crate::sysinfo_fetchers::HostFacts;
use crate::text::lines_of;
use crate::text::pad_right;
use crate::text::padded;
use crate::text::push_repeated;
use crate::text::repeated;
use crate::text::split_lines;
use crate::text::views;
use std::sync::Arc;
use vstd::prelude::*;
use vstd::string::StringExecFns;

verus! {

/// What a separator is wider than the label column by, the separator
/// between label and value left aside.
pub const SEPARATOR_MARGIN: usize = 15;

/// `width` is the length in bytes of the longest label of a row that is no
/// separator, zero where there is no such row.
pub open spec fn is_max_label_len(table: Seq<SysInfoItem>, width: nat) -> bool {
    &&& forall|i: int|
        0 <= i < table.len() && !(#[trigger] table[i]).is_separator() ==> table[i].label.len()
            <= width
    &&& width == 0 || exists|i: int|
        0 <= i < table.len() && !(#[trigger] table[i]).is_separator() && table[i].label.len()
            == width
}

/// The length in bytes of the longest label that is shown.
pub fn max_label_len(table: &Vec<SysInfoItem>) -> (width: usize)
    ensures
        is_max_label_len(table@, width as nat),
{
    let mut width: usize = 0;
    let mut i: usize = 0;
    while i < table.len()
        invariant
            i <= table.len(),
            is_max_label_len(table@.take(i as int), width as nat),
        decreases table.len() - i,
    {
        let ghost before = table@.take(i as int);
        let ghost after = table@.take(i + 1);
        let ghost old_width = width;
        let shown = match table[i].fetcher_type {
            FetcherType::Separator(_) => false,
            _ => true,
        };
        if shown && table[i].label.len() > width {
            width = table[i].label.len();
        }
        proof {
            assert forall|k: int|
                0 <= k < after.len() && !(#[trigger] after[k]).is_separator() implies after[k].label.len()
                <= width by {
                if k < i {
                    assert(before[k] == after[k]);
                }
            }
            if width != 0 {
                if width == old_width {
                    let k = choose|k: int|
                        0 <= k < before.len() && !(#[trigger] before[k]).is_separator()
                            && before[k].label.len() == old_width;
                    assert(after[k] == before[k]);
                } else {
                    assert(after[i as int] == table@[i as int]);
                }
            }
        }
        i += 1;
    }
    assert(table@.take(table.len() as int) == table@);
    width
}

/// How wide a separator is drawn beside a label column of `max_label_len`.
pub fn separator_width(max_label_len: usize) -> (width: usize)
    requires
        max_label_len + SYS_INFO_KV_SEPARATOR.len() + SEPARATOR_MARGIN <= usize::MAX,
    ensures
        width == max_label_len + SYS_INFO_KV_SEPARATOR.len() + SEPARATOR_MARGIN,
{
    max_label_len + SYS_INFO_KV_SEPARATOR.len() + SEPARATOR_MARGIN
}

/// The blanks a continuation line starts with, which put it under the value
/// of the line above.
pub open spec fn value_indent(width: nat) -> Seq<char> {
    repeated(' ', (width + SYS_INFO_KV_SEPARATOR.len() + 1) as nat)
}

/// Every line of `lines` behind the indent for a label column of `width`.
pub open spec fn indented(lines: Seq<Seq<char>>, width: nat) -> Seq<Seq<char>> {
    lines.map_values(|line: Seq<char>| value_indent(width) + line)
}

/// The display lines of one row, given the lines that were fetched for it.
///
/// A separator gives its first line as it is, and nothing where it has
/// none. Any other row gives its label, padded to `width`, before the first
/// line, and the further lines indented under the value; where no line was
/// fetched, the label before an error that reads `"N/A"`.
pub open spec fn block(
    item: SysInfoItem,
    lines: Seq<Seq<char>>,
    width: nat,
    colors: (bool, bool),
) -> Seq<Seq<char>> {
    if item.is_separator() {
        if lines.len() > 0 {
            seq![lines[0]]
        } else {
            seq![]
        }
    } else if lines.len() > 0 {
        seq![label_text(padded(item.label@, width), colors.0) + lines[0]] + indented(
            lines.skip(1),
            width,
        )
    } else {
        seq![label_text(padded(item.label@, width), colors.0) + error_text("N/A"@, colors.1)]
    }
}

/// The display: the blocks of the outcomes, in their order. `colors` says
/// for each outcome whether its label, and whether its `"N/A"`, came out
/// with colours.
pub open spec fn report(
    table: Seq<SysInfoItem>,
    results: Seq<FetchOutcome>,
    width: nat,
    colors: Seq<(bool, bool)>,
) -> Seq<Seq<char>>
    decreases results.len(),
{
    if results.len() == 0 {
        seq![]
    } else {
        report(table, results.drop_last(), width, colors.drop_last()) + block(
            table[results.last().index as int],
            views(results.last().lines@),
            width,
            colors.last(),
        )
    }
}

/// Appends the display lines of one row to `out`.
pub fn format_outcome(item: &SysInfoItem, lines: &Vec<String>, width: usize, out: &mut Vec<String>)
    requires
        width + SYS_INFO_KV_SEPARATOR.len() + 1 <= usize::MAX,
    ensures
        exists|colors: (bool, bool)|
            views(final(out)@) == views(old(out)@) + #[trigger] block(
                *item,
                views(lines@),
                width as nat,
                colors,
            ),
{
    let ghost before = views(out@);
    let ghost fetched = views(lines@);
    match item.fetcher_type {
        FetcherType::Separator(_) => {
            if lines.len() > 0 {
                out.push(lines[0].clone());
                proof {
                    assert(views(out@) =~= before + seq![fetched[0]]);
                    assert(views(out@) == before + block(
                        *item,
                        fetched,
                        width as nat,
                        (false, false),
                    ));
                }
            } else {
                proof {
                    assert(views(out@) =~= before + Seq::<Seq<char>>::empty());
                    assert(views(out@) == before + block(
                        *item,
                        fetched,
                        width as nat,
                        (false, false),
                    ));
                }
            }
        },
        _ => {
            let label = pad_right(item.label, width);
            let mut first = format_label(label.as_str());
            let ghost label_colored = first@ == label_text(label@, true);
            if lines.len() > 0 {
                first.append(lines[0].as_str());
                out.push(first);
                let ghost head = views(out@);
                assert(head =~= before + seq![
                    label_text(padded(item.label@, width as nat), label_colored) + fetched[0],
                ]);
                let mut k: usize = 1;
                while k < lines.len()
                    invariant
                        1 <= k <= lines.len(),
                        fetched == views(lines@),
                        width + SYS_INFO_KV_SEPARATOR.len() + 1 <= usize::MAX,
                        views(out@) == head + indented(
                            fetched.subrange(1, k as int),
                            width as nat,
                        ),
                    decreases lines.len() - k,
                {
                    let ghost so_far = views(out@);
                    let mut line = String::new();
                    push_repeated(&mut line, ' ', width + SYS_INFO_KV_SEPARATOR.len() + 1);
                    line.append(lines[k].as_str());
                    out.push(line);
                    proof {
                        assert(fetched.subrange(1, k + 1) =~= fetched.subrange(1, k as int).push(
                            fetched[k as int],
                        ));
                        assert(views(out@) =~= so_far + seq![
                            value_indent(width as nat) + fetched[k as int],
                        ]);
                        assert(indented(fetched.subrange(1, k + 1), width as nat) =~= indented(
                            fetched.subrange(1, k as int),
                            width as nat,
                        ) + seq![value_indent(width as nat) + fetched[k as int]]);
                    }
                    k += 1;
                }
                proof {
                    assert(fetched.subrange(1, lines.len() as int) =~= fetched.skip(1));
                    assert(views(out@) == before + block(
                        *item,
                        fetched,
                        width as nat,
                        (label_colored, false),
                    ));
                }
            } else {
                let missing = format_error("N/A");
                let ghost missing_colored = missing@ == error_text("N/A"@, true);
                first.append(missing.as_str());
                out.push(first);
                proof {
                    assert(views(out@) =~= before + seq![
                        label_text(padded(item.label@, width as nat), label_colored) + error_text(
                            "N/A"@,
                            missing_colored,
                        ),
                    ]);
                    assert(views(out@) == before + block(
                        *item,
                        fetched,
                        width as nat,
                        (label_colored, missing_colored),
                    ));
                }
            }
        },
    }
}

/// The display lines for the outcomes, in their order: for each outcome
/// the lines of its row of the table.
pub fn format_results(table: &Vec<SysInfoItem>, results: &Vec<FetchOutcome>, width: usize) -> (out:
    Vec<String>)
    requires
        width + SYS_INFO_KV_SEPARATOR.len() + 1 <= usize::MAX,
        forall|k: int| 0 <= k < results.len() ==> (#[trigger] results[k]).index < table.len(),
    ensures
        exists|colors: Seq<(bool, bool)>|
            colors.len() == results.len() && views(out@) == #[trigger] report(
                table@,
                results@,
                width as nat,
                colors,
            ),
{
    let mut out: Vec<String> = Vec::new();
    let ghost mut colors: Seq<(bool, bool)> = Seq::empty();
    let mut k: usize = 0;
    assert(views(out@) =~= report(table@, results@.take(0), width as nat, colors));
    while k < results.len()
        invariant
            k <= results.len(),
            width + SYS_INFO_KV_SEPARATOR.len() + 1 <= usize::MAX,
            forall|j: int| 0 <= j < results.len() ==> (#[trigger] results[j]).index < table.len(),
            colors.len() == k,
            views(out@) == report(table@, results@.take(k as int), width as nat, colors),
        decreases results.len() - k,
    {
        let ghost before = views(out@);
        let outcome = &results[k];
        let item = &table[outcome.index];
        format_outcome(item, &outcome.lines, width, &mut out);
        proof {
            let chosen = choose|c: (bool, bool)|
                views(out@) == before + #[trigger] block(
                    *item,
                    views(outcome.lines@),
                    width as nat,
                    c,
                );
            let longer = results@.take(k + 1);
            assert(longer.drop_last() == results@.take(k as int));
            assert(longer.last() == results@[k as int]);
            assert(colors.push(chosen).drop_last() == colors);
            colors = colors.push(chosen);
        }
        k += 1;
    }
    assert(results@.take(results.len() as int) == results@);
    out
}

/// What fetching one row gives: for a fact of the host, the lines of its
/// value; for a command, the one line of its outcome; for a separator, the
/// separator drawn `width` wide.
pub open spec fn fetched<R: Fn(&'static str) -> CommandOutcome>(
    descriptor: FetchDescriptor,
    facts: &HostFacts,
    run: &R,
    width: nat,
    lines: Seq<Seq<char>>,
) -> bool {
    match descriptor.kind {
        FetcherType::SysinfoFn(query) => exists|value: Seq<char>|
            #[trigger] native_text_matches(query, *facts, value) && lines == lines_of(value),
        FetcherType::ShellCommand(key) => lines.len() == 1 && match fallback_script(key@) {
            None => is_error(lines[0], "No cmd for "@ + key@),
            Some(script) => exists|outcome: CommandOutcome|
                call_ensures(*run, (script,), outcome) && #[trigger] describes(outcome, lines[0]),
        },
        FetcherType::Separator(text) => lines.len() == 1 && is_separator(lines[0], text@, width),
    }
}

/// Fetches the lines of one row.
pub fn fetch_lines<R>(
    descriptor: FetchDescriptor,
    facts: &HostFacts,
    run: &R,
    separator_width: usize,
) -> (lines: Vec<String>) where R: Fn(&'static str) -> CommandOutcome
    requires
        descriptor.kind matches FetcherType::ShellCommand(key) ==> (fallback_script(
            key@,
        ) matches Some(script) ==> call_requires(*run, (script,))),
    ensures
        fetched(descriptor, facts, run, separator_width as nat, views(lines@)),
{
    match descriptor.kind {
        FetcherType::SysinfoFn(query) => {
            let value = native_query(query, facts);
            let lines = split_lines(value.as_str());
            assert(native_text_matches(query, *facts, value@));
            lines
        },
        FetcherType::ShellCommand(key) => {
            let line = fetch_shell_command(key, run);
            let lines = vec![line];
            assert(views(lines@)[0] == line@);
            lines
        },
        FetcherType::Separator(text) => {
            let line = format_separator(text, separator_width);
            let lines = vec![line];
            assert(views(lines@)[0] == line@);
            lines
        },
    }
}

/// Every one of `arrived` is what fetching the row gives that its index
/// names, separators drawn for a label column of `width`.
pub open spec fn fetched_each<R: Fn(&'static str) -> CommandOutcome>(
    table: Seq<SysInfoItem>,
    facts: &HostFacts,
    run: &R,
    width: nat,
    arrived: Seq<FetchOutcome>,
) -> bool {
    forall|k: int|
        0 <= k < arrived.len() ==> (#[trigger] arrived[k]).index < table.len() && fetched(
            descriptor_of(table, arrived[k].index as int),
            facts,
            run,
            (width + SYS_INFO_KV_SEPARATOR.len() + SEPARATOR_MARGIN) as nat,
            views(arrived[k].lines@),
        )
}

/// `results` holds, for each row of `table` and in the order of the rows,
/// what fetching that row gives.
pub open spec fn fetched_all<R: Fn(&'static str) -> CommandOutcome>(
    table: Seq<SysInfoItem>,
    facts: &HostFacts,
    run: &R,
    width: nat,
    results: Seq<FetchOutcome>,
) -> bool {
    &&& results.len() == table.len()
    &&& in_order(results)
    &&& fetched_each(table, facts, run, width, results)
}

/// Fetches every row of `table` on a pool of `workers` threads and lays the
/// outcomes out, in the order of the table.
///
/// The label column is as wide as the longest label that is shown. Where
/// it succeeds, the lines are the report of what fetching each row gave.
/// It fails where [`run_all`] does, with what [`restore_order`] answers on
/// the outcomes that arrived; each of those, too, is what fetching its row
/// gives.
pub fn sys_info_lines<R>(
    table: &Vec<SysInfoItem>,
    facts: Arc<HostFacts>,
    run: R,
    workers: usize,
) -> (res: Result<Vec<String>, DispatchError>) where
    R: Fn(&'static str) -> CommandOutcome + Send + Sync + 'static,

    requires
        workers >= 1,
        forall|script: &'static str| call_requires(run, (script,)),
        forall|i: int|
            0 <= i < table.len() ==> (#[trigger] table[i]).label.len() + SYS_INFO_KV_SEPARATOR.len()
                + SEPARATOR_MARGIN <= usize::MAX,
    ensures
        res matches Ok(lines) ==> exists|
            width: nat,
            results: Seq<FetchOutcome>,
            colors: Seq<(bool, bool)>,
        |
            {
                &&& is_max_label_len(table@, width)
                &&& fetched_all(table@, &*facts, &run, width, results)
                &&& colors.len() == results.len()
                &&& views(lines@) == #[trigger] report(table@, results, width, colors)
            },
        res matches Err(e) ==> exists|width: nat, arrived: Seq<FetchOutcome>|
            {
                &&& is_max_label_len(table@, width)
                &&& arrived.len() <= table.len()
                &&& #[trigger] fetched_each(table@, &*facts, &run, width, arrived)
                &&& restored(arrived, table.len() as nat, Err(e))
            },
        table.len() == 0 ==> res is Ok,
{
    let width = max_label_len(table);
    proof {
        lemma_kv_separator_len();
    }
    let wide = separator_width(width);
    let ghost held = facts;
    let ghost runner = run;
    let executor = move |descriptor: FetchDescriptor| -> (lines: Vec<String>)
        ensures
            fetched(descriptor, &*facts, &run, wide as nat, views(lines@)),
        {
            fetch_lines(descriptor, &facts, &run, wide)
        };
    let ghost job = executor;
    let dispatch = run_all(table, workers, executor);
    proof {
        lemma_dispatched_answers_rows(table@, job, dispatch);
        let arrived = choose|arrived: Seq<FetchOutcome>|
            arrived.len() <= table.len() && #[trigger] answer_rows(arrived, table@, job)
                && restored(arrived, table.len() as nat, dispatch);
        assert(fetched_each(table@, &*held, &runner, width as nat, arrived)) by {
            assert forall|k: int| 0 <= k < arrived.len() implies (#[trigger] arrived[k]).index
                < table.len() && fetched(
                descriptor_of(table@, arrived[k].index as int),
                &*held,
                &runner,
                wide as nat,
                views(arrived[k].lines@),
            ) by {
                assert(call_ensures(
                    job,
                    (descriptor_of(table@, arrived[k].index as int),),
                    arrived[k].lines,
                ));
            }
        }
        if dispatch is Ok {
            let results = dispatch->Ok_0;
            lemma_restored_holds_arrivals(arrived, table.len() as nat, results@);
            assert(fetched_each(table@, &*held, &runner, width as nat, results@)) by {
                assert forall|i: int| 0 <= i < results.len() implies (#[trigger] results[i]).index
                    < table.len() && fetched(
                    descriptor_of(table@, results[i].index as int),
                    &*held,
                    &runner,
                    wide as nat,
                    views(results[i].lines@),
                ) by {
                    assert(arrived.contains(results[i]));
                    let j = choose|j: int| 0 <= j < arrived.len() && arrived[j] == results[i];
                    assert(arrived[j].index < table.len());
                }
            }
            assert(fetched_all(table@, &*held, &runner, width as nat, results@));
        }
    }
    match dispatch {
        Ok(results) => {
            let lines = format_results(table, &results, width);
            Ok(lines)
        },
        Err(e) => Err(e),
    }
}

/// The display is a matter of what the outcomes say, not of where they are
/// held: outcomes that agree in every index and in the text of every line
/// give the same display, for the same table, the same width and the same
/// use of colours.
pub proof fn lemma_report_is_repeatable(
    table: Seq<SysInfoItem>,
    first: Seq<FetchOutcome>,
    second: Seq<FetchOutcome>,
    width: nat,
    colors: Seq<(bool, bool)>,
)
    requires
        first.len() == second.len(),
        forall|k: int|
            0 <= k < first.len() ==> (#[trigger] first[k]).index == second[k].index && views(
                first[k].lines@,
            ) == views(second[k].lines@),
    ensures
        report(table, first, width, colors) == report(table, second, width, colors),
    decreases first.len(),
{
    if first.len() > 0 {
        lemma_report_is_repeatable(
            table,
            first.drop_last(),
            second.drop_last(),
            width,
            colors.drop_last(),
        );
        assert(first.last() == first[first.len() - 1]);
        assert(second.last() == second[second.len() - 1]);
    }
}

} // verus!
