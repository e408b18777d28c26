use rw_fetch::config::FetcherType;
use rw_fetch::config::NativeQuery;
use rw_fetch::config::SysInfoItem;
use rw_fetch::dispatch::descriptors_of;
use rw_fetch::dispatch::restore_order;
use rw_fetch::dispatch::run_all;
use rw_fetch::dispatch::run_task;
use rw_fetch::dispatch::DispatchError;
use rw_fetch::dispatch::FetchDescriptor;
use rw_fetch::dispatch::FetchOutcome;
use std::sync::atomic::AtomicUsize;
use std::sync::atomic::Ordering;
use std::sync::Arc;
use std::time::Duration;
use std::time::Instant;

fn outcome(index: usize, line: &str) -> FetchOutcome {
    FetchOutcome { index, lines: vec![line.to_string()] }
}

fn rows(count: usize) -> Vec<SysInfoItem> {
    (0..count).map(|_| SysInfoItem { label: "Row", fetcher_type: FetcherType::SysinfoFn(NativeQuery::Os) }).collect()
}

fn wait(millis: u64) {
    let until = Instant::now() + Duration::from_millis(millis);
    while Instant::now() < until {
        std::hint::spin_loop();
    }
}

fn indices(outcomes: &[FetchOutcome]) -> Vec<usize> {
    outcomes.iter().map(|o| o.index).collect()
}

fn peak_of(workers: usize, tasks: usize) -> usize {
    let active = Arc::new(AtomicUsize::new(0));
    let peak = Arc::new(AtomicUsize::new(0));
    let (a, p) = (active.clone(), peak.clone());
    let executor = move |d: FetchDescriptor| {
        let now = a.fetch_add(1, Ordering::SeqCst) + 1;
        p.fetch_max(now, Ordering::SeqCst);
        wait(15);
        a.fetch_sub(1, Ordering::SeqCst);
        vec![format!("{}", d.index)]
    };
    let ordered = run_all(&rows(tasks), workers, executor).unwrap();
    assert_eq!(indices(&ordered), (0..tasks).collect::<Vec<usize>>());
    assert_eq!(active.load(Ordering::SeqCst), 0);
    peak.load(Ordering::SeqCst)
}

#[test]
fn restore_order_puts_each_outcome_at_its_index() {
    let arrived = vec![outcome(2, "c"), outcome(0, "a"), outcome(1, "b")];
    let ordered = restore_order(arrived, 3).unwrap();
    assert_eq!(indices(&ordered), vec![0, 1, 2]);
    assert_eq!(ordered[0].lines, vec!["a".to_string()]);
    assert_eq!(ordered[1].lines, vec!["b".to_string()]);
    assert_eq!(ordered[2].lines, vec!["c".to_string()]);
}

#[test]
fn restore_order_of_nothing() {
    assert_eq!(restore_order(Vec::new(), 0).unwrap().len(), 0);
    assert_eq!(restore_order(Vec::new(), 2).unwrap_err(), DispatchError::MissingOutcome { index: 0 });
}

#[test]
fn restore_order_is_the_same_for_every_order_of_arrival() {
    let orders: [[usize; 4]; 6] =
        [[0, 1, 2, 3], [3, 2, 1, 0], [1, 3, 0, 2], [2, 0, 3, 1], [3, 0, 1, 2], [1, 0, 3, 2]];
    for order in orders {
        let arrived: Vec<FetchOutcome> =
            order.iter().map(|&i| FetchOutcome { index: i, lines: vec![format!("line {}", i), "more".to_string()] }).collect();
        let ordered = restore_order(arrived, 4).unwrap();
        assert_eq!(ordered.len(), 4);
        for (i, o) in ordered.iter().enumerate() {
            assert_eq!(o.index, i);
            assert_eq!(o.lines, vec![format!("line {}", i), "more".to_string()]);
        }
    }
}

#[test]
fn restore_order_reports_a_doubled_outcome() {
    let doubled = vec![outcome(0, "a"), outcome(0, "b"), outcome(1, "c")];
    assert_eq!(restore_order(doubled, 3).unwrap_err(), DispatchError::UnexpectedOutcome { index: 0 });
    let later = vec![outcome(1, "a"), outcome(0, "b"), outcome(1, "c")];
    assert_eq!(restore_order(later, 2).unwrap_err(), DispatchError::UnexpectedOutcome { index: 1 });
}

#[test]
fn restore_order_reports_an_outcome_for_no_descriptor() {
    let stray = vec![outcome(0, "a"), outcome(7, "b")];
    assert_eq!(restore_order(stray, 2).unwrap_err(), DispatchError::UnexpectedOutcome { index: 7 });
    let edge = vec![outcome(2, "a")];
    assert_eq!(restore_order(edge, 2).unwrap_err(), DispatchError::UnexpectedOutcome { index: 2 });
    let any = vec![outcome(0, "a")];
    assert_eq!(restore_order(any, 0).unwrap_err(), DispatchError::UnexpectedOutcome { index: 0 });
}

#[test]
fn restore_order_reports_the_first_fault_before_any_gap() {
    let both = vec![outcome(3, "d"), outcome(9, "x"), outcome(3, "d")];
    assert_eq!(restore_order(both, 5).unwrap_err(), DispatchError::UnexpectedOutcome { index: 9 });
}

#[test]
fn restore_order_reports_the_first_missing_outcome() {
    let short = vec![outcome(0, "a"), outcome(2, "c")];
    assert_eq!(restore_order(short, 3).unwrap_err(), DispatchError::MissingOutcome { index: 1 });
    let gaps = vec![outcome(4, "e"), outcome(1, "b")];
    assert_eq!(restore_order(gaps, 5).unwrap_err(), DispatchError::MissingOutcome { index: 0 });
    let tail = vec![outcome(0, "a"), outcome(1, "b")];
    assert_eq!(restore_order(tail, 3).unwrap_err(), DispatchError::MissingOutcome { index: 2 });
}

#[test]
fn run_task_tags_the_lines_with_the_index() {
    let descriptor = FetchDescriptor { index: 5, label: "OS", kind: FetcherType::Separator("x") };
    let executor = |d: FetchDescriptor| vec![d.label.to_string(), "second".to_string()];
    let outcome = run_task(&executor, descriptor);
    assert_eq!(outcome.index, 5);
    assert_eq!(outcome.lines, vec!["OS".to_string(), "second".to_string()]);
}

#[test]
fn run_all_returns_the_outcomes_in_table_order() {
    let table = vec![
        SysInfoItem { label: "A", fetcher_type: FetcherType::SysinfoFn(NativeQuery::Os) },
        SysInfoItem { label: "", fetcher_type: FetcherType::Separator("") },
        SysInfoItem { label: "B", fetcher_type: FetcherType::SysinfoFn(NativeQuery::Kernel) },
    ];
    let executor = |d: FetchDescriptor| match d.kind {
        FetcherType::Separator(_) => vec!["-----".to_string()],
        _ => vec![format!("{}:{}", d.index, d.label)],
    };
    let ordered = run_all(&table, 2, executor).unwrap();
    assert_eq!(indices(&ordered), vec![0, 1, 2]);
    assert_eq!(ordered[0].lines, vec!["0:A".to_string()]);
    assert_eq!(ordered[1].lines, vec!["-----".to_string()]);
    assert_eq!(ordered[2].lines, vec!["2:B".to_string()]);
}

#[test]
fn run_all_hands_each_descriptor_its_row() {
    let table = vec![
        SysInfoItem { label: "Shell", fetcher_type: FetcherType::SysinfoFn(NativeQuery::Shell) },
        SysInfoItem { label: "WM", fetcher_type: FetcherType::ShellCommand("WM") },
        SysInfoItem { label: "Hardware", fetcher_type: FetcherType::Separator("Hardware") },
    ];
    let executor = |d: FetchDescriptor| {
        let kind = match d.kind {
            FetcherType::SysinfoFn(NativeQuery::Shell) => "query shell".to_string(),
            FetcherType::SysinfoFn(_) => "query".to_string(),
            FetcherType::ShellCommand(key) => format!("command {}", key),
            FetcherType::Separator(text) => format!("separator {}", text),
        };
        vec![format!("{} {} {}", d.index, d.label, kind)]
    };
    let ordered = run_all(&table, 3, executor).unwrap();
    assert_eq!(ordered[0].lines, vec!["0 Shell query shell".to_string()]);
    assert_eq!(ordered[1].lines, vec!["1 WM command WM".to_string()]);
    assert_eq!(ordered[2].lines, vec!["2 Hardware separator Hardware".to_string()]);
}

#[test]
fn run_all_of_an_empty_table() {
    for workers in [1usize, 4, 12] {
        let ordered = run_all(&Vec::new(), workers, |_d: FetchDescriptor| vec!["x".to_string()]).unwrap();
        assert_eq!(ordered.len(), 0);
    }
}

#[test]
fn run_all_returns_one_outcome_per_row() {
    for tasks in [1usize, 2, 5, 13, 40] {
        for workers in [1usize, 2, 12, 64] {
            let ordered = run_all(&rows(tasks), workers, |d: FetchDescriptor| vec![format!("{}", d.index)]).unwrap();
            assert_eq!(ordered.len(), tasks);
            for (i, o) in ordered.iter().enumerate() {
                assert_eq!(o.index, i);
                assert_eq!(o.lines, vec![format!("{}", i)]);
            }
        }
    }
}

#[test]
fn run_all_keeps_table_order_whatever_the_delays() {
    let delays: [[u64; 6]; 4] =
        [[50, 40, 30, 20, 10, 0], [0, 10, 20, 30, 40, 50], [30, 0, 50, 10, 40, 20], [0, 60, 0, 60, 0, 60]];
    for plan in delays {
        for workers in [1usize, 3, 6] {
            let executor = move |d: FetchDescriptor| {
                wait(plan[d.index]);
                vec![format!("after {}", plan[d.index])]
            };
            let ordered = run_all(&rows(6), workers, executor).unwrap();
            assert_eq!(indices(&ordered), vec![0, 1, 2, 3, 4, 5]);
            for (i, o) in ordered.iter().enumerate() {
                assert_eq!(o.lines, vec![format!("after {}", plan[i])]);
            }
        }
    }
}

#[test]
fn run_all_never_runs_more_than_one_task_on_one_worker() {
    assert_eq!(peak_of(1, 8), 1);
}

#[test]
fn run_all_never_runs_more_than_four_tasks_on_four_workers() {
    let peak = peak_of(4, 16);
    assert!(peak >= 1 && peak <= 4, "peak {}", peak);
}

#[test]
fn run_all_never_runs_more_than_twelve_tasks_on_twelve_workers() {
    let peak = peak_of(12, 30);
    assert!(peak >= 1 && peak <= 12, "peak {}", peak);
}

#[test]
fn run_all_completes_twenty_tasks_on_twelve_workers() {
    let peak = peak_of(12, 20);
    assert!(peak <= 12, "peak {}", peak);
}

#[test]
fn run_all_collects_the_others_beside_a_failed_task() {
    let executor = |d: FetchDescriptor| {
        if d.index == 3 {
            vec![" Exit 1".to_string()]
        } else {
            vec![format!("value {}", d.index)]
        }
    };
    let ordered = run_all(&rows(7), 3, executor).unwrap();
    assert_eq!(ordered.len(), 7);
    for (i, o) in ordered.iter().enumerate() {
        assert_eq!(o.index, i);
        if i == 3 {
            assert_eq!(o.lines, vec![" Exit 1".to_string()]);
        } else {
            assert_eq!(o.lines, vec![format!("value {}", i)]);
        }
    }
}

#[test]
fn run_all_reports_a_task_that_died_without_an_outcome() {
    let executor = |d: FetchDescriptor| {
        if d.index == 2 {
            panic!("task {} died", d.index);
        }
        vec![format!("value {}", d.index)]
    };
    let res = run_all(&rows(5), 2, executor);
    assert_eq!(res.unwrap_err(), DispatchError::MissingOutcome { index: 2 });
}

#[test]
fn run_all_keeps_lines_of_any_number() {
    let executor = |d: FetchDescriptor| (0..d.index).map(|k| format!("{}", k)).collect::<Vec<String>>();
    let ordered = run_all(&rows(4), 2, executor).unwrap();
    assert_eq!(ordered[0].lines.len(), 0);
    assert_eq!(ordered[3].lines, vec!["0".to_string(), "1".to_string(), "2".to_string()]);
}

#[test]
fn descriptors_of_gives_each_row_its_position() {
    let table = vec![
        SysInfoItem { label: "OS", fetcher_type: FetcherType::SysinfoFn(NativeQuery::Os) },
        SysInfoItem { label: "", fetcher_type: FetcherType::Separator("") },
        SysInfoItem { label: "WM", fetcher_type: FetcherType::ShellCommand("WM") },
    ];
    let all = descriptors_of(&table);
    assert_eq!(all.len(), 3);
    for (i, d) in all.iter().enumerate() {
        assert_eq!(d.index, i);
        assert_eq!(d.label, table[i].label);
    }
    assert!(matches!(all[0].kind, FetcherType::SysinfoFn(NativeQuery::Os)));
    assert!(matches!(all[1].kind, FetcherType::Separator("")));
    assert!(matches!(all[2].kind, FetcherType::ShellCommand("WM")));
    assert_eq!(descriptors_of(&Vec::new()).len(), 0);
}

#[test]
fn run_all_gives_each_row_the_lines_of_its_own_descriptor() {
    let table = vec![
        SysInfoItem { label: "slow", fetcher_type: FetcherType::SysinfoFn(NativeQuery::Os) },
        SysInfoItem { label: "quick", fetcher_type: FetcherType::SysinfoFn(NativeQuery::Kernel) },
        SysInfoItem { label: "slower", fetcher_type: FetcherType::Separator("x") },
        SysInfoItem { label: "quickest", fetcher_type: FetcherType::ShellCommand("WM") },
    ];
    let executor = |d: FetchDescriptor| {
        wait(if d.label.starts_with("slow") { 40 } else { 0 });
        vec![d.label.to_string(), format!("{}", d.index)]
    };
    let ordered = run_all(&table, 4, executor).unwrap();
    for (i, o) in ordered.iter().enumerate() {
        assert_eq!(o.lines, vec![table[i].label.to_string(), format!("{}", i)]);
    }
}
