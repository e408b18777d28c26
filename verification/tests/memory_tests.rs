use rw_fetch::sysinfo_fetchers::format_bytes;
use rw_fetch::sysinfo_fetchers::get_memory;
use rw_fetch::sysinfo_fetchers::HostFacts;

fn facts_with_memory(used: u64, total: u64) -> HostFacts {
    HostFacts {
        user_name: None,
        host_name: None,
        os_name: None,
        os_version: None,
        kernel_version: None,
        uptime_seconds: 0,
        shell: None,
        term_program: None,
        term: None,
        cpus: Vec::new(),
        total_memory: total,
        used_memory: used,
    }
}

fn in_double_precision(used: u64, total: u64) -> String {
    let percent = (used as f64 / total as f64) * 100.0;
    format!(" {} / {} ({:.0}%)", format_bytes(used), format_bytes(total), percent)
}

#[test]
fn get_memory_without_memory_is_an_error() {
    colored::control::set_override(false);
    assert_eq!(get_memory(&facts_with_memory(5, 0)), " N/A");
}

#[test]
fn get_memory_shows_use_total_and_share() {
    colored::control::set_override(false);
    let gib: u64 = 1024 * 1024 * 1024;
    assert_eq!(get_memory(&facts_with_memory(4 * gib, 16 * gib)), " 4.0 GiB / 16.0 GiB (25%)");
    assert_eq!(get_memory(&facts_with_memory(0, 16 * gib)), " 0 B / 16.0 GiB (0%)");
    assert_eq!(get_memory(&facts_with_memory(gib, gib)), " 1.0 GiB / 1.0 GiB (100%)");
    assert_eq!(get_memory(&facts_with_memory(1, 8)), " 1 B / 8 B (12%)");
    assert_eq!(get_memory(&facts_with_memory(3, 8)), " 3 B / 8 B (38%)");
    assert_eq!(get_memory(&facts_with_memory(1, 200)), " 1 B / 200 B (0%)");
    assert_eq!(get_memory(&facts_with_memory(3, 200)), " 3 B / 200 B (2%)");
}

#[test]
fn get_memory_agrees_with_double_precision_arithmetic() {
    colored::control::set_override(false);
    let mut pairs: Vec<(u64, u64)> = Vec::new();
    for total in 1..=400u64 {
        for used in 0..=(total + 3) {
            pairs.push((used, total));
        }
    }
    for k in 0..2000u64 {
        pairs.push((2 * k + 1, 200));
        pairs.push((2 * k + 1, 2000));
        pairs.push(((2 * k + 1) << 20, 200 << 20));
        pairs.push((u64::MAX - k, 1 + k));
        pairs.push((1 + k, u64::MAX - k));
        pairs.push((u64::MAX - k, u64::MAX - 2 * k));
        pairs.push(((1u64 << 53) + k, (1u64 << 54) + 3 * k + 1));
    }
    let mut x: u64 = 0x2545_F491_4F6C_DD1D;
    let mut next = move || {
        x ^= x << 13;
        x ^= x >> 7;
        x ^= x << 17;
        x
    };
    for _ in 0..30000 {
        let a = next();
        let b = next();
        let sa = (next() % 64) as u32;
        let sb = (next() % 64) as u32;
        pairs.push((a >> sa, (b >> sb).max(1)));
        pairs.push((a >> sa, (a >> sa).max(1)));
        let total = (b >> sb).max(1);
        pairs.push(((total / 200).wrapping_mul(2 * (a % 100) + 1), total));
    }
    for (used, total) in pairs {
        assert_eq!(
            get_memory(&facts_with_memory(used, total)),
            in_double_precision(used, total),
            "for {} of {}",
            used,
            total
        );
    }
}
