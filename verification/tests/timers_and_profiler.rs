use sim8086::profiler::{ScopeGuard, SimpleProfiler};
use sim8086::timer::{
    estimate_cpu_timer_freq, get_os_timer_freq, os_timer_value, os_wait_time, read_os_timer,
};

#[test]
fn os_timer_frequency() {
    assert_eq!(get_os_timer_freq(), 1_000_000);
}

#[test]
fn os_timer_value_of_a_clock_reading() {
    assert_eq!(os_timer_value(0, 0), Some(0));
    assert_eq!(os_timer_value(3, 250), Some(253_000_000));
    assert_eq!(os_timer_value(1_700_000_000, 999_999), Some(1_700_999_999_000_000));
    assert_eq!(os_timer_value(u64::MAX, 1), None);
    assert_eq!(os_timer_value(u64::MAX / 1_000_000, 0), Some(u64::MAX / 1_000_000 * 1_000_000));
    assert_eq!(os_timer_value(u64::MAX / 1_000_000, 1), None);
}

#[test]
fn os_timer_reads_the_clock() {
    let first = read_os_timer().expect("the clock stands after 1970");
    assert_eq!(first % get_os_timer_freq(), 0);
    // Later than the start of 2020.
    assert!(first / get_os_timer_freq() >= 1_577_836_800);
    assert!(first / get_os_timer_freq() < 1_577_836_800 + 1_000_000 + 100 * 366 * 86_400);
}

#[test]
fn wait_time_in_ticks() {
    assert_eq!(os_wait_time(1_000_000, 100), 100_000);
    assert_eq!(os_wait_time(1_000_000, 1), 1_000);
    assert_eq!(os_wait_time(1_000, 1), 1);
    assert_eq!(os_wait_time(999, 1), 0);
    assert_eq!(os_wait_time(1_000_000, 0), 0);
}

#[test]
fn cpu_frequency_estimate() {
    assert_eq!(estimate_cpu_timer_freq(1_000_000, 300_000_000, 100_000), 3_000_000_000);
    assert_eq!(estimate_cpu_timer_freq(1_000_000, 299_999_999, 100_001), 2_999_969_990);
    assert_eq!(estimate_cpu_timer_freq(1_000_000, 5, 0), 0);
    assert_eq!(estimate_cpu_timer_freq(1_000_000, 0, 7), 0);
    assert_eq!(estimate_cpu_timer_freq(0, 12, 7), 0);
}

#[test]
fn run_start_and_end() {
    let mut p = SimpleProfiler::new();
    assert_eq!((p.start_tsc, p.end_tsc, p.scopes.len()), (0, 0, 0));
    p.start(100);
    p.end(350);
    assert_eq!((p.start_tsc, p.end_tsc), (100, 350));
    assert_eq!(p.total(), 250);
}

#[test]
fn update_scope_time_changes_only_a_known_label() {
    let mut p = SimpleProfiler::new();
    p.update_scope_time("parse", 5);
    assert!(p.scopes.is_empty());
    ScopeGuard::start(&mut p, "read", 10);
    ScopeGuard::start(&mut p, "parse", 20);
    p.update_scope_time("parse", 5);
    assert_eq!(p.scopes, vec![("read", 10), ("parse", 5)]);
    p.update_scope_time("sum", 9);
    assert_eq!(p.scopes, vec![("read", 10), ("parse", 5)]);
    assert_eq!(p.scope_time("read"), Some(10));
    assert_eq!(p.scope_time("sum"), None);
    assert_eq!(p.find("parse"), Some(1));
    assert_eq!(p.find("sum"), None);
}

#[test]
fn starting_a_scope_twice_keeps_one_entry() {
    let mut p = SimpleProfiler::new();
    let guard = ScopeGuard::start(&mut p, "read", 10);
    assert_eq!(guard.label(), "read");
    ScopeGuard::start(&mut p, "read", 30);
    assert_eq!(p.scopes, vec![("read", 30)]);
}

#[test]
fn ending_a_scope_records_the_time_it_took() {
    let mut p = SimpleProfiler::new();
    ScopeGuard::start(&mut p, "read", 10);
    ScopeGuard::start(&mut p, "parse", 25);
    ScopeGuard::end(&mut p, "read", 110);
    assert_eq!(p.scopes, vec![("read", 100), ("parse", 25)]);
    ScopeGuard::end(&mut p, "parse", 25);
    assert_eq!(p.scopes, vec![("read", 100), ("parse", 0)]);
}

#[test]
fn closing_a_guard_records_time_only_for_scopes_started_after_the_run() {
    let mut p = SimpleProfiler::new();
    p.start(50);
    let late = ScopeGuard::start(&mut p, "late", 60);
    let early = ScopeGuard::start(&mut p, "early", 50);
    late.close(&mut p, 100);
    early.close(&mut p, 100);
    assert_eq!(p.scopes, vec![("late", 40), ("early", 50)]);
    assert_eq!((p.start_tsc, p.end_tsc), (50, 0));
}
