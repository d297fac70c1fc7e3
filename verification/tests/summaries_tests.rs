use mytop_tui::sorted_map::SortedMap;
use mytop_tui::summaries::{CommandCount, command_counts, get_qps, show_status, total_count};

fn counts(pairs: &[(&str, u64)]) -> SortedMap<u64> {
    let mut m = SortedMap::new();
    for (k, v) in pairs {
        m.insert(k.to_string(), *v);
    }
    m
}

#[test]
fn show_status_ignores_com_values() {
    let prev = SortedMap::new();
    let cur = counts(&[("Com_insert", 2), ("Threads_running", 3)]);

    let rows = show_status(&prev, &cur);
    assert_eq!(rows.len(), 1);
    assert_eq!(rows[0].0, "Threads_running");
}

#[test]
fn questions_delta_saturates() {
    assert_eq!(get_qps(100, 130), 30);
    assert_eq!(get_qps(130, 100), 0);
    assert_eq!(get_qps(10, 13), 3);
}

#[test]
fn command_counts_normalize_names() {
    let prev = counts(&[("Com_select", 10)]);
    let cur = counts(&[("Com_select", 20), ("Threads_connected", 5), ("Com_show_status", 4)]);
    let s = command_counts(&prev, &cur);
    assert_eq!(
        s,
        vec![
            CommandCount { name: "select".into(), total: 20, delta: 10 },
            CommandCount { name: "show status".into(), total: 4, delta: 4 },
        ]
    );
}

#[test]
fn status_rows_carry_totals_and_growth() {
    let prev = counts(&[("Questions", 50), ("Uptime", 9)]);
    let cur = counts(&[("Questions", 49), ("Uptime", 10), ("Com_select", 1)]);
    let rows = show_status(&prev, &cur);
    assert_eq!(
        rows,
        vec![("Questions".to_string(), 49, 0), ("Uptime".to_string(), 10, 1)]
    );
}

#[test]
fn total_count_reports_overflow() {
    assert_eq!(total_count(&counts(&[("Com_insert", 1), ("Com_select", 2)])), Some(3));
    assert_eq!(total_count(&counts(&[("Com_insert", u64::MAX), ("Com_select", 1)])), None);
    assert_eq!(total_count(&counts(&[("Com_select", 4), ("Threads_connected", 1)])), Some(4));
    assert_eq!(total_count(&counts(&[("Com_select", 1), ("Uptime", u64::MAX)])), Some(1));
    assert_eq!(total_count(&SortedMap::new()), Some(0));
}

#[test]
fn summaries_split_counters_between_them() {
    let prev = SortedMap::new();
    let cur = counts(&[("Com_a", 1), ("Com_b", 2), ("Open_files", 3), ("Uptime", 4), ("Cxx", 5)]);
    let status = show_status(&prev, &cur);
    let commands = command_counts(&prev, &cur);
    assert_eq!(status.len() + commands.len(), cur.len());
    assert_eq!(commands.len(), 2);
}

#[test]
fn command_summary_normalizes_names() {
    let mut prev = SortedMap::new();
    prev.insert("Com_select".to_string(), 10u64);
    let mut cur = SortedMap::new();
    cur.insert("Com_select".to_string(), 20u64);
    cur.insert("Threads_connected".to_string(), 5u64);

    let s = command_counts(&prev, &cur);
    assert_eq!(s.len(), 1);
    assert_eq!(s[0].name, "select");
    assert_eq!(s[0].delta, 10);
}
