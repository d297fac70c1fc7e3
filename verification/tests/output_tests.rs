use mytop_tui::output::{
    find_pager, format_error, format_show_variables, format_table, innodb_status_text,
    render_innodb_view, render_status_view, render_top_table,
};
use mytop_tui::sorted_map::SortedMap;
use mytop_tui::top_view::ThreadRow;

#[test]
fn pager_prefers_less_with_more_fallback() {
    assert_eq!(find_pager(&["cat", "less"]), "less");
    assert_eq!(find_pager(&["cat"]), "more");
}

#[test]
fn variables_are_formatted_as_table_and_error_format_is_unified() {
    let mut v = SortedMap::new();
    v.insert("autocommit".into(), "ON".into());
    let text = format_show_variables(&v);
    assert!(text.contains("Variable | Value"));
    assert!(text.contains("autocommit | ON"));

    assert_eq!(format_error("Invalid id."), "*** Invalid id. ***");
    assert_eq!(format_error("*** Invalid id. ***"), "*** Invalid id. ***");
}

#[test]
fn top_table_colors_running_queries_and_drops_ports() {
    let table = render_top_table(
        &[ThreadRow {
            id: 1,
            user: "alice".into(),
            db: Some("app".into()),
            host: "db01:3306".into(),
            command: "Query".into(),
            time: 2,
        }],
        true,
    );
    assert!(table.contains("db01"));
    assert!(table.contains("\u{001b}[33mQuery\u{001b}[0m"));
    let plain = render_top_table(
        &[ThreadRow {
            id: 3,
            user: "bob".into(),
            db: None,
            host: "local".into(),
            command: "Sleep".into(),
            time: 40,
        }],
        true,
    );
    assert_eq!(
        plain,
        "Id | User | DB | Host | Command | Time\n3 | bob | - | local | \u{001b}[37mSleep\u{001b}[0m | 40"
    );
    let connect = ThreadRow {
        id: 4,
        user: "carol".into(),
        db: None,
        host: "local".into(),
        command: "Connect".into(),
        time: 0,
    };
    assert!(render_top_table(&[connect.clone()], true).contains("\u{001b}[32mConnect\u{001b}[0m"));
    assert!(!render_top_table(&[connect], false).contains("\u{001b}["));
    let daemon = render_top_table(
        &[ThreadRow {
            id: 5,
            user: "event_scheduler".into(),
            db: None,
            host: "localhost".into(),
            command: "Daemon".into(),
            time: 9,
        }],
        true,
    );
    assert_eq!(
        daemon,
        "Id | User | DB | Host | Command | Time\n5 | event_scheduler | - | localhost | Daemon | 9"
    );
}

#[test]
fn status_and_innodb_views_are_rendered() {
    let status = render_status_view(&[("Threads_running".into(), 10, 1)]);
    assert!(status.contains("Name | Total | Delta"));
    assert!(status.contains("Threads_running | 10 | 1"));

    let innodb = render_innodb_view("LATEST DETECTED DEADLOCK", &["cat", "more"]);
    assert!(innodb.contains("pager=more"));
    assert!(innodb.contains("LATEST DETECTED DEADLOCK"));
    assert_eq!(innodb, "InnoDB Status (pager=more)\nLATEST DETECTED DEADLOCK");
}

#[test]
fn error_format_trims_and_wraps() {
    assert_eq!(format_error("  oops  "), "*** oops ***");
    assert_eq!(format_error(""), "***  ***");
    assert_eq!(format_error(format_error("x").as_str()), format_error("x"));
    assert_eq!(format_error("***"), "***");
}

#[test]
fn table_and_variables_layout() {
    let rows = vec![vec!["1".to_string(), "a".to_string()], vec!["2".to_string()]];
    assert_eq!(format_table(&["N", "V"], &rows), "N | V\n1 | a\n2");
    assert_eq!(format_table(&[], &[]), "");
    let mut v = SortedMap::new();
    v.insert("wait_timeout".into(), "28800".into());
    v.insert("autocommit".into(), "ON".into());
    assert_eq!(
        format_show_variables(&v),
        "Variable | Value\nautocommit | ON\nwait_timeout | 28800"
    );
    assert_eq!(innodb_status_text("x y"), "x y");
}
