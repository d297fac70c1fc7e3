use mytop_tui::filters::{Filters, StringOrRegex};
use mytop_tui::top_view::{ThreadRow, TopViewOptions, normalize_host, prepare_top_rows, sort_threads_by_time};

fn row(id: u64, user: &str, command: &str, time: u64) -> ThreadRow {
    ThreadRow {
        id,
        user: user.into(),
        db: None,
        host: "h".into(),
        command: command.into(),
        time,
    }
}

#[test]
fn threads_are_sorted_by_time() {
    let mut rows = vec![
        ThreadRow {
            id: 1,
            user: "a".into(),
            db: None,
            host: "h".into(),
            command: "Sleep".into(),
            time: 1,
        },
        ThreadRow {
            id: 2,
            user: "b".into(),
            db: None,
            host: "h".into(),
            command: "Query".into(),
            time: 8,
        },
    ];

    sort_threads_by_time(&mut rows, true);
    assert_eq!(rows[0].id, 2);
    assert_eq!(normalize_host("db.example.org:3306"), "db.example.org");
}

#[test]
fn prepare_top_rows_applies_filters_idle_and_sorting() {
    let rows = vec![
        ThreadRow {
            id: 10,
            user: "alice".into(),
            db: Some("app".into()),
            host: "db01:42000".into(),
            command: "Sleep".into(),
            time: 20,
        },
        ThreadRow {
            id: 11,
            user: "alice".into(),
            db: Some("app".into()),
            host: "db01:43000".into(),
            command: "Query".into(),
            time: 5,
        },
    ];
    let filters = Filters {
        user: StringOrRegex::Exact("alice".into()),
        db: StringOrRegex::Exact("app".into()),
        host: StringOrRegex::Exact("db01".into()),
    };

    let out = prepare_top_rows(
        &rows,
        &filters,
        TopViewOptions {
            sort_desc: true,
            hide_idle: true,
        },
    );

    assert_eq!(out.len(), 1);
    assert_eq!(out[0].id, 11);
}

#[test]
fn sort_is_stable_and_descending_reverses_it() {
    let mut rows = vec![row(1, "a", "Query", 5), row(2, "b", "Query", 1), row(3, "c", "Query", 5), row(4, "d", "Query", 3)];
    sort_threads_by_time(&mut rows, false);
    let ids: Vec<u64> = rows.iter().map(|r| r.id).collect();
    assert_eq!(ids, vec![2, 4, 1, 3]);
    sort_threads_by_time(&mut rows, true);
    let ids: Vec<u64> = rows.iter().map(|r| r.id).collect();
    assert_eq!(ids, vec![3, 1, 4, 2]);
}

#[test]
fn filters_on_db_and_host_and_idle_default() {
    let mut r1 = row(1, "app", "Sleep", 3);
    r1.db = Some("prod".into());
    r1.host = "db1.internal:3306".into();
    let r2 = row(2, "app", "Query", 9);
    let filters = Filters {
        user: StringOrRegex::MatchAll,
        db: StringOrRegex::Exact("prod".into()),
        host: StringOrRegex::Pattern("^db1".into()),
    };
    let out = prepare_top_rows(&[r1.clone(), r2.clone()], &filters, TopViewOptions::default());
    assert_eq!(out, vec![r1.clone()]);
    let all = prepare_top_rows(&[r1.clone(), r2.clone()], &Filters::default(), TopViewOptions { sort_desc: false, hide_idle: false });
    assert_eq!(all, vec![r1, r2]);
    let opts = TopViewOptions::default();
    assert!(opts.sort_desc);
    assert!(!opts.hide_idle);
}

#[test]
fn normalize_host_without_port() {
    assert_eq!(normalize_host("localhost"), "localhost");
    assert_eq!(normalize_host("a:b:c"), "a");
    assert_eq!(normalize_host(""), "");
}

#[test]
fn hiding_idle_threads_also_hides_binlog_dump() {
    let rows = vec![row(1, "repl", "Binlog Dump", 5), row(2, "a", "Query", 1), row(3, "b", "Sleep", 2)];
    let shown = prepare_top_rows(&rows, &Filters::default(), TopViewOptions { sort_desc: true, hide_idle: true });
    assert_eq!(shown.iter().map(|r| r.id).collect::<Vec<_>>(), vec![2]);
    let all = prepare_top_rows(&rows, &Filters::default(), TopViewOptions { sort_desc: true, hide_idle: false });
    assert_eq!(all.iter().map(|r| r.id).collect::<Vec<_>>(), vec![1, 3, 2]);
}
