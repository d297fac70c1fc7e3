use mytop_tui::output::{render_status_view, render_top_table};
use mytop_tui::top_view::ThreadRow;

#[test]
fn snapshot_top_table() {
    let actual = render_top_table(
        &[ThreadRow {
            id: 1,
            user: "alice".into(),
            db: Some("app".into()),
            host: "db01:3306".into(),
            command: "Query".into(),
            time: 2,
        }],
        false,
    );
    let expected = "Id | User | DB | Host | Command | Time\n1 | alice | app | db01 | Query | 2";
    assert_eq!(actual, expected);
}

#[test]
fn snapshot_status_view() {
    let actual = render_status_view(&[("Threads_running".into(), 10, 1)]);
    let expected = "Status Summary\nName | Total | Delta\nThreads_running | 10 | 1";
    assert_eq!(actual, expected);
}
