use mytop_tui::help::{pod_sections, print_help};

#[test]
fn help_contains_core_shortcuts_and_url() {
    let h = print_help(false);
    assert!(h.contains("[t]"));
    assert!(h.contains("[q]"));
    assert!(h.contains("mytop"));
}

#[test]
fn pod_sections_exposed() {
    let p = pod_sections();
    assert!(p.contains(&"Synopsis"));
    assert!(p.contains(&"Arguments"));
}

#[test]
fn help_text_exact() {
    assert_eq!(
        print_help(false),
        "mytop shortcuts\n[t] top  [m] qps  [c] cmd  [I] innodb  [S] status  [q] quit\nhttps://jeremy.zawodny.com/mysql/mytop/"
    );
    assert!(print_help(true).starts_with("\u{001b}[32mmytop shortcuts\u{001b}[0m\n"));
    assert_eq!(
        pod_sections(),
        vec!["Synopsis", "Requirements", "Platforms", "Display", "Arguments"]
    );
}
