use mytop_tui::filters::{Filters, StringOrRegex, pattern_outcome};

#[test]
fn parse_rules_are_applied() {
    assert_eq!(StringOrRegex::parse(""), StringOrRegex::MatchAll);
    assert_eq!(
        StringOrRegex::parse("alice"),
        StringOrRegex::Exact("alice".into())
    );
    assert_eq!(
        StringOrRegex::parse("/report/"),
        StringOrRegex::Pattern("report".into())
    );
}

#[test]
fn regex_pattern_matching_is_supported() {
    let p = StringOrRegex::parse("/^ali.*e$/");
    assert!(p.matches("alice"));
    assert!(!p.matches("alix"));
}

#[test]
fn invalid_regex_pattern_does_not_match() {
    let p = StringOrRegex::Pattern("[".into());
    assert!(!p.matches("alice"));
}

#[test]
fn reset_sets_match_all() {
    let mut f = Filters {
        user: StringOrRegex::Exact("x".into()),
        db: StringOrRegex::Exact("y".into()),
        host: StringOrRegex::Exact("z".into()),
    };
    f.reset();
    assert_eq!(f, Filters::default());
}

#[test]
fn parse_edge_cases() {
    assert_eq!(StringOrRegex::parse("   "), StringOrRegex::MatchAll);
    assert_eq!(StringOrRegex::parse("/"), StringOrRegex::Exact("/".into()));
    assert_eq!(StringOrRegex::parse("//"), StringOrRegex::Pattern("".into()));
    assert_eq!(StringOrRegex::parse("  bob  "), StringOrRegex::Exact("bob".into()));
}

#[test]
fn exact_and_match_all_filters() {
    assert!(StringOrRegex::MatchAll.matches("anything"));
    assert!(StringOrRegex::Exact("app".into()).matches("app"));
    assert!(!StringOrRegex::Exact("app".into()).matches("app2"));
}

#[test]
fn pattern_outcome_only_accepts_a_found_match() {
    assert!(pattern_outcome(Some(true)));
    assert!(!pattern_outcome(Some(false)));
    assert!(!pattern_outcome(None));
}

#[test]
fn regex_search_is_unanchored() {
    let p = StringOrRegex::parse("/ali/");
    assert!(p.matches("alice"));
    assert!(p.matches("kali"));
    assert!(!p.matches("bob"));
}
