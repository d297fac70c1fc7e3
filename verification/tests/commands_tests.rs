use mytop_tui::commands::{
    CommandFeedback, parse_explain_command, parse_filter_value, parse_kill_command,
    parse_reset_command, parse_sort_order, parse_thread_id, plan_kill_thread, plan_kill_user,
    set_delay_secs,
};
use mytop_tui::filters::StringOrRegex;

#[test]
fn invalid_thread_id_returns_user_feedback() {
    assert_eq!(
        parse_thread_id("abc"),
        CommandFeedback::Error("*** Invalid id. ***".to_string())
    );
    assert_eq!(
        parse_thread_id("42"),
        CommandFeedback::Success("thread=42".to_string())
    );
}

#[test]
fn commands_delay_has_minimum_of_one() {
    assert_eq!(set_delay_secs("0"), 1);
    assert_eq!(set_delay_secs("3"), 3);
}

#[test]
fn kill_and_explain_use_thread_validation() {
    assert_eq!(
        parse_kill_command("7"),
        CommandFeedback::Success("kill thread=7".to_string())
    );
    assert_eq!(
        parse_explain_command("7"),
        CommandFeedback::Success("explain thread=7".to_string())
    );
    assert_eq!(
        parse_kill_command("oops"),
        CommandFeedback::Error("*** Invalid id. ***".to_string())
    );
}

#[test]
fn kill_plans_require_confirmation_and_safety_guard() {
    assert_eq!(
        plan_kill_thread("8", false),
        CommandFeedback::Error("*** Confirmation required for KILL thread. ***".to_string())
    );
    assert_eq!(
        plan_kill_thread("8", true),
        CommandFeedback::Success("KILL 8".to_string())
    );

    assert_eq!(
        plan_kill_user("alice", false),
        CommandFeedback::Error("*** Confirmation required for KILL user. ***".to_string())
    );
    assert_eq!(
        plan_kill_user("root", true),
        CommandFeedback::Error("*** Refusing dangerous user kill. ***".to_string())
    );
    assert_eq!(
        plan_kill_user("alice", true),
        CommandFeedback::Success("KILL USER alice".to_string())
    );
}

#[test]
fn sort_input_is_validated() {
    assert_eq!(
        parse_sort_order("desc"),
        CommandFeedback::Success("sort=time_desc".to_string())
    );
    assert_eq!(
        parse_sort_order("asc"),
        CommandFeedback::Success("sort=time_asc".to_string())
    );
    assert_eq!(
        parse_sort_order("random"),
        CommandFeedback::Error("*** Invalid sort. Use asc|desc. ***".to_string())
    );
}

#[test]
fn thread_ids_are_trimmed_and_normalised() {
    assert_eq!(
        parse_thread_id("  007 "),
        CommandFeedback::Success("thread=7".to_string())
    );
    assert_eq!(
        parse_thread_id("+5"),
        CommandFeedback::Success("thread=5".to_string())
    );
    assert_eq!(
        parse_thread_id("-5"),
        CommandFeedback::Error("*** Invalid id. ***".to_string())
    );
    assert_eq!(
        parse_thread_id("18446744073709551615"),
        CommandFeedback::Success("thread=18446744073709551615".to_string())
    );
    assert_eq!(
        parse_thread_id("18446744073709551616"),
        CommandFeedback::Error("*** Invalid id. ***".to_string())
    );
    assert_eq!(
        parse_thread_id(""),
        CommandFeedback::Error("*** Invalid id. ***".to_string())
    );
}

#[test]
fn kill_plan_uses_normalised_id() {
    assert_eq!(
        plan_kill_thread(" 0042 ", true),
        CommandFeedback::Success("KILL 42".to_string())
    );
    assert_eq!(
        plan_kill_thread("x", true),
        CommandFeedback::Error("*** Invalid id. ***".to_string())
    );
}

#[test]
fn kill_user_edge_cases() {
    assert_eq!(
        plan_kill_user("   ", true),
        CommandFeedback::Error("*** Invalid user. ***".to_string())
    );
    assert_eq!(
        plan_kill_user(" mysql.sys ", true),
        CommandFeedback::Error("*** Refusing dangerous user kill. ***".to_string())
    );
    assert_eq!(
        plan_kill_user("replication", true),
        CommandFeedback::Error("*** Refusing dangerous user kill. ***".to_string())
    );
    assert_eq!(
        plan_kill_user(" bob ", true),
        CommandFeedback::Success("KILL USER bob".to_string())
    );
}

#[test]
fn sort_accepts_long_forms_case_and_empty() {
    assert_eq!(
        parse_sort_order(" TIME_ASC "),
        CommandFeedback::Success("sort=time_asc".to_string())
    );
    assert_eq!(
        parse_sort_order("Time_Desc"),
        CommandFeedback::Success("sort=time_desc".to_string())
    );
    assert_eq!(
        parse_sort_order(""),
        CommandFeedback::Success("sort=time_desc".to_string())
    );
}

#[test]
fn delay_rejects_garbage_and_keeps_numbers() {
    assert_eq!(set_delay_secs("abc"), 1);
    assert_eq!(set_delay_secs(" 12 "), 12);
    assert_eq!(set_delay_secs("-3"), 1);
}

#[test]
fn filter_value_and_reset_prompt() {
    assert_eq!(parse_filter_value(" /a.b/ "), StringOrRegex::Pattern("a.b".to_string()));
    assert_eq!(
        parse_reset_command("filters"),
        CommandFeedback::Success("filters=reset".to_string())
    );
    assert_eq!(
        parse_reset_command(""),
        CommandFeedback::Success("filters=reset".to_string())
    );
    assert_eq!(
        parse_reset_command("nope"),
        CommandFeedback::Error("*** Invalid reset. Use filters. ***".to_string())
    );
}
