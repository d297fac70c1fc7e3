use mytop_tui::commands::CommandFeedback;
use mytop_tui::filters::{Filters, StringOrRegex};
use mytop_tui::interactive::{
    InteractiveState, PromptMode, handle_keypress, run_cycles, run_key_sequence, submit_prompt,
};
use mytop_tui::loop_modes::Mode;

#[test]
fn batchmode_processes_only_one_cycle() {
    let state = run_key_sequence(true, &['m', 'c']);
    assert_eq!(state.mode, Mode::Qps);
}

#[test]
fn keybinding_matrix_switches_modes_and_quits() {
    let mut state = InteractiveState::default();
    handle_keypress(&mut state, 'c');
    assert_eq!(state.mode, Mode::Cmd);
    handle_keypress(&mut state, 'I');
    assert_eq!(state.mode, Mode::Innodb);
    handle_keypress(&mut state, 'S');
    assert_eq!(state.mode, Mode::Status);
    handle_keypress(&mut state, 'q');
    assert!(!state.running);
}

#[test]
fn prompt_modes_handle_commands_and_validation_feedback() {
    let mut state = InteractiveState::default();

    handle_keypress(&mut state, 'k');
    let msg = submit_prompt(&mut state, "not-a-number");
    assert_eq!(
        msg,
        Some(CommandFeedback::Error("*** Invalid id. ***".to_string()))
    );

    handle_keypress(&mut state, 'e');
    let msg = submit_prompt(&mut state, "42");
    assert_eq!(
        msg,
        Some(CommandFeedback::Success("explain thread=42".to_string()))
    );
}

#[test]
fn prompt_modes_update_filters_delay_and_sort() {
    let mut state = InteractiveState::default();

    handle_keypress(&mut state, 'u');
    let _ = submit_prompt(&mut state, "/report/");
    assert_eq!(state.filters.user, StringOrRegex::Pattern("report".into()));

    handle_keypress(&mut state, 'd');
    let _ = submit_prompt(&mut state, "analytics");
    assert_eq!(state.filters.db, StringOrRegex::Exact("analytics".into()));

    handle_keypress(&mut state, 's');
    let _ = submit_prompt(&mut state, "0");
    assert_eq!(state.delay_secs, 1);

    handle_keypress(&mut state, 'o');
    let _ = submit_prompt(&mut state, "asc");
    assert!(!state.sort_desc);

    handle_keypress(&mut state, 'r');
    let _ = submit_prompt(&mut state, "filters");
    assert_eq!(state.filters, Filters::default());
}

#[test]
fn submit_without_prompt_does_nothing() {
    let mut state = InteractiveState::default();
    let before = state.clone();
    assert_eq!(submit_prompt(&mut state, "42"), None);
    assert_eq!(state, before);
}

#[test]
fn submit_records_feedback_and_closes_prompt() {
    let mut state = InteractiveState::default();
    handle_keypress(&mut state, 's');
    assert_eq!(state.prompt, Some(PromptMode::SetDelay));
    let fb = submit_prompt(&mut state, "7");
    assert_eq!(fb, Some(CommandFeedback::Success("delay=7".to_string())));
    assert_eq!(state.prompt, None);
    assert_eq!(state.last_feedback, Some("delay=7".to_string()));
    assert_eq!(state.delay_secs, 7);

    handle_keypress(&mut state, 'o');
    let fb = submit_prompt(&mut state, "sideways");
    assert_eq!(
        fb,
        Some(CommandFeedback::Error("*** Invalid sort. Use asc|desc. ***".to_string()))
    );
    assert!(state.sort_desc);

    handle_keypress(&mut state, 'h');
    let fb = submit_prompt(&mut state, "db01");
    assert_eq!(fb, Some(CommandFeedback::Success("filter=host updated".to_string())));
    assert_eq!(state.filters.host, StringOrRegex::Exact("db01".into()));

    handle_keypress(&mut state, 'r');
    let fb = submit_prompt(&mut state, "later");
    assert_eq!(
        fb,
        Some(CommandFeedback::Error("*** Invalid reset. Use filters. ***".to_string()))
    );
    assert_eq!(state.filters.host, StringOrRegex::Exact("db01".into()));
}

#[test]
fn session_stops_reading_after_quit() {
    let state = run_key_sequence(false, &['m', 'q', 'c']);
    assert_eq!(state.mode, Mode::Qps);
    assert!(!state.running);
    assert_eq!(run_cycles(true), 1);
    assert_eq!(run_cycles(false), usize::MAX);
    let state = run_key_sequence(false, &['x', 'k']);
    assert_eq!(state.mode, Mode::Top);
    assert_eq!(state.prompt, Some(PromptMode::KillThread));
}

#[test]
fn f_key_resets_all_filters() {
    let mut s = InteractiveState::default();
    s.filters.user = StringOrRegex::Exact("x".into());
    s.filters.db = StringOrRegex::Exact("y".into());
    s.filters.host = StringOrRegex::Exact("z".into());
    handle_keypress(&mut s, 'F');
    assert_eq!(s.filters, Filters::default());
    assert!(s.running);
    assert_eq!(s.mode, Mode::Top);
    assert!(s.prompt.is_none());
}
