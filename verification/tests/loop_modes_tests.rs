use mytop_tui::loop_modes::{Key, Mode, parse_key, run_cycles, run_event_loop_with_keys, switch_mode};

#[test]
fn batchmode_runs_one_cycle() {
    assert_eq!(run_cycles(true), 1);
    assert_eq!(run_cycles(false), 2);
}

#[test]
fn mode_switch_keys_are_supported() {
    assert_eq!(switch_mode(Mode::Top, Key::Cmd), Some(Mode::Cmd));
    assert_eq!(switch_mode(Mode::Cmd, Key::Innodb), Some(Mode::Innodb));
    assert_eq!(switch_mode(Mode::Innodb, Key::Status), Some(Mode::Status));
}

#[test]
fn quit_exits_loop() {
    assert_eq!(switch_mode(Mode::Top, Key::Quit), None);
    assert_eq!(run_event_loop_with_keys(Mode::Top, false, &['m', 'q']), None);
}

#[test]
fn parse_key_maps_supported_shortcuts() {
    assert_eq!(parse_key('t'), Key::Top);
    assert_eq!(parse_key('m'), Key::Qps);
    assert_eq!(parse_key('x'), Key::Other);
}

#[test]
fn event_loop_batch_reads_first_key_only() {
    assert_eq!(run_event_loop_with_keys(Mode::Top, true, &['m', 'q']), Some(Mode::Qps));
    assert_eq!(run_event_loop_with_keys(Mode::Top, true, &['q', 'm']), None);
    assert_eq!(run_event_loop_with_keys(Mode::Cmd, true, &[]), Some(Mode::Cmd));
    assert_eq!(run_event_loop_with_keys(Mode::Top, false, &['c', 'x', 'S']), Some(Mode::Status));
}

#[test]
fn other_keys_keep_mode() {
    assert_eq!(switch_mode(Mode::Qps, Key::Other), Some(Mode::Qps));
    assert_eq!(parse_key('I'), Key::Innodb);
    assert_eq!(parse_key('S'), Key::Status);
    assert_eq!(parse_key('q'), Key::Quit);
    assert_eq!(parse_key('c'), Key::Cmd);
}
