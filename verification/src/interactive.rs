//! The interactive session: keys switch modes or open prompts, and a submitted prompt runs its
//! command and updates filters, delay and sort order.
use vstd::prelude::*;
use vstd::string::*;
use crate::commands::{
    CommandFeedback, Feedback, delay_of, parse_explain_command, parse_filter_value,
    parse_kill_command, parse_reset_command, parse_sort_order, prefixed, reset_feedback,
    set_delay_secs, sort_feedback, thread_feedback,
};
use crate::filters::{FilterSpec, Filters, filter_of, match_all_filters};
use crate::loop_modes::Mode;
use crate::text::{decimal, push_decimal};

verus! {

/// A question the session is waiting to have answered.
#[derive(Debug, Clone, Copy, PartialEq, Eq, Structural)]
pub enum PromptMode {
    KillThread,
    ExplainThread,
    FilterUser,
    FilterDb,
    FilterHost,
    SetDelay,
    SetSort,
    ResetFilters,
}

/// The state of an interactive session.
#[derive(Debug, Clone, PartialEq, Eq)]
pub struct InteractiveState {
    pub mode: Mode,
    pub prompt: Option<PromptMode>,
    pub running: bool,
    pub delay_secs: u64,
    pub sort_desc: bool,
    pub filters: Filters,
    pub last_feedback: Option<String>,
}

/// The state a session starts in.
pub open spec fn initial_state() -> InteractiveState {
    InteractiveState {
        mode: Mode::Top,
        prompt: None,
        running: true,
        delay_secs: 5,
        sort_desc: true,
        filters: match_all_filters(),
        last_feedback: None,
    }
}

impl Default for InteractiveState {
    fn default() -> (r: Self)
        ensures
            r == initial_state(),
    {
        InteractiveState {
            mode: Mode::Top,
            prompt: None,
            running: true,
            delay_secs: 5,
            sort_desc: true,
            filters: Filters::default(),
            last_feedback: None,
        }
    }
}

/// The mode a key selects, if it selects one.
pub open spec fn key_mode(key: char) -> Option<Mode> {
    if key == 't' {
        Some(Mode::Top)
    } else if key == 'm' {
        Some(Mode::Qps)
    } else if key == 'c' {
        Some(Mode::Cmd)
    } else if key == 'I' {
        Some(Mode::Innodb)
    } else if key == 'S' {
        Some(Mode::Status)
    } else {
        None
    }
}

/// The prompt a key opens, if it opens one.
pub open spec fn key_prompt(key: char) -> Option<PromptMode> {
    if key == 'k' {
        Some(PromptMode::KillThread)
    } else if key == 'e' {
        Some(PromptMode::ExplainThread)
    } else if key == 'u' {
        Some(PromptMode::FilterUser)
    } else if key == 'd' {
        Some(PromptMode::FilterDb)
    } else if key == 'h' {
        Some(PromptMode::FilterHost)
    } else if key == 's' {
        Some(PromptMode::SetDelay)
    } else if key == 'o' {
        Some(PromptMode::SetSort)
    } else if key == 'r' {
        Some(PromptMode::ResetFilters)
    } else {
        None
    }
}

/// The state after a key: a mode key switches the mode, `q` stops the session, `F` resets all
/// three filters to match everything, a prompt key opens its prompt, and any other key changes
/// nothing.
pub open spec fn after_key(s: InteractiveState, key: char) -> InteractiveState {
    if let Some(m) = key_mode(key) {
        InteractiveState { mode: m, ..s }
    } else if key == 'q' {
        InteractiveState { running: false, ..s }
    } else if key == 'F' {
        InteractiveState { filters: match_all_filters(), ..s }
    } else if let Some(p) = key_prompt(key) {
        InteractiveState { prompt: Some(p), ..s }
    } else {
        s
    }
}

/// Applies one key press.
pub fn handle_keypress(state: &mut InteractiveState, key: char)
    ensures
        *final(state) == after_key(*old(state), key),
{
    match key {
        't' => state.mode = Mode::Top,
        'm' => state.mode = Mode::Qps,
        'c' => state.mode = Mode::Cmd,
        'I' => state.mode = Mode::Innodb,
        'S' => state.mode = Mode::Status,
        'q' => state.running = false,
        'F' => state.filters = Filters::default(),
        'k' => state.prompt = Some(PromptMode::KillThread),
        'e' => state.prompt = Some(PromptMode::ExplainThread),
        'u' => state.prompt = Some(PromptMode::FilterUser),
        'd' => state.prompt = Some(PromptMode::FilterDb),
        'h' => state.prompt = Some(PromptMode::FilterHost),
        's' => state.prompt = Some(PromptMode::SetDelay),
        'o' => state.prompt = Some(PromptMode::SetSort),
        'r' => state.prompt = Some(PromptMode::ResetFilters),
        _ => {},
    }
}

/// The answer to `input` at prompt `p`.
pub open spec fn prompt_feedback(p: PromptMode, input: Seq<char>) -> Feedback {
    match p {
        PromptMode::KillThread => prefixed("kill "@, thread_feedback(input)),
        PromptMode::ExplainThread => prefixed("explain "@, thread_feedback(input)),
        PromptMode::FilterUser => Feedback::Success("filter=user updated"@),
        PromptMode::FilterDb => Feedback::Success("filter=db updated"@),
        PromptMode::FilterHost => Feedback::Success("filter=host updated"@),
        PromptMode::SetDelay => Feedback::Success("delay="@ + decimal(delay_of(input))),
        PromptMode::SetSort => sort_feedback(input),
        PromptMode::ResetFilters => reset_feedback(input),
    }
}

/// The message an answer shows.
pub open spec fn feedback_text(f: Feedback) -> Seq<char> {
    match f {
        Feedback::Success(m) => m,
        Feedback::Error(m) => m,
    }
}

/// What submitting `input` at prompt `p` does to the session's settings: the fields of `new`
/// against those of `old`, apart from the prompt and the last message.
pub open spec fn settings_after_prompt(
    old: InteractiveState,
    new: InteractiveState,
    p: PromptMode,
    input: Seq<char>,
) -> bool {
    &&& new.mode == old.mode
    &&& new.running == old.running
    &&& new.delay_secs == (if p == PromptMode::SetDelay {
        delay_of(input) as u64
    } else {
        old.delay_secs
    })
    &&& new.sort_desc == (if p == PromptMode::SetSort && sort_feedback(input) is Success {
        sort_feedback(input) == Feedback::Success("sort=time_desc"@)
    } else {
        old.sort_desc
    })
    &&& new.filters.user@ == (if p == PromptMode::FilterUser {
        filter_of(input)
    } else if p == PromptMode::ResetFilters && reset_feedback(input) is Success {
        FilterSpec::MatchAll
    } else {
        old.filters.user@
    })
    &&& new.filters.db@ == (if p == PromptMode::FilterDb {
        filter_of(input)
    } else if p == PromptMode::ResetFilters && reset_feedback(input) is Success {
        FilterSpec::MatchAll
    } else {
        old.filters.db@
    })
    &&& new.filters.host@ == (if p == PromptMode::FilterHost {
        filter_of(input)
    } else if p == PromptMode::ResetFilters && reset_feedback(input) is Success {
        FilterSpec::MatchAll
    } else {
        old.filters.host@
    })
}

/// Answers the open prompt with `input`: runs its command, applies what it sets, records the
/// message and closes the prompt. Without an open prompt nothing happens.
pub fn submit_prompt(state: &mut InteractiveState, input: &str) -> (r: Option<CommandFeedback>)
    ensures
        old(state).prompt is None ==> r is None && *final(state) == *old(state),
        old(state).prompt matches Some(p) ==> r matches Some(f) && f@ == prompt_feedback(p, input@),
        old(state).prompt is Some ==> final(state).prompt is None,
        old(state).prompt matches Some(p) ==> final(state).last_feedback matches Some(m) && m@
            == feedback_text(prompt_feedback(p, input@)),
        old(state).prompt matches Some(p) ==> settings_after_prompt(
            *old(state),
            *final(state),
            p,
            input@,
        ),
{
    let prompt = match state.prompt {
        Some(p) => p,
        None => return None,
    };
    let feedback = match prompt {
        PromptMode::KillThread => parse_kill_command(input),
        PromptMode::ExplainThread => parse_explain_command(input),
        PromptMode::FilterUser => {
            state.filters.user = parse_filter_value(input);
            CommandFeedback::Success(String::from_str("filter=user updated"))
        },
        PromptMode::FilterDb => {
            state.filters.db = parse_filter_value(input);
            CommandFeedback::Success(String::from_str("filter=db updated"))
        },
        PromptMode::FilterHost => {
            state.filters.host = parse_filter_value(input);
            CommandFeedback::Success(String::from_str("filter=host updated"))
        },
        PromptMode::SetDelay => {
            state.delay_secs = set_delay_secs(input);
            let mut msg = String::from_str("delay=");
            push_decimal(&mut msg, state.delay_secs);
            CommandFeedback::Success(msg)
        },
        PromptMode::SetSort => match parse_sort_order(input) {
            CommandFeedback::Success(v) => {
                proof {
                    reveal_strlit("sort=time_asc");
                    reveal_strlit("sort=time_desc");
                    assert("sort=time_asc"@.len() != "sort=time_desc"@.len());
                }
                state.sort_desc = !crate::text::str_eq(v.as_str(), "sort=time_asc");
                CommandFeedback::Success(v)
            },
            CommandFeedback::Error(e) => CommandFeedback::Error(e),
        },
        PromptMode::ResetFilters => match parse_reset_command(input) {
            CommandFeedback::Success(msg) => {
                state.filters.reset();
                CommandFeedback::Success(msg)
            },
            CommandFeedback::Error(err) => CommandFeedback::Error(err),
        },
    };
    let text = match &feedback {
        CommandFeedback::Success(msg) => msg.clone(),
        CommandFeedback::Error(msg) => msg.clone(),
    };
    state.last_feedback = Some(text);
    state.prompt = None;
    Some(feedback)
}

/// How many keys a session reads: one in batch mode, otherwise no limit.
pub fn run_cycles(batchmode: bool) -> (r: usize)
    ensures
        r == (if batchmode {
            1
        } else {
            usize::MAX
        }),
{
    if batchmode {
        1
    } else {
        usize::MAX
    }
}

/// The state after the keys in turn, stopping once the session is no longer running.
pub open spec fn after_keys(s: InteractiveState, keys: Seq<char>) -> InteractiveState
    decreases keys.len(),
{
    if keys.len() == 0 || !s.running {
        s
    } else {
        after_keys(after_key(s, keys[0]), keys.drop_first())
    }
}

/// The keys a session reads: in batch mode only the first.
pub open spec fn session_keys(batchmode: bool, keys: Seq<char>) -> Seq<char> {
    if batchmode && keys.len() > 1 {
        keys.take(1)
    } else {
        keys
    }
}

/// Runs a fresh session over `keys`, reading one key per cycle.
pub fn run_key_sequence(batchmode: bool, keys: &[char]) -> (r: InteractiveState)
    ensures
        r == after_keys(initial_state(), session_keys(batchmode, keys@)),
{
    let mut state = InteractiveState::default();
    let max_cycles = run_cycles(batchmode);
    let n = keys.len();
    let ghost read = session_keys(batchmode, keys@);
    let ghost limit: int = read.len() as int;
    proof {
        assert(read.skip(0) == read);
    }
    let mut idx: usize = 0;
    while idx < n
        invariant
            n == keys@.len(),
            read == session_keys(batchmode, keys@),
            limit == read.len(),
            max_cycles == (if batchmode {
                1
            } else {
                usize::MAX
            }),
            idx <= limit,
            forall|k: int| 0 <= k < limit ==> read[k] == keys@[k],
            limit == (if batchmode && n > 1 {
                1
            } else {
                n as int
            }),
            after_keys(initial_state(), read) == after_keys(state, read.skip(idx as int)),
        ensures
            after_keys(initial_state(), read) == state,
        decreases n - idx,
    {
        if idx >= max_cycles || !state.running {
            proof {
                assert(idx == limit || !state.running);
            }
            break;
        }
        proof {
            assert(read.skip(idx as int)[0] == keys@[idx as int]);
            assert(read.skip(idx as int).drop_first() == read.skip(idx + 1));
        }
        handle_keypress(&mut state, keys[idx]);
        idx = idx + 1;
    }
    state
}


/// A batch session applies only its first key.
pub proof fn law_batch_session_reads_one_key(keys: Seq<char>)
    requires
        keys.len() >= 1,
    ensures
        after_keys(initial_state(), session_keys(true, keys)) == after_key(initial_state(), keys[0]),
{
    let r = session_keys(true, keys);
    assert(r.len() == 1 && r[0] == keys[0]);
    assert(r.drop_first().len() == 0);
    assert(after_keys(after_key(initial_state(), keys[0]), r.drop_first()) == after_key(
        initial_state(),
        keys[0],
    ));
}

/// Once `q` has been pressed, further keys change nothing.
pub proof fn law_keys_after_quit_are_ignored(s: InteractiveState, keys: Seq<char>)
    requires
        !s.running,
    ensures
        after_keys(s, keys) == s,
{
}

/// Pressing `q` stops a running session, and mode keys never stop it.
pub proof fn law_quit_stops_session(s: InteractiveState, key: char)
    ensures
        key == 'q' ==> !after_key(s, key).running,
        key != 'q' ==> after_key(s, key).running == s.running,
{
}

/// `F` resets all three filters to match everything and leaves mode, prompt, delay, sort order
/// and the running flag as they were.
pub proof fn law_filter_reset_key(s: InteractiveState)
    ensures
        after_key(s, 'F').filters == match_all_filters(),
        after_key(s, 'F') == (InteractiveState { filters: match_all_filters(), ..s }),
{
}

/// The mode keys: `t` shows the top view, `m` queries per second, `c` the command summary, `I`
/// the InnoDB status and `S` the status summary, from any state; nothing but the mode changes.
pub proof fn law_mode_keys(s: InteractiveState)
    ensures
        after_key(s, 't') == (InteractiveState { mode: Mode::Top, ..s }),
        after_key(s, 'm') == (InteractiveState { mode: Mode::Qps, ..s }),
        after_key(s, 'c') == (InteractiveState { mode: Mode::Cmd, ..s }),
        after_key(s, 'I') == (InteractiveState { mode: Mode::Innodb, ..s }),
        after_key(s, 'S') == (InteractiveState { mode: Mode::Status, ..s }),
{
}

/// The prompt keys: `k` asks for a thread to kill, `e` for one to explain, `u`, `d` and `h` for
/// the user, database and host filters, `s` for the delay, `o` for the sort order and `r` for a
/// filter reset; nothing but the open prompt changes.
pub proof fn law_prompt_keys(s: InteractiveState)
    ensures
        after_key(s, 'k') == (InteractiveState { prompt: Some(PromptMode::KillThread), ..s }),
        after_key(s, 'e') == (InteractiveState { prompt: Some(PromptMode::ExplainThread), ..s }),
        after_key(s, 'u') == (InteractiveState { prompt: Some(PromptMode::FilterUser), ..s }),
        after_key(s, 'd') == (InteractiveState { prompt: Some(PromptMode::FilterDb), ..s }),
        after_key(s, 'h') == (InteractiveState { prompt: Some(PromptMode::FilterHost), ..s }),
        after_key(s, 's') == (InteractiveState { prompt: Some(PromptMode::SetDelay), ..s }),
        after_key(s, 'o') == (InteractiveState { prompt: Some(PromptMode::SetSort), ..s }),
        after_key(s, 'r') == (InteractiveState { prompt: Some(PromptMode::ResetFilters), ..s }),
{
}

/// Keys with no binding leave the state as it was.
pub proof fn law_unbound_keys_change_nothing(s: InteractiveState, key: char)
    requires
        key != 't' && key != 'm' && key != 'c' && key != 'I' && key != 'S' && key != 'q' && key
            != 'F',
        key != 'k' && key != 'e' && key != 'u' && key != 'd' && key != 'h' && key != 's' && key
            != 'o' && key != 'r',
    ensures
        after_key(s, key) == s,
{
}

} // verus!
