//! Commands typed at the prompt: thread ids for KILL and EXPLAIN, kill plans with their
//! confirmations and safety guard, sort order, refresh delay and filter reset.
use vstd::prelude::*;
use vstd::string::*;
use crate::filters::{StringOrRegex, filter_of};
use crate::text::{
    ascii_lower, decimal, has_prefix, is_digit, law_parse_reads_decimal, parse_u64, parse_unsigned, push_decimal, str_eq,
    strip_prefixes, to_ascii_lowercase, trim, trim_start_matches, trim_str,
};

verus! {

/// What a command answers: a result to act on, or a message for the user.
#[derive(Debug, Clone, PartialEq, Eq)]
pub enum CommandFeedback {
    Success(String),
    Error(String),
}

/// The mathematical value of a command's answer.
pub enum Feedback {
    Success(Seq<char>),
    Error(Seq<char>),
}

impl View for CommandFeedback {
    type V = Feedback;

    open spec fn view(&self) -> Feedback {
        match self {
            CommandFeedback::Success(s) => Feedback::Success(s@),
            CommandFeedback::Error(s) => Feedback::Error(s@),
        }
    }
}

/// The thread id in an input: the trimmed input read as a `u64`.
pub open spec fn thread_id_of(input: Seq<char>) -> Option<nat> {
    parse_unsigned(trim(input), u64::MAX as nat)
}

pub open spec fn invalid_id_message() -> Seq<char> {
    "*** Invalid id. ***"@
}

/// The answer to a thread id prompt.
pub open spec fn thread_feedback(input: Seq<char>) -> Feedback {
    match thread_id_of(input) {
        Some(id) => Feedback::Success("thread="@ + decimal(id)),
        None => Feedback::Error(invalid_id_message()),
    }
}

/// A successful answer with `prefix` put in front; a failure unchanged.
pub open spec fn prefixed(prefix: Seq<char>, f: Feedback) -> Feedback {
    match f {
        Feedback::Success(s) => Feedback::Success(prefix + s),
        Feedback::Error(e) => Feedback::Error(e),
    }
}

fn error_feedback(message: &str) -> (r: CommandFeedback)
    ensures
        r@ == Feedback::Error(message@),
{
    CommandFeedback::Error(String::from_str(message))
}

/// Reads a thread id.
pub fn parse_thread_id(input: &str) -> (r: CommandFeedback)
    ensures
        r@ == thread_feedback(input@),
{
    match parse_u64(trim_str(input)) {
        Some(id) => {
            let mut s = String::from_str("thread=");
            push_decimal(&mut s, id);
            CommandFeedback::Success(s)
        },
        None => error_feedback("*** Invalid id. ***"),
    }
}

fn prefix_feedback(prefix: &str, f: CommandFeedback) -> (r: CommandFeedback)
    ensures
        r@ == prefixed(prefix@, f@),
{
    match f {
        CommandFeedback::Success(thread) => {
            let mut s = String::from_str(prefix);
            s.append(thread.as_str());
            CommandFeedback::Success(s)
        },
        CommandFeedback::Error(err) => CommandFeedback::Error(err),
    }
}

/// The KILL command for a thread id typed at the prompt.
pub fn parse_kill_command(input: &str) -> (r: CommandFeedback)
    ensures
        r@ == prefixed("kill "@, thread_feedback(input@)),
{
    prefix_feedback("kill ", parse_thread_id(input))
}

/// The EXPLAIN command for a thread id typed at the prompt.
pub fn parse_explain_command(input: &str) -> (r: CommandFeedback)
    ensures
        r@ == prefixed("explain "@, thread_feedback(input@)),
{
    prefix_feedback("explain ", parse_thread_id(input))
}

/// The plan for killing one thread.
pub open spec fn kill_thread_plan(input: Seq<char>, confirmed: bool) -> Feedback {
    match thread_id_of(input) {
        Some(id) => if confirmed {
            Feedback::Success("KILL "@ + decimal(id))
        } else {
            Feedback::Error("*** Confirmation required for KILL thread. ***"@)
        },
        None => Feedback::Error(invalid_id_message()),
    }
}

proof fn lemma_decimal_starts_with_digit(n: nat)
    ensures
        decimal(n).len() > 0,
        is_digit(decimal(n)[0]),
    decreases n,
{
    if n >= 10 {
        lemma_decimal_starts_with_digit(n / 10);
    }
}

/// Plans `KILL <id>` for a thread id typed at the prompt; the kill needs confirmation.
pub fn plan_kill_thread(input: &str, confirmed: bool) -> (r: CommandFeedback)
    ensures
        r@ == kill_thread_plan(input@, confirmed),
{
    match parse_thread_id(input) {
        CommandFeedback::Success(thread) => {
            if confirmed {
                proof {
                    reveal_strlit("thread=");
                }
                let id = trim_start_matches(thread.as_str(), "thread=");
                proof {
                    let n = thread_id_of(input@).unwrap();
                    let d = decimal(n);
                    let p = "thread="@;
                    lemma_decimal_starts_with_digit(n);
                    assert(thread@ == p + d);
                    assert(thread@.subrange(0, p.len() as int) == p);
                    assert(thread@.subrange(p.len() as int, thread@.len() as int) == d);
                    assert(!has_prefix(d, p)) by {
                        if has_prefix(d, p) {
                            assert(d.subrange(0, p.len() as int)[0] == d[0]);
                        }
                    }
                    assert(strip_prefixes(d, p) == d);
                }
                let mut s = String::from_str("KILL ");
                s.append(id);
                CommandFeedback::Success(s)
            } else {
                error_feedback("*** Confirmation required for KILL thread. ***")
            }
        },
        CommandFeedback::Error(err) => CommandFeedback::Error(err),
    }
}

/// Users whose threads are never killed.
pub open spec fn is_protected_user(user: Seq<char>) -> bool {
    user == "root"@ || user == "mysql.sys"@ || user == "replication"@
}

/// The plan for killing all threads of a user.
pub open spec fn kill_user_plan(user: Seq<char>, confirmed: bool) -> Feedback {
    let u = trim(user);
    if u.len() == 0 {
        Feedback::Error("*** Invalid user. ***"@)
    } else if !confirmed {
        Feedback::Error("*** Confirmation required for KILL user. ***"@)
    } else if is_protected_user(u) {
        Feedback::Error("*** Refusing dangerous user kill. ***"@)
    } else {
        Feedback::Success("KILL USER "@ + u)
    }
}

/// Plans `KILL USER <user>`; it needs confirmation and refuses the server's own accounts.
pub fn plan_kill_user(user: &str, confirmed: bool) -> (r: CommandFeedback)
    ensures
        r@ == kill_user_plan(user@, confirmed),
{
    let user = trim_str(user);
    if user.unicode_len() == 0 {
        return error_feedback("*** Invalid user. ***");
    }
    if !confirmed {
        return error_feedback("*** Confirmation required for KILL user. ***");
    }
    if str_eq(user, "root") || str_eq(user, "mysql.sys") || str_eq(user, "replication") {
        return error_feedback("*** Refusing dangerous user kill. ***");
    }
    let mut s = String::from_str("KILL USER ");
    s.append(user);
    CommandFeedback::Success(s)
}

/// Reads a filter typed at the prompt.
pub fn parse_filter_value(input: &str) -> (r: StringOrRegex)
    ensures
        r@ == filter_of(input@),
{
    StringOrRegex::parse(input)
}

/// The answer to a sort order prompt.
pub open spec fn sort_feedback(input: Seq<char>) -> Feedback {
    let s = ascii_lower(trim(input));
    if s == "asc"@ || s == "time_asc"@ {
        Feedback::Success("sort=time_asc"@)
    } else if s == "desc"@ || s == "time_desc"@ || s.len() == 0 {
        Feedback::Success("sort=time_desc"@)
    } else {
        Feedback::Error("*** Invalid sort. Use asc|desc. ***"@)
    }
}

/// Reads a sort order; an empty answer keeps the default, newest first.
pub fn parse_sort_order(input: &str) -> (r: CommandFeedback)
    ensures
        r@ == sort_feedback(input@),
{
    let lower = to_ascii_lowercase(trim_str(input));
    let s = lower.as_str();
    if str_eq(s, "asc") || str_eq(s, "time_asc") {
        CommandFeedback::Success(String::from_str("sort=time_asc"))
    } else if str_eq(s, "desc") || str_eq(s, "time_desc") || s.unicode_len() == 0 {
        CommandFeedback::Success(String::from_str("sort=time_desc"))
    } else {
        error_feedback("*** Invalid sort. Use asc|desc. ***")
    }
}

/// The refresh delay an input asks for: its number, or 1 when it is no number; never below 1.
pub open spec fn delay_of(input: Seq<char>) -> nat {
    match parse_unsigned(trim(input), u64::MAX as nat) {
        Some(v) => if v >= 1 {
            v
        } else {
            1
        },
        None => 1,
    }
}

/// Reads the refresh delay in seconds.
pub fn set_delay_secs(input: &str) -> (r: u64)
    ensures
        r == delay_of(input@),
        r >= 1,
{
    match parse_u64(trim_str(input)) {
        Some(v) => if v >= 1 {
            v
        } else {
            1
        },
        None => 1,
    }
}

/// The answer to the filter reset prompt: an empty answer or `filters` (in any case) confirms.
pub open spec fn reset_feedback(input: Seq<char>) -> Feedback {
    let s = ascii_lower(trim(input));
    if s.len() == 0 || s == "filters"@ {
        Feedback::Success("filters=reset"@)
    } else {
        Feedback::Error("*** Invalid reset. Use filters. ***"@)
    }
}

/// Reads the confirmation of a filter reset.
pub fn parse_reset_command(input: &str) -> (r: CommandFeedback)
    ensures
        r@ == reset_feedback(input@),
{
    let lower = to_ascii_lowercase(trim_str(input));
    let s = lower.as_str();
    if s.unicode_len() == 0 || str_eq(s, "filters") {
        CommandFeedback::Success(String::from_str("filters=reset"))
    } else {
        error_feedback("*** Invalid reset. Use filters. ***")
    }
}


/// KILL and EXPLAIN of a thread, and the KILL plan, accept exactly the inputs that hold a valid
/// thread id.
pub proof fn law_thread_commands_share_validation(input: Seq<char>)
    ensures
        (prefixed("kill "@, thread_feedback(input)) is Success) == (thread_id_of(input) is Some),
        (prefixed("explain "@, thread_feedback(input)) is Success) == (thread_id_of(input) is Some),
        (kill_thread_plan(input, true) is Success) == (thread_id_of(input) is Some),
{
}

/// The id of a thread reads back from its decimal rendering, so every `u64` id is accepted
/// and echoed unchanged.
pub proof fn law_thread_id_round_trip(id: u64)
    ensures
        thread_feedback(decimal(id as nat)) == Feedback::Success("thread="@ + decimal(id as nat)),
        kill_thread_plan(decimal(id as nat), true) == Feedback::Success("KILL "@ + decimal(id as nat)),
{
    law_parse_reads_decimal(id as nat, u64::MAX as nat);
}

/// No kill happens without confirmation.
pub proof fn law_kills_need_confirmation(input: Seq<char>, user: Seq<char>)
    ensures
        kill_thread_plan(input, false) is Error,
        kill_user_plan(user, false) is Error,
{
}

/// The server's own accounts are never killed.
pub proof fn law_protected_users_are_refused(user: Seq<char>, confirmed: bool)
    requires
        is_protected_user(trim(user)),
    ensures
        kill_user_plan(user, confirmed) is Error,
{
}

/// The refresh delay is always at least one second.
pub proof fn law_delay_is_positive(input: Seq<char>)
    ensures
        delay_of(input) >= 1,
{
}

} // verus!
