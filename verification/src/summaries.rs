//! Summaries of status counters: the growth of `Questions`, the per-command counters
//! (`Com_*`) and the other status counters.
use vstd::prelude::*;
use crate::data::{count_of, count_or_zero, saturating_diff};
use crate::sorted_map::SortedMap;
use crate::text::{has_prefix, starts_with, strip_prefixes, trim_start_matches, push_char};

verus! {

/// How many questions arrived between two readings of `Questions`; never negative.
pub fn get_qps(previous: u64, current: u64) -> (r: u64)
    ensures
        r == saturating_diff(current, previous),
{
    if current >= previous {
        current - previous
    } else {
        0
    }
}

/// Whether a status counter counts a command.
pub open spec fn is_command_counter(name: Seq<char>) -> bool {
    has_prefix(name, "Com_"@)
}

/// The rows of the status summary: each counter that does not count a command, in name order,
/// with its total and its growth since the previous reading.
pub open spec fn status_rows(previous: Map<Seq<char>, u64>, current: Seq<(Seq<char>, u64)>) -> Seq<
    (Seq<char>, u64, u64),
>
    decreases current.len(),
{
    if current.len() == 0 {
        Seq::empty()
    } else {
        let before = status_rows(previous, current.drop_last());
        let (k, v) = current.last();
        if is_command_counter(k) {
            before
        } else {
            before.push((k, v, saturating_diff(v, count_or_zero(previous, k))))
        }
    }
}

/// The views of summary rows.
pub open spec fn status_row_views(rows: Seq<(String, u64, u64)>) -> Seq<(Seq<char>, u64, u64)> {
    rows.map_values(|r: (String, u64, u64)| (r.0@, r.1, r.2))
}

/// The status summary: the counters other than `Com_*`, with totals and growth.
pub fn show_status(previous: &SortedMap<u64>, current: &SortedMap<u64>) -> (r: Vec<
    (String, u64, u64),
>)
    ensures
        status_row_views(r@) == status_rows(previous@, current.entries()),
{
    let n = current.len();
    let mut out: Vec<(String, u64, u64)> = Vec::new();
    let mut i: usize = 0;
    while i < n
        invariant
            n == current.entries().len(),
            i <= n,
            status_row_views(out@) == status_rows(previous@, current.entries().take(i as int)),
        decreases n - i,
    {
        let key = current.key_at(i);
        let cur = *current.value_at(i);
        proof {
            let pre = current.entries().take(i + 1);
            assert(pre.drop_last() == current.entries().take(i as int));
            assert(pre.last() == current.entries()[i as int]);
        }
        if !starts_with(key.as_str(), "Com_") {
            let prev = count_of(previous, key.as_str());
            let d = if cur >= prev {
                cur - prev
            } else {
                0
            };
            let ghost before = out@;
            out.push((key.clone(), cur, d));
            proof {
                assert(status_row_views(out@) == status_row_views(before).push((key@, cur, d)));
            }
        }
        i = i + 1;
    }
    proof {
        assert(current.entries().take(n as int) == current.entries());
    }
    out
}

/// The counts of one command: its name, its total and its growth since the previous reading.
#[derive(Debug, Clone, PartialEq, Eq)]
pub struct CommandCount {
    pub name: String,
    pub total: u64,
    pub delta: u64,
}

/// The display name of a command counter: without its `Com_` prefixes, underscores as spaces.
pub open spec fn command_name(counter: Seq<char>) -> Seq<char> {
    strip_prefixes(counter, "Com_"@).map_values(|c: char| underscore_to_space(c))
}

/// `_` shown as a space.
pub open spec fn underscore_to_space(c: char) -> char {
    if c == '_' {
        ' '
    } else {
        c
    }
}

/// The rows of the command summary, in counter name order.
pub open spec fn command_rows(previous: Map<Seq<char>, u64>, current: Seq<(Seq<char>, u64)>) -> Seq<
    (Seq<char>, u64, u64),
>
    decreases current.len(),
{
    if current.len() == 0 {
        Seq::empty()
    } else {
        let before = command_rows(previous, current.drop_last());
        let (k, v) = current.last();
        if is_command_counter(k) {
            before.push((command_name(k), v, saturating_diff(v, count_or_zero(previous, k))))
        } else {
            before
        }
    }
}

/// The views of command counts.
pub open spec fn command_count_views(rows: Seq<CommandCount>) -> Seq<(Seq<char>, u64, u64)> {
    rows.map_values(|r: CommandCount| (r.name@, r.total, r.delta))
}

fn display_name(counter: &str) -> (r: String)
    ensures
        r@ == command_name(counter@),
{
    proof {
        reveal_strlit("Com_");
    }
    let bare = trim_start_matches(counter, "Com_");
    let n = bare.unicode_len();
    let mut out = String::new();
    let mut i: usize = 0;
    while i < n
        invariant
            n == bare@.len(),
            i <= n,
            out@ == bare@.take(i as int).map_values(|c: char| underscore_to_space(c)),
        decreases n - i,
    {
        let c = bare.get_char(i);
        let mapped = if c == '_' {
            ' '
        } else {
            c
        };
        push_char(&mut out, mapped);
        proof {
            let f = |c: char| underscore_to_space(c);
            assert(bare@.take(i + 1) =~= bare@.take(i as int).push(c));
            assert(bare@.take(i + 1).map_values(f) =~= bare@.take(i as int).map_values(f).push(mapped));
        }
        i = i + 1;
    }
    proof {
        assert(bare@.take(n as int) == bare@);
    }
    out
}

/// The command summary's counts: each `Com_*` counter in name order, with its display name,
/// its total and its growth since the previous reading.
pub fn command_counts(previous: &SortedMap<u64>, current: &SortedMap<u64>) -> (r: Vec<CommandCount>)
    ensures
        command_count_views(r@) == command_rows(previous@, current.entries()),
{
    let n = current.len();
    let mut out: Vec<CommandCount> = Vec::new();
    let mut i: usize = 0;
    while i < n
        invariant
            n == current.entries().len(),
            i <= n,
            command_count_views(out@) == command_rows(previous@, current.entries().take(i as int)),
        decreases n - i,
    {
        let key = current.key_at(i);
        let cur = *current.value_at(i);
        proof {
            let pre = current.entries().take(i + 1);
            assert(pre.drop_last() == current.entries().take(i as int));
            assert(pre.last() == current.entries()[i as int]);
        }
        if starts_with(key.as_str(), "Com_") {
            let prev = count_of(previous, key.as_str());
            let d = if cur >= prev {
                cur - prev
            } else {
                0
            };
            let ghost before = out@;
            let name = display_name(key.as_str());
            out.push(CommandCount { name, total: cur, delta: d });
            proof {
                assert(command_count_views(out@) == command_count_views(before).push(
                    (command_name(key@), cur, d),
                ));
            }
        }
        i = i + 1;
    }
    proof {
        assert(current.entries().take(n as int) == current.entries());
    }
    out
}

/// The sum of the `Com_*` counts among a sequence of entries.
pub open spec fn counts_sum(s: Seq<(Seq<char>, u64)>) -> nat
    decreases s.len(),
{
    if s.len() == 0 {
        0
    } else if is_command_counter(s.last().0) {
        counts_sum(s.drop_last()) + s.last().1 as nat
    } else {
        counts_sum(s.drop_last())
    }
}

/// The sum of the `Com_*` counters, the whole that the command summary's shares are taken of,
/// or `None` where it does not fit in a `u64`.
pub fn total_count(current: &SortedMap<u64>) -> (r: Option<u64>)
    ensures
        match r {
            Some(t) => t == counts_sum(current.entries()),
            None => counts_sum(current.entries()) > u64::MAX,
        },
{
    let n = current.len();
    let mut total: u64 = 0;
    let mut i: usize = 0;
    while i < n
        invariant
            n == current.entries().len(),
            i <= n,
            total == counts_sum(current.entries().take(i as int)),
        decreases n - i,
    {
        let v = if starts_with(current.key_at(i).as_str(), "Com_") {
            *current.value_at(i)
        } else {
            0
        };
        proof {
            let pre = current.entries().take(i + 1);
            assert(pre.drop_last() == current.entries().take(i as int));
            assert(pre.last() == current.entries()[i as int]);
        }
        if v > u64::MAX - total {
            proof {
                lemma_counts_sum_grows(current.entries(), i as int + 1);
            }
            return None;
        }
        total = total + v;
        i = i + 1;
    }
    proof {
        assert(current.entries().take(n as int) == current.entries());
    }
    Some(total)
}

proof fn lemma_counts_sum_grows(s: Seq<(Seq<char>, u64)>, i: int)
    requires
        0 <= i <= s.len(),
    ensures
        counts_sum(s.take(i)) <= counts_sum(s),
    decreases s.len() - i,
{
    if i < s.len() {
        lemma_counts_sum_grows(s, i + 1);
        let pre = s.take(i + 1);
        assert(pre.drop_last() == s.take(i));
    } else {
        assert(s.take(i) == s);
    }
}


/// Each counter appears in exactly one of the two summaries: the command summary takes the
/// `Com_*` counters and the status summary all others.
pub proof fn law_summaries_partition_counters(previous: Map<Seq<char>, u64>, current: Seq<(Seq<char>, u64)>)
    ensures
        status_rows(previous, current).len() + command_rows(previous, current).len() == current.len(),
    decreases current.len(),
{
    if current.len() > 0 {
        law_summaries_partition_counters(previous, current.drop_last());
    }
}

/// A command's display name is its counter's name without the leading `Com_`, with every `_`
/// shown as a space and every other character kept: it has the same length, holds no `_`, and
/// for a counter `Com_` followed by a name that does not itself start with `Com_`, it is that
/// name with its underscores turned into spaces.
pub proof fn law_command_names(counter: Seq<char>, rest: Seq<char>)
    ensures
        command_name(counter).len() == strip_prefixes(counter, "Com_"@).len(),
        forall|i: int|
            0 <= i < command_name(counter).len() ==> #[trigger] command_name(counter)[i] == (if strip_prefixes(
                counter,
                "Com_"@,
            )[i] == '_' {
                ' '
            } else {
                strip_prefixes(counter, "Com_"@)[i]
            }),
        !command_name(counter).contains('_'),
        !has_prefix(rest, "Com_"@) ==> strip_prefixes("Com_"@ + rest, "Com_"@) == rest,
{
    reveal_strlit("Com_");
    let name = command_name(counter);
    if name.contains('_') {
        let i = choose|i: int| 0 <= i < name.len() && name[i] == '_';
        assert(name[i] == underscore_to_space(strip_prefixes(counter, "Com_"@)[i]));
    }
    if !has_prefix(rest, "Com_"@) {
        let full = "Com_"@ + rest;
        assert(has_prefix(full, "Com_"@)) by {
            assert(full.subrange(0, 4) =~= "Com_"@);
        }
        assert(full.subrange(4, full.len() as int) =~= rest);
        assert(strip_prefixes(rest, "Com_"@) == rest);
        assert(strip_prefixes(full, "Com_"@) == strip_prefixes(rest, "Com_"@));
    }
}

} // verus!
