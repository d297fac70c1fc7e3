//! The thread list of the top view: host normalisation, filtering, hiding idle threads and a
//! stable ordering by running time.
use vstd::prelude::*;
use vstd::string::*;
use crate::filters::{Filters, filter_matches};
use crate::startup::{opt_view, or_empty};
use crate::text::{has_char, lemma_first_index, lemma_split_once_head, split_once, split_once_char, str_eq};

verus! {

/// One thread as the top view shows it.
#[derive(Debug, PartialEq, Eq)]
pub struct ThreadRow {
    pub id: u64,
    pub user: String,
    pub db: Option<String>,
    pub host: String,
    pub command: String,
    pub time: u64,
}

impl Clone for ThreadRow {
    fn clone(&self) -> (r: Self)
        ensures
            r == *self,
    {
        ThreadRow {
            id: self.id,
            user: self.user.clone(),
            db: match &self.db {
                Some(d) => Some(d.clone()),
                None => None,
            },
            host: self.host.clone(),
            command: self.command.clone(),
            time: self.time,
        }
    }
}

/// How the top view lists threads.
#[derive(Debug, Clone, Copy, PartialEq, Eq)]
pub struct TopViewOptions {
    pub sort_desc: bool,
    pub hide_idle: bool,
}

impl Default for TopViewOptions {
    fn default() -> (r: Self)
        ensures
            r.sort_desc,
            !r.hide_idle,
    {
        TopViewOptions { sort_desc: true, hide_idle: false }
    }
}

/// The host part of `host:port`; the whole text where there is no `:`.
pub open spec fn host_part(host: Seq<char>) -> Seq<char> {
    match split_once(host, ':') {
        Some((h, _)) => h,
        None => host,
    }
}

/// Drops the port from a `host:port` address.
pub fn normalize_host(host: &str) -> (r: String)
    ensures
        r@ == host_part(host@),
{
    match split_once_char(host, ':') {
        Some((h, _)) => String::from_str(h),
        None => String::from_str(host),
    }
}

/// `perm` puts `input` in order of running time, keeping the input order among equal times,
/// and `output` is `input` in that order.
pub open spec fn is_time_order(input: Seq<ThreadRow>, output: Seq<ThreadRow>, perm: Seq<int>) -> bool {
    &&& perm.len() == input.len()
    &&& output.len() == input.len()
    &&& forall|i: int| 0 <= i < perm.len() ==> 0 <= #[trigger] perm[i] < input.len()
    &&& forall|i: int| 0 <= i < perm.len() ==> #[trigger] output[i] == input[perm[i]]
    &&& forall|i: int, j: int| 0 <= i < j < perm.len() ==> #[trigger] perm[i] != #[trigger] perm[j]
    &&& forall|i: int, j: int|
        0 <= i < j < output.len() ==> (#[trigger] output[i]).time <= (#[trigger] output[j]).time
    &&& forall|i: int, j: int|
        0 <= i < j < perm.len() && input[perm[i]].time == input[perm[j]].time ==> #[trigger] perm[i]
            < #[trigger] perm[j]
}

/// `output` is `input` stably sorted by running time, shortest first.
pub open spec fn is_stable_time_sort(input: Seq<ThreadRow>, output: Seq<ThreadRow>) -> bool {
    exists|perm: Seq<int>| is_time_order(input, output, perm)
}

/// `output` is `input` ordered by running time as the top view orders it: a stable sort,
/// reversed where the longest-running threads come first.
pub open spec fn time_ordered(input: Seq<ThreadRow>, output: Seq<ThreadRow>, desc: bool) -> bool {
    exists|sorted: Seq<ThreadRow>|
        is_stable_time_sort(input, sorted) && output == (if desc {
            sorted.reverse()
        } else {
            sorted
        })
}

spec fn order_ok(rows: Seq<ThreadRow>, order: Seq<usize>, n: int) -> bool {
    &&& order.len() == n
    &&& forall|i: int| 0 <= i < order.len() ==> #[trigger] order[i] < n
    &&& forall|i: int, j: int| 0 <= i < j < order.len() ==> #[trigger] order[i] != #[trigger] order[j]
    &&& forall|i: int, j: int|
        0 <= i < j < order.len() ==> rows[#[trigger] order[i] as int].time <= rows[#[trigger] order[j] as int].time
    &&& forall|i: int, j: int|
        0 <= i < j < order.len() && rows[order[i] as int].time == rows[order[j] as int].time
            ==> #[trigger] order[i] < #[trigger] order[j]
}

/// The positions of `rows` in stable order of running time.
fn stable_time_order(rows: &[ThreadRow]) -> (order: Vec<usize>)
    ensures
        order_ok(rows@, order@, rows@.len() as int),
{
    let n = rows.len();
    let mut order: Vec<usize> = Vec::new();
    let mut i: usize = 0;
    while i < n
        invariant
            n == rows@.len(),
            i <= n,
            order_ok(rows@, order@, i as int),
        decreases n - i,
    {
        let t = rows[i].time;
        let mut p: usize = 0;
        while p < order.len() && rows[order[p]].time <= t
            invariant
                n == rows@.len(),
                i < n,
                order_ok(rows@, order@, i as int),
                t == rows@[i as int].time,
                p <= order@.len(),
                forall|q: int| 0 <= q < p ==> rows@[#[trigger] order@[q] as int].time <= t,
            decreases order@.len() - p,
        {
            p = p + 1;
        }
        let ghost old_order = order@;
        order.insert(p, i);
        proof {
            let o = order@;
            assert(o == old_order.insert(p as int, i));
            assert forall|a: int| 0 <= a < o.len() implies #[trigger] o[a] < i + 1 by {
                if a < p {
                    assert(o[a] == old_order[a]);
                } else if a > p {
                    assert(o[a] == old_order[a - 1]);
                }
            }
            assert forall|a: int, b: int| 0 <= a < b < o.len() implies #[trigger] o[a] != #[trigger] o[b] by {
                if a < p && b < p {
                    assert(old_order[a] != old_order[b]);
                } else if a < p && b == p {
                    assert(old_order[a] < i);
                } else if a < p && b > p {
                    assert(old_order[a] != old_order[b - 1]);
                } else if a == p {
                    assert(old_order[b - 1] < i);
                } else {
                    assert(old_order[a - 1] != old_order[b - 1]);
                }
            }
            assert forall|a: int, b: int| 0 <= a < b < o.len() implies rows@[#[trigger] o[a] as int].time
                <= rows@[#[trigger] o[b] as int].time by {
                if a < p && b < p {
                    assert(o[a] == old_order[a] && o[b] == old_order[b]);
                } else if a < p && b == p {
                    assert(o[a] == old_order[a]);
                } else if a < p && b > p {
                    assert(o[a] == old_order[a] && o[b] == old_order[b - 1]);
                } else if a == p {
                    assert(o[b] == old_order[b - 1]);
                    if p < old_order.len() && b - 1 > p {
                        assert(rows@[old_order[p as int] as int].time <= rows@[old_order[b - 1] as int].time);
                    }
                } else {
                    assert(o[a] == old_order[a - 1] && o[b] == old_order[b - 1]);
                }
            }
            assert forall|a: int, b: int|
                0 <= a < b < o.len() && rows@[o[a] as int].time == rows@[o[b] as int].time implies #[trigger] o[a]
                < #[trigger] o[b] by {
                if a < p && b < p {
                    assert(o[a] == old_order[a] && o[b] == old_order[b]);
                } else if a < p && b == p {
                    assert(o[a] == old_order[a]);
                } else if a < p && b > p {
                    assert(o[a] == old_order[a] && o[b] == old_order[b - 1]);
                    assert(rows@[old_order[a] as int].time <= t);
                    assert(rows@[old_order[p as int] as int].time > t);
                    if b - 1 > p {
                        assert(rows@[old_order[p as int] as int].time <= rows@[old_order[b - 1] as int].time);
                    }
                } else if a == p {
                    assert(o[b] == old_order[b - 1]);
                    assert(rows@[old_order[p as int] as int].time > t);
                    if b - 1 > p {
                        assert(rows@[old_order[p as int] as int].time <= rows@[old_order[b - 1] as int].time);
                    }
                } else {
                    assert(o[a] == old_order[a - 1] && o[b] == old_order[b - 1]);
                }
            }
        }
        i = i + 1;
    }
    order
}

/// Orders threads by running time, keeping their order among equal times; longest first where
/// `desc` is set (the stable order reversed).
pub fn sort_threads_by_time(rows: &mut [ThreadRow], desc: bool)
    ensures
        time_ordered(old(rows)@, final(rows)@, desc),
{
    let order = stable_time_order(rows);
    let n = rows.len();
    let mut sorted: Vec<ThreadRow> = Vec::new();
    let mut k: usize = 0;
    while k < n
        invariant
            n == rows@.len(),
            order_ok(rows@, order@, n as int),
            k <= n,
            sorted@.len() == k,
            forall|a: int| 0 <= a < k ==> #[trigger] sorted@[a] == rows@[order@[a] as int],
        decreases n - k,
    {
        sorted.push(rows[order[k]].clone());
        k = k + 1;
    }
    let ghost input = rows@;
    let ghost perm = order@.map_values(|x: usize| x as int);
    proof {
        assert(is_time_order(input, sorted@, perm));
        assert(is_stable_time_sort(input, sorted@));
    }
    let mut k: usize = 0;
    while k < n
        invariant
            n == rows@.len(),
            n == sorted@.len(),
            k <= n,
            forall|a: int| 0 <= a < k ==> #[trigger] rows@[a] == (if desc {
                sorted@.reverse()
            } else {
                sorted@
            })[a],
        decreases n - k,
    {
        if desc {
            rows[k] = sorted[n - 1 - k].clone();
        } else {
            rows[k] = sorted[k].clone();
        }
        k = k + 1;
    }
    proof {
        let out = if desc {
            sorted@.reverse()
        } else {
            sorted@
        };
        assert(rows@ == out);
    }
}

/// The database name as the filter sees it: empty where there is none.
pub open spec fn db_text(db: Option<String>) -> Seq<char> {
    or_empty(opt_view(db))
}

/// Whether a thread counts as idle for the top view: sleeping, or dumping the binary log to a
/// replica.
pub open spec fn is_idle_command(command: Seq<char>) -> bool {
    command == "Sleep"@ || command == "Binlog Dump"@
}

/// Whether the top view shows a thread.
pub open spec fn row_visible(r: ThreadRow, filters: Filters, hide_idle: bool) -> bool {
    &&& filter_matches(filters.user@, r.user@)
    &&& filter_matches(filters.host@, host_part(r.host@))
    &&& filter_matches(filters.db@, db_text(r.db))
    &&& !(hide_idle && is_idle_command(r.command@))
}

/// The threads the top view shows, in input order.
pub open spec fn visible_rows(rows: Seq<ThreadRow>, filters: Filters, hide_idle: bool) -> Seq<ThreadRow>
    decreases rows.len(),
{
    if rows.len() == 0 {
        Seq::empty()
    } else {
        let before = visible_rows(rows.drop_last(), filters, hide_idle);
        if row_visible(rows.last(), filters, hide_idle) {
            before.push(rows.last())
        } else {
            before
        }
    }
}

fn is_visible(row: &ThreadRow, filters: &Filters, hide_idle: bool) -> (r: bool)
    ensures
        r == row_visible(*row, *filters, hide_idle),
{
    let host = normalize_host(row.host.as_str());
    let db = match &row.db {
        Some(d) => d.as_str(),
        None => "",
    };
    proof {
        assert(db@ == db_text(row.db)) by {
            if row.db is None {
                reveal_strlit("");
            }
        }
    }
    filters.user.matches(row.user.as_str()) && filters.host.matches(host.as_str())
        && filters.db.matches(db) && !(hide_idle && (str_eq(row.command.as_str(), "Sleep")
        || str_eq(row.command.as_str(), "Binlog Dump")))
}

/// The threads of the top view: those that pass the filters (and, where idle threads are
/// hidden, are neither sleeping nor dumping the binary log), ordered by running time.
pub fn prepare_top_rows(rows: &[ThreadRow], filters: &Filters, opts: TopViewOptions) -> (r: Vec<
    ThreadRow,
>)
    ensures
        time_ordered(visible_rows(rows@, *filters, opts.hide_idle), r@, opts.sort_desc),
        forall|i: int|
            0 <= i < r@.len() ==> {
                let t = #[trigger] r@[i];
                let hide_idle = opts.hide_idle;
                filter_matches(filters.user@, t.user@)
            && filter_matches(filters.host@, host_part(t.host@))
            && filter_matches(
                filters.db@,
                match t.db {
                    Some(d) => d@,
                    None => Seq::<char>::empty(),
                },
            )
            && !(hide_idle && (t.command@ == "Sleep"@ || t.command@ == "Binlog Dump"@))
            },
        forall|j: int|
            0 <= j < rows@.len() && {
                let hide_idle = opts.hide_idle;
                filter_matches(filters.user@, rows@[j].user@)
            && filter_matches(filters.host@, host_part(rows@[j].host@))
            && filter_matches(
                filters.db@,
                match rows@[j].db {
                    Some(d) => d@,
                    None => Seq::<char>::empty(),
                },
            )
            && !(hide_idle && (rows@[j].command@ == "Sleep"@ || rows@[j].command@ == "Binlog Dump"@))
            } ==> r@.contains(#[trigger] rows@[j]),
{
    let n = rows.len();
    let mut filtered: Vec<ThreadRow> = Vec::new();
    let mut i: usize = 0;
    while i < n
        invariant
            n == rows@.len(),
            i <= n,
            filtered@ == visible_rows(rows@.take(i as int), *filters, opts.hide_idle),
        decreases n - i,
    {
        proof {
            let pre = rows@.take(i + 1);
            assert(pre.drop_last() == rows@.take(i as int));
            assert(pre.last() == rows@[i as int]);
        }
        if is_visible(&rows[i], filters, opts.hide_idle) {
            filtered.push(rows[i].clone());
        }
        i = i + 1;
    }
    proof {
        assert(rows@.take(n as int) == rows@);
    }
    let ghost shown = filtered@;
    sort_threads_by_time(filtered.as_mut_slice(), opts.sort_desc);
    proof {
        law_time_order_sorts(shown, filtered@, opts.sort_desc);
        law_top_view_shows_passing_threads(rows@, *filters, opts.hide_idle);
        assert forall|i: int| 0 <= i < filtered@.len() implies shown.contains(#[trigger] filtered@[i]) by {
        }
        assert forall|j: int| 0 <= j < rows@.len() && shown.contains(rows@[j]) implies filtered@.contains(
            #[trigger] rows@[j],
        ) by {
            let k = choose|k: int| 0 <= k < shown.len() && shown[k] == rows@[j];
            assert(filtered@.contains(shown[k]));
        }
    }
    filtered
}


/// A reordering by running time reaches every position of its input.
proof fn lemma_time_order_onto(input: Seq<ThreadRow>, output: Seq<ThreadRow>, perm: Seq<int>, k: int)
    requires
        is_time_order(input, output, perm),
        0 <= k < input.len(),
    ensures
        output.contains(input[k]),
{
    let n = input.len() as int;
    assert(perm.no_duplicates()) by {
        assert forall|i: int, j: int|
            0 <= i < perm.len() && 0 <= j < perm.len() && i != j implies perm[i] != perm[j] by {
            if i < j {
                assert(perm[i] != perm[j]);
            } else {
                assert(perm[j] != perm[i]);
            }
        }
    }
    perm.unique_seq_to_set();
    vstd::set_lib::lemma_int_range(0, n);
    let range = vstd::set_lib::set_int_range(0, n);
    assert(perm.to_set().subset_of(range)) by {
        assert forall|x: int| perm.to_set().contains(x) implies range.contains(x) by {
            let i = choose|i: int| 0 <= i < perm.len() && perm[i] == x;
            assert(0 <= perm[i] < n);
        }
    }
    vstd::set_lib::lemma_subset_equality(perm.to_set(), range);
    assert(range.contains(k));
    assert(perm.to_set().contains(k));
    let i = choose|i: int| 0 <= i < perm.len() && perm[i] == k;
    assert(output[i] == input[k]);
}

/// An ordering by running time keeps every row exactly once and orders the rows by time:
/// ascending, or descending where longest-running threads come first.
pub proof fn law_time_order_sorts(input: Seq<ThreadRow>, output: Seq<ThreadRow>, desc: bool)
    requires
        time_ordered(input, output, desc),
    ensures
        output.len() == input.len(),
        forall|i: int| 0 <= i < output.len() ==> input.contains(#[trigger] output[i]),
        forall|k: int| 0 <= k < input.len() ==> output.contains(#[trigger] input[k]),
        !desc ==> forall|i: int, j: int|
            0 <= i < j < output.len() ==> (#[trigger] output[i]).time <= (#[trigger] output[j]).time,
        desc ==> forall|i: int, j: int|
            0 <= i < j < output.len() ==> (#[trigger] output[i]).time >= (#[trigger] output[j]).time,
{
    let sorted = choose|sorted: Seq<ThreadRow>|
        is_stable_time_sort(input, sorted) && output == (if desc {
            sorted.reverse()
        } else {
            sorted
        });
    let perm = choose|perm: Seq<int>| is_time_order(input, sorted, perm);
    assert forall|i: int| 0 <= i < output.len() implies input.contains(#[trigger] output[i]) by {
        let k = if desc {
            sorted.len() - 1 - i
        } else {
            i
        };
        assert(output[i] == sorted[k]);
        assert(sorted[k] == input[perm[k]]);
    }
    assert forall|k: int| 0 <= k < input.len() implies output.contains(#[trigger] input[k]) by {
        lemma_time_order_onto(input, sorted, perm, k);
        let j = choose|j: int| 0 <= j < sorted.len() && sorted[j] == input[k];
        if desc {
            let n = sorted.len() as int;
            assert(output[n - 1 - j] == sorted[j]);
        } else {
            assert(output[j] == sorted[j]);
        }
    }
    if desc {
        assert forall|i: int, j: int| 0 <= i < j < output.len() implies (#[trigger] output[i]).time
            >= (#[trigger] output[j]).time by {
            let n = sorted.len();
            assert(output[i] == sorted[n - 1 - i]);
            assert(output[j] == sorted[n - 1 - j]);
            assert(sorted[n - 1 - j].time <= sorted[n - 1 - i].time);
        }
    }
}

/// The top view shows exactly the threads that pass all three filters (the user filter on the
/// user, the host filter on the host without its port, the database filter on the database
/// name, empty where there is none) and, while idle threads are hidden, neither sleep nor dump
/// the binary log: every shown thread passes, every passing thread is shown, and a thread that
/// the user filter rejects is never shown.
pub proof fn law_top_view_shows_passing_threads(
    rows: Seq<ThreadRow>,
    filters: Filters,
    hide_idle: bool,
)
    ensures
        forall|i: int|
            0 <= i < visible_rows(rows, filters, hide_idle).len() ==> {
                let t = #[trigger] visible_rows(rows, filters, hide_idle)[i];
                filter_matches(filters.user@, t.user@)
            && filter_matches(filters.host@, host_part(t.host@))
            && filter_matches(
                filters.db@,
                match t.db {
                    Some(d) => d@,
                    None => Seq::<char>::empty(),
                },
            )
            && !(hide_idle && (t.command@ == "Sleep"@ || t.command@ == "Binlog Dump"@))
            },
        forall|j: int|
            0 <= j < rows.len() && filter_matches(filters.user@, rows[j].user@)
            && filter_matches(filters.host@, host_part(rows[j].host@))
            && filter_matches(
                filters.db@,
                match rows[j].db {
                    Some(d) => d@,
                    None => Seq::<char>::empty(),
                },
            )
            && !(hide_idle && (rows[j].command@ == "Sleep"@ || rows[j].command@ == "Binlog Dump"@)) ==> visible_rows(
                rows,
                filters,
                hide_idle,
            ).contains(#[trigger] rows[j]),
        forall|t: ThreadRow|
            !filter_matches(filters.user@, t.user@) ==> !#[trigger] visible_rows(
                rows,
                filters,
                hide_idle,
            ).contains(t),
    decreases rows.len(),
{
    law_shown_threads_pass_filters(rows, filters, hide_idle);
    let v = visible_rows(rows, filters, hide_idle);
    if rows.len() > 0 {
        let p = rows.drop_last();
        law_top_view_shows_passing_threads(p, filters, hide_idle);
        let vp = visible_rows(p, filters, hide_idle);
        assert forall|j: int|
            0 <= j < rows.len() && filter_matches(filters.user@, rows[j].user@)
            && filter_matches(filters.host@, host_part(rows[j].host@))
            && filter_matches(
                filters.db@,
                match rows[j].db {
                    Some(d) => d@,
                    None => Seq::<char>::empty(),
                },
            )
            && !(hide_idle && (rows[j].command@ == "Sleep"@ || rows[j].command@ == "Binlog Dump"@)) implies v.contains(#[trigger] rows[j]) by {
            if j < rows.len() - 1 {
                assert(rows[j] == p[j]);
                let k = choose|k: int| 0 <= k < vp.len() && vp[k] == p[j];
                if row_visible(rows.last(), filters, hide_idle) {
                    assert(v == vp.push(rows.last()));
                    assert(v[k] == vp[k]);
                } else {
                    assert(v == vp);
                }
            } else {
                assert(row_visible(rows.last(), filters, hide_idle));
                assert(v == vp.push(rows.last()));
                assert(v[v.len() - 1] == rows[j]);
            }
        }
    }
    assert forall|t: ThreadRow| !filter_matches(filters.user@, t.user@) implies !#[trigger] v.contains(
        t,
    ) by {
        if v.contains(t) {
            let k = choose|k: int| 0 <= k < v.len() && v[k] == t;
            assert(row_visible(v[k], filters, hide_idle));
        }
    }
}

/// Every thread the top view shows passes the filters, and no sleeping or binlog-dump thread is
/// shown while idle threads are hidden.
pub proof fn law_shown_threads_pass_filters(rows: Seq<ThreadRow>, filters: Filters, hide_idle: bool)
    ensures
        forall|i: int|
            0 <= i < visible_rows(rows, filters, hide_idle).len() ==> row_visible(
                #[trigger] visible_rows(rows, filters, hide_idle)[i],
                filters,
                hide_idle,
            ),
        forall|i: int|
            0 <= i < visible_rows(rows, filters, hide_idle).len() ==> rows.contains(
                #[trigger] visible_rows(rows, filters, hide_idle)[i],
            ),
    decreases rows.len(),
{
    if rows.len() > 0 {
        let p = rows.drop_last();
        law_shown_threads_pass_filters(p, filters, hide_idle);
        let v = visible_rows(rows, filters, hide_idle);
        let vp = visible_rows(p, filters, hide_idle);
        assert forall|i: int| 0 <= i < v.len() implies row_visible(#[trigger] v[i], filters, hide_idle)
            && rows.contains(v[i]) by {
            if i < vp.len() {
                assert(v[i] == vp[i]);
                assert(row_visible(vp[i], filters, hide_idle));
                assert(p.contains(vp[i]));
                let k = choose|k: int| 0 <= k < p.len() && p[k] == vp[i];
                assert(rows[k] == p[k]);
            } else {
                assert(v[i] == rows.last());
                assert(rows[rows.len() - 1] == rows.last());
            }
        }
    }
}

/// A normalised host has no port left, and normalising it again changes nothing.
pub proof fn law_normalized_host_has_no_port(host: Seq<char>)
    ensures
        !has_char(host_part(host), ':'),
        host_part(host_part(host)) == host_part(host),
{
    lemma_first_index(host, ':');
    if split_once(host, ':') is Some {
        lemma_split_once_head(host, ':');
    }
    lemma_first_index(host_part(host), ':');
}

} // verus!
