//! What one poll of the server yields and what it leaves behind: the process list, status and
//! variables, the per-thread caches, and the change of each numeric status counter.
use vstd::prelude::*;
use std::collections::BTreeMap;
use crate::introspection::QueryCacheEntry;
use crate::sorted_map::{SortedMap, entries_map, lemma_entries_map_prefix};
use crate::text::{parse_u64, parse_unsigned};

verus! {

broadcast use vstd::laws_cmp::group_laws_cmp, vstd::std_specs::btree::group_btree_axioms;

pub const SQL_SHOW_FULL_PROCESSLIST: &'static str = "SHOW FULL PROCESSLIST";

pub const SQL_SHOW_STATUS: &'static str = "SHOW STATUS";

pub const SQL_SHOW_VARIABLES: &'static str = "SHOW VARIABLES";

pub const SQL_SHOW_ENGINE_INNODB_STATUS: &'static str = "SHOW ENGINE INNODB STATUS";

/// One row of `SHOW FULL PROCESSLIST`.
#[derive(Debug, Clone, PartialEq, Eq)]
pub struct ProcessRow {
    pub id: u64,
    pub user: String,
    pub host: String,
    pub db: Option<String>,
    pub command: String,
    pub time: u64,
    pub state: Option<String>,
    pub info: Option<String>,
}

/// Everything one poll reads from the server.
#[derive(Debug, PartialEq, Eq)]
pub struct DataSnapshot {
    pub processlist: Vec<ProcessRow>,
    pub status: SortedMap<String>,
    pub variables: SortedMap<String>,
    pub innodb_status: String,
}

/// What polling remembers between polls: per-thread query, user and database, and the numeric
/// status counters of the last poll.
#[derive(Debug)]
pub struct PollState {
    pub qcache: BTreeMap<u64, QueryCacheEntry>,
    pub ucache: BTreeMap<u64, String>,
    pub dbcache: BTreeMap<u64, String>,
    pub statcache: SortedMap<u64>,
}

impl PollState {
    /// The state before the first poll: everything empty.
    pub fn new() -> (r: Self)
        ensures
            r.qcache@ == Map::<u64, QueryCacheEntry>::empty(),
            r.ucache@ == Map::<u64, String>::empty(),
            r.dbcache@ == Map::<u64, String>::empty(),
            r.statcache@ == Map::<Seq<char>, u64>::empty(),
    {
        PollState {
            qcache: BTreeMap::new(),
            ucache: BTreeMap::new(),
            dbcache: BTreeMap::new(),
            statcache: SortedMap::new(),
        }
    }
}

/// The status values that read as unsigned numbers, read as such.
pub open spec fn numeric_status(status: Map<Seq<char>, Seq<char>>) -> Map<Seq<char>, u64> {
    Map::new(
        |k: Seq<char>| status.contains_key(k) && parse_unsigned(status[k], u64::MAX as nat) is Some,
        |k: Seq<char>| parse_unsigned(status[k], u64::MAX as nat).unwrap() as u64,
    )
}

/// The status counters whose values are numbers.
pub fn status_to_u64_map(status: &SortedMap<String>) -> (r: SortedMap<u64>)
    ensures
        r@ == numeric_status(status@),
{
    status.check_sorted();
    let ghost e = status.entries();
    let n = status.len();
    let mut out: SortedMap<u64> = SortedMap::new();
    let mut i: usize = 0;
    proof {
        assert(e.take(0) == Seq::<(Seq<char>, Seq<char>)>::empty());
        assert(numeric_status(entries_map(e.take(0))) == Map::<Seq<char>, u64>::empty());
    }
    while i < n
        invariant
            n == e.len(),
            e == status.entries(),
            crate::sorted_map::keys_increasing(e),
            status@ == entries_map(e),
            i <= n,
            out@ == numeric_status(entries_map(e.take(i as int))),
        decreases n - i,
    {
        proof {
            lemma_entries_map_prefix(e, i as int);
        }
        let ghost before = entries_map(e.take(i as int));
        let key = status.key_at(i);
        let value = status.value_at(i);
        match parse_u64(value.as_str()) {
            Some(v) => {
                out.insert(key.clone(), v);
                proof {
                    assert(numeric_status(before.insert(e[i as int].0, e[i as int].1)) == numeric_status(
                        before,
                    ).insert(e[i as int].0, v));
                }
            },
            None => {
                proof {
                    assert(numeric_status(before.insert(e[i as int].0, e[i as int].1))
                        == numeric_status(before));
                }
            },
        }
        i = i + 1;
    }
    proof {
        assert(e.take(n as int) == e);
    }
    out
}

/// The count a map holds for `k`, zero where it holds none.
pub open spec fn count_or_zero(m: Map<Seq<char>, u64>, k: Seq<char>) -> u64 {
    if m.contains_key(k) {
        m[k]
    } else {
        0
    }
}

/// `a - b`, or zero where `b` is larger.
pub open spec fn saturating_diff(a: u64, b: u64) -> u64 {
    if a >= b {
        (a - b) as u64
    } else {
        0
    }
}

/// The growth of each current counter since the previous poll. A counter that shrank grew by
/// 0, one that the previous poll did not report grew by its whole value, and on the first poll
/// (with nothing remembered) every counter grew by 0.
pub open spec fn status_delta(previous: Map<Seq<char>, u64>, current: Map<Seq<char>, u64>) -> Map<
    Seq<char>,
    u64,
> {
    Map::new(
        |k: Seq<char>| current.contains_key(k),
        |k: Seq<char>|
            if previous == Map::<Seq<char>, u64>::empty() {
                0
            } else {
                saturating_diff(current[k], count_or_zero(previous, k))
            },
    )
}

/// The count stored for `key`, zero where there is none.
pub fn count_of(m: &SortedMap<u64>, key: &str) -> (r: u64)
    ensures
        r == count_or_zero(m@, key@),
{
    match m.get(key) {
        Some(v) => *v,
        None => 0,
    }
}

/// The growth of each counter between two polls.
pub fn compute_status_delta(previous: &SortedMap<u64>, current: &SortedMap<u64>) -> (r: SortedMap<
    u64,
>)
    ensures
        r@ == status_delta(previous@, current@),
{
    current.check_sorted();
    let first_poll = previous.is_empty();
    let ghost e = current.entries();
    let n = current.len();
    let mut out: SortedMap<u64> = SortedMap::new();
    let mut i: usize = 0;
    proof {
        assert(e.take(0) == Seq::<(Seq<char>, u64)>::empty());
        assert(status_delta(previous@, entries_map(e.take(0))) == Map::<Seq<char>, u64>::empty());
    }
    while i < n
        invariant
            n == e.len(),
            e == current.entries(),
            crate::sorted_map::keys_increasing(e),
            current@ == entries_map(e),
            i <= n,
            first_poll == (previous@ == Map::<Seq<char>, u64>::empty()),
            out@ == status_delta(previous@, entries_map(e.take(i as int))),
        decreases n - i,
    {
        proof {
            lemma_entries_map_prefix(e, i as int);
        }
        let ghost before = entries_map(e.take(i as int));
        let key = current.key_at(i);
        let cur = *current.value_at(i);
        let prev = if first_poll {
            cur
        } else {
            count_of(previous, key.as_str())
        };
        let d = if cur >= prev {
            cur - prev
        } else {
            0
        };
        out.insert(key.clone(), d);
        proof {
            assert(status_delta(previous@, before.insert(e[i as int].0, e[i as int].1))
                == status_delta(previous@, before).insert(e[i as int].0, d));
        }
        i = i + 1;
    }
    proof {
        assert(e.take(n as int) == e);
    }
    out
}

/// The cache of each thread's query after a poll of `rows`.
pub open spec fn query_cache_of(rows: Seq<ProcessRow>) -> Map<u64, QueryCacheEntry>
    decreases rows.len(),
{
    if rows.len() == 0 {
        Map::empty()
    } else {
        let before = query_cache_of(rows.drop_last());
        let r = rows.last();
        match r.info {
            Some(sql) => before.insert(r.id, QueryCacheEntry { db: r.db, sql: sql }),
            None => before,
        }
    }
}

/// Each thread's user after a poll of `rows`.
pub open spec fn user_cache_of(rows: Seq<ProcessRow>) -> Map<u64, String>
    decreases rows.len(),
{
    if rows.len() == 0 {
        Map::empty()
    } else {
        user_cache_of(rows.drop_last()).insert(rows.last().id, rows.last().user)
    }
}

/// Each thread's database after a poll of `rows`, for the threads that have one.
pub open spec fn db_cache_of(rows: Seq<ProcessRow>) -> Map<u64, String>
    decreases rows.len(),
{
    if rows.len() == 0 {
        Map::empty()
    } else {
        let before = db_cache_of(rows.drop_last());
        match rows.last().db {
            Some(db) => before.insert(rows.last().id, db),
            None => before,
        }
    }
}

fn clone_opt(s: &Option<String>) -> (r: Option<String>)
    ensures
        r == *s,
{
    match s {
        Some(v) => Some(v.clone()),
        None => None,
    }
}

/// Rebuilds the per-thread caches from a process list and keeps the numeric status counters.
pub fn update_caches(state: &mut PollState, processlist: &[ProcessRow], status: &SortedMap<String>)
    ensures
        final(state).qcache@ == query_cache_of(processlist@),
        final(state).ucache@ == user_cache_of(processlist@),
        final(state).dbcache@ == db_cache_of(processlist@),
        final(state).statcache@ == numeric_status(status@),
{
    state.qcache.clear();
    state.ucache.clear();
    state.dbcache.clear();
    let n = processlist.len();
    let mut i: usize = 0;
    while i < n
        invariant
            n == processlist@.len(),
            i <= n,
            state.qcache@ == query_cache_of(processlist@.subrange(0, i as int)),
            state.ucache@ == user_cache_of(processlist@.subrange(0, i as int)),
            state.dbcache@ == db_cache_of(processlist@.subrange(0, i as int)),
        decreases n - i,
    {
        let row = &processlist[i];
        proof {
            let pre = processlist@.subrange(0, i + 1);
            assert(pre.drop_last() == processlist@.subrange(0, i as int));
            assert(pre.last() == processlist@[i as int]);
        }
        if let Some(sql) = &row.info {
            state.qcache.insert(row.id, QueryCacheEntry { db: clone_opt(&row.db), sql: sql.clone() });
        }
        state.ucache.insert(row.id, row.user.clone());
        if let Some(db) = &row.db {
            state.dbcache.insert(row.id, db.clone());
        }
        i = i + 1;
    }
    proof {
        assert(processlist@.subrange(0, n as int) == processlist@);
    }
    state.statcache = status_to_u64_map(status);
}

/// Records a poll's process list and status in the state and returns the growth of each numeric
/// status counter since the previous poll.
pub fn record_poll(state: &mut PollState, processlist: &[ProcessRow], status: &SortedMap<String>) -> (r:
    SortedMap<u64>)
    ensures
        r@ == status_delta(old(state).statcache@, numeric_status(status@)),
        final(state).qcache@ == query_cache_of(processlist@),
        final(state).ucache@ == user_cache_of(processlist@),
        final(state).dbcache@ == db_cache_of(processlist@),
        final(state).statcache@ == numeric_status(status@),
{
    let current = status_to_u64_map(status);
    let delta = compute_status_delta(&state.statcache, &current);
    update_caches(state, processlist, status);
    delta
}


/// A counter never grows by more than its current value, the growth covers exactly the current
/// counters, polling the same counters twice shows no growth, the first poll (with nothing
/// remembered) shows no growth either, and after that a counter seen for the first time grew by
/// its whole value.
pub proof fn law_status_growth(previous: Map<Seq<char>, u64>, current: Map<Seq<char>, u64>)
    ensures
        status_delta(previous, current).dom() == current.dom(),
        forall|k: Seq<char>|
            #[trigger] current.contains_key(k) ==> status_delta(previous, current)[k] <= current[k],
        forall|k: Seq<char>|
            #[trigger] current.contains_key(k) ==> status_delta(current, current)[k] == 0,
        forall|k: Seq<char>|
            #[trigger] current.contains_key(k) ==> status_delta(Map::empty(), current)[k] == 0,
        previous != Map::<Seq<char>, u64>::empty() ==> forall|k: Seq<char>|
            #[trigger] current.contains_key(k) && !previous.contains_key(k) ==> status_delta(
                previous,
                current,
            )[k] == current[k],
{
    assert(status_delta(previous, current).dom() =~= current.dom());
}

/// Every thread with a cached query or database also has a cached user.
pub proof fn law_cached_threads_have_users(rows: Seq<ProcessRow>)
    ensures
        forall|id: u64| #[trigger] query_cache_of(rows).contains_key(id) ==> user_cache_of(rows).contains_key(id),
        forall|id: u64| #[trigger] db_cache_of(rows).contains_key(id) ==> user_cache_of(rows).contains_key(id),
    decreases rows.len(),
{
    if rows.len() > 0 {
        let p = rows.drop_last();
        law_cached_threads_have_users(p);
        let last = rows.last();
        assert forall|id: u64| #[trigger] query_cache_of(rows).contains_key(id) implies user_cache_of(
            rows,
        ).contains_key(id) by {
            if id != last.id {
                assert(query_cache_of(p).contains_key(id));
                assert(user_cache_of(p).contains_key(id));
            }
        }
        assert forall|id: u64| #[trigger] db_cache_of(rows).contains_key(id) implies user_cache_of(
            rows,
        ).contains_key(id) by {
            if id != last.id {
                assert(db_cache_of(p).contains_key(id));
                assert(user_cache_of(p).contains_key(id));
            }
        }
    }
}


/// The four queries one poll runs against a server.
pub trait DatabaseClient {
    fn show_full_processlist(&mut self) -> Result<Vec<ProcessRow>, String>;

    fn show_status(&mut self) -> Result<SortedMap<String>, String>;

    fn show_variables(&mut self) -> Result<SortedMap<String>, String>;

    fn show_engine_innodb_status(&mut self) -> Result<String, String>;
}

/// Records what the four queries of a poll returned: the caches and counters in the state
/// follow the new process list and status, and the result is the snapshot of the four answers
/// together with the growth of each numeric status counter since the previous poll.
pub fn finish_poll(
    state: &mut PollState,
    processlist: Vec<ProcessRow>,
    status: SortedMap<String>,
    variables: SortedMap<String>,
    innodb_status: String,
) -> (r: (DataSnapshot, SortedMap<u64>))
    ensures
        r.0.processlist@ == processlist@,
        r.0.status@ == status@,
        r.0.variables@ == variables@,
        r.0.innodb_status@ == innodb_status@,
        r.1@ == status_delta(old(state).statcache@, numeric_status(status@)),
        final(state).qcache@ == query_cache_of(processlist@),
        final(state).ucache@ == user_cache_of(processlist@),
        final(state).dbcache@ == db_cache_of(processlist@),
        final(state).statcache@ == numeric_status(status@),
{
    let delta = record_poll(state, processlist.as_slice(), &status);
    (DataSnapshot { processlist, status, variables, innodb_status }, delta)
}

/// Runs the four queries of a poll in turn and records what they return in the state; the
/// first failing query ends the poll with its error and leaves the state as it was. On success,
/// returns the snapshot read and the growth of each numeric status counter since the previous
/// poll.
pub fn poll_client<C: DatabaseClient>(client: &mut C, state: &mut PollState) -> (r: Result<
    (DataSnapshot, SortedMap<u64>),
    String,
>)
    ensures
        r is Err ==> *final(state) == *old(state),
        r matches Ok((snap, delta)) ==> {
            &&& delta@ == status_delta(old(state).statcache@, numeric_status(snap.status@))
            &&& final(state).qcache@ == query_cache_of(snap.processlist@)
            &&& final(state).ucache@ == user_cache_of(snap.processlist@)
            &&& final(state).dbcache@ == db_cache_of(snap.processlist@)
            &&& final(state).statcache@ == numeric_status(snap.status@)
        },
{
    let processlist = client.show_full_processlist()?;
    let status = client.show_status()?;
    let variables = client.show_variables()?;
    let innodb_status = client.show_engine_innodb_status()?;
    Ok(finish_poll(state, processlist, status, variables, innodb_status))
}

} // verus!
