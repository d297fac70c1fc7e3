//! Query introspection: the cache of the queries that threads run, the full query of a thread,
//! the EXPLAIN statements for it, and a plain table printer.
use vstd::prelude::*;
use vstd::string::*;
use std::collections::BTreeMap;
use crate::sorted_map::SortedMap;
use crate::text::{join, join_strings, views};

verus! {

broadcast use vstd::laws_cmp::group_laws_cmp, vstd::std_specs::btree::group_btree_axioms;

/// The last query seen for a thread, with the database it ran in.
#[derive(Debug, Clone, PartialEq, Eq)]
pub struct QueryCacheEntry {
    pub db: Option<String>,
    pub sql: String,
}

/// The columns of a process list row that introspection needs.
#[derive(Debug, Clone, PartialEq, Eq)]
pub struct ProcesslistRowLite {
    pub id: u64,
    pub db: Option<String>,
    pub info: Option<String>,
}

/// The cache after recording, in order, the rows that show a query.
pub open spec fn merge_rows(m: Map<u64, QueryCacheEntry>, rows: Seq<ProcesslistRowLite>) -> Map<
    u64,
    QueryCacheEntry,
>
    decreases rows.len(),
{
    if rows.len() == 0 {
        m
    } else {
        let before = merge_rows(m, rows.drop_last());
        let r = rows.last();
        match r.info {
            Some(sql) => before.insert(r.id, QueryCacheEntry { db: r.db, sql: sql }),
            None => before,
        }
    }
}

fn clone_opt(s: &Option<String>) -> (r: Option<String>)
    ensures
        r == *s,
{
    match s {
        Some(v) => Some(v.clone()),
        None => None,
    }
}

/// Records the query of each row that shows one, replacing what the cache held for its thread.
pub fn merge_cache_from_processlist(
    cache: &mut BTreeMap<u64, QueryCacheEntry>,
    processlist: &[ProcesslistRowLite],
)
    ensures
        final(cache)@ == merge_rows(old(cache)@, processlist@),
{
    let n = processlist.len();
    let mut i: usize = 0;
    while i < n
        invariant
            n == processlist@.len(),
            i <= n,
            cache@ == merge_rows(old(cache)@, processlist@.subrange(0, i as int)),
        decreases n - i,
    {
        let row = &processlist[i];
        proof {
            let pre = processlist@.subrange(0, i + 1);
            assert(pre.drop_last() == processlist@.subrange(0, i as int));
            assert(pre.last() == processlist@[i as int]);
        }
        if let Some(sql) = &row.info {
            cache.insert(row.id, QueryCacheEntry { db: clone_opt(&row.db), sql: sql.clone() });
        }
        i = i + 1;
    }
    proof {
        assert(processlist@.subrange(0, n as int) == processlist@);
    }
}

pub open spec fn invalid_id_text() -> Seq<char> {
    "*** Invalid id. ***"@
}

/// The full query that the cache holds for thread `id`.
pub fn full_query_info(cache: &BTreeMap<u64, QueryCacheEntry>, id: u64) -> (r: Result<String, String>)
    ensures
        r is Ok <==> cache@.contains_key(id),
        r matches Ok(s) ==> s@ == cache@[id].sql@,
        r matches Err(e) ==> e@ == invalid_id_text(),
{
    match cache.get(&id) {
        Some(v) => Ok(v.sql.clone()),
        None => Err(String::from_str("*** Invalid id. ***")),
    }
}

/// The full query of thread `id` after the process list has been recorded in the cache.
pub fn full_query_info_from_processlist(
    cache: &mut BTreeMap<u64, QueryCacheEntry>,
    processlist: &[ProcesslistRowLite],
    id: u64,
) -> (r: Result<String, String>)
    ensures
        final(cache)@ == merge_rows(old(cache)@, processlist@),
        r is Ok <==> final(cache)@.contains_key(id),
        r matches Ok(s) ==> s@ == final(cache)@[id].sql@,
        r matches Err(e) ==> e@ == invalid_id_text(),
{
    merge_cache_from_processlist(cache, processlist);
    full_query_info(cache, id)
}

/// The statements that explain a cached query: `USE <db>` where the query has a database,
/// then `EXPLAIN <sql>`.
pub open spec fn explain_statements(e: QueryCacheEntry) -> Seq<Seq<char>> {
    match e.db {
        Some(db) => seq!["USE "@ + db@, "EXPLAIN "@ + e.sql@],
        None => seq!["EXPLAIN "@ + e.sql@],
    }
}

/// The statements that explain the query cached for thread `id`.
pub fn explain_sql(cache: &BTreeMap<u64, QueryCacheEntry>, id: u64) -> (r: Result<
    Vec<String>,
    String,
>)
    ensures
        r is Ok <==> cache@.contains_key(id),
        r matches Ok(cmds) ==> views(cmds@) == explain_statements(cache@[id]),
        r matches Err(e) ==> e@ == invalid_id_text(),
{
    let entry = match cache.get(&id) {
        Some(e) => e,
        None => return Err(String::from_str("*** Invalid id. ***")),
    };
    let mut cmds: Vec<String> = Vec::new();
    if let Some(db) = &entry.db {
        let mut s = String::from_str("USE ");
        s.append(db.as_str());
        cmds.push(s);
    }
    let mut s = String::from_str("EXPLAIN ");
    s.append(entry.sql.as_str());
    cmds.push(s);
    proof {
        assert(views(cmds@) == explain_statements(*entry));
    }
    Ok(cmds)
}

/// The EXPLAIN statements for thread `id` after the process list has been recorded in the cache.
pub fn explain_from_processlist(
    cache: &mut BTreeMap<u64, QueryCacheEntry>,
    processlist: &[ProcesslistRowLite],
    id: u64,
) -> (r: Result<Vec<String>, String>)
    ensures
        final(cache)@ == merge_rows(old(cache)@, processlist@),
        r is Ok <==> final(cache)@.contains_key(id),
        r matches Ok(cmds) ==> views(cmds@) == explain_statements(final(cache)@[id]),
        r matches Err(e) ==> e@ == invalid_id_text(),
{
    merge_cache_from_processlist(cache, processlist);
    explain_sql(cache, id)
}

/// One printed row: its cells `key: value` in key order, separated by `, `.
pub open spec fn row_text(entries: Seq<(Seq<char>, Seq<char>)>) -> Seq<char> {
    join(entries.map_values(|e: (Seq<char>, Seq<char>)| e.0 + ": "@ + e.1), ", "@)
}

/// The printed rows, one per line.
pub open spec fn table_text(rows: Seq<SortedMap<String>>) -> Seq<char> {
    join(rows.map_values(|m: SortedMap<String>| row_text(m.entries())), "\n"@)
}

fn print_row(row: &SortedMap<String>) -> (r: String)
    ensures
        r@ == row_text(row.entries()),
{
    let n = row.len();
    let mut cells: Vec<String> = Vec::new();
    let mut i: usize = 0;
    while i < n
        invariant
            n == row.entries().len(),
            i <= n,
            views(cells@) == row.entries().subrange(0, i as int).map_values(
                |e: (Seq<char>, Seq<char>)| e.0 + ": "@ + e.1,
            ),
        decreases n - i,
    {
        let mut cell = row.key_at(i).clone();
        cell.append(": ");
        cell.append(row.value_at(i).as_str());
        let ghost prev = cells@;
        cells.push(cell);
        proof {
            let f = |e: (Seq<char>, Seq<char>)| e.0 + ": "@ + e.1;
            assert(views(cells@) =~= views(prev).push(cells@[i as int]@));
            assert(row.entries().subrange(0, i + 1).map_values(f) =~= row.entries().subrange(
                0,
                i as int,
            ).map_values(f).push(f(row.entries()[i as int])));
        }
        i = i + 1;
    }
    proof {
        assert(row.entries().subrange(0, n as int) == row.entries());
    }
    join_strings(cells.as_slice(), ", ")
}

/// Prints rows of named cells: each row on its own line, its cells as `key: value` in key order.
pub fn print_table(rows: &[SortedMap<String>]) -> (r: String)
    ensures
        r@ == table_text(rows@),
{
    let n = rows.len();
    let mut lines: Vec<String> = Vec::new();
    let mut i: usize = 0;
    while i < n
        invariant
            n == rows@.len(),
            i <= n,
            views(lines@) == rows@.subrange(0, i as int).map_values(
                |m: SortedMap<String>| row_text(m.entries()),
            ),
        decreases n - i,
    {
        let ghost prev = lines@;
        lines.push(print_row(&rows[i]));
        proof {
            let f = |m: SortedMap<String>| row_text(m.entries());
            assert(views(lines@) =~= views(prev).push(lines@[i as int]@));
            assert(rows@.subrange(0, i + 1).map_values(f) =~= rows@.subrange(0, i as int).map_values(
                f,
            ).push(f(rows@[i as int])));
        }
        i = i + 1;
    }
    proof {
        assert(rows@.subrange(0, n as int) == rows@);
    }
    join_strings(lines.as_slice(), "\n")
}


/// After the cache records a process list, a thread's entry is the query of its last row that
/// shows one.
pub proof fn law_latest_query_wins(m: Map<u64, QueryCacheEntry>, rows: Seq<ProcesslistRowLite>, i: int)
    requires
        0 <= i < rows.len(),
        rows[i].info is Some,
        forall|j: int| i < j < rows.len() ==> #[trigger] rows[j].id != rows[i].id || rows[j].info is None,
    ensures
        merge_rows(m, rows).contains_key(rows[i].id),
        merge_rows(m, rows)[rows[i].id] == (QueryCacheEntry { db: rows[i].db, sql: rows[i].info.unwrap() }),
    decreases rows.len(),
{
    if i < rows.len() - 1 {
        let p = rows.drop_last();
        assert forall|j: int| i < j < p.len() implies #[trigger] p[j].id != p[i].id || p[j].info is None by {
            assert(p[j] == rows[j]);
        }
        law_latest_query_wins(m, p, i);
        assert(p[i] == rows[i]);
        let last = rows[rows.len() - 1];
        assert(last.id != rows[i].id || last.info is None);
    }
}

/// Rows without a query leave the cache as it was.
pub proof fn law_rows_without_query_keep_cache(m: Map<u64, QueryCacheEntry>, rows: Seq<ProcesslistRowLite>)
    requires
        forall|j: int| 0 <= j < rows.len() ==> (#[trigger] rows[j]).info is None,
    ensures
        merge_rows(m, rows) == m,
    decreases rows.len(),
{
    if rows.len() > 0 {
        let p = rows.drop_last();
        assert forall|j: int| 0 <= j < p.len() implies (#[trigger] p[j]).info is None by {
            assert(p[j] == rows[j]);
        }
        law_rows_without_query_keep_cache(m, p);
        assert(rows[rows.len() - 1].info is None);
    }
}

} // verus!
