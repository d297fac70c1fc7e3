//! Text output: error messages, `|`-separated tables, the variables table, the top view table,
//! the status summary and the InnoDB status page.
use vstd::prelude::*;
use vstd::string::*;
use crate::sorted_map::SortedMap;
use crate::summaries::status_row_views;
use crate::text::{
    law_trim_idempotent, lemma_trim_fixed, is_space, decimal, decimal_string, ends_with, has_prefix, has_suffix, join, join_strings, join_strs,
    starts_with, str_eq, str_views, trim, trim_str, views,
};
use crate::top_view::{ThreadRow, host_part, normalize_host};

verus! {

/// An error message in the uniform `*** ... ***` form; a trimmed message already in that form
/// is kept as it is.
pub open spec fn error_text(message: Seq<char>) -> Seq<char> {
    let t = trim(message);
    if has_prefix(t, "***"@) && has_suffix(t, "***"@) {
        t
    } else {
        "*** "@ + t + " ***"@
    }
}

/// Puts a message in the uniform error form.
pub fn format_error(message: &str) -> (r: String)
    ensures
        r@ == error_text(message@),
{
    let trimmed = trim_str(message);
    if starts_with(trimmed, "***") && ends_with(trimmed, "***") {
        String::from_str(trimmed)
    } else {
        let mut s = String::from_str("*** ");
        s.append(trimmed);
        s.append(" ***");
        s
    }
}

/// A table: the header line, then one line per row, cells separated by ` | `.
pub open spec fn table_text(headers: Seq<Seq<char>>, rows: Seq<Seq<Seq<char>>>) -> Seq<char> {
    join(seq![join(headers, " | "@)] + rows.map_values(|r: Seq<Seq<char>>| join(r, " | "@)), "\n"@)
}

/// The views of table rows.
pub open spec fn row_views(rows: Seq<Vec<String>>) -> Seq<Seq<Seq<char>>> {
    rows.map_values(|r: Vec<String>| views(r@))
}

/// Formats a table with a header line.
pub fn format_table(headers: &[&str], rows: &[Vec<String>]) -> (r: String)
    ensures
        r@ == table_text(str_views(headers@), row_views(rows@)),
{
    let mut lines: Vec<String> = Vec::new();
    lines.push(join_strs(headers, " | "));
    let n = rows.len();
    let mut i: usize = 0;
    let ghost f = |r: Seq<Seq<char>>| join(r, " | "@);
    proof {
        assert(views(lines@) == seq![join(str_views(headers@), " | "@)] + row_views(
            rows@.take(0),
        ).map_values(f));
    }
    while i < n
        invariant
            n == rows@.len(),
            i <= n,
            f == (|r: Seq<Seq<char>>| join(r, " | "@)),
            views(lines@) == seq![join(str_views(headers@), " | "@)] + row_views(
                rows@.take(i as int),
            ).map_values(f),
        decreases n - i,
    {
        let ghost before = lines@;
        lines.push(join_strings(rows[i].as_slice(), " | "));
        proof {
            assert(row_views(rows@.take(i + 1)) =~= row_views(rows@.take(i as int)).push(
                views(rows@[i as int]@),
            ));
            assert(views(lines@) =~= views(before).push(lines@[i as int + 1]@));
            assert(views(lines@) =~= seq![join(str_views(headers@), " | "@)] + row_views(
                rows@.take(i + 1),
            ).map_values(f));
        }
        i = i + 1;
    }
    proof {
        assert(rows@.take(n as int) == rows@);
    }
    join_strings(lines.as_slice(), "\n")
}

/// The table of server variables: one `name | value` line per variable, in name order.
pub open spec fn variables_text(entries: Seq<(Seq<char>, Seq<char>)>) -> Seq<char> {
    table_text(
        seq!["Variable"@, "Value"@],
        entries.map_values(|e: (Seq<char>, Seq<char>)| seq![e.0, e.1]),
    )
}

/// Formats the server variables as a table sorted by name (the map keeps them in that order).
pub fn format_show_variables(rows: &SortedMap<String>) -> (r: String)
    ensures
        r@ == variables_text(rows.entries()),
{
    let n = rows.len();
    let mut table_rows: Vec<Vec<String>> = Vec::new();
    let mut i: usize = 0;
    let ghost f = |e: (Seq<char>, Seq<char>)| seq![e.0, e.1];
    while i < n
        invariant
            n == rows.entries().len(),
            i <= n,
            f == (|e: (Seq<char>, Seq<char>)| seq![e.0, e.1]),
            row_views(table_rows@) == rows.entries().take(i as int).map_values(f),
        decreases n - i,
    {
        let mut row: Vec<String> = Vec::new();
        row.push(rows.key_at(i).clone());
        row.push(rows.value_at(i).clone());
        let ghost before = table_rows@;
        table_rows.push(row);
        proof {
            assert(views(row@) =~= f(rows.entries()[i as int]));
            assert(row_views(table_rows@) =~= row_views(before).push(views(row@)));
            assert(rows.entries().take(i + 1).map_values(f) =~= rows.entries().take(
                i as int,
            ).map_values(f).push(f(rows.entries()[i as int])));
        }
        i = i + 1;
    }
    proof {
        assert(rows.entries().take(n as int) == rows.entries());
    }
    let headers = vec!["Variable", "Value"];
    proof {
        assert(str_views(headers@) =~= seq!["Variable"@, "Value"@]);
    }
    format_table(headers.as_slice(), table_rows.as_slice())
}

/// The ANSI color code that marks a thread's command when colors are on: yellow for a running
/// query, white for a sleeping thread, green for one connecting; other commands get none.
pub open spec fn command_color(command: Seq<char>) -> Option<Seq<char>> {
    if command == "Query"@ {
        Some("\u{001b}[33m"@)
    } else if command == "Sleep"@ {
        Some("\u{001b}[37m"@)
    } else if command == "Connect"@ {
        Some("\u{001b}[32m"@)
    } else {
        None
    }
}

/// The cells of a thread in the top view table; with colors on, the command cell is wrapped in
/// the command's color code and a reset.
pub open spec fn top_cells(r: ThreadRow, color: bool) -> Seq<Seq<char>> {
    seq![
        decimal(r.id as nat),
        r.user@,
        match r.db {
            Some(d) => d@,
            None => "-"@,
        },
        host_part(r.host@),
        match command_color(r.command@) {
            Some(code) if color => code + r.command@ + "\u{001b}[0m"@,
            _ => r.command@,
        },
        decimal(r.time as nat),
    ]
}

/// The header line of the top view table.
pub open spec fn top_headers() -> Seq<Seq<char>> {
    seq!["Id"@, "User"@, "DB"@, "Host"@, "Command"@, "Time"@]
}

fn color_code(command: &str) -> (r: Option<&'static str>)
    ensures
        match r {
            Some(code) => command_color(command@) == Some(code@),
            None => command_color(command@) is None,
        },
{
    if str_eq(command, "Query") {
        Some("\u{001b}[33m")
    } else if str_eq(command, "Sleep") {
        Some("\u{001b}[37m")
    } else if str_eq(command, "Connect") {
        Some("\u{001b}[32m")
    } else {
        None
    }
}

fn top_row(r: &ThreadRow, color: bool) -> (cells: Vec<String>)
    ensures
        views(cells@) == top_cells(*r, color),
{
    let mut cells: Vec<String> = Vec::new();
    cells.push(decimal_string(r.id));
    cells.push(r.user.clone());
    cells.push(
        match &r.db {
            Some(d) => d.clone(),
            None => String::from_str("-"),
        },
    );
    cells.push(normalize_host(r.host.as_str()));
    match color_code(r.command.as_str()) {
        Some(code) if color => {
            let mut c = String::from_str(code);
            c.append(r.command.as_str());
            c.append("\u{001b}[0m");
            cells.push(c);
        },
        _ => cells.push(r.command.clone()),
    }
    cells.push(decimal_string(r.time));
    proof {
        assert(views(cells@) =~= top_cells(*r, color));
    }
    cells
}

/// Renders the top view table.
pub fn render_top_table(rows: &[ThreadRow], color: bool) -> (r: String)
    ensures
        r@ == table_text(top_headers(), rows@.map_values(|t: ThreadRow| top_cells(t, color))),
{
    let n = rows.len();
    let mut table_rows: Vec<Vec<String>> = Vec::new();
    let mut i: usize = 0;
    let ghost f = |t: ThreadRow| top_cells(t, color);
    while i < n
        invariant
            n == rows@.len(),
            i <= n,
            f == (|t: ThreadRow| top_cells(t, color)),
            row_views(table_rows@) == rows@.take(i as int).map_values(f),
        decreases n - i,
    {
        let ghost before = table_rows@;
        let cells = top_row(&rows[i], color);
        table_rows.push(cells);
        proof {
            assert(row_views(table_rows@) =~= row_views(before).push(f(rows@[i as int])));
            assert(rows@.take(i + 1).map_values(f) =~= rows@.take(i as int).map_values(f).push(
                f(rows@[i as int]),
            ));
        }
        i = i + 1;
    }
    proof {
        assert(rows@.take(n as int) == rows@);
    }
    let headers = vec!["Id", "User", "DB", "Host", "Command", "Time"];
    proof {
        assert(str_views(headers@) =~= top_headers());
    }
    format_table(headers.as_slice(), table_rows.as_slice())
}

/// The status summary page.
pub open spec fn status_view_text(rows: Seq<(Seq<char>, u64, u64)>) -> Seq<char> {
    "Status Summary\n"@ + table_text(
        seq!["Name"@, "Total"@, "Delta"@],
        rows.map_values(|r: (Seq<char>, u64, u64)| seq![r.0, decimal(r.1 as nat), decimal(r.2 as nat)]),
    )
}

/// Renders the status summary page.
pub fn render_status_view(rows: &[(String, u64, u64)]) -> (r: String)
    ensures
        r@ == status_view_text(status_row_views(rows@)),
{
    let n = rows.len();
    let mut table_rows: Vec<Vec<String>> = Vec::new();
    let mut i: usize = 0;
    let ghost g = |r: (Seq<char>, u64, u64)| seq![r.0, decimal(r.1 as nat), decimal(r.2 as nat)];
    while i < n
        invariant
            n == rows@.len(),
            i <= n,
            g == (|r: (Seq<char>, u64, u64)| seq![r.0, decimal(r.1 as nat), decimal(r.2 as nat)]),
            row_views(table_rows@) == status_row_views(rows@.take(i as int)).map_values(g),
        decreases n - i,
    {
        let (name, total, delta) = &rows[i];
        let mut cells: Vec<String> = Vec::new();
        cells.push(name.clone());
        cells.push(decimal_string(*total));
        cells.push(decimal_string(*delta));
        let ghost before = table_rows@;
        table_rows.push(cells);
        proof {
            let e = (rows@[i as int].0@, rows@[i as int].1, rows@[i as int].2);
            assert(views(cells@) =~= g(e));
            assert(status_row_views(rows@.take(i + 1)) =~= status_row_views(rows@.take(i as int)).push(e));
            assert(row_views(table_rows@) =~= row_views(before).push(views(cells@)));
            assert(status_row_views(rows@.take(i + 1)).map_values(g) =~= status_row_views(
                rows@.take(i as int),
            ).map_values(g).push(g(e)));
        }
        i = i + 1;
    }
    proof {
        assert(rows@.take(n as int) == rows@);
    }
    let headers = vec!["Name", "Total", "Delta"];
    proof {
        assert(str_views(headers@) =~= seq!["Name"@, "Total"@, "Delta"@]);
    }
    let table = format_table(headers.as_slice(), table_rows.as_slice());
    let mut s = String::from_str("Status Summary\n");
    s.append(table.as_str());
    s
}

/// The InnoDB status text as shown.
pub fn innodb_status_text(status: &str) -> (r: String)
    ensures
        r@ == status@,
{
    String::from_str(status)
}

/// The pager used: `less` where it is available, else `more`.
pub open spec fn pager_of(available: Seq<Seq<char>>) -> Seq<char> {
    if available.contains("less"@) {
        "less"@
    } else {
        "more"@
    }
}

/// Chooses the pager for long pages.
pub fn find_pager(available: &[&str]) -> (r: String)
    ensures
        r@ == pager_of(str_views(available@)),
{
    let n = available.len();
    let mut i: usize = 0;
    while i < n
        invariant
            n == available@.len(),
            i <= n,
            forall|k: int| 0 <= k < i ==> available@[k]@ != "less"@,
        decreases n - i,
    {
        if str_eq(available[i], "less") {
            proof {
                assert(str_views(available@)[i as int] == "less"@);
            }
            return String::from_str("less");
        }
        i = i + 1;
    }
    proof {
        if str_views(available@).contains("less"@) {
            let k = choose|k: int| 0 <= k < str_views(available@).len() && str_views(available@)[k] == "less"@;
            assert(available@[k]@ == "less"@);
        }
    }
    String::from_str("more")
}

/// The InnoDB status page.
pub open spec fn innodb_view_text(status: Seq<char>, available: Seq<Seq<char>>) -> Seq<char> {
    "InnoDB Status (pager="@ + pager_of(available) + ")\n"@ + status
}

/// Renders the InnoDB status page, naming the pager it would be shown in.
pub fn render_innodb_view(status: &str, available_pagers: &[&str]) -> (r: String)
    ensures
        r@ == innodb_view_text(status@, str_views(available_pagers@)),
{
    let pager = find_pager(available_pagers);
    let mut s = String::from_str("InnoDB Status (pager=");
    s.append(pager.as_str());
    s.append(")\n");
    let text = innodb_status_text(status);
    s.append(text.as_str());
    s
}


/// Formatting an error message twice gives the same text as formatting it once.
pub proof fn law_error_format_is_idempotent(message: Seq<char>)
    ensures
        error_text(error_text(message)) == error_text(message),
{
    let t = trim(message);
    law_trim_idempotent(message);
    if !(has_prefix(t, "***"@) && has_suffix(t, "***"@)) {
        reveal_strlit("*** ");
        reveal_strlit(" ***");
        reveal_strlit("***");
        let r = "*** "@ + t + " ***"@;
        assert(r[0] == '*');
        assert(r.last() == '*');
        assert(!is_space(r[0]) && !is_space(r.last()));
        lemma_trim_fixed(r);
        assert(r.subrange(0, 3) == "***"@);
        assert(r.subrange(r.len() - 3, r.len() as int) == "***"@);
    }
}

} // verus!
