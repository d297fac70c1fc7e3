//! The shortcut help and the sections of the manual.
use vstd::prelude::*;
use vstd::string::*;
use crate::text::str_views;

verus! {

/// The help text: a title (green when colors are on), the mode and quit shortcuts, and the
/// project's home page.
pub open spec fn help_text(color: bool) -> Seq<char> {
    (if color {
        "\u{001b}[32mmytop shortcuts\u{001b}[0m"@
    } else {
        "mytop shortcuts"@
    }) + "\n[t] top  [m] qps  [c] cmd  [I] innodb  [S] status  [q] quit\nhttps://jeremy.zawodny.com/mysql/mytop/"@
}

/// Renders the shortcut help.
pub fn print_help(color: bool) -> (r: String)
    ensures
        r@ == help_text(color),
{
    let mut s = if color {
        String::from_str("\u{001b}[32mmytop shortcuts\u{001b}[0m")
    } else {
        String::from_str("mytop shortcuts")
    };
    s.append(
        "\n[t] top  [m] qps  [c] cmd  [I] innodb  [S] status  [q] quit\nhttps://jeremy.zawodny.com/mysql/mytop/",
    );
    s
}

/// The sections of the manual, in order.
pub fn pod_sections() -> (r: Vec<&'static str>)
    ensures
        str_views(r@) == seq![
            "Synopsis"@,
            "Requirements"@,
            "Platforms"@,
            "Display"@,
            "Arguments"@,
        ],
{
    let r = vec!["Synopsis", "Requirements", "Platforms", "Display", "Arguments"];
    proof {
        assert(str_views(r@) =~= seq![
            "Synopsis"@,
            "Requirements"@,
            "Platforms"@,
            "Display"@,
            "Arguments"@,
        ]);
    }
    r
}

} // verus!
