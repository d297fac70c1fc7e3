//! Startup configuration: defaults, the `~/.mytop` key/value file, command-line options, their
//! merge in that order of precedence, and the connection strings built from the result.
use vstd::prelude::*;
use vstd::string::*;
use crate::sorted_map::SortedMap;
use crate::text::{
    has_char, lemma_first_index, ascii_lower, decimal, eq_ignore_ascii_case, parse_u16, parse_u64, parse_unsigned, push_char,
    push_decimal, split_once, split_once_char, str_eq, to_ascii_lowercase, trim, trim_str,
};

verus! {

/// The settings of a session.
#[derive(Debug, Clone, PartialEq, Eq)]
pub struct Config {
    pub host: String,
    pub port: u16,
    pub socket: Option<String>,
    pub user: String,
    pub pass: Option<String>,
    pub db: String,
    pub delay: u64,
    pub nocolor: bool,
    pub batchmode: bool,
    pub prompt_password: bool,
    pub mode: String,
    pub sort: String,
    pub filter_user: String,
    pub filter_db: String,
    pub filter_host: String,
}

/// The mathematical value of a `Config`.
pub struct ConfigView {
    pub host: Seq<char>,
    pub port: u16,
    pub socket: Option<Seq<char>>,
    pub user: Seq<char>,
    pub pass: Option<Seq<char>>,
    pub db: Seq<char>,
    pub delay: u64,
    pub nocolor: bool,
    pub batchmode: bool,
    pub prompt_password: bool,
    pub mode: Seq<char>,
    pub sort: Seq<char>,
    pub filter_user: Seq<char>,
    pub filter_db: Seq<char>,
    pub filter_host: Seq<char>,
}

/// The view of an optional string.
pub open spec fn opt_view(o: Option<String>) -> Option<Seq<char>> {
    match o {
        Some(s) => Some(s@),
        None => None,
    }
}

impl View for Config {
    type V = ConfigView;

    open spec fn view(&self) -> ConfigView {
        ConfigView {
            host: self.host@,
            port: self.port,
            socket: opt_view(self.socket),
            user: self.user@,
            pass: opt_view(self.pass),
            db: self.db@,
            delay: self.delay,
            nocolor: self.nocolor,
            batchmode: self.batchmode,
            prompt_password: self.prompt_password,
            mode: self.mode@,
            sort: self.sort@,
            filter_user: self.filter_user@,
            filter_db: self.filter_db@,
            filter_host: self.filter_host@,
        }
    }
}

/// The settings before any file or option is read.
pub open spec fn default_config() -> ConfigView {
    ConfigView {
        host: "127.0.0.1"@,
        port: 3306,
        socket: None,
        user: "root"@,
        pass: None,
        db: "test"@,
        delay: 5,
        nocolor: false,
        batchmode: false,
        prompt_password: false,
        mode: "top"@,
        sort: "0"@,
        filter_user: Seq::empty(),
        filter_db: Seq::empty(),
        filter_host: Seq::empty(),
    }
}

impl Default for Config {
    fn default() -> (r: Self)
        ensures
            r@ == default_config(),
    {
        Config {
            host: String::from_str("127.0.0.1"),
            port: 3306,
            socket: None,
            user: String::from_str("root"),
            pass: None,
            db: String::from_str("test"),
            delay: 5,
            nocolor: false,
            batchmode: false,
            prompt_password: false,
            mode: String::from_str("top"),
            sort: String::from_str("0"),
            filter_user: String::new(),
            filter_db: String::new(),
            filter_host: String::new(),
        }
    }
}

/// The text split at each `\n`; a `\r` before it stays on the line, where trimming removes it.
pub open spec fn split_lines(s: Seq<char>) -> Seq<Seq<char>>
    decreases s.len(),
{
    if s.len() == 0 {
        seq![Seq::empty()]
    } else {
        let before = split_lines(s.drop_last());
        if s.last() == '\n' {
            before.push(Seq::empty())
        } else {
            before.update(before.len() - 1, before.last().push(s.last()))
        }
    }
}

/// The setting a configuration line holds: after trimming, a line that is empty, starts with
/// `#` or has no `=` holds none; otherwise the trimmed, lower-cased text before the first `=`
/// names the setting and the trimmed text after it is its value.
pub open spec fn config_line(line: Seq<char>) -> Option<(Seq<char>, Seq<char>)> {
    let t = trim(line);
    if t.len() == 0 || t[0] == '#' {
        None
    } else {
        match split_once(t, '=') {
            Some((k, v)) => Some((ascii_lower(trim(k)), trim(v))),
            None => None,
        }
    }
}

/// The settings of the lines in order; a later line wins over an earlier one.
pub open spec fn config_lines_map(lines: Seq<Seq<char>>) -> Map<Seq<char>, Seq<char>>
    decreases lines.len(),
{
    if lines.len() == 0 {
        Map::empty()
    } else {
        let before = config_lines_map(lines.drop_last());
        match config_line(lines.last()) {
            Some((k, v)) => before.insert(k, v),
            None => before,
        }
    }
}

fn parse_config_line(line: &str) -> (r: Option<(String, String)>)
    ensures
        match r {
            Some((k, v)) => config_line(line@) == Some((k@, v@)),
            None => config_line(line@) is None,
        },
{
    let t = trim_str(line);
    if t.unicode_len() == 0 || t.get_char(0) == '#' {
        return None;
    }
    match split_once_char(t, '=') {
        Some((k, v)) => Some((to_ascii_lowercase(trim_str(k)), String::from_str(trim_str(v)))),
        None => None,
    }
}

/// Reads `key = value` settings, one per line; blank lines, `#` comments and lines without `=`
/// are skipped, and keys are lower-cased.
pub fn parse_kv_config(content: &str) -> (r: SortedMap<String>)
    ensures
        r@ == config_lines_map(split_lines(content@)),
{
    let n = content.unicode_len();
    let mut out: SortedMap<String> = SortedMap::new();
    let mut cur = String::new();
    let ghost mut done: Seq<Seq<char>> = Seq::empty();
    let mut i: usize = 0;
    proof {
        assert(content@.subrange(0, 0) == Seq::<char>::empty());
        assert(done.push(cur@) == seq![Seq::<char>::empty()]);
    }
    while i < n
        invariant
            n == content@.len(),
            i <= n,
            split_lines(content@.subrange(0, i as int)) == done.push(cur@),
            out@ == config_lines_map(done),
        decreases n - i,
    {
        let c = content.get_char(i);
        proof {
            let pre = content@.subrange(0, i + 1);
            assert(pre.drop_last() == content@.subrange(0, i as int));
            assert(pre.last() == c);
        }
        if c == '\n' {
            match parse_config_line(cur.as_str()) {
                Some((k, v)) => out.insert(k, v),
                None => {},
            }
            proof {
                let d2 = done.push(cur@);
                assert(d2.drop_last() == done);
                assert(d2.last() == cur@);
                done = d2;
            }
            cur = String::new();
        } else {
            let ghost old_cur = cur@;
            push_char(&mut cur, c);
            proof {
                assert(done.push(old_cur).update(done.len() as int, old_cur.push(c)) == done.push(cur@));
            }
        }
        i = i + 1;
    }
    match parse_config_line(cur.as_str()) {
        Some((k, v)) => out.insert(k, v),
        None => {},
    }
    proof {
        let d2 = done.push(cur@);
        assert(d2.drop_last() == done);
        assert(content@.subrange(0, n as int) == content@);
    }
    out
}

/// What a command-line argument is.
pub enum ArgKind {
    /// A switch that sets `key` to `value`.
    Switch(Seq<char>, Seq<char>),
    /// An option that is accepted and has no effect.
    Skip,
    /// An option that sets `key` to the argument after it.
    Valued(Seq<char>),
    /// An unknown option.
    Unknown,
    /// Anything else, which is passed over.
    Positional,
}

/// The kind of a command-line argument.
pub open spec fn arg_kind(a: Seq<char>) -> ArgKind {
    if a == "--help"@ {
        ArgKind::Switch("help"@, "true"@)
    } else if a == "--color"@ {
        ArgKind::Switch("nocolor"@, "false"@)
    } else if a == "--nocolor"@ {
        ArgKind::Switch("nocolor"@, "true"@)
    } else if a == "--batch"@ || a == "--batchmode"@ || a == "-b"@ {
        ArgKind::Switch("batchmode"@, "true"@)
    } else if a == "--prompt"@ {
        ArgKind::Switch("prompt"@, "true"@)
    } else if a == "--header"@ || a == "--idle"@ || a == "--resolve"@ || a == "--long"@ {
        ArgKind::Skip
    } else if a == "--user"@ || a == "-u"@ {
        ArgKind::Valued("user"@)
    } else if a == "--pass"@ || a == "--password"@ || a == "-p"@ {
        ArgKind::Valued("pass"@)
    } else if a == "--database"@ || a == "--db"@ || a == "-d"@ {
        ArgKind::Valued("db"@)
    } else if a == "--host"@ || a == "-h"@ {
        ArgKind::Valued("host"@)
    } else if a == "--port"@ || a == "-P"@ {
        ArgKind::Valued("port"@)
    } else if a == "--socket"@ || a == "-S"@ {
        ArgKind::Valued("socket"@)
    } else if a == "--delay"@ || a == "-s"@ {
        ArgKind::Valued("delay"@)
    } else if a == "--mode"@ || a == "-m"@ {
        ArgKind::Valued("mode"@)
    } else if a == "--sort"@ {
        ArgKind::Valued("sort"@)
    } else if a == "--filter-user"@ {
        ArgKind::Valued("filter_user"@)
    } else if a == "--filter-db"@ {
        ArgKind::Valued("filter_db"@)
    } else if a == "--filter-host"@ {
        ArgKind::Valued("filter_host"@)
    } else if a.len() > 0 && a[0] == '-' {
        ArgKind::Unknown
    } else {
        ArgKind::Positional
    }
}

/// Whether an argument reads as an option.
pub open spec fn is_option_like(a: Seq<char>) -> bool {
    a.len() > 0 && a[0] == '-'
}

/// The settings read from the arguments from position `i` on, added to `m`; or the message for
/// the first unknown option or option without its value.
pub open spec fn cli_settings(args: Seq<Seq<char>>, i: int, m: Map<Seq<char>, Seq<char>>) -> Result<
    Map<Seq<char>, Seq<char>>,
    Seq<char>,
>
    decreases args.len() - i,
{
    if i < 0 || i >= args.len() {
        Ok(m)
    } else {
        match arg_kind(args[i]) {
            ArgKind::Switch(k, v) => cli_settings(args, i + 1, m.insert(k, v)),
            ArgKind::Skip => cli_settings(args, i + 1, m),
            ArgKind::Positional => cli_settings(args, i + 1, m),
            ArgKind::Valued(k) => if i + 1 < args.len() && !is_option_like(args[i + 1]) {
                cli_settings(args, i + 2, m.insert(k, args[i + 1]))
            } else {
                Err("Missing value for option: "@ + args[i])
            },
            ArgKind::Unknown => Err("Unknown option: "@ + args[i]),
        }
    }
}

/// The views of a sequence of strings.
pub open spec fn arg_views(args: Seq<String>) -> Seq<Seq<char>> {
    args.map_values(|s: String| s@)
}

enum ArgClass {
    Switch(&'static str, &'static str),
    Skip,
    Valued(&'static str),
    Unknown,
    Positional,
}

spec fn class_view(c: ArgClass) -> ArgKind {
    match c {
        ArgClass::Switch(k, v) => ArgKind::Switch(k@, v@),
        ArgClass::Skip => ArgKind::Skip,
        ArgClass::Valued(k) => ArgKind::Valued(k@),
        ArgClass::Unknown => ArgKind::Unknown,
        ArgClass::Positional => ArgKind::Positional,
    }
}

fn classify(a: &str) -> (r: ArgClass)
    ensures
        class_view(r) == arg_kind(a@),
{
    if str_eq(a, "--help") {
        ArgClass::Switch("help", "true")
    } else if str_eq(a, "--color") {
        ArgClass::Switch("nocolor", "false")
    } else if str_eq(a, "--nocolor") {
        ArgClass::Switch("nocolor", "true")
    } else if str_eq(a, "--batch") || str_eq(a, "--batchmode") || str_eq(a, "-b") {
        ArgClass::Switch("batchmode", "true")
    } else if str_eq(a, "--prompt") {
        ArgClass::Switch("prompt", "true")
    } else if str_eq(a, "--header") || str_eq(a, "--idle") || str_eq(a, "--resolve") || str_eq(
        a,
        "--long",
    ) {
        ArgClass::Skip
    } else if str_eq(a, "--user") || str_eq(a, "-u") {
        ArgClass::Valued("user")
    } else if str_eq(a, "--pass") || str_eq(a, "--password") || str_eq(a, "-p") {
        ArgClass::Valued("pass")
    } else if str_eq(a, "--database") || str_eq(a, "--db") || str_eq(a, "-d") {
        ArgClass::Valued("db")
    } else if str_eq(a, "--host") || str_eq(a, "-h") {
        ArgClass::Valued("host")
    } else if str_eq(a, "--port") || str_eq(a, "-P") {
        ArgClass::Valued("port")
    } else if str_eq(a, "--socket") || str_eq(a, "-S") {
        ArgClass::Valued("socket")
    } else if str_eq(a, "--delay") || str_eq(a, "-s") {
        ArgClass::Valued("delay")
    } else if str_eq(a, "--mode") || str_eq(a, "-m") {
        ArgClass::Valued("mode")
    } else if str_eq(a, "--sort") {
        ArgClass::Valued("sort")
    } else if str_eq(a, "--filter-user") {
        ArgClass::Valued("filter_user")
    } else if str_eq(a, "--filter-db") {
        ArgClass::Valued("filter_db")
    } else if str_eq(a, "--filter-host") {
        ArgClass::Valued("filter_host")
    } else if a.unicode_len() > 0 && a.get_char(0) == '-' {
        ArgClass::Unknown
    } else {
        ArgClass::Positional
    }
}

/// The argument after position `idx` as the value of option `flag`, when there is one and it
/// does not read as an option.
fn next_value(args: &[String], idx: usize, flag: &str) -> (r: Result<String, String>)
    requires
        idx < args@.len(),
    ensures
        match r {
            Ok(v) => idx + 1 < args@.len() && !is_option_like(args@[idx + 1]@) && v@ == args@[idx
                + 1]@,
            Err(e) => !(idx + 1 < args@.len() && !is_option_like(args@[idx + 1]@)) && e@
                == "Missing value for option: "@ + flag@,
        },
{
    if args.len() - idx > 1 {
        let v = &args[idx + 1];
        let vs = v.as_str();
        if !(vs.unicode_len() > 0 && vs.get_char(0) == '-') {
            return Ok(v.clone());
        }
    }
    let mut e = String::from_str("Missing value for option: ");
    e.append(flag);
    Err(e)
}

/// Reads the command-line options into settings; fails on an unknown option or an option
/// without its value.
pub fn parse_cli_args(args: &[String]) -> (r: Result<SortedMap<String>, String>)
    ensures
        match cli_settings(arg_views(args@), 0, Map::empty()) {
            Ok(m) => r matches Ok(out) && out@ == m,
            Err(e) => r matches Err(msg) && msg@ == e,
        },
{
    let ghost av = arg_views(args@);
    let mut out: SortedMap<String> = SortedMap::new();
    let n = args.len();
    let mut i: usize = 0;
    while i < n
        invariant
            n == args@.len(),
            av == arg_views(args@),
            av.len() == n,
            i <= n,
            cli_settings(av, 0, Map::empty()) == cli_settings(av, i as int, out@),
        decreases n - i,
    {
        let arg = args[i].as_str();
        proof {
            assert(av[i as int] == arg@);
        }
        match classify(arg) {
            ArgClass::Switch(k, v) => {
                out.insert(String::from_str(k), String::from_str(v));
                i = i + 1;
            },
            ArgClass::Skip => {
                i = i + 1;
            },
            ArgClass::Positional => {
                i = i + 1;
            },
            ArgClass::Valued(k) => {
                match next_value(args, i, arg) {
                    Ok(value) => {
                        proof {
                            assert(av[i + 1] == args@[i + 1]@);
                        }
                        out.insert(String::from_str(k), value);
                        i = i + 2;
                    },
                    Err(e) => {
                        proof {
                            if i + 1 < n {
                                assert(av[i + 1] == args@[i + 1]@);
                            }
                        }
                        return Err(e);
                    },
                }
            },
            ArgClass::Unknown => {
                let mut e = String::from_str("Unknown option: ");
                e.append(arg);
                return Err(e);
            },
        }
    }
    Ok(out)
}

/// Whether a setting's value reads as true: `1`, or `true` in any case.
pub open spec fn truthy(v: Seq<char>) -> bool {
    v == "1"@ || ascii_lower(v) == ascii_lower("true"@)
}

fn truthy_exec(v: &str) -> (r: bool)
    ensures
        r == truthy(v@),
{
    str_eq(v, "1") || eq_ignore_ascii_case(v, "true")
}

/// A text setting: the map's value where it has one, else the current value.
pub open spec fn text_setting(m: Map<Seq<char>, Seq<char>>, key: Seq<char>, cur: Seq<char>) -> Seq<
    char,
> {
    if m.contains_key(key) {
        m[key]
    } else {
        cur
    }
}

/// An optional text setting.
pub open spec fn opt_setting(
    m: Map<Seq<char>, Seq<char>>,
    key: Seq<char>,
    cur: Option<Seq<char>>,
) -> Option<Seq<char>> {
    if m.contains_key(key) {
        Some(m[key])
    } else {
        cur
    }
}

/// A number setting: the map's value where it has one that parses below `max`, else the current
/// value.
pub open spec fn number_setting(m: Map<Seq<char>, Seq<char>>, key: Seq<char>, max: nat, cur: nat) -> nat {
    if m.contains_key(key) {
        match parse_unsigned(m[key], max) {
            Some(v) => v,
            None => cur,
        }
    } else {
        cur
    }
}

/// A switch setting.
pub open spec fn bool_setting(m: Map<Seq<char>, Seq<char>>, key: Seq<char>, cur: bool) -> bool {
    if m.contains_key(key) {
        truthy(m[key])
    } else {
        cur
    }
}

/// The settings after applying the map `m` of named values to `c`.
pub open spec fn apply_settings(c: ConfigView, m: Map<Seq<char>, Seq<char>>) -> ConfigView {
    ConfigView {
        host: text_setting(m, "host"@, c.host),
        port: number_setting(m, "port"@, u16::MAX as nat, c.port as nat) as u16,
        socket: opt_setting(m, "socket"@, c.socket),
        user: text_setting(m, "user"@, c.user),
        pass: opt_setting(m, "pass"@, c.pass),
        db: text_setting(m, "db"@, c.db),
        delay: number_setting(m, "delay"@, u64::MAX as nat, c.delay as nat) as u64,
        nocolor: bool_setting(m, "nocolor"@, c.nocolor),
        batchmode: bool_setting(m, "batchmode"@, c.batchmode),
        prompt_password: bool_setting(m, "prompt"@, c.prompt_password),
        mode: text_setting(m, "mode"@, c.mode),
        sort: text_setting(m, "sort"@, c.sort),
        filter_user: text_setting(m, "filter_user"@, c.filter_user),
        filter_db: text_setting(m, "filter_db"@, c.filter_db),
        filter_host: text_setting(m, "filter_host"@, c.filter_host),
    }
}

fn set_text(src: &SortedMap<String>, key: &str, cur: &mut String)
    ensures
        final(cur)@ == text_setting(src@, key@, old(cur)@),
{
    if let Some(v) = src.get(key) {
        *cur = v.clone();
    }
}

fn set_opt(src: &SortedMap<String>, key: &str, cur: &mut Option<String>)
    ensures
        opt_view(*final(cur)) == opt_setting(src@, key@, opt_view(*old(cur))),
{
    if let Some(v) = src.get(key) {
        *cur = Some(v.clone());
    }
}

fn set_bool(src: &SortedMap<String>, key: &str, cur: &mut bool)
    ensures
        *final(cur) == bool_setting(src@, key@, *old(cur)),
{
    if let Some(v) = src.get(key) {
        *cur = truthy_exec(v.as_str());
    }
}

fn set_port(src: &SortedMap<String>, cur: &mut u16)
    ensures
        *final(cur) == number_setting(src@, "port"@, u16::MAX as nat, *old(cur) as nat) as u16,
{
    if let Some(v) = src.get("port") {
        if let Some(p) = parse_u16(v.as_str()) {
            *cur = p;
        }
    }
}

fn set_delay(src: &SortedMap<String>, cur: &mut u64)
    ensures
        *final(cur) == number_setting(src@, "delay"@, u64::MAX as nat, *old(cur) as nat) as u64,
{
    if let Some(v) = src.get("delay") {
        if let Some(d) = parse_u64(v.as_str()) {
            *cur = d;
        }
    }
}

fn apply_map(cfg: &mut Config, src: &SortedMap<String>)
    ensures
        final(cfg)@ == apply_settings(old(cfg)@, src@),
{
    set_text(src, "host", &mut cfg.host);
    set_port(src, &mut cfg.port);
    set_opt(src, "socket", &mut cfg.socket);
    set_text(src, "user", &mut cfg.user);
    set_opt(src, "pass", &mut cfg.pass);
    set_text(src, "db", &mut cfg.db);
    set_delay(src, &mut cfg.delay);
    set_bool(src, "nocolor", &mut cfg.nocolor);
    set_bool(src, "batchmode", &mut cfg.batchmode);
    set_bool(src, "prompt", &mut cfg.prompt_password);
    set_text(src, "mode", &mut cfg.mode);
    set_text(src, "sort", &mut cfg.sort);
    set_text(src, "filter_user", &mut cfg.filter_user);
    set_text(src, "filter_db", &mut cfg.filter_db);
    set_text(src, "filter_host", &mut cfg.filter_host);
}

/// The settings after the `host:port` form of the host is split and the delay raised to 1.
pub open spec fn finish_settings(c: ConfigView) -> ConfigView {
    let split = match split_once(c.host, ':') {
        Some((h, p)) => ConfigView {
            host: h,
            port: match parse_unsigned(p, u16::MAX as nat) {
                Some(v) => v as u16,
                None => c.port,
            },
            ..c
        },
        None => c,
    };
    ConfigView {
        delay: if split.delay >= 1 {
            split.delay
        } else {
            1
        },
        ..split
    }
}

/// The settings from defaults, file and command line, later sources winning.
pub open spec fn merged_config(
    defaults: ConfigView,
    file: Map<Seq<char>, Seq<char>>,
    cli: Map<Seq<char>, Seq<char>>,
) -> ConfigView {
    finish_settings(apply_settings(apply_settings(defaults, file), cli))
}

/// Merges the settings: defaults, then the config file, then the command line; a host given as
/// `host:port` also sets the port, and the delay is at least one second.
pub fn merge_config(defaults: Config, file: SortedMap<String>, cli: SortedMap<String>) -> (r:
    Config)
    ensures
        r@ == merged_config(defaults@, file@, cli@),
        r.delay >= 1,
{
    let mut cfg = defaults;
    apply_map(&mut cfg, &file);
    apply_map(&mut cfg, &cli);
    let host = cfg.host.clone();
    if let Some((h, p)) = split_once_char(host.as_str(), ':') {
        cfg.host = String::from_str(h);
        if let Some(port) = parse_u16(p) {
            cfg.port = port;
        }
    }
    if cfg.delay < 1 {
        cfg.delay = 1;
    }
    cfg
}

/// Keys are read interactively unless in batch mode.
pub fn use_interactive_keyboard(cfg: &Config) -> (r: bool)
    ensures
        r == !cfg.batchmode,
{
    !cfg.batchmode
}

/// Colors are used unless switched off or on Windows.
pub fn color_enabled(cfg: &Config, is_windows: bool) -> (r: bool)
    ensures
        r == (!cfg.nocolor && !is_windows),
{
    !cfg.nocolor && !is_windows
}

/// The DBI data source name of the settings: the socket where one is set, else host and port.
pub open spec fn dsn_of(c: ConfigView) -> Seq<char> {
    match c.socket {
        Some(socket) => "DBI:mysql:database="@ + c.db + ";mysql_read_default_group=mytop;mysql_socket="@
            + socket,
        None => "DBI:mysql:database="@ + c.db + ";mysql_read_default_group=mytop;host="@ + c.host
            + ";port="@ + decimal(c.port as nat),
    }
}

/// Builds the data source name.
pub fn build_dsn(cfg: &Config) -> (r: String)
    ensures
        r@ == dsn_of(cfg@),
{
    let mut s = String::from_str("DBI:mysql:database=");
    s.append(cfg.db.as_str());
    match &cfg.socket {
        Some(socket) => {
            s.append(";mysql_read_default_group=mytop;mysql_socket=");
            s.append(socket.as_str());
        },
        None => {
            s.append(";mysql_read_default_group=mytop;host=");
            s.append(cfg.host.as_str());
            s.append(";port=");
            push_decimal(&mut s, cfg.port as u64);
        },
    }
    s
}

/// An optional setting as printed: empty where it is not set.
pub open spec fn or_empty(o: Option<Seq<char>>) -> Seq<char> {
    match o {
        Some(s) => s,
        None => Seq::empty(),
    }
}

/// The message shown when the server cannot be reached.
pub open spec fn connection_error_text(c: ConfigView, err: Seq<char>) -> Seq<char> {
    "Cannot connect to MySQL server. Please check the:\n\n  * database you specified \""@ + c.db
        + "\" (default is \"test\")\n  * username you specified \""@ + c.user
        + "\" (default is \"root\")\n  * password you specified \""@ + or_empty(c.pass)
        + "\" (default is \"\")\n  * hostname you specified \""@ + c.host
        + "\" (default is \"localhost\")\n  * port you specified \""@ + decimal(c.port as nat)
        + "\" (default is 3306)\n  * socket you specified \""@ + or_empty(c.socket)
        + "\" (default is \"\")\n\nThe options may be specified on the command-line or in a ~/.mytop\nconfig file. See the manual for details.\n\nHere's the exact error from the Rust MySQL client:\n\n"@
        + err + "\n"@
}

fn append_opt(s: &mut String, o: &Option<String>)
    ensures
        final(s)@ == old(s)@ + or_empty(opt_view(*o)),
{
    match o {
        Some(v) => s.append(v.as_str()),
        None => {
            assert(old(s)@ + Seq::<char>::empty() == old(s)@);
        },
    }
}

/// The message for a failed connection, naming every setting that could be at fault.
pub fn connection_error_message(cfg: &Config, err: &str) -> (r: String)
    ensures
        r@ == connection_error_text(cfg@, err@),
{
    let mut s = String::from_str(
        "Cannot connect to MySQL server. Please check the:\n\n  * database you specified \"",
    );
    s.append(cfg.db.as_str());
    s.append("\" (default is \"test\")\n  * username you specified \"");
    s.append(cfg.user.as_str());
    s.append("\" (default is \"root\")\n  * password you specified \"");
    append_opt(&mut s, &cfg.pass);
    s.append("\" (default is \"\")\n  * hostname you specified \"");
    s.append(cfg.host.as_str());
    s.append("\" (default is \"localhost\")\n  * port you specified \"");
    push_decimal(&mut s, cfg.port as u64);
    s.append("\" (default is 3306)\n  * socket you specified \"");
    append_opt(&mut s, &cfg.socket);
    s.append(
        "\" (default is \"\")\n\nThe options may be specified on the command-line or in a ~/.mytop\nconfig file. See the manual for details.\n\nHere's the exact error from the Rust MySQL client:\n\n",
    );
    s.append(err);
    s.append("\n");
    s
}


/// The command line wins over the config file, which wins over the defaults, setting by
/// setting (the port too, where the host names none); the delay is never below one second.
pub proof fn law_later_sources_win(
    defaults: ConfigView,
    file: Map<Seq<char>, Seq<char>>,
    cli: Map<Seq<char>, Seq<char>>,
)
    ensures
        merged_config(defaults, file, cli).user == text_setting(cli, "user"@, text_setting(file, "user"@, defaults.user)),
        merged_config(defaults, file, cli).db == text_setting(cli, "db"@, text_setting(file, "db"@, defaults.db)),
        merged_config(defaults, file, cli).pass == opt_setting(cli, "pass"@, opt_setting(file, "pass"@, defaults.pass)),
        merged_config(defaults, file, cli).socket == opt_setting(cli, "socket"@, opt_setting(file, "socket"@, defaults.socket)),
        merged_config(defaults, file, cli).mode == text_setting(cli, "mode"@, text_setting(file, "mode"@, defaults.mode)),
        merged_config(defaults, file, cli).batchmode == bool_setting(cli, "batchmode"@, bool_setting(file, "batchmode"@, defaults.batchmode)),
        merged_config(defaults, file, cli).nocolor == bool_setting(cli, "nocolor"@, bool_setting(file, "nocolor"@, defaults.nocolor)),
        merged_config(defaults, file, cli).prompt_password == bool_setting(cli, "prompt"@, bool_setting(file, "prompt"@, defaults.prompt_password)),
        merged_config(defaults, file, cli).sort == text_setting(cli, "sort"@, text_setting(file, "sort"@, defaults.sort)),
        merged_config(defaults, file, cli).filter_user == text_setting(cli, "filter_user"@, text_setting(file, "filter_user"@, defaults.filter_user)),
        merged_config(defaults, file, cli).filter_db == text_setting(cli, "filter_db"@, text_setting(file, "filter_db"@, defaults.filter_db)),
        merged_config(defaults, file, cli).filter_host == text_setting(cli, "filter_host"@, text_setting(file, "filter_host"@, defaults.filter_host)),
        !has_char(text_setting(cli, "host"@, text_setting(file, "host"@, defaults.host)), ':')
            ==> merged_config(defaults, file, cli).host == text_setting(cli, "host"@, text_setting(file, "host"@, defaults.host)),
        !has_char(text_setting(cli, "host"@, text_setting(file, "host"@, defaults.host)), ':')
            ==> merged_config(defaults, file, cli).port as nat == number_setting(
            cli,
            "port"@,
            u16::MAX as nat,
            number_setting(file, "port"@, u16::MAX as nat, defaults.port as nat),
        ),
        merged_config(defaults, file, cli).delay as nat == (if number_setting(
            cli,
            "delay"@,
            u64::MAX as nat,
            number_setting(file, "delay"@, u64::MAX as nat, defaults.delay as nat),
        ) >= 1 {
            number_setting(
                cli,
                "delay"@,
                u64::MAX as nat,
                number_setting(file, "delay"@, u64::MAX as nat, defaults.delay as nat),
            )
        } else {
            1
        }),
        merged_config(defaults, file, cli).delay >= 1,
{
    lemma_first_index(text_setting(cli, "host"@, text_setting(file, "host"@, defaults.host)), ':');
}

/// The names that command-line options set.
pub open spec fn is_cli_key(k: Seq<char>) -> bool {
    ||| k == "help"@
    ||| k == "nocolor"@
    ||| k == "batchmode"@
    ||| k == "prompt"@
    ||| k == "user"@
    ||| k == "pass"@
    ||| k == "db"@
    ||| k == "host"@
    ||| k == "port"@
    ||| k == "socket"@
    ||| k == "delay"@
    ||| k == "mode"@
    ||| k == "sort"@
    ||| k == "filter_user"@
    ||| k == "filter_db"@
    ||| k == "filter_host"@
}

/// Reading the command line only ever sets the names of known settings.
pub proof fn law_cli_sets_known_keys(args: Seq<Seq<char>>, i: int, m: Map<Seq<char>, Seq<char>>)
    ensures
        cli_settings(args, i, m) matches Ok(r) ==> forall|k: Seq<char>|
            #[trigger] r.contains_key(k) ==> m.contains_key(k) || is_cli_key(k),
    decreases args.len() - i,
{
    if 0 <= i < args.len() {
        match arg_kind(args[i]) {
            ArgKind::Switch(k, v) => law_cli_sets_known_keys(args, i + 1, m.insert(k, v)),
            ArgKind::Skip => law_cli_sets_known_keys(args, i + 1, m),
            ArgKind::Positional => law_cli_sets_known_keys(args, i + 1, m),
            ArgKind::Valued(k) => {
                if i + 1 < args.len() && !is_option_like(args[i + 1]) {
                    law_cli_sets_known_keys(args, i + 2, m.insert(k, args[i + 1]));
                }
            },
            ArgKind::Unknown => {},
        }
    }
}

proof fn lemma_lower_idempotent(s: Seq<char>)
    ensures
        ascii_lower(ascii_lower(s)) == ascii_lower(s),
{
    assert(ascii_lower(ascii_lower(s)) =~= ascii_lower(s));
}

/// The names of config file settings are lower case.
pub proof fn law_config_keys_are_lower_case(lines: Seq<Seq<char>>)
    ensures
        forall|k: Seq<char>| #[trigger] config_lines_map(lines).contains_key(k) ==> ascii_lower(k) == k,
    decreases lines.len(),
{
    if lines.len() > 0 {
        law_config_keys_are_lower_case(lines.drop_last());
        if let Some((k, v)) = config_line(lines.last()) {
            let t = trim(lines.last());
            let (a, b) = split_once(t, '=').unwrap();
            assert(k == ascii_lower(trim(a)));
            lemma_lower_idempotent(trim(a));
            let before = config_lines_map(lines.drop_last());
            assert(config_lines_map(lines) == before.insert(k, v));
            assert forall|k2: Seq<char>| #[trigger] config_lines_map(lines).contains_key(k2) implies ascii_lower(k2) == k2 by {
                if k2 != k {
                    assert(before.contains_key(k2));
                }
            }
        }
    }
}

/// The lengths of the known options, and the characters that tell options of one length apart.
proof fn lemma_option_spellings()
    ensures
        "--help"@.len() == 6,
        "--help"@[2] == 'h',
        "--help"@[3] == 'e',
        "--color"@.len() == 7,
        "--color"@[2] == 'c',
        "--nocolor"@.len() == 9,
        "--nocolor"@[2] == 'n',
        "--batch"@.len() == 7,
        "--batch"@[2] == 'b',
        "--batchmode"@.len() == 11,
        "--batchmode"@[2] == 'b',
        "-b"@.len() == 2,
        "-b"@[1] == 'b',
        "--prompt"@.len() == 8,
        "--prompt"@[2] == 'p',
        "--header"@.len() == 8,
        "--header"@[2] == 'h',
        "--idle"@.len() == 6,
        "--idle"@[2] == 'i',
        "--resolve"@.len() == 9,
        "--resolve"@[2] == 'r',
        "--long"@.len() == 6,
        "--long"@[2] == 'l',
        "--user"@.len() == 6,
        "--user"@[2] == 'u',
        "-u"@.len() == 2,
        "-u"@[1] == 'u',
        "--pass"@.len() == 6,
        "--pass"@[2] == 'p',
        "--pass"@[3] == 'a',
        "--password"@.len() == 10,
        "--password"@[2] == 'p',
        "-p"@.len() == 2,
        "-p"@[1] == 'p',
        "--database"@.len() == 10,
        "--database"@[2] == 'd',
        "--db"@.len() == 4,
        "-d"@.len() == 2,
        "-d"@[1] == 'd',
        "--host"@.len() == 6,
        "--host"@[2] == 'h',
        "--host"@[3] == 'o',
        "-h"@.len() == 2,
        "-h"@[1] == 'h',
        "--port"@.len() == 6,
        "--port"@[2] == 'p',
        "--port"@[3] == 'o',
        "-P"@.len() == 2,
        "-P"@[1] == 'P',
        "--socket"@.len() == 8,
        "--socket"@[2] == 's',
        "-S"@.len() == 2,
        "-S"@[1] == 'S',
        "--delay"@.len() == 7,
        "--delay"@[2] == 'd',
        "-s"@.len() == 2,
        "-s"@[1] == 's',
        "--mode"@.len() == 6,
        "--mode"@[2] == 'm',
        "-m"@.len() == 2,
        "-m"@[1] == 'm',
        "--sort"@.len() == 6,
        "--sort"@[2] == 's',
        "--filter-user"@.len() == 13,
        "--filter-user"@[9] == 'u',
        "--filter-db"@.len() == 11,
        "--filter-db"@[2] == 'f',
        "--filter-host"@.len() == 13,
        "--filter-host"@[9] == 'h',
{
    reveal_strlit("--help");
    reveal_strlit("--color");
    reveal_strlit("--nocolor");
    reveal_strlit("--batch");
    reveal_strlit("--batchmode");
    reveal_strlit("-b");
    reveal_strlit("--prompt");
    reveal_strlit("--header");
    reveal_strlit("--idle");
    reveal_strlit("--resolve");
    reveal_strlit("--long");
    reveal_strlit("--user");
    reveal_strlit("-u");
    reveal_strlit("--pass");
    reveal_strlit("--password");
    reveal_strlit("-p");
    reveal_strlit("--database");
    reveal_strlit("--db");
    reveal_strlit("-d");
    reveal_strlit("--host");
    reveal_strlit("-h");
    reveal_strlit("--port");
    reveal_strlit("-P");
    reveal_strlit("--socket");
    reveal_strlit("-S");
    reveal_strlit("--delay");
    reveal_strlit("-s");
    reveal_strlit("--mode");
    reveal_strlit("-m");
    reveal_strlit("--sort");
    reveal_strlit("--filter-user");
    reveal_strlit("--filter-db");
    reveal_strlit("--filter-host");
}

/// What kind of argument each known option is.
proof fn lemma_option_kinds()
    ensures
        arg_kind("--help"@) == ArgKind::Switch("help"@, "true"@),
        arg_kind("--color"@) == ArgKind::Switch("nocolor"@, "false"@),
        arg_kind("--nocolor"@) == ArgKind::Switch("nocolor"@, "true"@),
        arg_kind("--batch"@) == ArgKind::Switch("batchmode"@, "true"@),
        arg_kind("--batchmode"@) == ArgKind::Switch("batchmode"@, "true"@),
        arg_kind("-b"@) == ArgKind::Switch("batchmode"@, "true"@),
        arg_kind("--prompt"@) == ArgKind::Switch("prompt"@, "true"@),
        arg_kind("--header"@) == ArgKind::Skip,
        arg_kind("--idle"@) == ArgKind::Skip,
        arg_kind("--resolve"@) == ArgKind::Skip,
        arg_kind("--long"@) == ArgKind::Skip,
        arg_kind("--user"@) == ArgKind::Valued("user"@),
        arg_kind("-u"@) == ArgKind::Valued("user"@),
        arg_kind("--pass"@) == ArgKind::Valued("pass"@),
        arg_kind("--password"@) == ArgKind::Valued("pass"@),
        arg_kind("-p"@) == ArgKind::Valued("pass"@),
        arg_kind("--database"@) == ArgKind::Valued("db"@),
        arg_kind("--db"@) == ArgKind::Valued("db"@),
        arg_kind("-d"@) == ArgKind::Valued("db"@),
        arg_kind("--host"@) == ArgKind::Valued("host"@),
        arg_kind("-h"@) == ArgKind::Valued("host"@),
        arg_kind("--port"@) == ArgKind::Valued("port"@),
        arg_kind("-P"@) == ArgKind::Valued("port"@),
        arg_kind("--socket"@) == ArgKind::Valued("socket"@),
        arg_kind("-S"@) == ArgKind::Valued("socket"@),
        arg_kind("--delay"@) == ArgKind::Valued("delay"@),
        arg_kind("-s"@) == ArgKind::Valued("delay"@),
        arg_kind("--mode"@) == ArgKind::Valued("mode"@),
        arg_kind("-m"@) == ArgKind::Valued("mode"@),
        arg_kind("--sort"@) == ArgKind::Valued("sort"@),
        arg_kind("--filter-user"@) == ArgKind::Valued("filter_user"@),
        arg_kind("--filter-db"@) == ArgKind::Valued("filter_db"@),
        arg_kind("--filter-host"@) == ArgKind::Valued("filter_host"@),
{
    lemma_option_spellings();
}

/// Each option that takes a value fills one setting with the argument after it, which must
/// not read as an option: `--user`/`-u` the user, `--pass`/`--password`/`-p` the password,
/// `--database`/`--db`/`-d` the database, `--host`/`-h` the host, `--port`/`-P` the port,
/// `--socket`/`-S` the socket, `--delay`/`-s` the refresh delay, `--mode`/`-m` the start mode,
/// `--sort` the sort order and `--filter-user`/`--filter-db`/`--filter-host` the filters;
/// reading then goes on after the value.
pub proof fn law_cli_value_options(
    args: Seq<Seq<char>>,
    i: int,
    m: Map<Seq<char>, Seq<char>>,
    a: Seq<char>,
    v: Seq<char>,
)
    requires
        0 <= i,
        i + 1 < args.len(),
        args[i] == a,
        args[i + 1] == v,
        !is_option_like(v),
    ensures
        (a == "--user"@ || a == "-u"@) ==> cli_settings(args, i, m) == cli_settings(
            args,
            i + 2,
            m.insert("user"@, v),
        ),
        (a == "--pass"@ || a == "--password"@ || a == "-p"@) ==> cli_settings(args, i, m)
            == cli_settings(args, i + 2, m.insert("pass"@, v)),
        (a == "--database"@ || a == "--db"@ || a == "-d"@) ==> cli_settings(args, i, m)
            == cli_settings(args, i + 2, m.insert("db"@, v)),
        (a == "--host"@ || a == "-h"@) ==> cli_settings(args, i, m) == cli_settings(
            args,
            i + 2,
            m.insert("host"@, v),
        ),
        (a == "--port"@ || a == "-P"@) ==> cli_settings(args, i, m) == cli_settings(
            args,
            i + 2,
            m.insert("port"@, v),
        ),
        (a == "--socket"@ || a == "-S"@) ==> cli_settings(args, i, m) == cli_settings(
            args,
            i + 2,
            m.insert("socket"@, v),
        ),
        (a == "--delay"@ || a == "-s"@) ==> cli_settings(args, i, m) == cli_settings(
            args,
            i + 2,
            m.insert("delay"@, v),
        ),
        (a == "--mode"@ || a == "-m"@) ==> cli_settings(args, i, m) == cli_settings(
            args,
            i + 2,
            m.insert("mode"@, v),
        ),
        a == "--sort"@ ==> cli_settings(args, i, m) == cli_settings(args, i + 2, m.insert("sort"@, v)),
        a == "--filter-user"@ ==> cli_settings(args, i, m) == cli_settings(
            args,
            i + 2,
            m.insert("filter_user"@, v),
        ),
        a == "--filter-db"@ ==> cli_settings(args, i, m) == cli_settings(
            args,
            i + 2,
            m.insert("filter_db"@, v),
        ),
        a == "--filter-host"@ ==> cli_settings(args, i, m) == cli_settings(
            args,
            i + 2,
            m.insert("filter_host"@, v),
        ),
{
    lemma_option_kinds();
}

/// The switches: `--batch`/`--batchmode`/`-b` turn batch mode on, `--nocolor` turns colors off
/// and `--color` on again, `--prompt` asks for the password and `--help` asks for help; the
/// display options `--header`, `--idle`, `--resolve` and `--long` are passed over.
pub proof fn law_cli_switches(args: Seq<Seq<char>>, i: int, m: Map<Seq<char>, Seq<char>>, a: Seq<char>)
    requires
        0 <= i < args.len(),
        args[i] == a,
    ensures
        (a == "--batch"@ || a == "--batchmode"@ || a == "-b"@) ==> cli_settings(args, i, m)
            == cli_settings(args, i + 1, m.insert("batchmode"@, "true"@)),
        a == "--nocolor"@ ==> cli_settings(args, i, m) == cli_settings(
            args,
            i + 1,
            m.insert("nocolor"@, "true"@),
        ),
        a == "--color"@ ==> cli_settings(args, i, m) == cli_settings(
            args,
            i + 1,
            m.insert("nocolor"@, "false"@),
        ),
        a == "--prompt"@ ==> cli_settings(args, i, m) == cli_settings(
            args,
            i + 1,
            m.insert("prompt"@, "true"@),
        ),
        a == "--help"@ ==> cli_settings(args, i, m) == cli_settings(
            args,
            i + 1,
            m.insert("help"@, "true"@),
        ),
        (a == "--header"@ || a == "--idle"@ || a == "--resolve"@ || a == "--long"@)
            ==> cli_settings(args, i, m) == cli_settings(args, i + 1, m),
{
    lemma_option_kinds();
}

/// An option that takes a value but stands last, or before another option, is refused with a
/// message naming it; so is an option that is not known.
pub proof fn law_cli_refusals(args: Seq<Seq<char>>, i: int, m: Map<Seq<char>, Seq<char>>)
    requires
        0 <= i < args.len(),
    ensures
        arg_kind(args[i]) is Valued && (i + 1 == args.len() || is_option_like(args[i + 1]))
            ==> cli_settings(args, i, m) == Err::<Map<Seq<char>, Seq<char>>, Seq<char>>(
            "Missing value for option: "@ + args[i],
        ),
        arg_kind(args[i]) is Unknown ==> cli_settings(args, i, m) == Err::<
            Map<Seq<char>, Seq<char>>,
            Seq<char>,
        >("Unknown option: "@ + args[i]),
{
}

} // verus!
