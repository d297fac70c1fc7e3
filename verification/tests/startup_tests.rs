use mytop_tui::sorted_map::SortedMap;
use mytop_tui::startup::{
    Config, build_dsn, color_enabled, connection_error_message, merge_config, parse_cli_args,
    parse_kv_config, use_interactive_keyboard,
};

#[test]
fn merges_default_file_and_cli() {
    let defaults = Config::default();
    let file = parse_kv_config("host=db.internal\nport=3307\nuser=alice\ndb=stage");
    let cli = parse_kv_config("host=db.prod:4406\nuser=bob\nprompt=true\ndelay=2");

    let cfg = merge_config(defaults, file, cli);

    assert_eq!(cfg.host, "db.prod");
    assert_eq!(cfg.port, 4406);
    assert_eq!(cfg.user, "bob");
    assert_eq!(cfg.db, "stage");
    assert_eq!(cfg.delay, 2);
    assert!(cfg.prompt_password);
}

#[test]
fn dsn_prefers_socket() {
    let cfg = Config {
        socket: Some("/tmp/mysql.sock".to_string()),
        ..Config::default()
    };
    assert_eq!(
        build_dsn(&cfg),
        "DBI:mysql:database=test;mysql_read_default_group=mytop;mysql_socket=/tmp/mysql.sock"
    );
}

#[test]
fn interactive_and_color_flags_work() {
    let cfg = Config::default();
    assert!(use_interactive_keyboard(&cfg));
    assert!(color_enabled(&cfg, false));
    assert!(!color_enabled(&cfg, true));
}

#[test]
fn parse_kv_config_skips_comments_and_invalid_lines() {
    let parsed = parse_kv_config(
        "
                # comment
                host = db.local
                invalid-line
                nocolor=true
            ",
    );

    assert_eq!(parsed.get("host"), Some(&"db.local".to_string()));
    assert_eq!(parsed.get("nocolor"), Some(&"true".to_string()));
    assert!(!parsed.contains_key("invalid-line"));
}

#[test]
fn merge_config_parses_boolean_and_handles_invalid_port() {
    let defaults = Config::default();
    let file = parse_kv_config(
        "port=not-a-number\nbatchmode=1\nnocolor=false\nsocket=/var/lib/mysql.sock\npass=s3cr3t",
    );
    let cli = parse_kv_config("nocolor=true");

    let cfg = merge_config(defaults, file, cli);
    assert_eq!(cfg.port, 3306);
    assert!(cfg.batchmode);
    assert!(cfg.nocolor);
    assert_eq!(cfg.socket, Some("/var/lib/mysql.sock".to_string()));
    assert_eq!(cfg.pass, Some("s3cr3t".to_string()));
    assert!(!use_interactive_keyboard(&cfg));
}

#[test]
fn build_dsn_uses_host_and_port_when_socket_missing() {
    let cfg = Config {
        host: "db.example".to_string(),
        port: 3308,
        user: "alice".to_string(),
        db: "app".to_string(),
        ..Config::default()
    };
    assert_eq!(
        build_dsn(&cfg),
        "DBI:mysql:database=app;mysql_read_default_group=mytop;host=db.example;port=3308"
    );
}

#[test]
fn parse_cli_args_maps_short_and_long_options() {
    let args = vec![
        "-u".to_string(),
        "alice".to_string(),
        "--db".to_string(),
        "prod".to_string(),
        "--filter-host".to_string(),
        "db01".to_string(),
        "--batch".to_string(),
    ];

    let parsed = parse_cli_args(&args).unwrap();
    assert_eq!(parsed.get("user"), Some(&"alice".to_string()));
    assert_eq!(parsed.get("db"), Some(&"prod".to_string()));
    assert_eq!(parsed.get("filter_host"), Some(&"db01".to_string()));
    assert_eq!(parsed.get("batchmode"), Some(&"true".to_string()));
}

#[test]
fn parse_cli_args_rejects_unknown_or_missing_values() {
    let args = vec!["--wat".to_string()];
    assert!(parse_cli_args(&args).is_err());

    let args = vec!["--user".to_string()];
    assert!(parse_cli_args(&args).is_err());
}

#[test]
fn connection_error_contains_key_config_values() {
    let cfg = Config {
        host: "db.prod".to_string(),
        port: 3310,
        user: "alice".to_string(),
        pass: Some("secret".to_string()),
        db: "analytics".to_string(),
        socket: Some("/tmp/mysql.sock".to_string()),
        ..Config::default()
    };

    let msg = connection_error_message(&cfg, "access denied");
    assert!(msg.contains("analytics"));
    assert!(msg.contains("alice"));
    assert!(msg.contains("access denied"));
    assert!(msg.contains("/tmp/mysql.sock"));
}

#[test]
fn startup_delay_has_minimum_of_one() {
    let defaults = Config::default();
    let file = parse_kv_config("delay=0");
    let cfg = merge_config(defaults, file, SortedMap::new());
    assert_eq!(cfg.delay, 1);
}

#[test]
fn defaults_are_as_documented() {
    let cfg = Config::default();
    assert_eq!(cfg.host, "127.0.0.1");
    assert_eq!(cfg.port, 3306);
    assert_eq!(cfg.user, "root");
    assert_eq!(cfg.db, "test");
    assert_eq!(cfg.delay, 5);
    assert_eq!(cfg.mode, "top");
    assert_eq!(cfg.sort, "0");
    assert_eq!(cfg.socket, None);
}

#[test]
fn cli_error_messages_and_switches() {
    let args = vec!["--wat".to_string()];
    assert_eq!(parse_cli_args(&args).err(), Some("Unknown option: --wat".to_string()));
    let args = vec!["-u".to_string(), "-d".to_string()];
    assert_eq!(parse_cli_args(&args).err(), Some("Missing value for option: -u".to_string()));
    let args = vec![
        "positional".to_string(),
        "--idle".to_string(),
        "--color".to_string(),
        "--help".to_string(),
        "-P".to_string(),
        "3310".to_string(),
        "--nocolor".to_string(),
    ];
    let parsed = parse_cli_args(&args).unwrap();
    assert_eq!(parsed.get("nocolor"), Some(&"true".to_string()));
    assert_eq!(parsed.get("help"), Some(&"true".to_string()));
    assert_eq!(parsed.get("port"), Some(&"3310".to_string()));
    assert_eq!(parsed.len(), 3);
}

#[test]
fn kv_config_later_lines_win_and_keys_are_lower_cased() {
    let parsed = parse_kv_config("HOST=a\r\nhost = b\n#host=c\nuser==x\n");
    assert_eq!(parsed.get("host"), Some(&"b".to_string()));
    assert_eq!(parsed.get("user"), Some(&"=x".to_string()));
    assert_eq!(parsed.len(), 2);
}

#[test]
fn merge_config_truthy_values_and_port_split() {
    let file = parse_kv_config("nocolor=TRUE\nbatchmode=yes\nhost=h:notaport\nport=4000");
    let cfg = merge_config(Config::default(), file, SortedMap::new());
    assert!(cfg.nocolor);
    assert!(!cfg.batchmode);
    assert_eq!(cfg.host, "h");
    assert_eq!(cfg.port, 4000);
    let msg = connection_error_message(&Config::default(), "boom");
    assert!(msg.starts_with("Cannot connect to MySQL server. Please check the:\n\n  * database you specified \"test\""));
    assert!(msg.contains("port you specified \"3306\""));
    assert!(msg.ends_with("boom\n"));
}
