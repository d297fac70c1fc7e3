use mytop_tui::data::{
    DatabaseClient, PollState, ProcessRow, SQL_SHOW_ENGINE_INNODB_STATUS,
    SQL_SHOW_FULL_PROCESSLIST, SQL_SHOW_STATUS, SQL_SHOW_VARIABLES, compute_status_delta,
    count_of, finish_poll, poll_client, record_poll, status_to_u64_map, update_caches,
};
use mytop_tui::sorted_map::SortedMap;

struct MockClient {
    processlist: Vec<ProcessRow>,
    status: SortedMap<String>,
    variables: SortedMap<String>,
    innodb_status: String,
    fail_status: bool,
}

impl DatabaseClient for MockClient {
    fn show_full_processlist(&mut self) -> Result<Vec<ProcessRow>, String> {
        Ok(self.processlist.clone())
    }

    fn show_status(&mut self) -> Result<SortedMap<String>, String> {
        if self.fail_status {
            Err("Lost connection".to_string())
        } else {
            Ok(self.status.clone())
        }
    }

    fn show_variables(&mut self) -> Result<SortedMap<String>, String> {
        Ok(self.variables.clone())
    }

    fn show_engine_innodb_status(&mut self) -> Result<String, String> {
        Ok(self.innodb_status.clone())
    }
}

fn texts(pairs: &[(&str, &str)]) -> SortedMap<String> {
    let mut m = SortedMap::new();
    for (k, v) in pairs {
        m.insert(k.to_string(), v.to_string());
    }
    m
}

fn sample_row() -> ProcessRow {
    ProcessRow {
        id: 7,
        user: "alice".into(),
        host: "db01:43021".into(),
        db: Some("app".into()),
        command: "Query".into(),
        time: 3,
        state: Some("executing".into()),
        info: Some("select 1".into()),
    }
}

#[test]
fn sql_constants_match_expected_queries() {
    assert_eq!(SQL_SHOW_FULL_PROCESSLIST, "SHOW FULL PROCESSLIST");
    assert_eq!(SQL_SHOW_STATUS, "SHOW STATUS");
    assert_eq!(SQL_SHOW_VARIABLES, "SHOW VARIABLES");
    assert_eq!(SQL_SHOW_ENGINE_INNODB_STATUS, "SHOW ENGINE INNODB STATUS");
}

#[test]
fn record_poll_updates_caches() {
    let status = texts(&[("Questions", "101"), ("Threads_connected", "8")]);
    let mut state = PollState::new();
    let delta = record_poll(&mut state, &[sample_row()], &status);
    assert_eq!(state.qcache.get(&7).map(|e| e.sql.as_str()), Some("select 1"));
    assert_eq!(state.ucache.get(&7), Some(&"alice".to_string()));
    assert_eq!(state.dbcache.get(&7), Some(&"app".to_string()));
    assert_eq!(delta.get("Questions"), Some(&0));
    assert_eq!(count_of(&state.statcache, "Threads_connected"), 8);
    let again = record_poll(&mut state, &[], &texts(&[("Questions", "130")]));
    assert_eq!(again.get("Questions"), Some(&29));
}

#[test]
fn delta_is_saturating() {
    let mut state = PollState::new();
    let first = record_poll(&mut state, &[], &texts(&[("Questions", "50")]));
    assert_eq!(first.get("Questions"), Some(&0));
    let second = record_poll(&mut state, &[], &texts(&[("Questions", "49")]));
    assert_eq!(second.get("Questions"), Some(&0));
    let third = record_poll(&mut state, &[], &texts(&[("Questions", "60")]));
    assert_eq!(third.get("Questions"), Some(&11));
}

#[test]
fn non_numeric_status_is_dropped() {
    let m = status_to_u64_map(&texts(&[("Ssl_cipher", "AES"), ("Uptime", "12"), ("Neg", "-1")]));
    assert_eq!(m.len(), 1);
    assert_eq!(m.get("Uptime"), Some(&12));
    let mut prev = SortedMap::new();
    prev.insert("Uptime".to_string(), 20u64);
    let d = compute_status_delta(&prev, &m);
    assert_eq!(d.get("Uptime"), Some(&0));
    assert_eq!(d.len(), 1);
}

#[test]
fn caches_are_rebuilt_each_poll() {
    let mut state = PollState::new();
    update_caches(&mut state, &[sample_row()], &SortedMap::new());
    let mut other = sample_row();
    other.id = 8;
    other.db = None;
    other.info = None;
    update_caches(&mut state, &[other], &SortedMap::new());
    assert!(state.qcache.is_empty());
    assert!(state.dbcache.is_empty());
    assert_eq!(state.ucache.len(), 1);
    assert_eq!(state.ucache.get(&8), Some(&"alice".to_string()));
}

#[test]
fn poll_once_updates_caches_and_snapshot() {
    let mut client = MockClient {
        processlist: vec![ProcessRow {
            id: 7,
            user: "alice".into(),
            host: "db01:43021".into(),
            db: Some("app".into()),
            command: "Query".into(),
            time: 3,
            state: Some("executing".into()),
            info: Some("select 1".into()),
        }],
        status: texts(&[("Questions", "101"), ("Threads_connected", "8")]),
        variables: texts(&[("autocommit", "ON")]),
        innodb_status: "ok".into(),
        fail_status: false,
    };

    let mut state = PollState::new();
    let (snapshot, _delta) = poll_client(&mut client, &mut state).unwrap();

    assert_eq!(snapshot.processlist.len(), 1);
    assert_eq!(snapshot.variables.get("autocommit"), Some(&"ON".to_string()));
    assert_eq!(state.qcache.get(&7).map(|e| e.sql.as_str()), Some("select 1"));
    assert_eq!(state.ucache.get(&7), Some(&"alice".to_string()));
    assert_eq!(state.dbcache.get(&7), Some(&"app".to_string()));
    assert_eq!(snapshot.innodb_status, "ok");
}

#[test]
fn delta_is_saturating_and_timing_is_robust() {
    let mut client = MockClient {
        processlist: vec![],
        status: texts(&[("Questions", "50")]),
        variables: SortedMap::new(),
        innodb_status: String::new(),
        fail_status: false,
    };
    let mut state = PollState::new();

    let (_, first) = poll_client(&mut client, &mut state).unwrap();
    assert_eq!(first.get("Questions"), Some(&0));

    client.status = texts(&[("Questions", "49")]);
    let (_, second) = poll_client(&mut client, &mut state).unwrap();

    assert_eq!(second.get("Questions"), Some(&0));
}

#[test]
fn failed_poll_leaves_state_unchanged() {
    let mut client = MockClient {
        processlist: vec![sample_row()],
        status: texts(&[("Questions", "5")]),
        variables: SortedMap::new(),
        innodb_status: String::new(),
        fail_status: false,
    };
    let mut state = PollState::new();
    poll_client(&mut client, &mut state).unwrap();
    client.fail_status = true;
    client.processlist = vec![];
    let err = poll_client(&mut client, &mut state).unwrap_err();
    assert_eq!(err, "Lost connection");
    assert_eq!(state.ucache.get(&7), Some(&"alice".to_string()));
    assert_eq!(count_of(&state.statcache, "Questions"), 5);
}

#[test]
fn finish_poll_records_all_four_answers() {
    let mut state = PollState::new();
    let (snapshot, delta) = finish_poll(
        &mut state,
        vec![sample_row()],
        texts(&[("Questions", "12")]),
        texts(&[("autocommit", "ON")]),
        "innodb ok".to_string(),
    );
    assert_eq!(snapshot.processlist, vec![sample_row()]);
    assert_eq!(snapshot.status.get("Questions"), Some(&"12".to_string()));
    assert_eq!(snapshot.variables.get("autocommit"), Some(&"ON".to_string()));
    assert_eq!(snapshot.innodb_status, "innodb ok");
    assert_eq!(delta.get("Questions"), Some(&0));
    assert_eq!(state.ucache.get(&7), Some(&"alice".to_string()));
    let (_, later) = finish_poll(
        &mut state,
        vec![],
        texts(&[("Questions", "20")]),
        SortedMap::new(),
        String::new(),
    );
    assert_eq!(later.get("Questions"), Some(&8));
    assert!(state.ucache.is_empty());
}

#[test]
fn counter_seen_first_in_later_poll_counts_whole_value() {
    let mut state = PollState::new();
    let first = record_poll(&mut state, &[], &texts(&[("Questions", "10")]));
    assert_eq!(first.get("Questions"), Some(&0));
    let second = record_poll(&mut state, &[], &texts(&[("Questions", "15"), ("Slow_queries", "4")]));
    assert_eq!(second.get("Questions"), Some(&5));
    assert_eq!(second.get("Slow_queries"), Some(&4));
}
