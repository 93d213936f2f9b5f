use rust_tor::channel::sock_addr_string;
use rust_tor::channel::ConnectStage;
use rust_tor::channel::Outcome;
use rust_tor::channel::TorChannel;
use rust_tor::circuit::select_circuit_host;
use rust_tor::config::default_toml_text;
use rust_tor::config::update_config;
use rust_tor::config::TomlValue;
use rust_tor::config::TorConfig;
use rust_tor::ds_load::build_snapshot;
use rust_tor::ds_load::consensus_url;
use rust_tor::ds_load::decode_snapshot;
use rust_tor::ds_load::encode_snapshot;
use rust_tor::ds_load::needs_refresh;
use rust_tor::ds_load::DSInfo;
use rust_tor::ds_load::HostInfo;
use rust_tor::ds_load::RefreshRetry;
use rust_tor::error::Error;
use rust_tor::error::ErrorKind;
use rust_tor::logger::rotated_file_path;
use rust_tor::logger::Log;
use rust_tor::logger::LogParams;
use rust_tor::scheduler::Scheduler;

fn empty_config() -> TorConfig {
    TorConfig {
        config_file: "tor.toml".to_string(),
        version: "".to_string(),
        directory_servers: Vec::new(),
        db_root: ".tor2".to_string(),
        ds_refresh_timeout: 1209600000,
        ds_refresh_frequency: 600000,
        mainlog: "main.log".to_string(),
        mainlog_rotationsize: 10485760,
        mainlog_rotationtime: 3600000,
        debug: false,
    }
}

#[test]
fn staleness_boundaries() {
    let t: u128 = 50_000;
    let r: u64 = 1_000;
    let snap = Some(DSInfo { hosts: Vec::new(), load_time: t });
    assert!(needs_refresh(&snap, t + (r as u128) + 1, r));
    assert!(!needs_refresh(&snap, t + (r as u128) - 1, r));
    assert!(!needs_refresh(&snap, t + (r as u128), r));
    assert!(needs_refresh(&None, 0, r));
}

#[test]
fn round_robin_selection() {
    let mut retry = RefreshRetry::new(10);
    let servers = 3usize;
    let mut seen: Vec<usize> = Vec::new();
    loop {
        seen.push(retry.server_index(servers));
        if retry.on_failure().is_none() {
            break;
        }
    }
    assert_eq!(seen, vec![0, 1, 2, 0, 1, 2, 0, 1, 2, 0]);
}

#[test]
fn retry_backoff_and_exhaustion() {
    let mut retry = RefreshRetry::new(5);
    let mut delays: Vec<u64> = Vec::new();
    while let Some(d) = retry.on_failure() {
        delays.push(d);
    }
    assert_eq!(delays, vec![100, 200, 400, 800]);
    assert!(retry.on_failure().is_none());
    let mut capped = RefreshRetry::new(16);
    let mut delays2: Vec<u64> = Vec::new();
    while let Some(d) = capped.on_failure() {
        delays2.push(d);
    }
    assert_eq!(delays2.len(), 15);
    assert_eq!(delays2[9], 51200);
    assert_eq!(delays2[10], 60000, "the backoff delay is capped");
    assert_eq!(delays2[14], 60000);
}

#[test]
fn race_timeout() {
    let mut chan: TorChannel<u64> = TorChannel::new();
    // The connector is still in flight when the timer's empty signal
    // arrives: no failure was recorded, so the outcome is a timeout.
    chan.resolve(None);
    match chan.outcome() {
        Outcome::Failed(e) => match e.kind {
            ErrorKind::TcpConnectError(m) => assert_eq!(m, "connect timeout"),
            _ => panic!("wrong error kind"),
        },
        Outcome::Connected(_) => panic!("timeout must not connect"),
    }
}

#[test]
fn race_success() {
    let mut chan: TorChannel<u64> = TorChannel::new();
    chan.resolve(Some(77));
    match chan.outcome() {
        Outcome::Connected(h) => assert_eq!(h, 77),
        Outcome::Failed(_) => panic!("a delivered handle must connect"),
    }
}

#[test]
fn race_classified_failure() {
    let mut chan: TorChannel<u64> = TorChannel::new();
    chan.record_failure(ConnectStage::Handshake);
    chan.resolve(None);
    match chan.outcome() {
        Outcome::Failed(e) => match e.kind {
            ErrorKind::TcpConnectError(m) => assert_eq!(m, "channel error"),
            _ => panic!("wrong error kind"),
        },
        Outcome::Connected(_) => panic!("a recorded failure must not connect"),
    }
}

#[test]
fn stage_messages() {
    let stages = vec![
        (ConnectStage::Dial, "no tls connector"),
        (ConnectStage::Certificate, "peer_cert error"),
        (ConnectStage::CertificatePresence, "peer_cert is_none"),
        (ConnectStage::Handshake, "channel error"),
        (ConnectStage::Verify, "channel error"),
        (ConnectStage::Finish, "channel finish error"),
    ];
    for (stage, want) in stages {
        let mut chan: TorChannel<u64> = TorChannel::new();
        chan.record_failure(stage);
        chan.resolve(None);
        match chan.outcome() {
            Outcome::Failed(e) => match e.kind {
                ErrorKind::TcpConnectError(m) => assert_eq!(m, want),
                _ => panic!("wrong error kind"),
            },
            Outcome::Connected(_) => panic!("must fail"),
        }
    }
}

#[test]
fn scheduler_stop_within_one_tick() {
    let mut s = Scheduler::new(600000, 100);
    let o1 = s.on_tick(false);
    assert!(!o1.exit);
    let o2 = s.on_tick(true);
    assert!(o2.exit);
    // The loop makes no further decision after the exit tick, and the
    // tick that observed the signal did not advance the count.
    assert_eq!(s.count, 1);
}

#[test]
fn scheduler_refresh_cadence() {
    // A 300 ms cadence on a 100 ms tick: a refresh is due every third
    // tick, never on the very first.
    let mut s = Scheduler::new(300, 100);
    let mut refreshes: Vec<u64> = Vec::new();
    for _ in 0..10 {
        let count_before = s.count;
        let o = s.on_tick(false);
        if o.refresh {
            refreshes.push(count_before);
        }
    }
    assert_eq!(refreshes, vec![3, 6, 9]);
}

#[test]
fn get_latest_scenario() {
    // A persisted snapshot 1500 ms old against a 1000 ms staleness
    // bound: exactly one refresh happens, and the returned snapshot's
    // load time has not moved backwards.
    let now: u128 = 2_000_000;
    let prior = DSInfo {
        hosts: vec![HostInfo { host: "10.0.0.1".to_string(), port: 443 }],
        load_time: now - 1500,
    };
    let stored = encode_snapshot(&prior).unwrap();
    let mut refresh_calls = 0;

    // The read side of get_latest_valid_dsinfo.
    let snapshot = Some(decode_snapshot(&stored).unwrap());
    let mut latest = snapshot;
    if needs_refresh(&latest, now, 1000) {
        // One refresh: fetch (simulated response), parse, persist.
        refresh_calls += 1;
        let response = "r a b c d e 10.0.0.2 80\n";
        let fresh = build_snapshot(response, now).unwrap();
        let bytes = encode_snapshot(&fresh).unwrap();
        latest = Some(decode_snapshot(&bytes).unwrap());
    }
    if needs_refresh(&latest, now, 1000) {
        refresh_calls += 1;
    }
    assert_eq!(refresh_calls, 1);
    let got = latest.unwrap();
    assert!(got.load_time >= now - 1500);
    assert_eq!(got.load_time, now);
}

#[test]
fn consensus_url_form() {
    assert_eq!(
        consensus_url("86.59.21.38"),
        "http://86.59.21.38/tor/status-vote/current/consensus/"
    );
}

#[test]
fn sock_addr_form() {
    assert_eq!(sock_addr_string("10.0.0.5", 9001), "10.0.0.5:9001");
    assert_eq!(sock_addr_string("127.0.0.1", 0), "127.0.0.1:0");
}

#[test]
fn circuit_host_selection() {
    let mut hosts = Vec::new();
    for i in 0..6 {
        hosts.push(HostInfo { host: format!("10.0.0.{}", i), port: 9000 + i as u16 });
    }
    let d = DSInfo { hosts, load_time: 1 };
    let h = select_circuit_host(&d).unwrap();
    assert_eq!(h.host, "10.0.0.5");
    assert_eq!(h.port, 9005);
    let short = DSInfo { hosts: vec![HostInfo { host: "1.2.3.4".to_string(), port: 1 }], load_time: 1 };
    let r = select_circuit_host(&short);
    assert!(matches!(r, Err(ref e) if matches!(e.kind, ErrorKind::RequestError(_))));
}

#[test]
fn config_update_accepts() {
    let mut config = empty_config();
    let value = TomlValue::Table(vec![(
        "general".to_string(),
        TomlValue::Table(vec![
            ("version".to_string(), TomlValue::Str("1.0.2".to_string())),
            (
                "directory_servers".to_string(),
                TomlValue::Arr(vec![
                    TomlValue::Str("45.66.33.45".to_string()),
                    TomlValue::Str("66.111.2.131".to_string()),
                ]),
            ),
        ]),
    )]);
    assert!(update_config(&mut config, &value).is_ok());
    assert_eq!(config.version, "1.0.2");
    assert_eq!(
        config.directory_servers,
        vec!["45.66.33.45".to_string(), "66.111.2.131".to_string()]
    );
    assert_eq!(config.db_root, ".tor2");
}

fn toml_error_message(r: Result<(), Error>) -> String {
    match r {
        Err(e) => match e.kind {
            ErrorKind::TomlError(m) => m,
            _ => panic!("wrong error kind"),
        },
        Ok(()) => panic!("must be rejected"),
    }
}

#[test]
fn config_update_rejections() {
    let mut config = empty_config();

    let not_table = TomlValue::Int(3);
    assert_eq!(toml_error_message(update_config(&mut config, &not_table)), "Invalid TOML File");

    let no_general = TomlValue::Table(vec![]);
    assert_eq!(
        toml_error_message(update_config(&mut config, &no_general)),
        "general section must be specified"
    );

    let no_version = TomlValue::Table(vec![("general".to_string(), TomlValue::Table(vec![]))]);
    assert_eq!(
        toml_error_message(update_config(&mut config, &no_version)),
        "general.version must be specified"
    );

    let version_not_string = TomlValue::Table(vec![(
        "general".to_string(),
        TomlValue::Table(vec![("version".to_string(), TomlValue::Int(1))]),
    )]);
    assert_eq!(
        toml_error_message(update_config(&mut config, &version_not_string)),
        "general.version must be a string"
    );

    let no_servers = TomlValue::Table(vec![(
        "general".to_string(),
        TomlValue::Table(vec![("version".to_string(), TomlValue::Str("1".to_string()))]),
    )]);
    assert_eq!(
        toml_error_message(update_config(&mut config, &no_servers)),
        "general.version must be a string"
    );

    let servers_not_array = TomlValue::Table(vec![(
        "general".to_string(),
        TomlValue::Table(vec![
            ("version".to_string(), TomlValue::Str("1".to_string())),
            ("directory_servers".to_string(), TomlValue::Boolean(true)),
        ]),
    )]);
    assert_eq!(
        toml_error_message(update_config(&mut config, &servers_not_array)),
        "general.directory_servers must be an array"
    );

    let mixed_array = TomlValue::Table(vec![(
        "general".to_string(),
        TomlValue::Table(vec![
            ("version".to_string(), TomlValue::Str("1".to_string())),
            (
                "directory_servers".to_string(),
                TomlValue::Arr(vec![
                    TomlValue::Str("a".to_string()),
                    TomlValue::Int(2),
                ]),
            ),
        ]),
    )]);
    assert_eq!(
        toml_error_message(update_config(&mut config, &mixed_array)),
        "general.directory_servers must be an array of strings"
    );

    // Rejections leave the config untouched.
    assert_eq!(config.version, "");
    assert!(config.directory_servers.is_empty());
}

#[test]
fn default_toml_round_trip_through_update() {
    let text = default_toml_text("0.0.1", "/tmp/dsdb");
    assert!(text.contains("version = \"0.0.1\""));
    assert!(text.contains("db_root = \"/tmp/dsdb\""));
    assert!(text.contains("ds_refresh_timeout = 1209600000"));
    assert!(text.contains("ds_refresh_frequency = 600000"));
    assert!(text.starts_with("\n#"));
}

#[test]
fn log_new_counts_header_once() {
    let (log, write_header) = Log::new(
        "main.log".to_string(),
        1000,
        3600000,
        false,
        "HEADER".to_string(),
        0,
        500,
    );
    assert!(write_header);
    let p = log.data.unwrap();
    assert_eq!(p.cur_size, 7);
    assert_eq!(p.init_age_millis, 500);
    assert!(p.show_stdout);
    let (log2, write_header2) = Log::new(
        "main.log".to_string(),
        1000,
        3600000,
        true,
        "HEADER".to_string(),
        321,
        500,
    );
    assert!(!write_header2);
    assert_eq!(log2.data.unwrap().cur_size, 321);
}

#[test]
fn log_size_accounting_and_rotation() {
    let mut p = LogParams {
        file_path: "main.log".to_string(),
        cur_size: 10,
        max_size: 100,
        init_age_millis: 0,
        max_age_millis: 1_000_000,
        file_header: "HDR".to_string(),
        show_timestamp: false,
        show_stdout: true,
    };
    // 10 + 20 + 1 newline = 31, below the rotation size.
    assert!(!p.log(20, 1));
    assert_eq!(p.cur_size, 31);
    // With timestamps 23 more bytes are counted per line.
    p.show_timestamp = true;
    assert!(!p.log(20, 2));
    assert_eq!(p.cur_size, 75);
    // Crossing the size bound rotates and restarts at the header.
    assert!(p.log(30, 3));
    assert_eq!(p.cur_size, 4);
    assert_eq!(p.init_age_millis, 3);
    // Crossing the age bound rotates too.
    let now_late = 3 + 1_000_001;
    assert!(p.log(1, now_late));
    assert_eq!(p.init_age_millis, now_late);
}

#[test]
fn log_update_flags() {
    let (mut log, _) = Log::new(
        "main.log".to_string(),
        1000,
        3600000,
        false,
        "H".to_string(),
        5,
        0,
    );
    assert!(log.update_show_timestamp(true).is_ok());
    assert!(log.update_show_stdout(false).is_ok());
    let p = log.data.unwrap();
    assert!(p.show_timestamp);
    assert!(!p.show_stdout);
}

#[test]
fn rotated_path_forms() {
    assert_eq!(
        rotated_file_path("logs/main.log", ".r_10_05_2026_12-00-00", 7),
        "logs/main.r_10_05_2026_12-00-00_7.log"
    );
    assert_eq!(rotated_file_path("mainlog", ".r", 0), "mainlog.r_0.log");
}

#[test]
fn error_kind_accessor() {
    let e = Error::from(ErrorKind::ConfigError("x".to_string()));
    assert!(matches!(e.kind(), ErrorKind::ConfigError(m) if m == "x"));
}
