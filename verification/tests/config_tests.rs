use eas_listener::config::{
    parse_watched_fips, stream_urls_changed, Config, ConfigError, ReloadWatch,
};
use eas_listener::document::{parse_config_document, RawConfig};
use eas_listener::filter::FilterAction;

const DOCUMENT: &str = r#"{
    "SHARED_STATE_DIR": "/data",
    "DEDICATED_ALERT_LOG_FILE": "alerts.log",
    "SHOULD_LOG_ALL_ALERTS": true,
    "SHOULD_RELAY": true,
    "SHOULD_RELAY_ICECAST": true,
    "ICECAST_RELAY": "icecast://source:pw@relay.example:8000/eas",
    "ICECAST_INTRO": "/data/intro.wav",
    "SHOULD_RELAY_DASDEC": false,
    "TZ": "America/Chicago",
    "WATCHED_FIPS": "039173,,021111,039173",
    "ICECAST_STREAM_URL_ARRAY": ["http://radio.example/a.mp3", 7, "http://radio.example/b"],
    "MONITORING_BIND_ADDR": "0.0.0.0:8080",
    "MONITORING_MAX_LOGS": 250,
    "MONITORING_ACTIVITY_WINDOW_SECS": 0,
    "USE_REVERSE_PROXY": false,
    "ALERT_LOG_FILE": "listener.log",
    "APPRISE_CONFIG_PATH": "/data/apprise.yml",
    "MONITORING_BIND_PORT": 70000,
    "DASHBOARD_USERNAME": "operator",
    "LOCAL_DEEPLINK_HOST": "  eas.lan  ",
    "FILTERS": [
        {"name": "TestSkip", "event_codes": ["RWT", "rmt"], "action": "Ignore"},
        {"name": "NoCodes", "action": "log"},
        17,
        {"name": " Watches ", "event_codes": ["*", 3]}
    ]
}"#;

fn raw() -> RawConfig {
    parse_config_document(DOCUMENT).expect("the document is well formed")
}

#[test]
fn the_document_is_read_key_by_key() {
    let r = raw();
    assert_eq!(r.shared_state_dir.as_deref(), Some("/data"));
    assert_eq!(r.should_relay, Some(true));
    assert_eq!(r.should_relay_dasdec, Some(false));
    assert_eq!(r.dasdec_url, None);
    assert_eq!(r.monitoring_max_logs, Some(250));
    assert_eq!(r.monitoring_bind_port, Some(70000));
    assert_eq!(
        r.icecast_stream_url_array,
        Some(vec![
            Some("http://radio.example/a.mp3".to_string()),
            None,
            Some("http://radio.example/b".to_string())
        ])
    );
    let filters = r.filters.expect("the document holds a filter list");
    assert_eq!(filters.len(), 4);
    assert_eq!(filters[0].name.as_deref(), Some("TestSkip"));
    assert_eq!(filters[0].event_codes, Some(vec![Some("RWT".to_string()), Some("rmt".to_string())]));
    assert_eq!(filters[0].action.as_deref(), Some("Ignore"));
    assert_eq!(filters[1].event_codes, None);
    assert_eq!(filters[2].name, None);
    assert_eq!(filters[3].event_codes, Some(vec![Some("*".to_string()), None]));
    assert_eq!(filters[3].action, None);
}

#[test]
fn text_that_is_no_document_is_refused() {
    assert!(parse_config_document("{ not json").is_none());
    assert!(parse_config_document("").is_none());
    let empty = parse_config_document("{}").expect("an empty object is a document");
    assert_eq!(empty.shared_state_dir, None);
    assert!(empty.filters.is_none());
    let array = parse_config_document("[1, 2]").expect("an array is a document");
    assert_eq!(array.should_relay, None);
    let wrong = parse_config_document(r#"{"SHOULD_RELAY": "yes", "TZ": 5}"#).unwrap();
    assert_eq!(wrong.should_relay, None);
    assert_eq!(wrong.tz, None);
}

#[test]
fn a_snapshot_is_made_from_the_document() {
    let c = Config::from_config_json(&raw(), None, true).expect("the document is acceptable");
    assert_eq!(c.shared_state_dir, "/data");
    assert_eq!(c.dedicated_alert_log_file, "alerts.log");
    assert!(c.should_log_all_alerts && c.should_relay && c.should_relay_icecast);
    assert!(!c.should_relay_dasdec);
    assert_eq!(c.icecast_relay, "icecast://source:pw@relay.example:8000/eas");
    assert_eq!(c.icecast_intro, "/data/intro.wav");
    assert_eq!(c.icecast_outro, "");
    assert_eq!(c.dasdec_url, "");
    assert_eq!(c.timezone, "America/Chicago");
    assert_eq!(c.watched_fips, vec!["039173", "021111"]);
    assert_eq!(c.recording_dir, "recordings");
    assert_eq!(c.icecast_stream_urls, vec!["http://radio.example/a.mp3", "http://radio.example/b"]);
    assert_eq!(c.monitoring_bind_addr, "0.0.0.0:8080");
    assert_eq!(c.monitoring_max_log_entries, 250);
    assert_eq!(c.monitoring_activity_window_secs, 1);
    assert!(!c.use_reverse_proxy);
    assert_eq!(c.alert_log_file, "listener.log");
    assert_eq!(c.apprise_config_path, "/data/apprise.yml");
    assert_eq!(c.monitoring_bind_port, 4464);
    assert_eq!(c.ws_reverse_proxy_url, "localhost");
    assert_eq!(c.dashboard_username, "operator");
    assert_eq!(c.dashboard_password, "password");
    assert_eq!(c.eas_relay_name, "WAGSENDC");
    assert_eq!(c.reverse_proxy_url, "localhost");
    assert_eq!(c.local_deeplink_host, "eas.lan");
    assert_eq!(c.web_server_port, "3010");
    assert_eq!(c.log_level, "INFO");
    assert_eq!(c.filters.len(), 2);
    assert_eq!(c.filters[0].name, "TestSkip");
    assert_eq!(c.filters[0].action, FilterAction::Ignore);
    assert_eq!(c.filters[1].name, "Watches");
    assert_eq!(c.filters[1].action, FilterAction::Relay);
}

#[test]
fn defaults_and_the_environment() {
    let mut r = raw();
    r.tz = Some("Nowhere/Land".to_string());
    r.monitoring_max_logs = None;
    r.monitoring_activity_window_secs = None;
    r.monitoring_bind_port = None;
    r.local_deeplink_host = None;
    r.watched_fips = None;
    r.should_relay_icecast = Some(false);
    r.filters = None;
    let c = Config::from_config_json(&r, Some("   "), true).unwrap();
    assert_eq!(c.timezone, "UTC");
    assert_eq!(c.monitoring_max_log_entries, 500);
    assert_eq!(c.monitoring_activity_window_secs, 45);
    assert_eq!(c.monitoring_bind_port, 8080);
    assert_eq!(c.local_deeplink_host, "auto");
    assert!(c.watched_fips.is_empty());
    assert_eq!(c.icecast_intro, "");
    assert!(c.filters.is_empty());
    let c = Config::from_config_json(&r, Some(" 10.0.0.5 "), true).unwrap();
    assert_eq!(c.local_deeplink_host, "10.0.0.5");
    r.tz = None;
    assert_eq!(Config::from_config_json(&r, None, true).unwrap().timezone, "UTC");
    r.tz = Some("america/chicago".to_string());
    assert_eq!(Config::from_config_json(&r, None, true).unwrap().timezone, "UTC");
    r.tz = Some("Europe/Berlin".to_string());
    assert_eq!(Config::from_config_json(&r, None, true).unwrap().timezone, "Europe/Berlin");
    assert_eq!(Config::assemble(&r, None, true, false).unwrap().timezone, "UTC");
    assert_eq!(Config::assemble(&r, None, true, true).unwrap().timezone, "Europe/Berlin");
}

fn refused(change: impl Fn(&mut RawConfig), bind_addr_valid: bool) -> ConfigError {
    let mut r = raw();
    change(&mut r);
    Config::from_config_json(&r, None, bind_addr_valid).expect_err("the document is refused")
}

#[test]
fn each_reason_to_refuse_a_document() {
    assert_eq!(refused(|r| r.shared_state_dir = None, true), ConfigError::MissingSharedStateDir);
    assert_eq!(
        refused(|r| r.dedicated_alert_log_file = None, true),
        ConfigError::MissingDedicatedAlertLogFile
    );
    assert_eq!(refused(|r| r.should_log_all_alerts = None, true), ConfigError::BadShouldLogAllAlerts);
    assert_eq!(refused(|r| r.should_relay = None, true), ConfigError::BadShouldRelay);
    assert_eq!(refused(|r| r.should_relay_icecast = None, true), ConfigError::BadShouldRelayIcecast);
    assert_eq!(refused(|r| r.should_relay_dasdec = None, true), ConfigError::BadShouldRelayDasdec);
    assert_eq!(refused(|r| r.icecast_relay = None, true), ConfigError::MissingIcecastRelay);
    assert_eq!(refused(|r| r.icecast_relay = Some(String::new()), true), ConfigError::MissingIcecastRelay);
    assert_eq!(refused(|r| r.icecast_stream_url_array = None, true), ConfigError::MissingStreamUrls);
    assert_eq!(
        refused(|r| r.icecast_stream_url_array = Some(vec![None, None]), true),
        ConfigError::NoStreamUrls
    );
    assert_eq!(refused(|r| r.monitoring_bind_addr = None, true), ConfigError::MissingBindAddr);
    assert_eq!(refused(|_| {}, false), ConfigError::BadBindAddr);
    assert_eq!(refused(|r| r.use_reverse_proxy = None, true), ConfigError::BadUseReverseProxy);
    assert_eq!(refused(|r| r.alert_log_file = None, true), ConfigError::MissingAlertLogFile);
    assert_eq!(refused(|r| r.apprise_config_path = None, true), ConfigError::MissingAppriseConfigPath);
}

#[test]
fn the_first_reason_is_the_one_reported() {
    let e = refused(
        |r| {
            r.apprise_config_path = None;
            r.should_relay = None;
            r.shared_state_dir = None;
        },
        false,
    );
    assert_eq!(e, ConfigError::MissingSharedStateDir);
    let e = refused(
        |r| {
            r.apprise_config_path = None;
            r.use_reverse_proxy = None;
        },
        false,
    );
    assert_eq!(e, ConfigError::BadBindAddr);
    assert_eq!(
        ConfigError::NoStreamUrls.message(),
        "ICECAST_STREAM_URL_ARRAY must contain at least one stream URL"
    );
    assert_eq!(
        ConfigError::BadBindAddr.message(),
        "MONITORING_BIND_ADDR must be a valid socket address"
    );
}

#[test]
fn an_icecast_relay_is_asked_for_only_where_it_is_used() {
    let mut r = raw();
    r.icecast_relay = None;
    r.should_relay = Some(false);
    let c = Config::from_config_json(&r, None, true).unwrap();
    assert_eq!(c.icecast_relay, "");
    assert_eq!(c.icecast_intro, "");
}

#[test]
fn watched_zones_are_a_set() {
    assert_eq!(parse_watched_fips("039173,021111"), vec!["039173", "021111"]);
    assert_eq!(parse_watched_fips(",,039173,,039173,"), vec!["039173"]);
    assert!(parse_watched_fips("").is_empty());
    assert_eq!(parse_watched_fips(" 039173"), vec![" 039173"]);
    assert_eq!(parse_watched_fips("b,a,b,,a,c"), vec!["b", "a", "c"]);
}

#[test]
fn a_reload_with_other_streams_is_noticed() {
    let a = Config::from_config_json(&raw(), None, true).unwrap();
    let mut r = raw();
    r.watched_fips = Some("000000".to_string());
    let b = Config::from_config_json(&r, None, true).unwrap();
    assert!(!stream_urls_changed(&a, &b));
    r.icecast_stream_url_array = Some(vec![Some("http://radio.example/a.mp3".to_string())]);
    let c = Config::from_config_json(&r, None, true).unwrap();
    assert!(stream_urls_changed(&a, &c));
}

#[test]
fn a_reload_follows_a_newer_signal() {
    let mut w = ReloadWatch::new();
    assert!(w.reload_due(100));
    assert!(!w.reload_due(100));
    assert!(!w.reload_due(99));
    assert!(w.reload_due(101));
    assert_eq!(w.last_seen_modified, Some(101));
    let mut z = ReloadWatch::new();
    assert!(z.reload_due(0));
    assert!(!z.reload_due(0));
}
