use eas_listener::filter::{parse_filters, RawFilter};
use eas_listener::state::{copy_rules, ActiveAlert, AppState, EasAlertData};

fn alert(header: &str, purge: u64, now: i64) -> ActiveAlert {
    ActiveAlert::new(
        EasAlertData {
            eas_text: String::new(),
            event_text: "Test".into(),
            event_code: "RWT".into(),
            fips: vec![],
            locations: String::new(),
            originator: "WXR".into(),
        },
        header.to_string(),
        purge,
        now,
    )
}

fn headers(state: &AppState) -> Vec<String> {
    state.active_alerts.iter().map(|a| a.raw_header.clone()).collect()
}

#[test]
fn an_alert_expires_after_its_purge_time() {
    let a = alert("H", 1800, 100);
    assert_eq!(a.received_at, 100);
    assert_eq!(a.expires_at, 1900);
    assert_eq!(a.purge_time, 1800);
    assert!(a.expires_at > a.received_at);
    let z = alert("H", 0, 100);
    assert_eq!(z.expires_at, 100);
    let early = alert("H", 10, -100);
    assert_eq!(early.expires_at, -90);
    let far = alert("H", u64::MAX, i64::MIN);
    assert_eq!(far.expires_at, i64::MAX);
}

#[test]
fn inserting_evicts_expired_and_same_header() {
    let mut state = AppState::new(Vec::new());
    state.insert_alert(alert("A", 10, 0), 0);
    state.insert_alert(alert("B", 100, 0), 0);
    state.insert_alert(alert("C", 100, 5), 5);
    assert_eq!(headers(&state), vec!["A", "B", "C"]);
    state.insert_alert(alert("B", 100, 10), 10);
    assert_eq!(headers(&state), vec!["C", "B"]);
    assert_eq!(state.active_alerts[1].received_at, 10);
    state.insert_alert(alert("D", 1, 104), 104);
    assert_eq!(headers(&state), vec!["C", "B", "D"]);
    state.insert_alert(alert("E", 1, 105), 105);
    assert_eq!(headers(&state), vec!["B", "E"]);
}

#[test]
fn no_two_active_alerts_share_a_header() {
    let mut state = AppState::new(Vec::new());
    for (i, h) in ["A", "B", "A", "C", "B", "A"].iter().enumerate() {
        state.insert_alert(alert(h, 1000, i as i64), i as i64);
        let mut seen = headers(&state);
        seen.sort();
        let before = seen.len();
        seen.dedup();
        assert_eq!(before, seen.len());
    }
    assert_eq!(headers(&state), vec!["C", "B", "A"]);
}

#[test]
fn sweeping_removes_what_has_expired() {
    let mut state = AppState::new(Vec::new());
    state.insert_alert(alert("A", 10, 0), 0);
    state.insert_alert(alert("B", 20, 0), 0);
    state.insert_alert(alert("C", 30, 0), 0);
    assert_eq!(state.sweep(9), 0);
    assert_eq!(state.sweep(10), 1);
    assert_eq!(headers(&state), vec!["B", "C"]);
    assert!(state.active_alerts.iter().all(|a| a.expires_at > 10));
    assert_eq!(state.sweep(30), 2);
    assert!(state.active_alerts.is_empty());
    assert_eq!(state.sweep(31), 0);
}

#[test]
fn filters_travel_with_the_state() {
    let one = parse_filters(&vec![RawFilter {
        name: Some("One".into()),
        event_codes: Some(vec![Some("TOR".into()), Some("*".into())]),
        action: Some("log".into()),
    }]);
    let mut state = AppState::new(copy_rules(&one));
    let got = state.cloned_filters();
    assert_eq!(got.len(), 1);
    assert_eq!(got[0].name, "One");
    assert_eq!(got[0].action, one[0].action);
    assert_eq!(got[0].matchers.len(), 2);
    state.insert_alert(alert("A", 10, 0), 0);
    state.update_filters(Vec::new());
    assert!(state.cloned_filters().is_empty());
    assert_eq!(state.active_alerts.len(), 1);
}
