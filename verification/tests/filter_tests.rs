use eas_listener::filter::{
    determine_filter_name, evaluate_action, match_filter, parse_filters, should_forward_alert,
    should_log_alert, should_relay_alert, FilterAction, RawFilter,
};

fn entry(name: &str, codes: &[&str], action: Option<&str>) -> RawFilter {
    RawFilter {
        name: Some(name.to_string()),
        event_codes: Some(codes.iter().map(|c| Some(c.to_string())).collect()),
        action: action.map(|a| a.to_string()),
    }
}

#[test]
fn first_matching_rule_wins() {
    let filters = parse_filters(&vec![
        entry("Tests", &["RWT", "RMT"], Some("ignore")),
        entry("Everything", &["*"], Some("log")),
    ]);
    assert_eq!(filters.len(), 2);
    assert_eq!(evaluate_action(&filters, "RWT"), FilterAction::Ignore);
    assert_eq!(evaluate_action(&filters, "TOR"), FilterAction::Log);
    assert_eq!(determine_filter_name(&filters, "rmt "), "Tests");
    assert_eq!(match_filter(&filters, "TOR").map(|r| r.name.clone()), Some("Everything".to_string()));
}

#[test]
fn no_rule_means_default_relay() {
    let filters = parse_filters(&vec![entry("Tests", &["RWT"], Some("Ignore"))]);
    assert_eq!(evaluate_action(&filters, "TOR"), FilterAction::Relay);
    assert_eq!(determine_filter_name(&filters, "TOR"), "Default Filter");
    assert!(should_relay_alert(&filters, "TOR"));
    assert!(should_log_alert(&filters, "TOR"));
    assert!(!should_forward_alert(&filters, "TOR"));
    assert!(match_filter(&filters, "TOR").is_none());
}

use eas_listener::filter::{
    install_filters, normalize_event_code, parse_action, EventCodeMatcher, FilterRule,
};

#[test]
fn event_codes_are_normalized() {
    assert_eq!(normalize_event_code(" tor "), "TOR");
    assert_eq!(normalize_event_code("RwT"), "RWT");
    assert_eq!(normalize_event_code("??w"), "??W");
    assert_eq!(normalize_event_code(""), "");
}

#[test]
fn actions_are_read_from_text() {
    assert_eq!(parse_action("ignore"), FilterAction::Ignore);
    assert_eq!(parse_action(" Relay "), FilterAction::Relay);
    assert_eq!(parse_action("LOG"), FilterAction::Log);
    assert_eq!(parse_action("Forward"), FilterAction::Forward);
    assert_eq!(parse_action("discard"), FilterAction::Relay);
    assert_eq!(parse_action(""), FilterAction::Relay);
}

#[test]
fn filter_match_is_stable_under_case() {
    let filters = parse_filters(&vec![
        entry("Tests", &["rwt", " Rmt "], Some("ignore")),
        entry("Tornado", &["TOR"], Some("forward")),
    ]);
    for code in ["RWT", "rwt", "Rwt", "rWT", " rwt  "] {
        assert_eq!(evaluate_action(&filters, code), FilterAction::Ignore, "{code}");
        assert_eq!(determine_filter_name(&filters, code), "Tests");
    }
    for code in ["TOR", "tor", "tOr"] {
        assert_eq!(evaluate_action(&filters, code), FilterAction::Forward, "{code}");
        assert!(should_forward_alert(&filters, code));
        assert!(!should_relay_alert(&filters, code));
        assert!(!should_log_alert(&filters, code));
    }
}

#[test]
fn derived_predicates_follow_the_action() {
    let filters = parse_filters(&vec![
        entry("I", &["AAA"], Some("ignore")),
        entry("L", &["BBB"], Some("log")),
        entry("R", &["CCC"], Some("relay")),
        entry("F", &["DDD"], Some("forward")),
    ]);
    let table = [
        ("AAA", false, false, false),
        ("BBB", true, false, false),
        ("CCC", true, false, true),
        ("DDD", false, true, false),
        ("EEE", true, false, true),
    ];
    for (code, log, forward, relay) in table {
        assert_eq!(should_log_alert(&filters, code), log, "{code}");
        assert_eq!(should_forward_alert(&filters, code), forward, "{code}");
        assert_eq!(should_relay_alert(&filters, code), relay, "{code}");
    }
}

#[test]
fn unusable_entries_are_skipped() {
    let entries = vec![
        RawFilter { name: None, event_codes: Some(vec![Some("TOR".into())]), action: None },
        RawFilter { name: Some("NoCodes".into()), event_codes: None, action: None },
        RawFilter {
            name: Some("Blank".into()),
            event_codes: Some(vec![Some("  ".into()), None, Some("".into())]),
            action: Some("log".into()),
        },
        RawFilter {
            name: Some("  Kept  ".into()),
            event_codes: Some(vec![None, Some(" svr ".into()), Some("*".into())]),
            action: None,
        },
    ];
    let filters = parse_filters(&entries);
    assert_eq!(filters.len(), 1);
    assert_eq!(filters[0].name, "Kept");
    assert_eq!(filters[0].action, FilterAction::Relay);
    assert_eq!(filters[0].matchers.len(), 2);
    assert!(matches!(&filters[0].matchers[0], EventCodeMatcher::Exact(c) if c == "SVR"));
    assert!(matches!(&filters[0].matchers[1], EventCodeMatcher::Wildcard));
    assert!(filters[0].matches("SVR"));
    assert!(filters[0].matches("ANY"));
}

#[test]
fn a_rule_matches_normalized_codes_only() {
    let rule = FilterRule {
        name: "T".into(),
        action: FilterAction::Log,
        matchers: vec![EventCodeMatcher::Exact("TOR".into())],
    };
    assert!(rule.matches("TOR"));
    assert!(!rule.matches("tor"));
    assert!(!rule.matches("TOA"));
    let none = FilterRule { name: "N".into(), action: FilterAction::Log, matchers: vec![] };
    assert!(!none.matches("TOR"));
}

#[test]
fn installing_replaces_the_list() {
    let mut table = parse_filters(&vec![entry("Old", &["*"], Some("ignore"))]);
    let new = parse_filters(&vec![entry("New", &["*"], Some("log"))]);
    install_filters(&mut table, new);
    assert_eq!(table.len(), 1);
    assert_eq!(table[0].name, "New");
    assert_eq!(evaluate_action(&table, "TOR"), FilterAction::Log);
    install_filters(&mut table, Vec::new());
    assert!(table.is_empty());
    assert_eq!(evaluate_action(&table, "TOR"), FilterAction::Relay);
}
