use eas_listener::alerts::{
    alert_log_line, day_flag_for, decoder_failure_text, fallback_alert_data, flag_file_name,
    is_alert_relevant, plan_dispatch, receive_alert, tone_alert_data, wait_is_over, DayFlag,
    DispatchPlan, FlagFile, FlagFiles, FlagStep, WaitEvent,
};
use eas_listener::filter::{parse_filters, RawFilter};
use eas_listener::recording::{
    event_code_from_header, next_available_recording_path, plan_recording, RecordingReason,
    RecordingState, RecordingTable,
};
use eas_listener::state::{ActiveAlert, AppState, EasAlertData};

const TOR_HEADER: &str = "ZCZC-WXR-TOR-039173+0030-2451830-KXYZ/NWS-";

fn data(code: &str, fips: &[&str]) -> EasAlertData {
    EasAlertData {
        eas_text: format!("text for {code}"),
        event_text: code.to_string(),
        event_code: code.to_string(),
        fips: fips.iter().map(|f| f.to_string()).collect(),
        locations: "Somewhere".to_string(),
        originator: "WXR".to_string(),
    }
}

fn alert(code: &str, header: &str, fips: &[&str], purge: u64, now: i64) -> ActiveAlert {
    ActiveAlert::new(data(code, fips), header.to_string(), purge, now)
}

fn watched(list: &[&str]) -> Vec<String> {
    list.iter().map(|f| f.to_string()).collect()
}

#[test]
fn relevance_rules() {
    let d = data("TOR", &["039173", "039049"]);
    assert!(is_alert_relevant(&d, &watched(&[])));
    assert!(is_alert_relevant(&d, &watched(&["000000"])));
    assert!(is_alert_relevant(&d, &watched(&["", "021111"])));
    assert!(is_alert_relevant(&d, &watched(&["021111", "039049"])));
    assert!(!is_alert_relevant(&d, &watched(&["021111"])));
    assert!(is_alert_relevant(&data("TOR", &["000000"]), &watched(&["021111"])));
    assert!(!is_alert_relevant(&data("TOR", &[]), &watched(&["021111"])));
    assert!(is_alert_relevant(&data("TOR", &[]), &watched(&[])));
}

#[test]
fn relevance_is_repeatable() {
    let d = data("TOR", &["039173"]);
    for w in [watched(&[]), watched(&["039173"]), watched(&["021111"])] {
        assert_eq!(is_alert_relevant(&d, &w), is_alert_relevant(&d, &w));
    }
}

#[test]
fn day_flags_follow_the_active_alerts() {
    let mk = |codes: &[&str]| -> Vec<ActiveAlert> {
        codes.iter().enumerate().map(|(i, c)| alert(c, &format!("H{i}"), &[], 60, 0)).collect()
    };
    assert_eq!(day_flag_for(&mk(&[])), DayFlag::Clear);
    assert_eq!(day_flag_for(&mk(&["RWT"])), DayFlag::Clear);
    assert_eq!(day_flag_for(&mk(&["SVA"])), DayFlag::Rainy);
    assert_eq!(day_flag_for(&mk(&["SVA", "SVR"])), DayFlag::Severe);
    assert_eq!(day_flag_for(&mk(&["TOR"])), DayFlag::Severe);
    assert_eq!(day_flag_for(&mk(&["RWT", " TOA "])), DayFlag::Severe);
    assert_eq!(day_flag_for(&mk(&["sva"])), DayFlag::Clear);
    assert!(DayFlag::Severe.severe_file() && !DayFlag::Severe.rainy_file());
    assert!(!DayFlag::Rainy.severe_file() && DayFlag::Rainy.rainy_file());
    assert!(!DayFlag::Clear.severe_file() && !DayFlag::Clear.rainy_file());
}

#[test]
fn tornado_warning_for_a_watched_zone() {
    let mut state = AppState::new(Vec::new());
    let a = alert("TOR", TOR_HEADER, &["039173"], 1800, 1_000);
    assert!(receive_alert(&mut state, &watched(&["039173"]), a, 1_000));
    assert_eq!(state.active_alerts.len(), 1);
    assert_eq!(state.active_alerts[0].raw_header, TOR_HEADER);
    assert_eq!(state.active_alerts[0].expires_at, 2_800);
    let flag = day_flag_for(&state.active_alerts);
    assert!(flag.severe_file());
    assert!(!flag.rainy_file());
    let plan = plan_recording(TOR_HEADER, "http://radio.example/kxyz.mp3", "2024-09-01_18-30-00", &vec![]);
    assert_eq!(plan.event_code, "TOR");
    assert_eq!(plan.stream_label, "KXYZ");
    assert_eq!(plan.file_name, "EAS_Recording_TOR_2024-09-01_18-30-00_KXYZ.wav");
}

#[test]
fn tornado_warning_for_another_zone() {
    let mut state = AppState::new(Vec::new());
    let a = alert("TOR", TOR_HEADER, &["039173"], 1800, 1_000);
    assert!(!receive_alert(&mut state, &watched(&["021111"]), a, 1_000));
    assert!(state.active_alerts.is_empty());
    let flag = day_flag_for(&state.active_alerts);
    assert!(!flag.severe_file());
    assert!(!flag.rainy_file());
    let table = RecordingTable::new();
    assert!(!table.is_recording("http://radio.example/kxyz.mp3"));
}

#[test]
fn two_identical_bursts_two_seconds_apart() {
    let mut state = AppState::new(Vec::new());
    let w = watched(&["039173"]);
    assert!(receive_alert(&mut state, &w, alert("TOR", TOR_HEADER, &["039173"], 1800, 1_000), 1_000));
    assert!(receive_alert(&mut state, &w, alert("TOR", TOR_HEADER, &["039173"], 1800, 1_002), 1_002));
    assert_eq!(state.active_alerts.len(), 1);
    assert_eq!(state.active_alerts[0].received_at, 1_002);
    assert_eq!(state.active_alerts[0].expires_at, 2_802);
    let code = event_code_from_header(TOR_HEADER);
    let first = next_available_recording_path(&code, "2024-09-01_18-30-00", "KXYZ", &vec![]);
    assert_eq!(first, "EAS_Recording_TOR_2024-09-01_18-30-00_KXYZ.wav");
    let second = next_available_recording_path(&code, "2024-09-01_18-30-00", "KXYZ", &vec![first.clone()]);
    assert_eq!(second, "EAS_Recording_TOR_2024-09-01_18-30-00_KXYZ_1.wav");
    let third = next_available_recording_path(
        &code,
        "2024-09-01_18-30-00",
        "KXYZ",
        &vec![second.clone(), first.clone()],
    );
    assert_eq!(third, "EAS_Recording_TOR_2024-09-01_18-30-00_KXYZ_2.wav");
    let other = next_available_recording_path(&code, "2024-09-01_18-30-02", "KXYZ", &vec![first]);
    assert_eq!(other, "EAS_Recording_TOR_2024-09-01_18-30-02_KXYZ.wav");
}

#[test]
fn stream_disconnects_mid_recording() {
    let mut table = RecordingTable::new();
    let rec = |path: &str| RecordingState {
        output_path: path.to_string(),
        file_name: path.to_string(),
        source_stream: "http://radio.example/a".to_string(),
        started_at: 10,
        reason: RecordingReason::Same,
    };
    assert!(table.begin(rec("one.wav")));
    assert!(!table.begin(rec("two.wav")));
    let ended =
        table.end_on_disconnect("http://radio.example/a").expect("a recording was in progress");
    assert_eq!(ended.output_path, "one.wav");
    assert!(!table.is_recording("http://radio.example/a"));
    assert!(table.end_on_disconnect("http://radio.example/a").is_none());
    assert!(wait_is_over(&WaitEvent::Disconnected("http://radio.example/a".into()), "http://radio.example/a"));
    assert!(!wait_is_over(&WaitEvent::Disconnected("http://radio.example/b".into()), "http://radio.example/a"));
    assert!(!table.finish_if_current("http://radio.example/a", "one.wav"));
    assert!(table.begin(rec("three.wav")));
    assert_eq!(table.entries.len(), 1);
    assert_eq!(table.entries[0].output_path, "three.wav");
}

#[test]
fn ignored_test_alert_is_kept_but_not_announced() {
    let filters = parse_filters(&vec![RawFilter {
        name: Some("TestSkip".to_string()),
        event_codes: Some(vec![Some("RWT".to_string())]),
        action: Some("Ignore".to_string()),
    }]);
    let mut state = AppState::new(parse_filters(&vec![]));
    let header = "ZCZC-WXR-RWT-039173+0015-2451830-KXYZ/NWS-";
    assert!(receive_alert(&mut state, &watched(&[]), alert("RWT", header, &["039173"], 900, 50), 50));
    assert_eq!(state.active_alerts.len(), 1);
    let mut table = RecordingTable::new();
    assert!(table.begin(RecordingState {
        output_path: "rwt.wav".into(),
        file_name: "rwt.wav".into(),
        source_stream: "s".into(),
        started_at: 50,
        reason: RecordingReason::Same,
    }));
    assert!(wait_is_over(&WaitEvent::EndOfMessage("s".into()), "s"));
    assert!(table.finish("s").is_some());
    assert_eq!(plan_dispatch(&filters, "RWT", true, true), DispatchPlan { notify: false, relay: false });
    assert_eq!(plan_dispatch(&filters, "TOR", true, true), DispatchPlan { notify: true, relay: true });
}

#[test]
fn dispatch_by_action() {
    let f = |action: &str| {
        parse_filters(&vec![RawFilter {
            name: Some("F".into()),
            event_codes: Some(vec![Some("*".into())]),
            action: Some(action.into()),
        }])
    };
    assert_eq!(plan_dispatch(&f("ignore"), "TOR", true, true), DispatchPlan { notify: false, relay: false });
    assert_eq!(plan_dispatch(&f("log"), "TOR", true, true), DispatchPlan { notify: true, relay: false });
    assert_eq!(plan_dispatch(&f("forward"), "TOR", true, true), DispatchPlan { notify: true, relay: false });
    assert_eq!(plan_dispatch(&f("relay"), "TOR", true, true), DispatchPlan { notify: true, relay: true });
    assert_eq!(plan_dispatch(&f("relay"), "TOR", false, true), DispatchPlan { notify: true, relay: false });
    assert_eq!(plan_dispatch(&f("relay"), "TOR", true, false), DispatchPlan { notify: true, relay: false });
}

#[test]
fn what_ends_the_wait() {
    assert!(wait_is_over(&WaitEvent::Deadline, "a"));
    assert!(wait_is_over(&WaitEvent::Closed, "a"));
    assert!(!wait_is_over(&WaitEvent::Lagged, "a"));
    assert!(wait_is_over(&WaitEvent::EndOfMessage("a".into()), "a"));
    assert!(!wait_is_over(&WaitEvent::EndOfMessage("b".into()), "a"));
}

#[test]
fn texts_of_the_alert_log() {
    assert_eq!(
        alert_log_line("ZCZC-X-", "A tornado warning", "2024-09-01  6:30:00 PM"),
        "ZCZC-X-: A tornado warning (Received @ 2024-09-01  6:30:00 PM)\n\n"
    );
    assert_eq!(decoder_failure_text("no such file"), "Decoder script failed: no such file");
    let d = fallback_alert_data(
        "TOR".into(),
        "Here, There".into(),
        "WXR".into(),
        vec!["039173".to_string(), "039049".to_string()],
    );
    assert_eq!(d.eas_text, "Decoder script failed.");
    assert_eq!(d.event_text, "TOR");
    assert_eq!(d.event_code, "TOR");
    assert_eq!(d.fips, vec!["039173", "039049"]);
    assert_eq!(d.locations, "Here, There");
    assert_eq!(d.originator, "WXR");
}

#[test]
fn an_alert_without_words_keeps_its_zones() {
    let d = fallback_alert_data("TOR".into(), "039173".into(), "WXR".into(), vec!["039173".to_string()]);
    assert!(is_alert_relevant(&d, &watched(&["039173", "021111"])));
    assert!(!is_alert_relevant(&d, &watched(&["021111"])));
    let mut state = AppState::new(Vec::new());
    let a = ActiveAlert::new(d, TOR_HEADER.to_string(), 1800, 10);
    assert!(receive_alert(&mut state, &watched(&["039173"]), a, 10));
    assert_eq!(state.active_alerts.len(), 1);
    assert_eq!(state.active_alerts[0].data.eas_text, "Decoder script failed.");
    let none = fallback_alert_data("TOR".into(), String::new(), "WXR".into(), Vec::new());
    assert!(!is_alert_relevant(&none, &watched(&["039173"])));
    assert!(is_alert_relevant(&none, &watched(&[])));
}

#[test]
fn renewing_an_alert_keeps_the_count() {
    let mut state = AppState::new(Vec::new());
    let w = watched(&[]);
    for (i, h) in ["A", "B", "C"].iter().enumerate() {
        assert!(receive_alert(&mut state, &w, alert("RWT", h, &[], 1000, i as i64), i as i64));
    }
    assert!(receive_alert(&mut state, &w, alert("RWT", "B", &[], 500, 100), 100));
    assert_eq!(state.active_alerts.len(), 3);
    let renewed: Vec<&ActiveAlert> = state.active_alerts.iter().filter(|a| a.raw_header == "B").collect();
    assert_eq!(renewed.len(), 1);
    assert_eq!(renewed[0].received_at, 100);
    assert_eq!(renewed[0].expires_at, 600);
}

#[test]
fn flag_files_change_in_one_step() {
    let files = |severe, rainy| FlagFiles { severe, rainy };
    use_steps(DayFlag::Severe, files(false, false), &[FlagStep::Create(FlagFile::Severe)]);
    use_steps(DayFlag::Severe, files(false, true), &[FlagStep::Rename(FlagFile::Rainy, FlagFile::Severe)]);
    use_steps(DayFlag::Severe, files(true, false), &[]);
    use_steps(DayFlag::Severe, files(true, true), &[FlagStep::Remove(FlagFile::Rainy)]);
    use_steps(DayFlag::Rainy, files(false, false), &[FlagStep::Create(FlagFile::Rainy)]);
    use_steps(DayFlag::Rainy, files(true, false), &[FlagStep::Rename(FlagFile::Severe, FlagFile::Rainy)]);
    use_steps(DayFlag::Rainy, files(false, true), &[]);
    use_steps(DayFlag::Rainy, files(true, true), &[FlagStep::Remove(FlagFile::Severe)]);
    use_steps(DayFlag::Clear, files(false, false), &[]);
    use_steps(DayFlag::Clear, files(true, false), &[FlagStep::Remove(FlagFile::Severe)]);
    use_steps(DayFlag::Clear, files(false, true), &[FlagStep::Remove(FlagFile::Rainy)]);
    use_steps(
        DayFlag::Clear,
        files(true, true),
        &[FlagStep::Remove(FlagFile::Rainy), FlagStep::Remove(FlagFile::Severe)],
    );
    assert_eq!(flag_file_name(FlagFile::Severe), "severe_day.txt");
    assert_eq!(flag_file_name(FlagFile::Rainy), "rainy_day.txt");
}

fn use_steps(flag: DayFlag, present: FlagFiles, expected: &[FlagStep]) {
    let steps = flag.file_steps(present);
    assert_eq!(steps, expected, "{flag:?} {present:?}");
    let mut files = present;
    for step in steps {
        match step {
            FlagStep::Remove(FlagFile::Severe) => files.severe = false,
            FlagStep::Remove(FlagFile::Rainy) => files.rainy = false,
            FlagStep::Create(FlagFile::Severe) => files.severe = true,
            FlagStep::Create(FlagFile::Rainy) => files.rainy = true,
            FlagStep::Rename(FlagFile::Severe, _) => files = FlagFiles { severe: false, rainy: true },
            FlagStep::Rename(FlagFile::Rainy, _) => files = FlagFiles { severe: true, rainy: false },
        }
    }
    assert_eq!(files.severe, flag.severe_file());
    assert_eq!(files.rainy, flag.rainy_file());
}

#[test]
fn the_alert_that_a_tone_announces() {
    let d = tone_alert_data("http://radio.example/kig98", "ZCZC-WXR-??W-000000+0015-2451830-R-");
    assert_eq!(d.eas_text, "Detected 1050 Hz NOAA Weather Radio tone on stream http://radio.example/kig98.");
    assert_eq!(d.event_text, "1050");
    assert_eq!(d.event_code, "??W");
    assert_eq!(d.fips, vec!["000000"]);
    assert_eq!(d.locations, "Unknown");
    assert_eq!(d.originator, "WXR");
    assert!(is_alert_relevant(&d, &watched(&["039173"])));
    let live = tone_alert_data("s", "ZCZC-WXR-TOR-039173+0030-2451830-KXYZ/NWS-");
    assert_eq!(live.event_code, "TOR");
}
