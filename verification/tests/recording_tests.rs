use eas_listener::recording::{
    event_code_from_header, next_available_recording_path, plan_recording, recording_file_name,
    recording_time_limit, sanitize_filename_label, stream_label_from_source, RecordingReason,
    RecordingState, RecordingTable, WavTally,
};

#[test]
fn labels_are_made_safe_for_file_names() {
    assert_eq!(sanitize_filename_label("kxyz"), "KXYZ");
    assert_eq!(sanitize_filename_label("KXYZ/NWS"), "KXYZ_NWS");
    assert_eq!(sanitize_filename_label("a-b_c"), "A-B_C");
    assert_eq!(sanitize_filename_label("??W"), "W");
    assert_eq!(sanitize_filename_label("__x__"), "X");
    assert_eq!(sanitize_filename_label("???"), "UNKNOWN");
    assert_eq!(sanitize_filename_label(""), "UNKNOWN");
    assert_eq!(sanitize_filename_label("é1"), "1");
    assert_eq!(sanitize_filename_label("a b"), "A_B");
    assert_eq!(sanitize_filename_label("-a-"), "-A-");
}

#[test]
fn event_code_is_the_third_field() {
    assert_eq!(event_code_from_header("ZCZC-WXR-TOR-039173+0030-2451830-KXYZ/NWS-"), "TOR");
    assert_eq!(event_code_from_header("  ZCZC-EAS-rwt-000000+0015-0010000-X- \n"), "RWT");
    assert_eq!(event_code_from_header("ZCZC-WXR-??W-000000+0015-2451830-RELAY-"), "W");
    assert_eq!(event_code_from_header("ZCZC-WXR"), "UNK");
    assert_eq!(event_code_from_header("ZCZC-WXR-"), "UNKNOWN");
    assert_eq!(event_code_from_header("NNNN"), "UNK");
    assert_eq!(event_code_from_header("zczc-WXR-TOR-"), "UNK");
    assert_eq!(event_code_from_header(""), "UNK");
}

#[test]
fn stream_labels_come_from_the_last_path_segment() {
    assert_eq!(stream_label_from_source("http://radio.example/kxyz.mp3"), "KXYZ");
    assert_eq!(stream_label_from_source("http://radio.example/live/kxyz.mp3?x=1#y"), "KXYZ");
    assert_eq!(stream_label_from_source("http://radio.example/live/"), "LIVE");
    assert_eq!(stream_label_from_source("http://radio.example:8000/stream"), "STREAM");
    assert_eq!(stream_label_from_source("kxyz.tar.gz"), "KXYZ_TAR");
    assert_eq!(stream_label_from_source(".hidden"), "HIDDEN");
    assert_eq!(stream_label_from_source("name."), "NAME");
    assert_eq!(stream_label_from_source(""), "UNKNOWN");
    assert_eq!(stream_label_from_source("///"), "UNKNOWN");
    assert_eq!(stream_label_from_source("?only=query"), "UNKNOWN");
    assert_eq!(stream_label_from_source("a/b#c/d"), "B");
}

#[test]
fn recording_names() {
    assert_eq!(
        recording_file_name("TOR", "2024-09-01_18-30-00", "KXYZ", 0),
        "EAS_Recording_TOR_2024-09-01_18-30-00_KXYZ.wav"
    );
    assert_eq!(
        recording_file_name("TOR", "2024-09-01_18-30-00", "KXYZ", 1),
        "EAS_Recording_TOR_2024-09-01_18-30-00_KXYZ_1.wav"
    );
    assert_eq!(recording_file_name("W", "t", "L", 12), "EAS_Recording_W_t_L_12.wav");
}

#[test]
fn the_first_free_name_is_taken() {
    let taken: Vec<String> = vec![
        "EAS_Recording_TOR_t_L.wav".into(),
        "EAS_Recording_TOR_t_L_2.wav".into(),
        "unrelated.wav".into(),
    ];
    assert_eq!(next_available_recording_path("TOR", "t", "L", &taken), "EAS_Recording_TOR_t_L_1.wav");
    assert_eq!(next_available_recording_path("SVR", "t", "L", &taken), "EAS_Recording_SVR_t_L.wav");
}

#[test]
fn tone_recording_is_named_after_the_placeholder() {
    let plan = plan_recording(
        "ZCZC-WXR-??W-000000+0015-2451830-WAGSENDC-",
        "http://radio.example/nwr/kig98.ogg",
        "2024-09-01_18-30-00",
        &vec![],
    );
    assert_eq!(plan.event_code, "W");
    assert_eq!(plan.stream_label, "KIG98");
    assert_eq!(plan.file_name, "EAS_Recording_W_2024-09-01_18-30-00_KIG98.wav");
}

#[test]
fn time_limits() {
    assert_eq!(recording_time_limit(RecordingReason::Same), 300);
    assert_eq!(recording_time_limit(RecordingReason::Tone), 120);
}

fn rec(stream: &str, path: &str, reason: RecordingReason) -> RecordingState {
    RecordingState {
        output_path: format!("/data/recordings/{path}"),
        file_name: path.to_string(),
        source_stream: stream.to_string(),
        started_at: 0,
        reason,
    }
}

#[test]
fn at_most_one_recording_for_each_stream() {
    let mut table = RecordingTable::new();
    assert!(table.begin(rec("a", "a1.wav", RecordingReason::Tone)));
    assert!(table.begin(rec("b", "b1.wav", RecordingReason::Same)));
    assert!(!table.begin(rec("a", "a2.wav", RecordingReason::Same)));
    assert!(!table.begin(rec("b", "b2.wav", RecordingReason::Tone)));
    assert_eq!(table.entries.len(), 2);
    assert!(table.is_recording("a"));
    assert!(table.is_recording("b"));
    assert!(!table.is_recording("c"));
    assert_eq!(table.entries[0].file_name, "a1.wav");
    assert_eq!(table.entries[0].reason, RecordingReason::Tone);
}

#[test]
fn start_of_message_during_a_tone_recording() {
    let mut table = RecordingTable::new();
    assert!(table.begin(rec("a", "tone.wav", RecordingReason::Tone)));
    assert!(!table.begin(rec("a", "same.wav", RecordingReason::Same)));
    assert_eq!(table.entries.len(), 1);
    assert_eq!(table.entries[0].file_name, "tone.wav");
    assert!(!table.finish_if_current("a", "/data/recordings/same.wav"));
    assert!(table.is_recording("a"));
    assert!(!table.finish_if_current("a", "tone.wav"));
    assert!(table.finish_if_current("a", "/data/recordings/tone.wav"));
    assert!(!table.is_recording("a"));
    assert!(!table.finish_if_current("a", "/data/recordings/tone.wav"));
}

#[test]
fn finishing_hands_out_the_recording() {
    let mut table = RecordingTable::new();
    table.begin(rec("a", "a.wav", RecordingReason::Same));
    table.begin(rec("b", "b.wav", RecordingReason::Same));
    table.begin(rec("c", "c.wav", RecordingReason::Same));
    let b = table.finish("b").unwrap();
    assert_eq!(b.output_path, "/data/recordings/b.wav");
    assert_eq!(b.file_name, "b.wav");
    assert_eq!(b.source_stream, "b");
    let left: Vec<&str> = table.entries.iter().map(|e| e.source_stream.as_str()).collect();
    assert_eq!(left, vec!["a", "c"]);
    assert!(table.finish("b").is_none());
    assert!(!table.finish_if_current("x", "a.wav"));
    assert_eq!(table.entries.len(), 2);
}

#[test]
fn bytes_of_a_finished_file() {
    let mut tally = WavTally::new(1000, 200);
    assert!(!tally.keeps_file());
    assert_eq!(tally.data_bytes(), 2400);
    tally.note_body(2048);
    tally.note_body(2048);
    tally.note_body(1);
    assert_eq!(tally.body_samples, 4097);
    assert!(tally.keeps_file());
    assert_eq!(tally.data_bytes(), 1000 * 2 + 4097 * 2 + 200 * 2);
    let big = WavTally { header_samples: u64::MAX, body_samples: u64::MAX, tail_samples: u64::MAX };
    assert_eq!(big.data_bytes(), 6 * (u64::MAX as u128));
    let empty = WavTally::new(0, 0);
    assert_eq!(empty.data_bytes(), 0);
    assert!(!empty.keeps_file());
}

#[test]
fn a_recording_in_progress_keeps_its_name() {
    let header = "ZCZC-WXR-TOR-039173+0030-2451830-KXYZ/NWS-";
    let stream = "http://radio.example/kxyz.mp3";
    let stamp = "2024-09-01_18-30-00";
    let mut table = RecordingTable::new();
    let first = table.plan_next(header, stream, stamp, &vec![]);
    assert_eq!(first.file_name, "EAS_Recording_TOR_2024-09-01_18-30-00_KXYZ.wav");
    assert!(table.begin(rec(stream, &first.file_name, RecordingReason::Same)));
    assert_eq!(table.file_names(), vec![first.file_name.clone()]);
    let second = table.plan_next(header, "http://other.example/kxyz.ogg", stamp, &vec![]);
    assert_eq!(second.file_name, "EAS_Recording_TOR_2024-09-01_18-30-00_KXYZ_1.wav");
    let third = table.plan_next(header, stream, stamp, &vec![second.file_name.clone()]);
    assert_eq!(third.file_name, "EAS_Recording_TOR_2024-09-01_18-30-00_KXYZ_2.wav");
    table.end_on_disconnect(stream);
    assert!(table.file_names().is_empty());
    let again = table.plan_next(header, stream, stamp, &vec![first.file_name.clone()]);
    assert_eq!(again.file_name, "EAS_Recording_TOR_2024-09-01_18-30-00_KXYZ_1.wav");
}

#[test]
fn a_reconnect_starts_another_recording() {
    let mut table = RecordingTable::new();
    assert!(table.begin(rec("a", "old.wav", RecordingReason::Tone)));
    assert!(table.begin(rec("b", "b.wav", RecordingReason::Same)));
    let old = table.end_on_disconnect("a").unwrap();
    assert_eq!(old.file_name, "old.wav");
    assert!(!table.is_recording("a"));
    assert!(table.is_recording("b"));
    assert!(table.begin(rec("a", "new.wav", RecordingReason::Same)));
    let names = table.file_names();
    assert_eq!(names, vec!["b.wav", "new.wav"]);
    assert!(!table.finish_if_current("a", "/data/recordings/old.wav"));
    assert!(table.is_recording("a"));
}
