use eas_listener::decode::{
    chunks_ready, content_type_hint, on_packet_fault, purge_seconds, resampler_is_stale,
    take_chunk, ByteCursor, FaultAction, PacketFault,
};
use eas_listener::fetch::{
    after_chunk, is_success_status, next_fetch_action, stream_inactivity_timeout, ChunkOutcome,
    FetchAction, FetchEvent, QueueAnswer, RateLimit, ACCEPT_HEADER, BACKPRESSURE_WARN_MS,
    BYTE_QUEUE_SLOTS,
};
use eas_listener::framing::{frame_bits, same_burst_bytes, BURSTS, END_OF_MESSAGE};
use eas_listener::monitoring::{push_bounded, MonitoringHub, StreamNote, StreamTelemetry};

#[test]
fn constants_of_the_fetcher() {
    assert_eq!(stream_inactivity_timeout(), 120);
    assert_eq!(BYTE_QUEUE_SLOTS, 256);
    assert_eq!(BACKPRESSURE_WARN_MS, 30_000);
    assert_eq!(ACCEPT_HEADER, "audio/*,application/ogg;q=0.9,*/*;q=0.1");
}

#[test]
fn only_success_lets_the_fetcher_read() {
    for code in [200u16, 204, 299] {
        assert!(is_success_status(code));
        assert_eq!(next_fetch_action(FetchEvent::Status(code)), FetchAction::ReadBody);
    }
    for code in [0u16, 199, 300, 404, 503] {
        assert!(!is_success_status(code));
        assert_eq!(next_fetch_action(FetchEvent::Status(code)), FetchAction::ReportAndReconnect(1000));
    }
    for event in [FetchEvent::ConnectFailed, FetchEvent::EndOfBody, FetchEvent::ReadError, FetchEvent::Stalled] {
        assert_eq!(next_fetch_action(event), FetchAction::ReportAndReconnect(1000));
    }
    assert_eq!(next_fetch_action(FetchEvent::DecoderGone), FetchAction::Reconnect(1000));
}

#[test]
fn a_full_queue_drops_the_chunk_and_reads_on() {
    let mut warnings = RateLimit::starting_at(BACKPRESSURE_WARN_MS, 0);
    let quiet = ChunkOutcome { note_activity: false, warn_dropped: false, keep_reading: true };
    let loud = ChunkOutcome { note_activity: false, warn_dropped: true, keep_reading: true };
    assert_eq!(after_chunk(QueueAnswer::Full, &mut warnings, 10), quiet);
    assert_eq!(after_chunk(QueueAnswer::Full, &mut warnings, 30_000), quiet);
    assert_eq!(after_chunk(QueueAnswer::Full, &mut warnings, 30_001), loud);
    assert_eq!(after_chunk(QueueAnswer::Full, &mut warnings, 30_002), quiet);
    assert_eq!(after_chunk(QueueAnswer::Full, &mut warnings, 60_001), quiet);
    assert_eq!(after_chunk(QueueAnswer::Full, &mut warnings, 60_002), loud);
    assert_eq!(
        after_chunk(QueueAnswer::Accepted, &mut warnings, 200_000),
        ChunkOutcome { note_activity: true, warn_dropped: false, keep_reading: true }
    );
    assert_eq!(warnings.last, Some(60_002));
    assert_eq!(
        after_chunk(QueueAnswer::Closed, &mut warnings, 200_000),
        ChunkOutcome { note_activity: false, warn_dropped: false, keep_reading: false }
    );
}

#[test]
fn rate_limits() {
    let mut l = RateLimit::new(60_000);
    assert!(l.offer(5));
    assert!(!l.offer(6));
    assert!(!l.offer(60_005));
    assert!(l.offer(60_006));
    assert!(!l.offer(10));
    assert_eq!(l.last, Some(60_006));
}

#[test]
fn decoder_rules() {
    assert_eq!(content_type_hint(Some("audio/mpeg")), Some("mp3"));
    assert_eq!(content_type_hint(Some("audio/mpeg; charset=x")), Some("mp3"));
    assert_eq!(content_type_hint(Some("application/ogg")), None);
    assert_eq!(content_type_hint(Some("AUDIO/MPEG")), None);
    assert_eq!(content_type_hint(None), None);
    assert_eq!(on_packet_fault(PacketFault::ResetRequired), FaultAction::Rebuild);
    assert_eq!(on_packet_fault(PacketFault::Io), FaultAction::Stop);
    assert_eq!(on_packet_fault(PacketFault::Other), FaultAction::ReportAndStop);
    assert!(resampler_is_stale(None, 48000));
    assert!(resampler_is_stale(Some(44100), 48000));
    assert!(!resampler_is_stale(Some(48000), 48000));
    assert_eq!(purge_seconds(1800), 1800);
    assert_eq!(purge_seconds(0), 0);
    assert_eq!(purge_seconds(-5), 0);
    assert_eq!(purge_seconds(i64::MAX), i64::MAX as u64);
}

#[test]
fn samples_are_cut_into_chunks_of_2048() {
    let mut waiting: Vec<f32> = (0..5000).map(|i| i as f32).collect();
    assert_eq!(chunks_ready(waiting.len()), 2);
    let first = take_chunk(&mut waiting).unwrap();
    assert_eq!(first.len(), 2048);
    assert_eq!(first[0], 0.0);
    assert_eq!(first[2047], 2047.0);
    assert_eq!(waiting.len(), 2952);
    assert_eq!(waiting[0], 2048.0);
    let second = take_chunk(&mut waiting).unwrap();
    assert_eq!(second[0], 2048.0);
    assert_eq!(waiting.len(), 904);
    assert!(take_chunk(&mut waiting).is_none());
    assert_eq!(waiting.len(), 904);
    assert_eq!(waiting[0], 4096.0);
    let mut exact: Vec<u8> = vec![1; 2048];
    assert_eq!(take_chunk(&mut exact).map(|c| c.len()), Some(2048));
    assert!(exact.is_empty());
    assert_eq!(chunks_ready(2047), 0);
    assert_eq!(chunks_ready(2048), 1);
}

#[test]
fn bytes_are_read_through_a_cursor() {
    let mut c = ByteCursor::new();
    assert!(c.is_spent());
    assert!(c.read(10).is_empty());
    c.refill(vec![1, 2, 3, 4, 5]);
    assert!(!c.is_spent());
    assert_eq!(c.read(2), vec![1, 2]);
    assert_eq!(c.read(0), Vec::<u8>::new());
    assert_eq!(c.read(10), vec![3, 4, 5]);
    assert!(c.is_spent());
    assert!(c.read(1).is_empty());
    c.refill(vec![9]);
    assert_eq!(c.read(1), vec![9]);
    c.refill(vec![7, 8]);
    c.refill(vec![6]);
    assert_eq!(c.read(5), vec![6]);
}

#[test]
fn what_the_monitor_remembers_of_a_stream() {
    let mut t = StreamTelemetry::new("http://a".into());
    assert!(!t.is_connected && t.attempts == 0 && t.last_error.is_none());
    t.note(StreamNote::Connecting, 10);
    assert_eq!(t.attempts, 1);
    t.note(StreamNote::Connected, 12);
    assert!(t.is_connected);
    assert_eq!(t.connected_since, Some(12));
    assert_eq!(t.last_activity, Some(12));
    t.note(StreamNote::Activity, 20);
    assert_eq!(t.last_activity, Some(20));
    let p = t.make_snapshot(50, 45);
    assert!(p.is_connected && p.is_receiving_audio);
    assert_eq!(p.uptime_seconds, Some(38));
    assert_eq!(p.connection_attempts, 1);
    assert!(t.make_snapshot(65, 45).is_receiving_audio);
    assert!(!t.make_snapshot(66, 45).is_receiving_audio);
    assert!(!t.make_snapshot(19, 45).is_receiving_audio);
    assert_eq!(t.make_snapshot(5, 45).uptime_seconds, Some(0));
    t.note(StreamNote::Alert, 70);
    assert_eq!(t.alerts_received, 1);
    assert_eq!(t.last_alert_received, Some(70));
    t.note(StreamNote::Error("stream stalled".into()), 80);
    assert!(!t.is_connected);
    assert_eq!(t.last_error.as_deref(), Some("stream stalled"));
    assert_eq!(t.last_disconnect, Some(80));
    assert_eq!(t.make_snapshot(81, 45).uptime_seconds, None);
    t.note(StreamNote::Connecting, 90);
    assert_eq!(t.attempts, 2);
    assert!(t.last_error.is_none() && t.last_activity.is_none());
    assert_eq!(t.last_disconnect, Some(80));
    t.note(StreamNote::Connected, 91);
    assert_eq!(t.last_disconnect, None);
    t.note(StreamNote::Disconnected, 95);
    assert_eq!(t.last_disconnect, Some(95));
    assert!(!t.is_connected);
}

#[test]
fn the_monitor_learns_of_streams_as_they_are_noted() {
    let mut hub = MonitoringHub::new(3, 45);
    assert_eq!(hub.max_logs(), 3);
    assert!(hub.stream_snapshot("http://a", 0).is_none());
    let p = hub.update_stream("http://b", StreamNote::Connecting, 1);
    assert_eq!(p.stream_url, "http://b");
    assert_eq!(p.connection_attempts, 1);
    hub.update_stream("http://a", StreamNote::Connected, 2);
    let p = hub.update_stream("http://b", StreamNote::Connecting, 3);
    assert_eq!(p.connection_attempts, 2);
    assert_eq!(hub.streams.len(), 2);
    let all = hub.stream_snapshots(10);
    assert_eq!(all.len(), 2);
    assert_eq!(all[0].stream_url, "http://b");
    assert!(!all[0].is_connected);
    assert_eq!(all[1].stream_url, "http://a");
    assert!(all[1].is_connected && all[1].is_receiving_audio);
    assert_eq!(all[1].uptime_seconds, Some(8));
    assert_eq!(hub.stream_snapshot("http://a", 100).map(|p| p.is_receiving_audio), Some(false));
    assert_eq!(hub.take_log_id(), 1);
    assert_eq!(hub.take_log_id(), 2);
    hub.next_log_id = u64::MAX;
    assert_eq!(hub.take_log_id(), u64::MAX);
    assert_eq!(hub.take_log_id(), 0);
}

#[test]
fn the_log_keeps_the_newest_entries() {
    let mut log: Vec<u32> = Vec::new();
    for i in 1..=5 {
        push_bounded(&mut log, i, 3);
    }
    assert_eq!(log, vec![3, 4, 5]);
    push_bounded(&mut log, 6, 1);
    assert_eq!(log, vec![6]);
    push_bounded(&mut log, 7, 0);
    assert!(log.is_empty());
    push_bounded(&mut log, 8, 10);
    assert_eq!(log, vec![8]);
}

#[test]
fn a_burst_is_preamble_and_message() {
    let burst = same_burst_bytes(END_OF_MESSAGE);
    assert_eq!(burst.len(), 20);
    assert!(burst[..16].iter().all(|b| *b == 0xAB));
    assert_eq!(&burst[16..], b"NNNN");
    assert_eq!(same_burst_bytes("").len(), 16);
    assert_eq!(BURSTS, 3);
    let bits = frame_bits(&vec![0xAB, 0x4E]);
    let expected = [
        true, true, false, true, false, true, false, true, false, true, true, true, false, false,
        true, false,
    ];
    assert_eq!(bits, expected);
    assert!(frame_bits(&vec![]).is_empty());
}

#[test]
fn notes_by_name() {
    let mut hub = MonitoringHub::new(10, 45);
    assert_eq!(hub.note_connecting("s", 1).connection_attempts, 1);
    assert!(hub.note_connected("s", 2).is_connected);
    assert_eq!(hub.note_activity("s", 5).last_activity, Some(5));
    assert_eq!(hub.note_alert("s", 6).alerts_received, 1);
    let p = hub.note_error("s", "EOF from server".to_string(), 7);
    assert_eq!(p.last_error.as_deref(), Some("EOF from server"));
    assert!(!p.is_connected);
    assert_eq!(hub.note_disconnected("s", 9).last_disconnect, Some(9));
    assert_eq!(hub.streams.len(), 1);
}

#[test]
fn the_monitor_keeps_one_entry_for_each_stream() {
    let mut hub = MonitoringHub::new(10, 45);
    for (i, s) in ["a", "b", "a", "c", "b", "a"].iter().enumerate() {
        hub.note_connecting(s, i as i64);
        let mut urls: Vec<&str> = hub.streams.iter().map(|t| t.stream_url.as_str()).collect();
        let n = urls.len();
        urls.sort();
        urls.dedup();
        assert_eq!(urls.len(), n);
    }
    assert_eq!(hub.streams.len(), 3);
    assert_eq!(hub.streams[0].attempts, 3);
}
