//! What the monitor knows of each stream, and how it keeps its log short.
//!
//! Times are whole seconds since the Unix epoch.

use crate::text::{chars_are, chars_of};
use vstd::prelude::*;

verus! {

/// What is remembered of one stream.
#[derive(Debug, Clone)]
pub struct StreamTelemetry {
    pub stream_url: String,
    pub is_connected: bool,
    pub connected_since: Option<i64>,
    pub last_activity: Option<i64>,
    pub last_disconnect: Option<i64>,
    pub last_error: Option<String>,
    pub attempts: u64,
    pub alerts_received: u64,
    pub last_alert_received: Option<i64>,
}

/// What is told of one stream at a given time.
#[derive(Debug, Clone)]
pub struct StreamStatusPayload {
    pub stream_url: String,
    pub is_connected: bool,
    pub is_receiving_audio: bool,
    pub connection_attempts: u64,
    pub alerts_received: u64,
    pub connected_since: Option<i64>,
    pub last_activity: Option<i64>,
    pub last_disconnect: Option<i64>,
    pub last_alert_received: Option<i64>,
    pub last_error: Option<String>,
    pub uptime_seconds: Option<i64>,
}

/// The monitor: the streams it has heard of, in the order in which it
/// heard of them, and the bounds it works under.
pub struct MonitoringHub {
    pub streams: Vec<StreamTelemetry>,
    pub max_logs: usize,
    pub inactivity_timeout_secs: u64,
    pub next_log_id: u64,
}

/// What can be noted of a stream.
#[derive(Debug, Clone)]
pub enum StreamNote {
    Connecting,
    Connected,
    Activity,
    Error(String),
    Disconnected,
    Alert,
}

/// One more, held at the largest count there is.
pub open spec fn one_more(n: u64) -> u64 {
    if n == u64::MAX {
        n
    } else {
        (n + 1) as u64
    }
}

/// Whether audio was received lately: the last activity lies no more than
/// the timeout back, and not ahead.
pub open spec fn receiving(last_activity: Option<i64>, now: i64, timeout_secs: u64) -> bool {
    last_activity matches Some(t) && now >= t && now - t <= timeout_secs
}

/// For how long the stream has been connected, in seconds, while it is.
pub open spec fn uptime(t: StreamTelemetry, now: i64) -> Option<i64> {
    if t.is_connected && t.connected_since is Some {
        if now < t.connected_since->0 {
            Some(0i64)
        } else if now - t.connected_since->0 > i64::MAX {
            Some(i64::MAX)
        } else {
            Some((now - t.connected_since->0) as i64)
        }
    } else {
        None
    }
}

/// What is told of a stream at `now`, where audio counts as received for
/// `timeout_secs` seconds after the last activity.
pub open spec fn snapshot_of(t: StreamTelemetry, now: i64, timeout_secs: u64)
    -> StreamStatusPayload {
    StreamStatusPayload {
        stream_url: t.stream_url,
        is_connected: t.is_connected,
        is_receiving_audio: receiving(t.last_activity, now, timeout_secs),
        connection_attempts: t.attempts,
        alerts_received: t.alerts_received,
        connected_since: t.connected_since,
        last_activity: t.last_activity,
        last_disconnect: t.last_disconnect,
        last_alert_received: t.last_alert_received,
        last_error: t.last_error,
        uptime_seconds: uptime(t, now),
    }
}

/// What is remembered of a stream after a note at `now`.
pub open spec fn noted(t: StreamTelemetry, note: StreamNote, now: i64) -> StreamTelemetry {
    match note {
        StreamNote::Connecting => StreamTelemetry {
            attempts: one_more(t.attempts),
            is_connected: false,
            connected_since: None,
            last_activity: None,
            last_error: None,
            ..t
        },
        StreamNote::Connected => StreamTelemetry {
            is_connected: true,
            connected_since: Some(now),
            last_activity: Some(now),
            last_disconnect: None,
            last_error: None,
            ..t
        },
        StreamNote::Activity => StreamTelemetry { last_activity: Some(now), ..t },
        StreamNote::Error(e) => StreamTelemetry {
            is_connected: false,
            connected_since: None,
            last_disconnect: Some(now),
            last_error: Some(e),
            ..t
        },
        StreamNote::Disconnected => StreamTelemetry {
            is_connected: false,
            connected_since: None,
            last_disconnect: Some(now),
            ..t
        },
        StreamNote::Alert => StreamTelemetry {
            alerts_received: one_more(t.alerts_received),
            last_alert_received: Some(now),
            ..t
        },
    }
}

/// What is remembered of a stream that nothing has been noted of yet.
pub open spec fn fresh(stream_url: String) -> StreamTelemetry {
    StreamTelemetry {
        stream_url,
        is_connected: false,
        connected_since: None,
        last_activity: None,
        last_disconnect: None,
        last_error: None,
        attempts: 0,
        alerts_received: 0,
        last_alert_received: None,
    }
}

/// The index of the stream with the address, or the number of streams
/// where there is none.
pub open spec fn stream_index(streams: Seq<StreamTelemetry>, url: Seq<char>) -> nat
    decreases streams.len(),
{
    if streams.len() == 0 || streams[0].stream_url@ == url {
        0
    } else {
        1 + stream_index(streams.drop_first(), url)
    }
}

/// No two entries are of the same stream.
pub open spec fn one_entry_per_stream(streams: Seq<StreamTelemetry>) -> bool {
    forall|i: int, j: int|
        0 <= i < j < streams.len() ==> (#[trigger] streams[i]).stream_url@ != (
        #[trigger] streams[j]).stream_url@
}

/// What `stream_index` says of the entries before and at it.
pub proof fn lemma_stream_index_props(streams: Seq<StreamTelemetry>, url: Seq<char>)
    ensures
        stream_index(streams, url) <= streams.len(),
        forall|j: int|
            0 <= j < stream_index(streams, url) ==> (#[trigger] streams[j]).stream_url@ != url,
        stream_index(streams, url) < streams.len() ==> streams[stream_index(
            streams,
            url,
        ) as int].stream_url@ == url,
    decreases streams.len(),
{
    if streams.len() == 0 || streams[0].stream_url@ == url {
    } else {
        let t = streams.drop_first();
        lemma_stream_index_props(t, url);
        assert forall|j: int| 0 <= j < stream_index(streams, url) implies (
        #[trigger] streams[j]).stream_url@ != url by {
            if j > 0 {
                assert(streams[j] == t[j - 1]);
            }
        }
        if stream_index(streams, url) < streams.len() {
            assert(streams[stream_index(streams, url) as int] == t[stream_index(t, url) as int]);
        }
    }
}

/// Taking in a note never leaves two entries of one stream: the entry of a
/// known stream is brought up to date where it stands, and only a stream
/// that has no entry gets one.
pub proof fn lemma_note_keeps_one_entry(
    before: Seq<StreamTelemetry>,
    after: Seq<StreamTelemetry>,
    url: Seq<char>,
    note: StreamNote,
    now: i64,
)
    requires
        one_entry_per_stream(before),
        streams_after(before, after, url, note, now),
    ensures
        one_entry_per_stream(after),
{
    lemma_stream_index_props(before, url);
    let k = stream_index(before, url) as int;
    assert forall|i: int, j: int| 0 <= i < j < after.len() implies (#[trigger] after[i]).stream_url@
        != (#[trigger] after[j]).stream_url@ by {
        if k < before.len() {
            assert(after[i].stream_url@ == before[i].stream_url@);
            assert(after[j].stream_url@ == before[j].stream_url@);
        } else {
            assert(after.take(k)[i] == after[i]);
            if j < k {
                assert(after.take(k)[j] == after[j]);
            } else {
                assert(before[i].stream_url@ != url);
            }
        }
    }
}

/// Whether `after` is what the monitor remembers once a note of the
/// stream with the address was taken in at `now`: the stream's entry is
/// brought up to date, and a stream that was not known is added at the end.
pub open spec fn streams_after(
    before: Seq<StreamTelemetry>,
    after: Seq<StreamTelemetry>,
    url: Seq<char>,
    note: StreamNote,
    now: i64,
) -> bool {
    let i = stream_index(before, url) as int;
    if i < before.len() {
        after == before.update(i, noted(before[i], note, now))
    } else {
        after.len() == i + 1 && after.take(i) == before && after[i].stream_url@ == url && after[i]
            == noted(fresh(after[i].stream_url), note, now)
    }
}

/// The log after an entry was added under a bound: the newest entries, and
/// no more of them than the bound allows.
pub open spec fn bounded_log<T>(log: Seq<T>, entry: T, max: usize) -> Seq<T> {
    let all = log.push(entry);
    if all.len() > max {
        all.skip(all.len() - max)
    } else {
        all
    }
}

/// `stream_index` is the least index of a stream with the address.
proof fn lemma_stream_index(streams: Seq<StreamTelemetry>, url: Seq<char>, i: int)
    requires
        0 <= i <= streams.len(),
        forall|j: int| 0 <= j < i ==> (#[trigger] streams[j]).stream_url@ != url,
        i < streams.len() ==> streams[i].stream_url@ == url,
    ensures
        stream_index(streams, url) == i,
    decreases i,
{
    if i > 0 {
        let t = streams.drop_first();
        assert forall|j: int| 0 <= j < i - 1 implies (#[trigger] t[j]).stream_url@ != url by {
            assert(t[j] == streams[j + 1]);
        }
        assert(streams[0].stream_url@ != url);
        if i - 1 < t.len() {
            assert(t[i - 1] == streams[i]);
        }
        lemma_stream_index(t, url, i - 1);
    }
}

/// A copy of an optional string.
fn copy_text(o: &Option<String>) -> (r: Option<String>)
    ensures
        r == *o,
{
    match o {
        Some(s) => Some(s.clone()),
        None => None,
    }
}

impl StreamTelemetry {
    /// What is remembered of a stream that nothing has been noted of yet.
    pub fn new(stream_url: String) -> (t: Self)
        ensures
            t == fresh(stream_url),
    {
        StreamTelemetry {
            stream_url,
            is_connected: false,
            connected_since: None,
            last_activity: None,
            last_disconnect: None,
            last_error: None,
            attempts: 0,
            alerts_received: 0,
            last_alert_received: None,
        }
    }

    /// Takes in a note at `now`.
    pub fn note(&mut self, note: StreamNote, now: i64)
        ensures
            *final(self) == noted(*old(self), note, now),
    {
        match note {
            StreamNote::Connecting => {
                self.attempts = self.attempts.saturating_add(1);
                self.is_connected = false;
                self.connected_since = None;
                self.last_activity = None;
                self.last_error = None;
            },
            StreamNote::Connected => {
                self.is_connected = true;
                self.connected_since = Some(now);
                self.last_activity = Some(now);
                self.last_disconnect = None;
                self.last_error = None;
            },
            StreamNote::Activity => {
                self.last_activity = Some(now);
            },
            StreamNote::Error(e) => {
                self.is_connected = false;
                self.connected_since = None;
                self.last_disconnect = Some(now);
                self.last_error = Some(e);
            },
            StreamNote::Disconnected => {
                self.is_connected = false;
                self.connected_since = None;
                self.last_disconnect = Some(now);
            },
            StreamNote::Alert => {
                self.alerts_received = self.alerts_received.saturating_add(1);
                self.last_alert_received = Some(now);
            },
        }
    }

    /// What is told of the stream at `now`, where audio counts as received
    /// for `timeout_secs` seconds after the last activity.
    pub fn make_snapshot(&self, now: i64, timeout_secs: u64) -> (p: StreamStatusPayload)
        ensures
            p == snapshot_of(*self, now, timeout_secs),
    {
        let is_receiving_audio = match self.last_activity {
            Some(t) => {
                if now >= t {
                    let gap: i128 = (now as i128) - (t as i128);
                    gap <= timeout_secs as i128
                } else {
                    false
                }
            },
            None => false,
        };
        let uptime_seconds = if self.is_connected {
            match self.connected_since {
                Some(since) => {
                    if now < since {
                        Some(0i64)
                    } else {
                        let gap: i128 = (now as i128) - (since as i128);
                        if gap > i64::MAX as i128 {
                            Some(i64::MAX)
                        } else {
                            Some(gap as i64)
                        }
                    }
                },
                None => None,
            }
        } else {
            None
        };
        StreamStatusPayload {
            stream_url: self.stream_url.clone(),
            is_connected: self.is_connected,
            is_receiving_audio,
            connection_attempts: self.attempts,
            alerts_received: self.alerts_received,
            connected_since: self.connected_since,
            last_activity: self.last_activity,
            last_disconnect: self.last_disconnect,
            last_alert_received: self.last_alert_received,
            last_error: copy_text(&self.last_error),
            uptime_seconds,
        }
    }
}

/// Adds an entry to a log that keeps at most `max` entries: the oldest
/// entries leave.
pub fn push_bounded<T>(log: &mut Vec<T>, entry: T, max: usize)
    ensures
        final(log)@ == bounded_log(old(log)@, entry, max),
{
    log.push(entry);
    let ghost all = log@;
    while log.len() > max
        invariant
            log@.len() <= all.len(),
            all == old(log)@.push(entry),
            all.len() > max ==> log@.len() >= max,
            all.len() <= max ==> log@.len() == all.len(),
            log@ == all.skip(all.len() - log@.len()),
        decreases log.len(),
    {
        log.remove(0);
        assert(log@ =~= all.skip(all.len() - log@.len()));
    }
    assert(all.skip(0) =~= all);
}

impl MonitoringHub {
    /// Whether the monitor holds at most one entry for each stream.
    pub open spec fn wf(&self) -> bool {
        one_entry_per_stream(self.streams@)
    }

    /// A monitor that has heard of no stream.
    pub fn new(max_logs: usize, inactivity_timeout_secs: u64) -> (h: Self)
        ensures
            h.wf(),
            h.streams@.len() == 0,
            h.max_logs == max_logs,
            h.inactivity_timeout_secs == inactivity_timeout_secs,
            h.next_log_id == 1,
    {
        MonitoringHub { streams: Vec::new(), max_logs, inactivity_timeout_secs, next_log_id: 1 }
    }

    /// How many log entries the monitor keeps.
    pub fn max_logs(&self) -> (n: usize)
        ensures
            n == self.max_logs,
    {
        self.max_logs
    }

    /// The number for the next log entry. Numbers start at one and go up
    /// by one; after the largest number they start at zero again.
    pub fn take_log_id(&mut self) -> (id: u64)
        ensures
            id == old(self).next_log_id,
            final(self).next_log_id == if id == u64::MAX {
                0
            } else {
                (id + 1) as u64
            },
            final(self).streams == old(self).streams,
            final(self).max_logs == old(self).max_logs,
            final(self).inactivity_timeout_secs == old(self).inactivity_timeout_secs,
    {
        let id = self.next_log_id;
        self.next_log_id = if id == u64::MAX {
            0
        } else {
            id + 1
        };
        id
    }

    /// The index of the stream with the address, or the number of streams.
    fn find(&self, stream: &str) -> (i: usize)
        ensures
            i == stream_index(self.streams@, stream@),
            i <= self.streams.len(),
            i < self.streams.len() ==> self.streams@[i as int].stream_url@ == stream@,
    {
        let s = chars_of(stream);
        let mut i: usize = 0;
        while i < self.streams.len()
            invariant
                i <= self.streams.len(),
                s@ == stream@,
                forall|j: int| 0 <= j < i ==> (#[trigger] self.streams@[j]).stream_url@ != stream@,
            ensures
                i <= self.streams.len(),
                forall|j: int| 0 <= j < i ==> (#[trigger] self.streams@[j]).stream_url@ != stream@,
                i < self.streams.len() ==> self.streams@[i as int].stream_url@ == stream@,
            decreases self.streams.len() - i,
        {
            if chars_are(&s, self.streams[i].stream_url.as_str()) {
                break;
            }
            i += 1;
        }
        proof {
            lemma_stream_index(self.streams@, stream@, i as int);
        }
        i
    }

    /// Takes in a note of a stream at `now` and tells what is to be told
    /// of the stream after it. A stream that is noted for the first time
    /// is remembered from then on.
    pub fn update_stream(&mut self, stream: &str, note: StreamNote, now: i64) -> (p:
        StreamStatusPayload)
        ensures
            final(self).max_logs == old(self).max_logs,
            final(self).inactivity_timeout_secs == old(self).inactivity_timeout_secs,
            final(self).next_log_id == old(self).next_log_id,
            streams_after(old(self).streams@, final(self).streams@, stream@, note, now),
            old(self).wf() ==> final(self).wf(),
            stream_index(old(self).streams@, stream@) < final(self).streams@.len(),
            p == snapshot_of(
                final(self).streams@[stream_index(old(self).streams@, stream@) as int],
                now,
                old(self).inactivity_timeout_secs,
            ),
    {
        let i = self.find(stream);
        if i >= self.streams.len() {
            self.streams.push(StreamTelemetry::new(stream.to_owned()));
            assert(self.streams@.take(i as int) =~= old(self).streams@);
        }
        let mut entry = self.streams.remove(i);
        entry.note(note, now);
        let p = entry.make_snapshot(now, self.inactivity_timeout_secs);
        self.streams.insert(i, entry);
        proof {
            if i < old(self).streams@.len() {
                assert(self.streams@ =~= old(self).streams@.update(
                    i as int,
                    noted(old(self).streams@[i as int], note, now),
                ));
            } else {
                assert(self.streams@.take(i as int) =~= old(self).streams@);
            }
            if old(self).wf() {
                lemma_note_keeps_one_entry(
                    old(self).streams@,
                    self.streams@,
                    stream@,
                    note,
                    now,
                );
            }
        }
        p
    }

    /// Notes that a connection to the stream is being made.
    pub fn note_connecting(&mut self, stream: &str, now: i64) -> (p: StreamStatusPayload)
        ensures
            final(self).max_logs == old(self).max_logs,
            final(self).inactivity_timeout_secs == old(self).inactivity_timeout_secs,
            final(self).next_log_id == old(self).next_log_id,
            streams_after(
                old(self).streams@,
                final(self).streams@,
                stream@,
                StreamNote::Connecting,
                now,
            ),
            old(self).wf() ==> final(self).wf(),
            stream_index(old(self).streams@, stream@) < final(self).streams@.len(),
            p == snapshot_of(
                final(self).streams@[stream_index(old(self).streams@, stream@) as int],
                now,
                old(self).inactivity_timeout_secs,
            ),
    {
        self.update_stream(stream, StreamNote::Connecting, now)
    }

    /// Notes that the stream is connected.
    pub fn note_connected(&mut self, stream: &str, now: i64) -> (p: StreamStatusPayload)
        ensures
            final(self).max_logs == old(self).max_logs,
            final(self).inactivity_timeout_secs == old(self).inactivity_timeout_secs,
            final(self).next_log_id == old(self).next_log_id,
            streams_after(
                old(self).streams@,
                final(self).streams@,
                stream@,
                StreamNote::Connected,
                now,
            ),
            old(self).wf() ==> final(self).wf(),
            stream_index(old(self).streams@, stream@) < final(self).streams@.len(),
            p == snapshot_of(
                final(self).streams@[stream_index(old(self).streams@, stream@) as int],
                now,
                old(self).inactivity_timeout_secs,
            ),
    {
        self.update_stream(stream, StreamNote::Connected, now)
    }

    /// Notes that audio came in on the stream.
    pub fn note_activity(&mut self, stream: &str, now: i64) -> (p: StreamStatusPayload)
        ensures
            final(self).max_logs == old(self).max_logs,
            final(self).inactivity_timeout_secs == old(self).inactivity_timeout_secs,
            final(self).next_log_id == old(self).next_log_id,
            streams_after(
                old(self).streams@,
                final(self).streams@,
                stream@,
                StreamNote::Activity,
                now,
            ),
            old(self).wf() ==> final(self).wf(),
            stream_index(old(self).streams@, stream@) < final(self).streams@.len(),
            p == snapshot_of(
                final(self).streams@[stream_index(old(self).streams@, stream@) as int],
                now,
                old(self).inactivity_timeout_secs,
            ),
    {
        self.update_stream(stream, StreamNote::Activity, now)
    }

    /// Notes an error on the stream.
    pub fn note_error(&mut self, stream: &str, error: String, now: i64) -> (p: StreamStatusPayload)
        ensures
            final(self).max_logs == old(self).max_logs,
            final(self).inactivity_timeout_secs == old(self).inactivity_timeout_secs,
            final(self).next_log_id == old(self).next_log_id,
            streams_after(
                old(self).streams@,
                final(self).streams@,
                stream@,
                StreamNote::Error(error),
                now,
            ),
            old(self).wf() ==> final(self).wf(),
            stream_index(old(self).streams@, stream@) < final(self).streams@.len(),
            p == snapshot_of(
                final(self).streams@[stream_index(old(self).streams@, stream@) as int],
                now,
                old(self).inactivity_timeout_secs,
            ),
    {
        self.update_stream(stream, StreamNote::Error(error), now)
    }

    /// Notes that the connection to the stream has ended.
    pub fn note_disconnected(&mut self, stream: &str, now: i64) -> (p: StreamStatusPayload)
        ensures
            final(self).max_logs == old(self).max_logs,
            final(self).inactivity_timeout_secs == old(self).inactivity_timeout_secs,
            final(self).next_log_id == old(self).next_log_id,
            streams_after(
                old(self).streams@,
                final(self).streams@,
                stream@,
                StreamNote::Disconnected,
                now,
            ),
            old(self).wf() ==> final(self).wf(),
            stream_index(old(self).streams@, stream@) < final(self).streams@.len(),
            p == snapshot_of(
                final(self).streams@[stream_index(old(self).streams@, stream@) as int],
                now,
                old(self).inactivity_timeout_secs,
            ),
    {
        self.update_stream(stream, StreamNote::Disconnected, now)
    }

    /// Notes that an alert was received on the stream.
    pub fn note_alert(&mut self, stream: &str, now: i64) -> (p: StreamStatusPayload)
        ensures
            final(self).max_logs == old(self).max_logs,
            final(self).inactivity_timeout_secs == old(self).inactivity_timeout_secs,
            final(self).next_log_id == old(self).next_log_id,
            streams_after(
                old(self).streams@,
                final(self).streams@,
                stream@,
                StreamNote::Alert,
                now,
            ),
            old(self).wf() ==> final(self).wf(),
            stream_index(old(self).streams@, stream@) < final(self).streams@.len(),
            p == snapshot_of(
                final(self).streams@[stream_index(old(self).streams@, stream@) as int],
                now,
                old(self).inactivity_timeout_secs,
            ),
    {
        self.update_stream(stream, StreamNote::Alert, now)
    }

    /// What is told of a stream at `now`, if the monitor has heard of it.
    pub fn stream_snapshot(&self, stream: &str, now: i64) -> (r: Option<StreamStatusPayload>)
        ensures
            r == if stream_index(self.streams@, stream@) < self.streams@.len() {
                Some(
                    snapshot_of(
                        self.streams@[stream_index(self.streams@, stream@) as int],
                        now,
                        self.inactivity_timeout_secs,
                    ),
                )
            } else {
                None
            },
    {
        let i = self.find(stream);
        if i < self.streams.len() {
            Some(self.streams[i].make_snapshot(now, self.inactivity_timeout_secs))
        } else {
            None
        }
    }

    /// What is told of every stream at `now`, in the order in which the
    /// monitor heard of them.
    pub fn stream_snapshots(&self, now: i64) -> (r: Vec<StreamStatusPayload>)
        ensures
            r@.len() == self.streams@.len(),
            forall|i: int|
                0 <= i < r@.len() ==> #[trigger] r@[i] == snapshot_of(
                    self.streams@[i],
                    now,
                    self.inactivity_timeout_secs,
                ),
    {
        let mut r: Vec<StreamStatusPayload> = Vec::new();
        let mut i: usize = 0;
        while i < self.streams.len()
            invariant
                i <= self.streams.len(),
                r@.len() == i,
                forall|j: int|
                    0 <= j < i ==> #[trigger] r@[j] == snapshot_of(
                        self.streams@[j],
                        now,
                        self.inactivity_timeout_secs,
                    ),
            decreases self.streams.len() - i,
        {
            r.push(self.streams[i].make_snapshot(now, self.inactivity_timeout_secs));
            i += 1;
        }
        r
    }
}

} // verus!
