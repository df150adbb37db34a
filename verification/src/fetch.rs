//! The rules of the stream fetcher: when it backs off, what it does with a
//! chunk that the decoder has no room for, and how often it may say so.
//!
//! Times are milliseconds on a clock that never runs backwards.

use vstd::prelude::*;

verus! {

/// How many chunks of bytes may wait between the fetcher and the decoder.
pub const BYTE_QUEUE_SLOTS: usize = 256;

/// How many seconds a connection may stay silent before it is given up.
pub const STREAM_INACTIVITY_SECS: u64 = 120;

/// How many milliseconds pass before the fetcher connects again.
pub const RECONNECT_BACKOFF_MS: u64 = 1000;

/// How many milliseconds pass between two warnings of dropped chunks.
pub const BACKPRESSURE_WARN_MS: u64 = 30000;

/// How many milliseconds pass between two notes of the same kind in the
/// log of connection attempts.
pub const CONNECT_LOG_MS: u64 = 60000;

/// The kinds of content that the fetcher asks for.
pub const ACCEPT_HEADER: &'static str = "audio/*,application/ogg;q=0.9,*/*;q=0.1";

/// What happened to a request for the stream, or on its connection.
#[derive(Debug, Clone, Copy, PartialEq, Eq, Structural)]
pub enum FetchEvent {
    /// No connection could be made.
    ConnectFailed,
    /// The server answered with this status.
    Status(u16),
    /// The body ended.
    EndOfBody,
    /// Reading the body failed.
    ReadError,
    /// No chunk came within the time allowed.
    Stalled,
    /// The decoder has gone away.
    DecoderGone,
}

/// What the fetcher does next.
#[derive(Debug, Clone, Copy, PartialEq, Eq, Structural)]
pub enum FetchAction {
    /// Read the body and hand its chunks to the decoder.
    ReadBody,
    /// Report an error, wait for the given milliseconds, connect again.
    ReportAndReconnect(u64),
    /// Wait for the given milliseconds, connect again.
    Reconnect(u64),
}

/// What the queue to the decoder said of a chunk.
#[derive(Debug, Clone, Copy, PartialEq, Eq, Structural)]
pub enum QueueAnswer {
    Accepted,
    Full,
    Closed,
}

/// What the fetcher does after offering a chunk to the decoder.
#[derive(Debug, Clone, Copy, PartialEq, Eq, Structural)]
pub struct ChunkOutcome {
    /// The chunk reached the decoder: the stream is alive.
    pub note_activity: bool,
    /// The chunk was dropped and it is time to say so.
    pub warn_dropped: bool,
    /// The fetcher goes on reading.
    pub keep_reading: bool,
}

/// Holds back notes of one kind that come too close together.
#[derive(Debug, Clone, Copy, PartialEq, Eq, Structural)]
pub struct RateLimit {
    pub interval_ms: u64,
    pub last: Option<u64>,
}

/// Whether a status tells success: 200 to 299.
pub open spec fn status_ok(code: u16) -> bool {
    200 <= code && code < 300
}

/// What the fetcher does on an event. Only a status of success lets it
/// read; every other event makes it connect again after the backoff, and
/// all but the loss of the decoder are reported as errors.
pub open spec fn action_on(event: FetchEvent) -> FetchAction {
    match event {
        FetchEvent::Status(code) => if status_ok(code) {
            FetchAction::ReadBody
        } else {
            FetchAction::ReportAndReconnect(RECONNECT_BACKOFF_MS)
        },
        FetchEvent::DecoderGone => FetchAction::Reconnect(RECONNECT_BACKOFF_MS),
        _ => FetchAction::ReportAndReconnect(RECONNECT_BACKOFF_MS),
    }
}

/// Whether a note is let through at `now`: the first one is, and every
/// later one that comes more than the interval after the last that was.
pub open spec fn lets_through(l: RateLimit, now: u64) -> bool {
    match l.last {
        None => true,
        Some(t) => now >= t && now - t > l.interval_ms,
    }
}

/// The limit after a note was offered at `now`.
pub open spec fn after_offer(l: RateLimit, now: u64) -> RateLimit {
    if lets_through(l, now) {
        RateLimit { last: Some(now), ..l }
    } else {
        l
    }
}

/// What the fetcher does after the queue answered, where `may_warn` tells
/// whether a warning would be let through. A chunk that finds the queue
/// full is dropped and the fetcher reads on.
pub open spec fn outcome_of(answer: QueueAnswer, may_warn: bool) -> ChunkOutcome {
    match answer {
        QueueAnswer::Accepted => ChunkOutcome {
            note_activity: true,
            warn_dropped: false,
            keep_reading: true,
        },
        QueueAnswer::Full => ChunkOutcome {
            note_activity: false,
            warn_dropped: may_warn,
            keep_reading: true,
        },
        QueueAnswer::Closed => ChunkOutcome {
            note_activity: false,
            warn_dropped: false,
            keep_reading: false,
        },
    }
}

/// A full queue never stops the fetcher: it keeps draining the connection.
pub proof fn lemma_full_queue_keeps_reading(may_warn: bool)
    ensures
        outcome_of(QueueAnswer::Full, may_warn).keep_reading,
        !outcome_of(QueueAnswer::Full, may_warn).note_activity,
{
}

/// Two notes that are let through lie more than the interval apart.
pub proof fn lemma_notes_are_spaced(l: RateLimit, first: u64, second: u64)
    requires
        lets_through(l, first),
        lets_through(after_offer(l, first), second),
    ensures
        second - first > l.interval_ms,
{
}

/// For how many seconds a connection may stay silent.
pub fn stream_inactivity_timeout() -> (secs: u64)
    ensures
        secs == STREAM_INACTIVITY_SECS,
        secs == 120,
{
    STREAM_INACTIVITY_SECS
}

/// Tells whether a status tells success.
pub fn is_success_status(code: u16) -> (r: bool)
    ensures
        r == status_ok(code),
{
    200 <= code && code < 300
}

/// Decides what the fetcher does on an event.
pub fn next_fetch_action(event: FetchEvent) -> (action: FetchAction)
    ensures
        action == action_on(event),
{
    match event {
        FetchEvent::Status(code) => {
            if is_success_status(code) {
                FetchAction::ReadBody
            } else {
                FetchAction::ReportAndReconnect(RECONNECT_BACKOFF_MS)
            }
        },
        FetchEvent::DecoderGone => FetchAction::Reconnect(RECONNECT_BACKOFF_MS),
        _ => FetchAction::ReportAndReconnect(RECONNECT_BACKOFF_MS),
    }
}

impl RateLimit {
    /// A limit that lets the first note through.
    pub fn new(interval_ms: u64) -> (l: Self)
        ensures
            l.interval_ms == interval_ms,
            l.last is None,
    {
        RateLimit { interval_ms, last: None }
    }

    /// A limit that holds notes back until the interval has passed since
    /// `now`.
    pub fn starting_at(interval_ms: u64, now: u64) -> (l: Self)
        ensures
            l.interval_ms == interval_ms,
            l.last == Some(now),
    {
        RateLimit { interval_ms, last: Some(now) }
    }

    /// Offers a note at `now` and tells whether it is let through.
    pub fn offer(&mut self, now: u64) -> (through: bool)
        ensures
            through == lets_through(*old(self), now),
            *final(self) == after_offer(*old(self), now),
    {
        let through = match self.last {
            None => true,
            Some(t) => now >= t && now - t > self.interval_ms,
        };
        if through {
            self.last = Some(now);
        }
        through
    }
}

/// Decides what the fetcher does after offering a chunk to the decoder at
/// `now`. Warnings of dropped chunks go through `warnings`.
pub fn after_chunk(answer: QueueAnswer, warnings: &mut RateLimit, now: u64) -> (outcome:
    ChunkOutcome)
    ensures
        outcome == outcome_of(answer, lets_through(*old(warnings), now)),
        *final(warnings) == match answer {
            QueueAnswer::Full => after_offer(*old(warnings), now),
            _ => *old(warnings),
        },
{
    match answer {
        QueueAnswer::Accepted => ChunkOutcome {
            note_activity: true,
            warn_dropped: false,
            keep_reading: true,
        },
        QueueAnswer::Full => {
            let may_warn = warnings.offer(now);
            ChunkOutcome { note_activity: false, warn_dropped: may_warn, keep_reading: true }
        },
        QueueAnswer::Closed => ChunkOutcome {
            note_activity: false,
            warn_dropped: false,
            keep_reading: false,
        },
    }
}

} // verus!
