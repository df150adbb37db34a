//! The attention-tone latch of one stream.
//!
//! A chunk of audio either shows the 1050 Hz tone or it does not. A run of
//! chunks that show it arms the detector; while it is armed the latch counts
//! samples, and raises an edge once five seconds of them have been heard.
//! A SAME message silences the latch for a while, and so does a recording
//! that the latch itself has started.
//!
//! Times are milliseconds on a clock that never runs backwards.

use crate::text::{chars_of, ends_with, extend_str, starts_with, string_of, sub_vec};
use vstd::prelude::*;

verus! {

/// The sample rate of the canonical feed, in Hz.
pub const TARGET_SAMPLE_RATE: u32 = 48000;

/// The number of samples in one chunk of the canonical feed.
pub const CHUNK_SIZE: usize = 2048;

/// The number of armed samples that raise an edge: five seconds of audio.
pub const TONE_MIN_SAMPLES: usize = 240000;

/// For how long a tone recording runs, and new edges are held back.
pub const TONE_RECORDING_MS: u64 = 120000;

/// For how long after the start of a SAME message the latch stays silent.
pub const SAME_SUPPRESSION_MS: u64 = 300000;

/// How many chunks in a row must show the tone before the detector is armed.
pub const TONE_HITS_REQUIRED: u8 = 8;

/// For how long an alert that a tone alone announced stays active, in
/// seconds.
pub const TONE_ALERT_PURGE_SECS: u64 = 900;

/// Counts the chunks in a row that showed the tone.
#[derive(Debug, Clone, Copy, PartialEq, Eq, Structural)]
pub struct ToneHitCounter {
    pub required: u8,
    pub hits: u8,
}

/// The latch proper: armed samples heard so far, and the two deadlines
/// before which it stays silent.
#[derive(Debug, Clone, Copy, PartialEq, Eq, Structural)]
pub struct ToneLatch {
    pub sustained_samples: usize,
    pub rearm_at: Option<u64>,
    pub suppressed_until: Option<u64>,
}

/// One chunk as the latch sees it: when it was heard, whether the detector
/// was armed on it, and how many samples it held.
pub struct Observation {
    pub now: u64,
    pub armed: bool,
    pub samples: usize,
}

/// The sum of two counts, held at the largest count there is.
pub open spec fn capped_sum(a: usize, b: usize) -> usize {
    if a + b > usize::MAX {
        usize::MAX
    } else {
        (a + b) as usize
    }
}

/// A time `span` after `now`, held at the latest time there is.
pub open spec fn later(now: u64, span: u64) -> u64 {
    if now + span > u64::MAX {
        u64::MAX
    } else {
        (now + span) as u64
    }
}

/// The hit count after one more chunk.
pub open spec fn hits_after(hits: u8, tone_hit: bool) -> u8 {
    if !tone_hit {
        0
    } else if hits == u8::MAX {
        u8::MAX
    } else {
        (hits + 1) as u8
    }
}

/// The hit count after a run of chunks, oldest first.
pub open spec fn hits_after_run(hits: u8, run: Seq<bool>) -> u8
    decreases run.len(),
{
    if run.len() == 0 {
        hits
    } else {
        hits_after(hits_after_run(hits, run.drop_last()), run.last())
    }
}

/// Whether a SAME message silences the latch at `now`.
pub open spec fn suppression_active(l: ToneLatch, now: u64) -> bool {
    l.suppressed_until matches Some(deadline) && now < deadline
}

/// Whether the latch may count again at `now` after a recording of its own.
pub open spec fn rearm_ready(l: ToneLatch, now: u64) -> bool {
    l.rearm_at matches Some(ready_at) ==> now >= ready_at
}

/// Whether the latch counts at `now`.
pub open spec fn listening(l: ToneLatch, now: u64) -> bool {
    !suppression_active(l, now) && rearm_ready(l, now)
}

/// The latch after one chunk. While it listens, an armed chunk adds its
/// samples to the count; every other chunk empties the count. A suppression
/// whose deadline has passed is forgotten.
pub open spec fn observed(l: ToneLatch, o: Observation) -> ToneLatch {
    ToneLatch {
        sustained_samples: if listening(l, o.now) && o.armed {
            capped_sum(l.sustained_samples, o.samples)
        } else {
            0
        },
        rearm_at: l.rearm_at,
        suppressed_until: if suppression_active(l, o.now) {
            l.suppressed_until
        } else {
            None
        },
    }
}

/// Whether the chunk raises an edge: the latch listens and the count
/// reaches five seconds of samples.
pub open spec fn raises_edge(l: ToneLatch, o: Observation) -> bool {
    listening(l, o.now) && observed(l, o).sustained_samples >= TONE_MIN_SAMPLES
}

/// The latch after the start of a SAME message at `now`.
pub open spec fn after_start_of_message(l: ToneLatch, now: u64) -> ToneLatch {
    ToneLatch { suppressed_until: Some(later(now, SAME_SUPPRESSION_MS)), ..l }
}

/// The latch after the end of a SAME message: as it was. The silence that
/// the start of the message began lasts its full time.
pub open spec fn after_end_of_message(l: ToneLatch) -> ToneLatch {
    l
}

/// What can happen to a latch.
pub enum LatchEvent {
    /// A chunk was heard.
    Chunk(Observation),
    /// A SAME message started at the given time.
    StartOfMessage(u64),
    /// A SAME message ended.
    EndOfMessage,
    /// A tone recording started at the given time.
    RecordingStarted(u64),
}

/// The latch after one event.
pub open spec fn after_event(l: ToneLatch, e: LatchEvent) -> ToneLatch {
    match e {
        LatchEvent::Chunk(o) => observed(l, o),
        LatchEvent::StartOfMessage(now) => after_start_of_message(l, now),
        LatchEvent::EndOfMessage => after_end_of_message(l),
        LatchEvent::RecordingStarted(now) => after_recording_started(l, now),
    }
}

/// The latch after a run of events, oldest first.
pub open spec fn after_events(l: ToneLatch, events: Seq<LatchEvent>) -> ToneLatch
    decreases events.len(),
{
    if events.len() == 0 {
        l
    } else {
        after_event(after_events(l, events.drop_last()), events.last())
    }
}

/// Whether an event falls into the 300 seconds after a start of message at
/// `start`: a chunk must be heard before the window ends, and nothing may
/// be dated before `start`.
pub open spec fn in_window(e: LatchEvent, start: u64) -> bool {
    match e {
        LatchEvent::Chunk(o) => start <= o.now < later(start, SAME_SUPPRESSION_MS),
        LatchEvent::StartOfMessage(now) => start <= now,
        LatchEvent::EndOfMessage => true,
        LatchEvent::RecordingStarted(now) => start <= now,
    }
}

/// Whether every event of a run falls into the window after `start`.
pub open spec fn all_in_window(events: Seq<LatchEvent>, start: u64) -> bool {
    forall|j: int| 0 <= j < events.len() ==> in_window(#[trigger] events[j], start)
}

/// The latch after a tone recording has started at `now`.
pub open spec fn after_recording_started(l: ToneLatch, now: u64) -> ToneLatch {
    ToneLatch { sustained_samples: 0, rearm_at: Some(later(now, TONE_RECORDING_MS)), ..l }
}

/// The latch after a run of chunks, oldest first, with nothing else
/// happening in between.
pub open spec fn observed_run(l: ToneLatch, run: Seq<Observation>) -> ToneLatch
    decreases run.len(),
{
    if run.len() == 0 {
        l
    } else {
        observed(observed_run(l, run.drop_last()), run.last())
    }
}

/// Whether the chunk at index `i` of a run raises an edge.
pub open spec fn edge_at(l: ToneLatch, run: Seq<Observation>, i: int) -> bool {
    raises_edge(observed_run(l, run.take(i)), run[i])
}

/// The samples of a run of chunks, added up.
pub open spec fn total_samples(run: Seq<Observation>) -> nat
    decreases run.len(),
{
    if run.len() == 0 {
        0
    } else {
        total_samples(run.drop_last()) + (run.last().samples as nat)
    }
}

/// A latch that no deadline holds back.
pub open spec fn unhindered(l: ToneLatch) -> bool {
    l.rearm_at is None && l.suppressed_until is None
}

/// A run in which every chunk is armed.
pub open spec fn all_armed(run: Seq<Observation>) -> bool {
    forall|i: int| 0 <= i < run.len() ==> (#[trigger] run[i]).armed
}

/// On a latch that nothing holds back, armed chunks add up: the count after
/// a run of them is the total of their samples, held at the largest count.
pub proof fn lemma_armed_run_adds_up(l: ToneLatch, run: Seq<Observation>)
    requires
        unhindered(l),
        l.sustained_samples == 0,
        all_armed(run),
    ensures
        unhindered(observed_run(l, run)),
        observed_run(l, run).sustained_samples == if total_samples(run) > usize::MAX {
            usize::MAX as int
        } else {
            total_samples(run) as int
        },
    decreases run.len(),
{
    if run.len() > 0 {
        let front = run.drop_last();
        assert forall|i: int| 0 <= i < front.len() implies (#[trigger] front[i]).armed by {
            assert(front[i] == run[i]);
        }
        lemma_armed_run_adds_up(l, front);
        assert(run.last() == run[run.len() - 1]);
    }
}

/// The edge comes with the chunk that completes five seconds of armed
/// samples, and not before: a run of armed chunks on a fresh latch raises
/// an edge with its last chunk exactly when its samples number 240000 or
/// more.
pub proof fn lemma_edge_at_threshold(l: ToneLatch, run: Seq<Observation>)
    requires
        unhindered(l),
        l.sustained_samples == 0,
        all_armed(run),
        run.len() > 0,
    ensures
        edge_at(l, run, run.len() - 1) <==> total_samples(run) >= 240000,
{
    let front = run.take(run.len() - 1);
    assert(front =~= run.drop_last());
    assert forall|i: int| 0 <= i < front.len() implies (#[trigger] front[i]).armed by {
        assert(front[i] == run[i]);
    }
    lemma_armed_run_adds_up(l, front);
    assert(run.last() == run[run.len() - 1]);
}

/// No chunk heard within 300 seconds of the start of a SAME message raises
/// an edge, and each such chunk leaves the count at zero, whatever the
/// detector reports and whatever happens in between: other chunks, the end
/// of the message, further messages, a recording. The window ends at
/// `later(start, SAME_SUPPRESSION_MS)`.
pub proof fn lemma_no_edge_after_start_of_message(
    l: ToneLatch,
    start: u64,
    events: Seq<LatchEvent>,
    o: Observation,
)
    requires
        all_in_window(events, start),
        start <= o.now < later(start, SAME_SUPPRESSION_MS),
    ensures
        !raises_edge(after_events(after_start_of_message(l, start), events), o),
        observed(
            after_events(after_start_of_message(l, start), events),
            o,
        ).sustained_samples == 0,
{
    lemma_suppression_lasts(l, start, events);
}

/// A suppression stays in force, with a deadline no earlier than the one
/// that the start of the message set, over every run of events that falls
/// into its window.
pub proof fn lemma_suppression_lasts(l: ToneLatch, start: u64, events: Seq<LatchEvent>)
    requires
        all_in_window(events, start),
    ensures
        after_events(after_start_of_message(l, start), events).suppressed_until is Some,
        after_events(after_start_of_message(l, start), events).suppressed_until->0 >= later(
            start,
            SAME_SUPPRESSION_MS,
        ),
    decreases events.len(),
{
    if events.len() > 0 {
        let front = events.drop_last();
        assert forall|j: int| 0 <= j < front.len() implies in_window(
            #[trigger] front[j],
            start,
        ) by {
            assert(front[j] == events[j]);
        }
        lemma_suppression_lasts(l, start, front);
        assert(in_window(events[events.len() - 1], start));
    }
}

/// The end of a SAME message does not bring the edge forward: a chunk that
/// raises no edge before it raises none after it.
pub proof fn lemma_end_of_message_changes_nothing(l: ToneLatch, o: Observation)
    ensures
        raises_edge(after_end_of_message(l), o) == raises_edge(l, o),
        observed(after_end_of_message(l), o) == observed(l, o),
{
}

/// No chunk of a run of armed chunks on a fresh latch raises an edge before
/// five seconds of samples have been heard.
pub proof fn lemma_no_edge_before_threshold(l: ToneLatch, run: Seq<Observation>, i: int)
    requires
        unhindered(l),
        l.sustained_samples == 0,
        all_armed(run),
        0 <= i < run.len(),
        total_samples(run.take(i + 1)) < 240000,
    ensures
        !edge_at(l, run, i),
{
    let part = run.take(i + 1);
    assert forall|j: int| 0 <= j < part.len() implies (#[trigger] part[j]).armed by {
        assert(part[j] == run[j]);
    }
    lemma_edge_at_threshold(l, part);
    assert(part.take(part.len() - 1) =~= run.take(i));
    assert(part[part.len() - 1] == run[i]);
}

/// While a tone recording that the latch started is running, no chunk
/// raises another edge.
pub proof fn lemma_no_edge_while_recording(l: ToneLatch, started: u64, o: Observation)
    requires
        started <= o.now < later(started, TONE_RECORDING_MS),
    ensures
        !raises_edge(after_recording_started(l, started), o),
{
}

impl ToneHitCounter {
    /// A counter that arms after `required` hits in a row.
    pub fn new(required: u8) -> (c: Self)
        ensures
            c.required == required,
            c.hits == 0,
    {
        ToneHitCounter { required, hits: 0 }
    }

    /// Whether the detector is armed: the hits in a row have reached the
    /// number required.
    pub open spec fn armed(self) -> bool {
        self.hits >= self.required
    }

    /// Takes in the verdict on one chunk and tells whether the detector is
    /// armed after it. A chunk without the tone starts the count anew.
    pub fn record(&mut self, tone_hit: bool) -> (armed: bool)
        ensures
            final(self).required == old(self).required,
            final(self).hits == hits_after(old(self).hits, tone_hit),
            armed == final(self).armed(),
    {
        if tone_hit {
            if self.hits < u8::MAX {
                self.hits = self.hits + 1;
            }
        } else {
            self.hits = 0;
        }
        self.hits >= self.required
    }
}

/// A run of chunks that all show the tone brings a fresh count to the
/// length of the run, held at 255: so eight of them arm a detector that
/// asks for eight, and seven do not.
pub proof fn lemma_hits_in_a_row(run: Seq<bool>)
    requires
        forall|i: int| 0 <= i < run.len() ==> #[trigger] run[i],
    ensures
        hits_after_run(0, run) == if run.len() >= 255 {
            255
        } else {
            run.len() as int
        },
    decreases run.len(),
{
    if run.len() > 0 {
        let front = run.drop_last();
        assert forall|i: int| 0 <= i < front.len() implies #[trigger] front[i] by {
            assert(front[i] == run[i]);
        }
        lemma_hits_in_a_row(front);
        assert(run.last() == run[run.len() - 1]);
    }
}

/// A time `span` after `now`, held at the latest time there is.
fn time_after(now: u64, span: u64) -> (t: u64)
    ensures
        t == later(now, span),
{
    if now > u64::MAX - span {
        u64::MAX
    } else {
        now + span
    }
}

impl ToneLatch {
    /// A latch that has heard nothing and that nothing holds back.
    pub fn new() -> (l: Self)
        ensures
            l.sustained_samples == 0,
            unhindered(l),
    {
        ToneLatch { sustained_samples: 0, rearm_at: None, suppressed_until: None }
    }

    /// Notes the start of a SAME message at `now`: the latch stays silent
    /// for the next 300 seconds.
    pub fn note_start_of_message(&mut self, now: u64)
        ensures
            *final(self) == after_start_of_message(*old(self), now),
    {
        self.suppressed_until = Some(time_after(now, SAME_SUPPRESSION_MS));
    }

    /// Notes the end of a SAME message. The latch stays as it is: the
    /// silence that the start of the message began lasts its 300 seconds.
    pub fn note_end_of_message(&mut self)
        ensures
            *final(self) == after_end_of_message(*old(self)),
            *final(self) == *old(self),
    {
    }

    /// Notes that a tone recording has started at `now`: the count starts
    /// anew and the latch stays silent for the 120 seconds of the recording.
    pub fn note_recording_started(&mut self, now: u64)
        ensures
            *final(self) == after_recording_started(*old(self), now),
    {
        self.sustained_samples = 0;
        self.rearm_at = Some(time_after(now, TONE_RECORDING_MS));
    }

    /// Takes in one chunk heard at `now` and tells whether it raises an
    /// edge.
    pub fn observe_chunk(&mut self, now: u64, armed: bool, samples: usize) -> (edge: bool)
        ensures
            *final(self) == observed(*old(self), Observation { now, armed, samples }),
            edge == raises_edge(*old(self), Observation { now, armed, samples }),
    {
        let suppressed = match self.suppressed_until {
            Some(deadline) => now < deadline,
            None => false,
        };
        if !suppressed {
            self.suppressed_until = None;
        }
        let ready = match self.rearm_at {
            Some(ready_at) => now >= ready_at,
            None => true,
        };
        if suppressed || !ready || !armed {
            self.sustained_samples = 0;
        } else {
            self.sustained_samples = self.sustained_samples.saturating_add(samples);
        }
        !suppressed && ready && self.sustained_samples >= TONE_MIN_SAMPLES
    }
}

/// The header that a tone recording is written under: the SAME header that
/// is live on the stream, where there is one of the right shape, else a
/// placeholder made of the time stamp and the station's name.
pub open spec fn tone_header(
    current: Option<Seq<char>>,
    julian_timestamp: Seq<char>,
    relay_name: Seq<char>,
) -> Seq<char> {
    if current is Some && "ZCZC-"@.is_prefix_of(current->0) && "-"@.is_suffix_of(current->0) {
        current->0
    } else {
        "ZCZC-WXR-??W-000000+0015-"@ + julian_timestamp + "-"@ + relay_name + "-"@
    }
}

/// The header that a tone recording is written under.
pub fn nwr_tone_header_for_recording(
    current_same_header: Option<&str>,
    julian_timestamp: &str,
    relay_name: &str,
) -> (r: String)
    ensures
        r@ == tone_header(
            match current_same_header {
                Some(h) => Some(h@),
                None => None,
            },
            julian_timestamp@,
            relay_name@,
        ),
{
    match current_same_header {
        Some(header) => {
            let h = chars_of(header);
            let prefix = chars_of("ZCZC-");
            let suffix = chars_of("-");
            if starts_with(&h, &prefix) && ends_with(&h, &suffix) {
                return string_of(&h);
            }
        },
        None => {},
    }
    let mut out: Vec<char> = Vec::new();
    extend_str(&mut out, "ZCZC-WXR-??W-000000+0015-");
    extend_str(&mut out, julian_timestamp);
    extend_str(&mut out, "-");
    extend_str(&mut out, relay_name);
    extend_str(&mut out, "-");
    assert(out@ =~= "ZCZC-WXR-??W-000000+0015-"@ + julian_timestamp@ + "-"@ + relay_name@ + "-"@);
    string_of(&out)
}

/// The event code that a raw header carries in its characters 9 to 11, or
/// `??W` where the header is too short to carry one.
pub open spec fn header_event_code(raw_header: Seq<char>) -> Seq<char> {
    if raw_header.len() >= 12 {
        raw_header.subrange(9, 12)
    } else {
        "??W"@
    }
}

/// The event code of the alert that a tone recording is dispatched as.
pub fn tone_event_code(raw_header: &str) -> (r: String)
    ensures
        r@ == header_event_code(raw_header@),
{
    let h = chars_of(raw_header);
    if h.len() >= 12 {
        let code = sub_vec(&h, 9, 12);
        string_of(&code)
    } else {
        "??W".to_owned()
    }
}

} // verus!
