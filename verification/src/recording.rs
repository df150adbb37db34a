//! Recordings: how their files are named, which streams are being recorded,
//! and what a finished file holds.

use crate::text::{
    ascii_upper, char_ascii_upper, char_is_ascii_alnum, chars_are, chars_of, decimal,
    decimal_chars, extend_chars, extend_str, is_ascii_alnum, list_contains, piece_views, split, split_on, string_of, sub_vec,
    trim, trim_char, trim_of, trim_ws, views,
};
use vstd::prelude::*;

verus! {

/// The longest a recording of a SAME message runs, in seconds.
pub const SAME_RECORDING_SECS: u64 = 300;

/// The length of a recording that a tone started, in seconds.
pub const TONE_RECORDING_SECS: u64 = 120;

/// How many chunks of audio may wait between the feed and the writer.
pub const RECORDING_QUEUE_CHUNKS: usize = 32;

/// The bytes that one sample takes in the file.
pub const BYTES_PER_SAMPLE: u64 = 2;

/// What a recording was started for.
#[derive(Debug, Clone, Copy, PartialEq, Eq, Structural)]
pub enum RecordingReason {
    Same,
    Tone,
}

/// A recording in progress: where it is written, the name of its file in
/// the recording directory, and the stream it is taken from.
#[derive(Debug, Clone)]
pub struct RecordingState {
    pub output_path: String,
    pub file_name: String,
    pub source_stream: String,
    pub started_at: i64,
    pub reason: RecordingReason,
}

/// The recordings in progress, at most one for each stream.
pub struct RecordingTable {
    pub entries: Vec<RecordingState>,
}

/// The names under which a recording is written.
#[derive(Debug, Clone)]
pub struct RecordingPlan {
    pub event_code: String,
    pub stream_label: String,
    pub file_name: String,
}

/// The samples that went into a recording, by part.
#[derive(Debug, Clone, Copy, PartialEq, Eq, Structural)]
pub struct WavTally {
    pub header_samples: u64,
    pub body_samples: u64,
    pub tail_samples: u64,
}

/// The model of `RecordingState`.
pub struct RecordingModel {
    pub output_path: Seq<char>,
    pub file_name: Seq<char>,
    pub source_stream: Seq<char>,
    pub started_at: int,
    pub reason: RecordingReason,
}

impl View for RecordingState {
    type V = RecordingModel;

    open spec fn view(&self) -> RecordingModel {
        RecordingModel {
            output_path: self.output_path@,
            file_name: self.file_name@,
            source_stream: self.source_stream@,
            started_at: self.started_at as int,
            reason: self.reason,
        }
    }
}

impl View for RecordingTable {
    type V = Seq<RecordingModel>;

    open spec fn view(&self) -> Seq<RecordingModel> {
        self.entries@.map_values(|e: RecordingState| e@)
    }
}

/// The character that stands for `c` in a file name: letters and digits in
/// upper case, `-` and `_` as they are, `_` for everything else.
pub open spec fn label_char(c: char) -> char {
    if is_ascii_alnum(c) {
        ascii_upper(c)
    } else if c == '-' || c == '_' {
        c
    } else {
        '_'
    }
}

/// The form of a label that is safe in a file name: each character replaced
/// by what stands for it, `_` removed from both ends, and `UNKNOWN` where
/// nothing is left.
pub open spec fn sanitized(label: Seq<char>) -> Seq<char> {
    let t = trim_of(label.map_values(|c: char| label_char(c)), '_');
    if t.len() == 0 {
        "UNKNOWN"@
    } else {
        t
    }
}

/// The event code that a file is named after: the third field of a header
/// that begins with `ZCZC`, sanitized; `UNK` for any other text.
pub open spec fn header_label(header_text: Seq<char>) -> Seq<char> {
    let parts = split(trim(header_text), '-');
    if parts.len() >= 3 && parts[0] == "ZCZC"@ {
        sanitized(parts[2])
    } else {
        "UNK"@
    }
}

/// The index of the first `?` or `#` in `s`, or the length of `s` where
/// there is none.
pub open spec fn query_start(s: Seq<char>) -> nat
    decreases s.len(),
{
    if s.len() == 0 || s[0] == '?' || s[0] == '#' {
        0
    } else {
        1 + query_start(s.drop_first())
    }
}

/// The last piece that is not empty, if there is one.
pub open spec fn last_nonempty(pieces: Seq<Seq<char>>) -> Option<Seq<char>>
    decreases pieces.len(),
{
    if pieces.len() == 0 {
        None
    } else if pieces.last().len() > 0 {
        Some(pieces.last())
    } else {
        last_nonempty(pieces.drop_last())
    }
}

/// The index of the last `c` in `s`, or -1 where there is none.
pub open spec fn last_index(s: Seq<char>, c: char) -> int
    decreases s.len(),
{
    if s.len() == 0 {
        -1
    } else if s.last() == c {
        s.len() - 1
    } else {
        last_index(s.drop_last(), c)
    }
}

/// A file name without its extension: what stands before the last `.`,
/// where something stands on both sides of it; else the whole name.
pub open spec fn stem(segment: Seq<char>) -> Seq<char> {
    let i = last_index(segment, '.');
    if 0 < i && i < segment.len() - 1 {
        segment.take(i)
    } else {
        segment
    }
}

/// The label of a stream: the last path segment of its address, without
/// query, fragment and extension, sanitized.
pub open spec fn stream_label(source_stream: Seq<char>) -> Seq<char> {
    let path = source_stream.take(query_start(source_stream) as int);
    let segment = match last_nonempty(split(path, '/')) {
        Some(s) => s,
        None => "UNKNOWN"@,
    };
    sanitized(stem(segment))
}

/// The name of the file of a recording. The index tells apart recordings
/// that would otherwise share a name; index 0 adds nothing.
pub open spec fn recording_name(
    event_code: Seq<char>,
    timestamp: Seq<char>,
    label: Seq<char>,
    index: nat,
) -> Seq<char> {
    let base = "EAS_Recording_"@ + event_code + "_"@ + timestamp + "_"@ + label;
    if index == 0 {
        base + ".wav"@
    } else {
        base + "_"@ + decimal(index) + ".wav"@
    }
}

/// The first index at or after `from` whose file name is not taken.
pub open spec fn first_free(
    taken: Seq<Seq<char>>,
    event_code: Seq<char>,
    timestamp: Seq<char>,
    label: Seq<char>,
    from: nat,
) -> nat
    decreases u64::MAX - from,
{
    if from >= u64::MAX || !taken.contains(recording_name(event_code, timestamp, label, from)) {
        from
    } else {
        first_free(taken, event_code, timestamp, label, from + 1)
    }
}

/// Whether a recording of the stream is in progress.
pub open spec fn has_stream(entries: Seq<RecordingModel>, stream: Seq<char>) -> bool {
    exists|i: int| 0 <= i < entries.len() && (#[trigger] entries[i]).source_stream == stream
}

/// The index of the recording of the stream, or the number of recordings
/// where there is none.
pub open spec fn slot_of(entries: Seq<RecordingModel>, stream: Seq<char>) -> nat
    decreases entries.len(),
{
    if entries.len() == 0 || entries[0].source_stream == stream {
        0
    } else {
        1 + slot_of(entries.drop_first(), stream)
    }
}

/// No two recordings are of the same stream.
pub open spec fn one_per_stream(entries: Seq<RecordingModel>) -> bool {
    forall|i: int, j: int|
        0 <= i < j < entries.len() ==> (#[trigger] entries[i]).source_stream != (
        #[trigger] entries[j]).source_stream
}

/// The recordings after an attempt to begin another one: it is added where
/// its stream is not being recorded, and refused otherwise.
pub open spec fn begun(entries: Seq<RecordingModel>, state: RecordingModel) -> Seq<
    RecordingModel,
> {
    if has_stream(entries, state.source_stream) {
        entries
    } else {
        entries.push(state)
    }
}

/// The recordings after that of a stream has ended.
pub open spec fn ended(entries: Seq<RecordingModel>, stream: Seq<char>) -> Seq<RecordingModel> {
    if has_stream(entries, stream) {
        entries.remove(slot_of(entries, stream) as int)
    } else {
        entries
    }
}

/// The longest a recording runs, in seconds: 300 for a SAME message, 120
/// for a tone.
pub open spec fn time_limit(reason: RecordingReason) -> u64 {
    match reason {
        RecordingReason::Same => SAME_RECORDING_SECS,
        RecordingReason::Tone => TONE_RECORDING_SECS,
    }
}

/// `slot_of` is the least index of a recording of the stream, or the length.
pub proof fn lemma_slot_of(entries: Seq<RecordingModel>, stream: Seq<char>, i: int)
    requires
        0 <= i <= entries.len(),
        forall|j: int| 0 <= j < i ==> (#[trigger] entries[j]).source_stream != stream,
        i < entries.len() ==> entries[i].source_stream == stream,
    ensures
        slot_of(entries, stream) == i,
    decreases i,
{
    if i > 0 {
        let t = entries.drop_first();
        assert forall|j: int| 0 <= j < i - 1 implies (#[trigger] t[j]).source_stream != stream by {
            assert(t[j] == entries[j + 1]);
        }
        assert(entries[0].source_stream != stream);
        if i - 1 < t.len() {
            assert(t[i - 1] == entries[i]);
        }
        lemma_slot_of(t, stream, i - 1);
    }
}

/// Beginning and ending recordings never leaves two recordings of one
/// stream.
pub proof fn lemma_one_per_stream_kept(
    entries: Seq<RecordingModel>,
    state: RecordingModel,
    stream: Seq<char>,
)
    requires
        one_per_stream(entries),
    ensures
        one_per_stream(begun(entries, state)),
        one_per_stream(ended(entries, stream)),
        !has_stream(ended(entries, stream), stream),
{
    let b = begun(entries, state);
    assert forall|i: int, j: int| 0 <= i < j < b.len() implies (#[trigger] b[i]).source_stream != (
    #[trigger] b[j]).source_stream by {
        if j < entries.len() {
            assert(b[i] == entries[i] && b[j] == entries[j]);
        } else {
            assert(b[i] == entries[i]);
        }
    }
    let e = ended(entries, stream);
    if has_stream(entries, stream) {
        let k = slot_of(entries, stream) as int;
        lemma_slot_props(entries, stream);
        assert forall|i: int, j: int| 0 <= i < j < e.len() implies (#[trigger] e[i]).source_stream
            != (#[trigger] e[j]).source_stream by {
            let ii = if i < k { i } else { i + 1 };
            let jj = if j < k { j } else { j + 1 };
            assert(e[i] == entries[ii]);
            assert(e[j] == entries[jj]);
        }
        assert forall|i: int| 0 <= i < e.len() implies (#[trigger] e[i]).source_stream != stream by {
            let ii = if i < k { i } else { i + 1 };
            assert(e[i] == entries[ii]);
            if ii < k {
            } else {
                assert(entries[k].source_stream == stream);
            }
        }
    }
}

/// What `slot_of` says of the recordings before and at it.
pub proof fn lemma_slot_props(entries: Seq<RecordingModel>, stream: Seq<char>)
    ensures
        slot_of(entries, stream) <= entries.len(),
        forall|j: int|
            0 <= j < slot_of(entries, stream) ==> (#[trigger] entries[j]).source_stream != stream,
        slot_of(entries, stream) < entries.len() ==> entries[slot_of(
            entries,
            stream,
        ) as int].source_stream == stream,
        has_stream(entries, stream) <==> slot_of(entries, stream) < entries.len(),
    decreases entries.len(),
{
    if entries.len() == 0 || entries[0].source_stream == stream {
    } else {
        let t = entries.drop_first();
        lemma_slot_props(t, stream);
        assert forall|j: int| 0 <= j < slot_of(entries, stream) implies (
        #[trigger] entries[j]).source_stream != stream by {
            if j > 0 {
                assert(entries[j] == t[j - 1]);
            }
        }
        if slot_of(entries, stream) < entries.len() {
            assert(entries[slot_of(entries, stream) as int] == t[slot_of(t, stream) as int]);
        }
        if has_stream(entries, stream) {
            let w = choose|w: int|
                0 <= w < entries.len() && (#[trigger] entries[w]).source_stream == stream;
            assert(t[w - 1] == entries[w]);
        }
    }
}

/// A second recording of a stream is refused while the first is in
/// progress: the table stays as the first left it.
pub proof fn lemma_second_recording_refused(
    entries: Seq<RecordingModel>,
    first: RecordingModel,
    second: RecordingModel,
)
    requires
        first.source_stream == second.source_stream,
    ensures
        begun(begun(entries, first), second) == begun(entries, first),
{
    let once = begun(entries, first);
    if has_stream(entries, first.source_stream) {
    } else {
        assert(once[once.len() - 1].source_stream == second.source_stream);
    }
}

/// The character that stands for `c` in a file name.
fn to_label_char(c: char) -> (r: char)
    ensures
        r == label_char(c),
{
    if char_is_ascii_alnum(c) {
        char_ascii_upper(c)
    } else if c == '-' || c == '_' {
        c
    } else {
        '_'
    }
}

/// The sanitized form of `label`, as characters.
fn sanitize_chars(label: &Vec<char>) -> (r: Vec<char>)
    ensures
        r@ == sanitized(label@),
{
    let mut mapped: Vec<char> = Vec::new();
    let mut i: usize = 0;
    while i < label.len()
        invariant
            i <= label.len(),
            mapped@.len() == i,
            forall|j: int| 0 <= j < i ==> mapped@[j] == label_char(label@[j]),
        decreases label.len() - i,
    {
        mapped.push(to_label_char(label[i]));
        i += 1;
    }
    assert(mapped@ =~= label@.map_values(|c: char| label_char(c)));
    let t = trim_char(&mapped, '_');
    if t.len() == 0 {
        chars_of("UNKNOWN")
    } else {
        t
    }
}

/// Makes a label safe for a file name: letters and digits in upper case,
/// `-` and `_` kept, `_` for everything else, `_` removed from both ends,
/// and `UNKNOWN` where nothing is left.
pub fn sanitize_filename_label(label: &str) -> (r: String)
    ensures
        r@ == sanitized(label@),
{
    let v = chars_of(label);
    let s = sanitize_chars(&v);
    string_of(&s)
}

/// The event code that a recording is named after, read from its header.
pub fn event_code_from_header(header_text: &str) -> (r: String)
    ensures
        r@ == header_label(header_text@),
{
    let v = chars_of(header_text);
    let t = trim_ws(&v);
    let parts = split_on(&t, '-');
    assert(parts@.len() == split(t@, '-').len());
    if parts.len() >= 3 && chars_are(&parts[0], "ZCZC") {
        assert(parts@[0]@ == split(t@, '-')[0]);
        assert(parts@[2]@ == split(t@, '-')[2]);
        let s = sanitize_chars(&parts[2]);
        string_of(&s)
    } else {
        assert(parts@.len() >= 3 ==> parts@[0]@ == split(t@, '-')[0]);
        "UNK".to_owned()
    }
}

/// The index of the first `?` or `#` in `v`, or its length.
fn find_query_start(v: &Vec<char>) -> (i: usize)
    ensures
        i == query_start(v@),
        i <= v.len(),
{
    let mut i: usize = 0;
    while i < v.len() && v[i] != '?' && v[i] != '#'
        invariant
            i <= v.len(),
            forall|j: int| 0 <= j < i ==> #[trigger] v@[j] != '?' && v@[j] != '#',
        decreases v.len() - i,
    {
        i += 1;
    }
    proof {
        lemma_query_start(v@, i as int);
    }
    i
}

/// `query_start` is the least index that holds `?` or `#`, or the length.
proof fn lemma_query_start(s: Seq<char>, i: int)
    requires
        0 <= i <= s.len(),
        forall|j: int| 0 <= j < i ==> #[trigger] s[j] != '?' && s[j] != '#',
        i < s.len() ==> s[i] == '?' || s[i] == '#',
    ensures
        query_start(s) == i,
    decreases i,
{
    if i > 0 {
        let t = s.drop_first();
        assert forall|j: int| 0 <= j < i - 1 implies #[trigger] t[j] != '?' && t[j] != '#' by {
            assert(t[j] == s[j + 1]);
        }
        assert(s[0] != '?' && s[0] != '#');
        if i - 1 < t.len() {
            assert(t[i - 1] == s[i]);
        }
        lemma_query_start(t, i - 1);
    }
}

/// `last_nonempty` looks at the pieces from the back.
proof fn lemma_last_nonempty(pieces: Seq<Seq<char>>, k: int)
    requires
        0 <= k <= pieces.len(),
        forall|j: int| k <= j < pieces.len() ==> (#[trigger] pieces[j]).len() == 0,
    ensures
        last_nonempty(pieces) == last_nonempty(pieces.take(k)),
    decreases pieces.len() - k,
{
    if k < pieces.len() {
        assert(pieces.last() == pieces[pieces.len() - 1]);
        let front = pieces.drop_last();
        assert forall|j: int| k <= j < front.len() implies (#[trigger] front[j]).len() == 0 by {
            assert(front[j] == pieces[j]);
        }
        lemma_last_nonempty(front, k);
        assert(front.take(k) =~= pieces.take(k));
    } else {
        assert(pieces.take(k) =~= pieces);
    }
}

/// `last_index` looks at the characters from the back.
proof fn lemma_last_index(s: Seq<char>, c: char, k: int)
    requires
        0 <= k <= s.len(),
        forall|j: int| k <= j < s.len() ==> #[trigger] s[j] != c,
    ensures
        last_index(s, c) == last_index(s.take(k), c),
    decreases s.len() - k,
{
    if k < s.len() {
        assert(s.last() == s[s.len() - 1]);
        let front = s.drop_last();
        assert forall|j: int| k <= j < front.len() implies #[trigger] front[j] != c by {
            assert(front[j] == s[j]);
        }
        lemma_last_index(front, c, k);
        assert(front.take(k) =~= s.take(k));
    } else {
        assert(s.take(k) =~= s);
    }
}

/// The name without its extension, as characters.
fn stem_chars(segment: &Vec<char>) -> (r: Vec<char>)
    ensures
        r@ == stem(segment@),
{
    let n = segment.len();
    let mut k: usize = n;
    while k > 0 && segment[k - 1] != '.'
        invariant
            n == segment.len(),
            k <= n,
            forall|j: int| k <= j < n ==> #[trigger] segment@[j] != '.',
        decreases k,
    {
        k -= 1;
    }
    proof {
        lemma_last_index(segment@, '.', k as int);
        if k > 0 {
            assert(segment@.take(k as int).last() == segment@[k - 1]);
        }
    }
    if k > 1 && k < n {
        assert(segment@.take(k - 1) =~= segment@.subrange(0, k - 1));
        sub_vec(segment, 0, k - 1)
    } else {
        assert(segment@.subrange(0, n as int) =~= segment@);
        sub_vec(segment, 0, n)
    }
}

/// The label of a stream, for file names: the last path segment of its
/// address, without query, fragment and extension, sanitized.
pub fn stream_label_from_source(source_stream: &str) -> (r: String)
    ensures
        r@ == stream_label(source_stream@),
{
    let v = chars_of(source_stream);
    let q = find_query_start(&v);
    let path = sub_vec(&v, 0, q);
    assert(path@ =~= v@.take(q as int));
    let pieces = split_on(&path, '/');
    let ghost model = split(path@, '/');
    let mut k: usize = pieces.len();
    while k > 0 && pieces[k - 1].len() == 0
        invariant
            k <= pieces.len(),
            model == piece_views(pieces@),
            forall|j: int| k <= j < pieces.len() ==> (#[trigger] model[j]).len() == 0,
        decreases k,
    {
        k -= 1;
    }
    proof {
        lemma_last_nonempty(model, k as int);
        if k > 0 {
            assert(model.take(k as int).last() == pieces@[k - 1]@);
        }
    }
    let label = if k > 0 {
        stem_chars(&pieces[k - 1])
    } else {
        let unknown = chars_of("UNKNOWN");
        stem_chars(&unknown)
    };
    let s = sanitize_chars(&label);
    string_of(&s)
}

/// The name of the file of a recording, as characters.
fn recording_name_chars(
    event_code: &Vec<char>,
    timestamp: &Vec<char>,
    label: &Vec<char>,
    index: u64,
) -> (r: Vec<char>)
    ensures
        r@ == recording_name(event_code@, timestamp@, label@, index as nat),
{
    let mut out: Vec<char> = Vec::new();
    extend_str(&mut out, "EAS_Recording_");
    extend_chars(&mut out, event_code);
    extend_str(&mut out, "_");
    extend_chars(&mut out, timestamp);
    extend_str(&mut out, "_");
    extend_chars(&mut out, label);
    let ghost base = "EAS_Recording_"@ + event_code@ + "_"@ + timestamp@ + "_"@ + label@;
    assert(out@ =~= base);
    if index != 0 {
        extend_str(&mut out, "_");
        let digits = decimal_chars(index);
        extend_chars(&mut out, &digits);
    }
    extend_str(&mut out, ".wav");
    out
}

/// The name of the file of a recording. The index tells apart recordings
/// that would otherwise share a name; index 0 adds nothing.
pub fn recording_file_name(event_code: &str, timestamp: &str, stream_label: &str, index: u64) -> (r:
    String)
    ensures
        r@ == recording_name(event_code@, timestamp@, stream_label@, index as nat),
{
    let e = chars_of(event_code);
    let t = chars_of(timestamp);
    let l = chars_of(stream_label);
    let out = recording_name_chars(&e, &t, &l, index);
    string_of(&out)
}

/// The file name for a new recording: the name with the lowest index that
/// is not among `taken`, the names already in use in the recording
/// directory.
pub fn next_available_recording_path(
    event_code: &str,
    timestamp: &str,
    stream_label: &str,
    taken: &Vec<String>,
) -> (r: String)
    ensures
        r@ == recording_name(
            event_code@,
            timestamp@,
            stream_label@,
            first_free(views(taken@), event_code@, timestamp@, stream_label@, 0),
        ),
{
    let e = chars_of(event_code);
    let t = chars_of(timestamp);
    let l = chars_of(stream_label);
    let mut index: u64 = 0;
    loop
        invariant
            e@ == event_code@,
            t@ == timestamp@,
            l@ == stream_label@,
            first_free(views(taken@), e@, t@, l@, 0) == first_free(
                views(taken@),
                e@,
                t@,
                l@,
                index as nat,
            ),
        decreases u64::MAX - index,
    {
        let name = recording_name_chars(&e, &t, &l, index);
        if index == u64::MAX || !list_contains(taken, &name) {
            return string_of(&name);
        }
        index += 1;
    }
}

/// The names under which a recording is written: the event code read from
/// the header, the label of the stream, and the first file name made of
/// them and the time stamp that is not among `taken`.
pub fn plan_recording(
    header_text: &str,
    source_stream: &str,
    timestamp: &str,
    taken: &Vec<String>,
) -> (plan: RecordingPlan)
    ensures
        plan.event_code@ == header_label(header_text@),
        plan.stream_label@ == stream_label(source_stream@),
        plan.file_name@ == recording_name(
            plan.event_code@,
            timestamp@,
            plan.stream_label@,
            first_free(views(taken@), plan.event_code@, timestamp@, plan.stream_label@, 0),
        ),
{
    let event_code = event_code_from_header(header_text);
    let stream_label = stream_label_from_source(source_stream);
    let file_name = next_available_recording_path(
        event_code.as_str(),
        timestamp,
        stream_label.as_str(),
        taken,
    );
    RecordingPlan { event_code, stream_label, file_name }
}

/// The longest a recording runs, in seconds.
pub fn recording_time_limit(reason: RecordingReason) -> (secs: u64)
    ensures
        secs == time_limit(reason),
{
    match reason {
        RecordingReason::Same => SAME_RECORDING_SECS,
        RecordingReason::Tone => TONE_RECORDING_SECS,
    }
}

impl RecordingTable {
    /// Whether the table holds at most one recording for each stream.
    pub open spec fn wf(&self) -> bool {
        one_per_stream(self@)
    }

    /// A table without recordings.
    pub fn new() -> (t: Self)
        ensures
            t@ == Seq::<RecordingModel>::empty(),
            t.wf(),
    {
        let t = RecordingTable { entries: Vec::new() };
        assert(t@ =~= Seq::<RecordingModel>::empty());
        t
    }

    /// The index of the recording of the stream, or the number of
    /// recordings where there is none.
    fn find(&self, stream: &str) -> (i: usize)
        ensures
            i == slot_of(self@, stream@),
            i <= self.entries.len(),
            (i < self.entries.len()) == has_stream(self@, stream@),
    {
        let s = chars_of(stream);
        let mut i: usize = 0;
        while i < self.entries.len()
            invariant
                i <= self.entries.len(),
                s@ == stream@,
                forall|j: int| 0 <= j < i ==> (#[trigger] self@[j]).source_stream != stream@,
            ensures
                i < self.entries.len() ==> self@[i as int].source_stream == stream@,
            decreases self.entries.len() - i,
        {
            if chars_are(&s, self.entries[i].source_stream.as_str()) {
                assert(self@[i as int].source_stream == stream@);
                break;
            }
            i += 1;
        }
        proof {
            lemma_slot_of(self@, stream@, i as int);
            lemma_slot_props(self@, stream@);
        }
        i
    }

    /// Tells whether a recording of the stream is in progress.
    pub fn is_recording(&self, stream: &str) -> (r: bool)
        ensures
            r == has_stream(self@, stream@),
    {
        self.find(stream) < self.entries.len()
    }

    /// Begins a recording, unless one of the same stream is in progress.
    /// Tells whether the recording was begun.
    pub fn begin(&mut self, state: RecordingState) -> (started: bool)
        requires
            old(self).wf(),
        ensures
            final(self).wf(),
            started == !has_stream(old(self)@, state.source_stream@),
            final(self)@ == begun(old(self)@, state@),
    {
        let i = self.find(state.source_stream.as_str());
        if i < self.entries.len() {
            false
        } else {
            let ghost before = self@;
            let ghost sm = state@;
            proof {
                lemma_one_per_stream_kept(before, sm, sm.source_stream);
            }
            self.entries.push(state);
            assert(self@ =~= before.push(sm));
            true
        }
    }

    /// Ends the recording of a stream and hands it out, if there is one.
    pub fn finish(&mut self, stream: &str) -> (r: Option<RecordingState>)
        requires
            old(self).wf(),
        ensures
            final(self).wf(),
            final(self)@ == ended(old(self)@, stream@),
            !has_stream(final(self)@, stream@),
            match r {
                Some(state) => has_stream(old(self)@, stream@) && state@ == old(self)@[slot_of(
                    old(self)@,
                    stream@,
                ) as int],
                None => !has_stream(old(self)@, stream@),
            },
    {
        let i = self.find(stream);
        let ghost before = self@;
        proof {
            lemma_one_per_stream_kept(before, before[0], stream@);
        }
        if i < self.entries.len() {
            let state = self.entries.remove(i);
            assert(self@ =~= before.remove(i as int));
            Some(state)
        } else {
            None
        }
    }

    /// Ends the recording of a stream if it is still the one written to
    /// `output_path`, as the timer of a tone recording does. Tells whether
    /// it ended one.
    pub fn finish_if_current(&mut self, stream: &str, output_path: &str) -> (stopped: bool)
        requires
            old(self).wf(),
        ensures
            final(self).wf(),
            stopped == (has_stream(old(self)@, stream@) && old(self)@[slot_of(
                old(self)@,
                stream@,
            ) as int].output_path == output_path@),
            final(self)@ == if stopped {
                ended(old(self)@, stream@)
            } else {
                old(self)@
            },
    {
        let i = self.find(stream);
        let ghost before = self@;
        proof {
            lemma_one_per_stream_kept(before, before[0], stream@);
        }
        if i < self.entries.len() {
            let p = chars_of(output_path);
            if chars_are(&p, self.entries[i].output_path.as_str()) {
                self.entries.remove(i);
                assert(self@ =~= before.remove(i as int));
                return true;
            }
        }
        false
    }
}

/// The file names of the recordings in progress, in the order of the table.
pub open spec fn names_of(entries: Seq<RecordingModel>) -> Seq<Seq<char>> {
    entries.map_values(|e: RecordingModel| e.file_name)
}

/// The name that `first_free` finds is not taken, every name with a lower
/// index is, and the search starts where it is told to. Only where every
/// index is taken is the last index handed out all the same.
pub proof fn lemma_first_free_is_free(
    taken: Seq<Seq<char>>,
    event_code: Seq<char>,
    timestamp: Seq<char>,
    label: Seq<char>,
    from: nat,
)
    requires
        from <= u64::MAX,
    ensures
        from <= first_free(taken, event_code, timestamp, label, from) <= u64::MAX,
        first_free(taken, event_code, timestamp, label, from) < u64::MAX ==> !taken.contains(
            recording_name(
                event_code,
                timestamp,
                label,
                first_free(taken, event_code, timestamp, label, from),
            ),
        ),
        forall|i: nat|
            from <= i < first_free(taken, event_code, timestamp, label, from) ==> taken.contains(
                #[trigger] recording_name(event_code, timestamp, label, i),
            ),
    decreases u64::MAX - from,
{
    if from >= u64::MAX || !taken.contains(recording_name(event_code, timestamp, label, from)) {
    } else {
        lemma_first_free_is_free(taken, event_code, timestamp, label, from + 1);
    }
}

/// One file for each recording: a recording that is planned while another
/// one with the same event code, time stamp and label is in progress, or
/// after its file was written, gets another name. Where the plain name is
/// taken and the name with index 1 is not, it gets the index 1.
pub proof fn lemma_second_recording_gets_another_name(
    taken: Seq<Seq<char>>,
    event_code: Seq<char>,
    timestamp: Seq<char>,
    label: Seq<char>,
    first_name: Seq<char>,
)
    requires
        taken.contains(first_name),
    ensures
        first_free(taken, event_code, timestamp, label, 0) < u64::MAX ==> recording_name(
            event_code,
            timestamp,
            label,
            first_free(taken, event_code, timestamp, label, 0),
        ) != first_name,
        taken.contains(recording_name(event_code, timestamp, label, 0)) && !taken.contains(
            recording_name(event_code, timestamp, label, 1),
        ) ==> first_free(taken, event_code, timestamp, label, 0) == 1,
{
    lemma_first_free_is_free(taken, event_code, timestamp, label, 0);
    if taken.contains(recording_name(event_code, timestamp, label, 0)) && !taken.contains(
        recording_name(event_code, timestamp, label, 1),
    ) {
        assert(first_free(taken, event_code, timestamp, label, 0) == first_free(
            taken,
            event_code,
            timestamp,
            label,
            1,
        ));
    }
}

/// After a disconnection the stream has no recording, and the next
/// recording of the stream is begun afresh beside those of the other
/// streams: the one that was in progress is not taken up again.
pub proof fn lemma_reconnect_starts_afresh(
    entries: Seq<RecordingModel>,
    stream: Seq<char>,
    next: RecordingModel,
)
    requires
        one_per_stream(entries),
        next.source_stream == stream,
    ensures
        !has_stream(ended(entries, stream), stream),
        begun(ended(entries, stream), next) == ended(entries, stream).push(next),
        one_per_stream(begun(ended(entries, stream), next)),
{
    lemma_one_per_stream_kept(entries, next, stream);
    lemma_one_per_stream_kept(ended(entries, stream), next, stream);
}

impl RecordingTable {
    /// Ends the recording of a stream whose connection was lost, and hands
    /// it out, if there is one. Giving up its sink lets the writer finish
    /// the file; what is recorded from the stream after it has connected
    /// again is another recording.
    pub fn end_on_disconnect(&mut self, stream: &str) -> (r: Option<RecordingState>)
        requires
            old(self).wf(),
        ensures
            final(self).wf(),
            final(self)@ == ended(old(self)@, stream@),
            !has_stream(final(self)@, stream@),
            match r {
                Some(state) => has_stream(old(self)@, stream@) && state@ == old(self)@[slot_of(
                    old(self)@,
                    stream@,
                ) as int],
                None => !has_stream(old(self)@, stream@),
            },
    {
        self.finish(stream)
    }

    /// The file names of the recordings in progress.
    pub fn file_names(&self) -> (names: Vec<String>)
        ensures
            views(names@) == names_of(self@),
    {
        let mut names: Vec<String> = Vec::new();
        let mut i: usize = 0;
        while i < self.entries.len()
            invariant
                i <= self.entries.len(),
                names@.len() == i,
                forall|j: int| 0 <= j < i ==> (#[trigger] names@[j])@ == self@[j].file_name,
            decreases self.entries.len() - i,
        {
            names.push(self.entries[i].file_name.clone());
            i += 1;
        }
        assert(views(names@) =~= names_of(self@));
        names
    }

    /// The names under which the next recording is written: the event code
    /// read from the header, the label of the stream, and the first file
    /// name made of them and the time stamp that is neither among
    /// `listing`, the names found in the recording directory, nor the name
    /// of a recording in progress.
    pub fn plan_next(
        &self,
        header_text: &str,
        source_stream: &str,
        timestamp: &str,
        listing: &Vec<String>,
    ) -> (plan: RecordingPlan)
        ensures
            plan.event_code@ == header_label(header_text@),
            plan.stream_label@ == stream_label(source_stream@),
            plan.file_name@ == recording_name(
                plan.event_code@,
                timestamp@,
                plan.stream_label@,
                first_free(
                    views(listing@) + names_of(self@),
                    plan.event_code@,
                    timestamp@,
                    plan.stream_label@,
                    0,
                ),
            ),
    {
        let mut taken: Vec<String> = Vec::new();
        let mut i: usize = 0;
        while i < listing.len()
            invariant
                i <= listing.len(),
                taken@.len() == i,
                forall|j: int| 0 <= j < i ==> (#[trigger] taken@[j])@ == listing@[j]@,
            decreases listing.len() - i,
        {
            taken.push(listing[i].clone());
            i += 1;
        }
        let mut names = self.file_names();
        let ghost head = views(taken@);
        assert(head =~= views(listing@));
        let ghost tail = views(names@);
        taken.append(&mut names);
        assert(views(taken@) =~= head + tail);
        plan_recording(header_text, source_stream, timestamp, &taken)
    }
}

/// The samples in a run of chunks, added up.
pub open spec fn chunk_total(chunks: Seq<u64>) -> nat
    decreases chunks.len(),
{
    if chunks.len() == 0 {
        0
    } else {
        chunk_total(chunks.drop_last()) + (chunks.last() as nat)
    }
}

/// The tally after the writer has taken a run of chunks from its queue, as
/// long as the samples can be counted.
pub open spec fn tally_after(t: WavTally, chunks: Seq<u64>) -> WavTally
    decreases chunks.len(),
{
    if chunks.len() == 0 {
        t
    } else {
        let before = tally_after(t, chunks.drop_last());
        WavTally { body_samples: (before.body_samples + chunks.last()) as u64, ..before }
    }
}

/// The bytes of audio in a finished file are those of the header tones,
/// two for each sample that the writer took from its queue, and those of
/// the end tones.
pub proof fn lemma_file_bytes_add_up(header_samples: u64, tail_samples: u64, chunks: Seq<u64>)
    requires
        chunk_total(chunks) <= u64::MAX,
    ensures
        tally_after(
            (WavTally { header_samples, body_samples: 0, tail_samples }),
            chunks,
        ).body_samples == chunk_total(chunks),
        tally_after(
            (WavTally { header_samples, body_samples: 0, tail_samples }),
            chunks,
        ).bytes() == 2 * header_samples + 2 * chunk_total(chunks) + 2 * tail_samples,
    decreases chunks.len(),
{
    if chunks.len() > 0 {
        lemma_file_bytes_add_up(header_samples, tail_samples, chunks.drop_last());
    }
}

impl WavTally {
    /// A tally for a file that opens with `header_samples` samples of
    /// header tones and closes with `tail_samples` samples of end tones.
    pub fn new(header_samples: u64, tail_samples: u64) -> (t: Self)
        ensures
            t.header_samples == header_samples,
            t.body_samples == 0,
            t.tail_samples == tail_samples,
    {
        WavTally { header_samples, body_samples: 0, tail_samples }
    }

    /// The bytes of audio in the finished file: two for each sample of the
    /// header tones, of the body and of the end tones.
    pub open spec fn bytes(self) -> nat {
        (2 * self.header_samples + 2 * self.body_samples + 2 * self.tail_samples) as nat
    }

    /// Counts `samples` more samples of the body, as the writer takes them
    /// from its queue.
    pub fn note_body(&mut self, samples: u64)
        requires
            old(self).body_samples + samples <= u64::MAX,
        ensures
            final(self).body_samples == old(self).body_samples + samples,
            final(self).header_samples == old(self).header_samples,
            final(self).tail_samples == old(self).tail_samples,
            final(self).bytes() == old(self).bytes() + 2 * samples,
            *final(self) == tally_after(*old(self), seq![samples]),
    {
        self.body_samples = self.body_samples + samples;
        proof {
            let one = seq![samples];
            assert(one.drop_last().len() == 0);
            assert(tally_after(*old(self), one.drop_last()) == *old(self));
            assert(one.last() == samples);
        }
    }

    /// The bytes of audio in the finished file.
    pub fn data_bytes(&self) -> (n: u128)
        ensures
            n == self.bytes(),
            n == self.header_samples * 2 + self.body_samples * 2 + self.tail_samples * 2,
    {
        let h: u128 = self.header_samples as u128;
        let b: u128 = self.body_samples as u128;
        let t: u128 = self.tail_samples as u128;
        2 * h + 2 * b + 2 * t
    }

    /// Tells whether the finished file is kept: a file without any sample
    /// of the body is deleted.
    pub fn keeps_file(&self) -> (keep: bool)
        ensures
            keep == (self.body_samples > 0),
    {
        self.body_samples > 0
    }
}

} // verus!
