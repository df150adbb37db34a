//! The words of a notification: its title, its body in three markups, and
//! what a chat embed shows beside them.

use crate::text::{
    char_is_ascii_alpha, chars_are, chars_of, contains_run, extend_chars, extend_str, has_run,
    is_ascii_alpha, lower_seq, piece_views, split, split_on, starts_with, string_of, sub_vec,
    to_lower, trim, trim_back, trim_front, trim_ws, trim_ws_back, trim_ws_front, views,
};
use vstd::prelude::*;

verus! {

/// Where the project is at home; notifications carry a link to it.
pub const PROJECT_URL: &'static str = "https://github.com/wagwan-piffting-blud/EAS_Listener";

/// The monitor number that is shown for a stream that is not configured.
pub const UNKNOWN_MONITOR: usize = 999;

/// The longest event text that is put into title case; longer text is
/// used as it is.
pub const TITLE_CASE_LIMIT: usize = 0x0100_0000;

/// What `c` is written as in HTML text.
pub open spec fn escape_of(c: char) -> Seq<char> {
    if c == '&' {
        "&amp;"@
    } else if c == '<' {
        "&lt;"@
    } else if c == '>' {
        "&gt;"@
    } else if c == '"' {
        "&quot;"@
    } else if c == '\'' {
        "&#39;"@
    } else {
        seq![c]
    }
}

/// `s` as HTML text: each character written as `escape_of` says.
pub open spec fn escaped(s: Seq<char>) -> Seq<char>
    decreases s.len(),
{
    if s.len() == 0 {
        Seq::empty()
    } else {
        escaped(s.drop_last()) + escape_of(s.last())
    }
}

/// The body of a notification in Markdown.
pub open spec fn markdown_body(
    station: Seq<char>,
    title: Seq<char>,
    originator: Seq<char>,
    received: Seq<char>,
    eas_text: Seq<char>,
    raw_header: Seq<char>,
) -> Seq<char> {
    "**"@ + station + " - Software ENDEC Logs**\n\n**"@ + title
        + "** has just been received from: "@ + originator + "\n\n**Received:** "@ + received
        + "\n\n**EAS Text Data:**\n```\n"@ + trim_back(eas_text)
        + "\n```\n\n**EAS Protocol Data:**\n```\n"@ + trim_back(raw_header)
        + "\n```\n\nPowered by [Wags' Software ENDEC]("@ + PROJECT_URL@ + ")"@
}

/// The body of a notification in HTML. Every part but the link is escaped.
pub open spec fn html_body(
    station: Seq<char>,
    title: Seq<char>,
    originator: Seq<char>,
    received: Seq<char>,
    eas_text: Seq<char>,
    raw_header: Seq<char>,
) -> Seq<char> {
    "<p><strong>"@ + escaped(station) + " - Software ENDEC Logs</strong></p><p><strong>"@
        + escaped(title) + "</strong> has just been received from: "@ + escaped(originator)
        + "</p><p><strong>Received:</strong> "@ + escaped(received)
        + "</p><p><strong>EAS Text Data:</strong></p><pre>"@ + escaped(trim_back(eas_text))
        + "</pre><p><strong>EAS Protocol Data:</strong></p><pre>"@ + escaped(
        trim_back(raw_header),
    ) + "</pre><p>Powered by <a href=\""@ + PROJECT_URL@ + "\">Wags' Software ENDEC</a></p>"@
}

/// The body of a notification in plain text.
pub open spec fn plain_body(
    station: Seq<char>,
    title: Seq<char>,
    originator: Seq<char>,
    received: Seq<char>,
    eas_text: Seq<char>,
    raw_header: Seq<char>,
) -> Seq<char> {
    station + " - Software ENDEC Logs\n\n"@ + title + " has just been received from: "@
        + originator + "\nReceived: "@ + received + "\n\nEAS Text Data:\n"@ + trim_back(eas_text)
        + "\n\nEAS Protocol Data:\n"@ + trim_back(raw_header)
        + "\n\nPowered by Wags' Software ENDEC ("@ + PROJECT_URL@ + ")"@
}

/// The colour of an embed, as six hexadecimal digits, chosen by what the
/// title says: green for tests, yellow for advisories and watches, red for
/// warnings and emergencies, grey for anything else.
pub open spec fn embed_hex(title: Seq<char>) -> Seq<char> {
    let t = lower_seq(title);
    if contains_run(t, "test"@) {
        "105733"@
    } else if contains_run(t, "advisory"@) || contains_run(t, "watch"@) {
        "FFFF00"@
    } else if contains_run(t, "warning"@) || contains_run(t, "emergency"@) {
        "FF0000"@
    } else {
        "808080"@
    }
}

/// The colour of an embed, as a number.
pub open spec fn embed_value(title: Seq<char>) -> u32 {
    let t = lower_seq(title);
    if contains_run(t, "test"@) {
        0x105733
    } else if contains_run(t, "advisory"@) || contains_run(t, "watch"@) {
        0xFFFF00
    } else if contains_run(t, "warning"@) || contains_run(t, "emergency"@) {
        0xFF0000
    } else {
        0x808080
    }
}

/// The letters among the characters of `s`, in order.
pub open spec fn letters_of(s: Seq<char>) -> Seq<char>
    decreases s.len(),
{
    if s.len() == 0 {
        Seq::empty()
    } else if is_ascii_alpha(s.last()) {
        letters_of(s.drop_last()).push(s.last())
    } else {
        letters_of(s.drop_last())
    }
}

/// The index of the first string that is `item`, or the number of strings
/// where there is none.
pub open spec fn position_of(list: Seq<Seq<char>>, item: Seq<char>) -> nat
    decreases list.len(),
{
    if list.len() == 0 || list[0] == item {
        0
    } else {
        1 + position_of(list.drop_first(), item)
    }
}

/// The number under which a stream is shown: its place among the
/// configured streams, counted from one, or 999.
pub open spec fn monitor_of(streams: Seq<Seq<char>>, stream: Seq<char>) -> nat {
    if position_of(streams, stream) < streams.len() {
        position_of(streams, stream) + 1
    } else {
        UNKNOWN_MONITOR as nat
    }
}

/// What one line of the notification settings stands for: nothing for a
/// blank line or a comment, else the line without a leading dash.
pub open spec fn target_of(line: Seq<char>) -> Option<Seq<char>> {
    let t = trim(line);
    if t.len() == 0 || t[0] == '#' {
        None
    } else if t[0] == '-' {
        Some(trim_front(t.skip(1)))
    } else {
        Some(t)
    }
}

/// The targets that a list of lines stands for, in order.
pub open spec fn targets_of(lines: Seq<Seq<char>>) -> Seq<Seq<char>>
    decreases lines.len(),
{
    if lines.len() == 0 {
        Seq::empty()
    } else {
        let rest = targets_of(lines.drop_last());
        match target_of(lines.last()) {
            Some(t) => rest.push(t),
            None => rest,
        }
    }
}

/// The targets that the text of the notification settings names.
pub open spec fn notification_targets(contents: Seq<char>) -> Seq<Seq<char>> {
    targets_of(split(contents, '\n'))
}

/// `s` without any number of `prefix` at its front.
pub open spec fn without_prefixes(s: Seq<char>, prefix: Seq<char>) -> Seq<char>
    decreases s.len(),
{
    if prefix.len() > 0 && prefix.is_prefix_of(s) {
        without_prefixes(s.skip(prefix.len() as int), prefix)
    } else {
        s
    }
}

/// The address that a chat target is posted to.
pub open spec fn chat_address(target: Seq<char>) -> Seq<char> {
    "https://discord.com/api/webhooks/"@ + without_prefixes(trim(target), "discord://"@)
}

/// Whether a target is a chat target.
pub open spec fn is_chat_target(target: Seq<char>) -> bool {
    "discord://"@.is_prefix_of(trim(target))
}

/// The title case of a text.
pub uninterp spec fn title_case(text: Seq<char>) -> Seq<char>;

/// Puts a text into title case.
///
/// Calls `inflector::cases::titlecase::to_title_case`. The claim is that
/// the result depends on the text alone. The text must be short enough for
/// the buffer of twice its size that the call reserves.
#[verifier::external_body]
fn to_title_case(text: &str) -> (r: String)
    requires
        text@.len() <= TITLE_CASE_LIMIT,
    ensures
        r@ == title_case(text@),
{
    inflector::cases::titlecase::to_title_case(text)
}

/// The title of an event: its text in title case, where the text is not
/// longer than `TITLE_CASE_LIMIT`, else the text as it is.
pub open spec fn event_title_of(event_text: Seq<char>) -> Seq<char> {
    if event_text.len() <= TITLE_CASE_LIMIT {
        title_case(event_text)
    } else {
        event_text
    }
}

/// The title of an event, as shown in notifications.
pub fn event_title(event_text: &str) -> (r: String)
    ensures
        r@ == event_title_of(event_text@),
{
    if event_text.unicode_len() <= TITLE_CASE_LIMIT {
        to_title_case(event_text)
    } else {
        event_text.to_owned()
    }
}

/// The title of a notification.
pub fn notification_title(event_title: &str) -> (r: String)
    ensures
        r@ == event_title@ + " has just been issued/received"@,
{
    let mut out: Vec<char> = Vec::new();
    extend_str(&mut out, event_title);
    extend_str(&mut out, " has just been issued/received");
    assert(out@ =~= event_title@ + " has just been issued/received"@);
    string_of(&out)
}

/// Appends to `out` what `c` is written as in HTML text.
fn push_escaped(out: &mut Vec<char>, c: char)
    ensures
        final(out)@ == old(out)@ + escape_of(c),
{
    if c == '&' {
        extend_str(out, "&amp;");
    } else if c == '<' {
        extend_str(out, "&lt;");
    } else if c == '>' {
        extend_str(out, "&gt;");
    } else if c == '"' {
        extend_str(out, "&quot;");
    } else if c == '\'' {
        extend_str(out, "&#39;");
    } else {
        out.push(c);
        assert(out@ =~= old(out)@ + seq![c]);
    }
}

/// `input` as HTML text, as characters.
fn escape_chars(input: &Vec<char>) -> (r: Vec<char>)
    ensures
        r@ == escaped(input@),
{
    let mut r: Vec<char> = Vec::new();
    let mut i: usize = 0;
    assert(input@.take(0) =~= Seq::<char>::empty());
    while i < input.len()
        invariant
            i <= input.len(),
            r@ == escaped(input@.take(i as int)),
        decreases input.len() - i,
    {
        proof {
            let t = input@.take(i + 1);
            assert(t.drop_last() =~= input@.take(i as int));
            assert(t.last() == input@[i as int]);
        }
        push_escaped(&mut r, input[i]);
        i += 1;
    }
    assert(input@.take(input.len() as int) =~= input@);
    r
}

/// Writes a text as HTML text: `&`, `<`, `>`, `"` and `'` are replaced by
/// their entities.
pub fn html_escape(input: &str) -> (r: String)
    ensures
        r@ == escaped(input@),
{
    let v = chars_of(input);
    let e = escape_chars(&v);
    string_of(&e)
}

/// Appends to `out` the text without white space at its end.
fn extend_trimmed(out: &mut Vec<char>, text: &str)
    ensures
        final(out)@ == old(out)@ + trim_back(text@),
{
    let v = chars_of(text);
    let t = trim_ws_back(&v);
    extend_chars(out, &t);
}

/// Appends to `out` the text as HTML text.
fn extend_escaped(out: &mut Vec<char>, text: &str)
    ensures
        final(out)@ == old(out)@ + escaped(text@),
{
    let v = chars_of(text);
    let e = escape_chars(&v);
    extend_chars(out, &e);
}

/// Appends to `out` the text, without white space at its end, as HTML
/// text.
fn extend_escaped_trimmed(out: &mut Vec<char>, text: &str)
    ensures
        final(out)@ == old(out)@ + escaped(trim_back(text@)),
{
    let v = chars_of(text);
    let t = trim_ws_back(&v);
    let e = escape_chars(&t);
    extend_chars(out, &e);
}

/// The body of a notification in Markdown.
pub fn build_markdown_body(
    station_name: &str,
    title: &str,
    originator: &str,
    received_timestamp: &str,
    eas_text: &str,
    raw_header: &str,
) -> (r: String)
    ensures
        r@ == markdown_body(
            station_name@,
            title@,
            originator@,
            received_timestamp@,
            eas_text@,
            raw_header@,
        ),
{
    let mut out: Vec<char> = Vec::new();
    extend_str(&mut out, "**");
    extend_str(&mut out, station_name);
    extend_str(&mut out, " - Software ENDEC Logs**\n\n**");
    extend_str(&mut out, title);
    extend_str(&mut out, "** has just been received from: ");
    extend_str(&mut out, originator);
    extend_str(&mut out, "\n\n**Received:** ");
    extend_str(&mut out, received_timestamp);
    extend_str(&mut out, "\n\n**EAS Text Data:**\n```\n");
    extend_trimmed(&mut out, eas_text);
    extend_str(&mut out, "\n```\n\n**EAS Protocol Data:**\n```\n");
    extend_trimmed(&mut out, raw_header);
    extend_str(&mut out, "\n```\n\nPowered by [Wags' Software ENDEC](");
    extend_str(&mut out, PROJECT_URL);
    extend_str(&mut out, ")");
    assert(out@ =~= markdown_body(
        station_name@,
        title@,
        originator@,
        received_timestamp@,
        eas_text@,
        raw_header@,
    ));
    string_of(&out)
}

/// The body of a notification in HTML.
pub fn build_html_body(
    station_name: &str,
    title: &str,
    originator: &str,
    received_timestamp: &str,
    eas_text: &str,
    raw_header: &str,
) -> (r: String)
    ensures
        r@ == html_body(
            station_name@,
            title@,
            originator@,
            received_timestamp@,
            eas_text@,
            raw_header@,
        ),
{
    let mut out: Vec<char> = Vec::new();
    extend_str(&mut out, "<p><strong>");
    extend_escaped(&mut out, station_name);
    extend_str(&mut out, " - Software ENDEC Logs</strong></p><p><strong>");
    extend_escaped(&mut out, title);
    extend_str(&mut out, "</strong> has just been received from: ");
    extend_escaped(&mut out, originator);
    extend_str(&mut out, "</p><p><strong>Received:</strong> ");
    extend_escaped(&mut out, received_timestamp);
    extend_str(&mut out, "</p><p><strong>EAS Text Data:</strong></p><pre>");
    extend_escaped_trimmed(&mut out, eas_text);
    extend_str(&mut out, "</pre><p><strong>EAS Protocol Data:</strong></p><pre>");
    extend_escaped_trimmed(&mut out, raw_header);
    extend_str(&mut out, "</pre><p>Powered by <a href=\"");
    extend_str(&mut out, PROJECT_URL);
    extend_str(&mut out, "\">Wags' Software ENDEC</a></p>");
    assert(out@ =~= html_body(
        station_name@,
        title@,
        originator@,
        received_timestamp@,
        eas_text@,
        raw_header@,
    ));
    string_of(&out)
}

/// The body of a notification in plain text.
pub fn build_plain_body(
    station_name: &str,
    title: &str,
    originator: &str,
    received_timestamp: &str,
    eas_text: &str,
    raw_header: &str,
) -> (r: String)
    ensures
        r@ == plain_body(
            station_name@,
            title@,
            originator@,
            received_timestamp@,
            eas_text@,
            raw_header@,
        ),
{
    let mut out: Vec<char> = Vec::new();
    extend_str(&mut out, station_name);
    extend_str(&mut out, " - Software ENDEC Logs\n\n");
    extend_str(&mut out, title);
    extend_str(&mut out, " has just been received from: ");
    extend_str(&mut out, originator);
    extend_str(&mut out, "\nReceived: ");
    extend_str(&mut out, received_timestamp);
    extend_str(&mut out, "\n\nEAS Text Data:\n");
    extend_trimmed(&mut out, eas_text);
    extend_str(&mut out, "\n\nEAS Protocol Data:\n");
    extend_trimmed(&mut out, raw_header);
    extend_str(&mut out, "\n\nPowered by Wags' Software ENDEC (");
    extend_str(&mut out, PROJECT_URL);
    extend_str(&mut out, ")");
    assert(out@ =~= plain_body(
        station_name@,
        title@,
        originator@,
        received_timestamp@,
        eas_text@,
        raw_header@,
    ));
    string_of(&out)
}

/// Tells whether the title, in lower case, holds the word.
fn title_has(lowered: &Vec<char>, word: &str) -> (r: bool)
    ensures
        r == contains_run(lowered@, word@),
{
    let w = chars_of(word);
    has_run(lowered, &w)
}

/// The colour of an embed as six hexadecimal digits.
pub fn embed_color_hex(title: &str) -> (r: String)
    ensures
        r@ == embed_hex(title@),
{
    let v = chars_of(title);
    let t = to_lower(&v);
    if title_has(&t, "test") {
        "105733".to_owned()
    } else if title_has(&t, "advisory") || title_has(&t, "watch") {
        "FFFF00".to_owned()
    } else if title_has(&t, "warning") || title_has(&t, "emergency") {
        "FF0000".to_owned()
    } else {
        "808080".to_owned()
    }
}

/// The colour of an embed as a number.
pub fn embed_color_value(title: &str) -> (r: u32)
    ensures
        r == embed_value(title@),
{
    let v = chars_of(title);
    let t = to_lower(&v);
    if title_has(&t, "test") {
        0x105733
    } else if title_has(&t, "advisory") || title_has(&t, "watch") {
        0xFFFF00
    } else if title_has(&t, "warning") || title_has(&t, "emergency") {
        0xFF0000
    } else {
        0x808080
    }
}

/// The event code that an embed shows: the letters among the characters 9
/// to 11 of the raw header.
pub fn embed_event_code(raw_header: &str) -> (r: String)
    requires
        raw_header@.len() >= 12,
    ensures
        r@ == letters_of(raw_header@.subrange(9, 12)),
{
    let v = chars_of(raw_header);
    let code = sub_vec(&v, 9, 12);
    let mut out: Vec<char> = Vec::new();
    let mut i: usize = 0;
    assert(code@.take(0) =~= Seq::<char>::empty());
    while i < code.len()
        invariant
            i <= code.len(),
            out@ == letters_of(code@.take(i as int)),
        decreases code.len() - i,
    {
        proof {
            let t = code@.take(i + 1);
            assert(t.drop_last() =~= code@.take(i as int));
            assert(t.last() == code@[i as int]);
        }
        if char_is_ascii_alpha(code[i]) {
            out.push(code[i]);
        }
        i += 1;
    }
    assert(code@.take(code.len() as int) =~= code@);
    string_of(&out)
}

/// `position_of` is the least index of the item, or the length.
proof fn lemma_position_of(list: Seq<Seq<char>>, item: Seq<char>, i: int)
    requires
        0 <= i <= list.len(),
        forall|j: int| 0 <= j < i ==> #[trigger] list[j] != item,
        i < list.len() ==> list[i] == item,
    ensures
        position_of(list, item) == i,
    decreases i,
{
    if i > 0 {
        let t = list.drop_first();
        assert forall|j: int| 0 <= j < i - 1 implies #[trigger] t[j] != item by {
            assert(t[j] == list[j + 1]);
        }
        assert(list[0] != item);
        if i - 1 < t.len() {
            assert(t[i - 1] == list[i]);
        }
        lemma_position_of(t, item, i - 1);
    }
}

/// The number under which a stream is shown.
pub fn monitor_number(stream_urls: &Vec<String>, stream_id: &str) -> (n: usize)
    ensures
        n == monitor_of(views(stream_urls@), stream_id@),
{
    let s = chars_of(stream_id);
    let mut i: usize = 0;
    while i < stream_urls.len()
        invariant
            i <= stream_urls.len(),
            s@ == stream_id@,
            forall|j: int| 0 <= j < i ==> #[trigger] views(stream_urls@)[j] != stream_id@,
        ensures
            i <= stream_urls.len(),
            forall|j: int| 0 <= j < i ==> #[trigger] views(stream_urls@)[j] != stream_id@,
            i < stream_urls.len() ==> views(stream_urls@)[i as int] == stream_id@,
        decreases stream_urls.len() - i,
    {
        if chars_are(&s, stream_urls[i].as_str()) {
            break;
        }
        i += 1;
    }
    proof {
        lemma_position_of(views(stream_urls@), stream_id@, i as int);
    }
    if i < stream_urls.len() {
        i + 1
    } else {
        UNKNOWN_MONITOR
    }
}

/// Reads one line of the notification settings.
fn parse_target(line: &Vec<char>) -> (r: Option<Vec<char>>)
    ensures
        match r {
            Some(t) => target_of(line@) == Some(t@),
            None => target_of(line@) is None,
        },
{
    let t = trim_ws(line);
    if t.len() == 0 || t[0] == '#' {
        None
    } else if t[0] == '-' {
        let rest = sub_vec(&t, 1, t.len());
        assert(rest@ =~= t@.skip(1));
        Some(trim_ws_front(&rest))
    } else {
        Some(t)
    }
}

/// The targets that the text of the notification settings names: one for
/// each line that is neither blank nor a comment, without a leading dash.
pub fn parse_notification_targets(contents: &str) -> (r: Vec<String>)
    ensures
        views(r@) == notification_targets(contents@),
{
    let v = chars_of(contents);
    let lines = split_on(&v, '\n');
    let ghost model = split(v@, '\n');
    let mut r: Vec<String> = Vec::new();
    let mut i: usize = 0;
    assert(model.take(0) =~= Seq::<Seq<char>>::empty());
    assert(views(r@) =~= Seq::<Seq<char>>::empty());
    while i < lines.len()
        invariant
            i <= lines.len(),
            model == piece_views(lines@),
            views(r@) == targets_of(model.take(i as int)),
        decreases lines.len() - i,
    {
        let ghost before = views(r@);
        proof {
            let t = model.take(i + 1);
            assert(t.drop_last() =~= model.take(i as int));
            assert(t.last() == lines@[i as int]@);
        }
        match parse_target(&lines[i]) {
            Some(t) => {
                let s = string_of(&t);
                r.push(s);
                assert(views(r@) =~= before.push(t@));
            },
            None => {},
        }
        i += 1;
    }
    assert(model.take(lines.len() as int) =~= model);
    r
}

/// Tells whether a target is a chat target.
pub fn is_chat_webhook(target: &str) -> (r: bool)
    ensures
        r == is_chat_target(target@),
{
    let v = chars_of(target);
    let t = trim_ws(&v);
    let p = chars_of("discord://");
    starts_with(&t, &p)
}

/// The address that a chat target is posted to.
pub fn chat_webhook_address(target: &str) -> (r: String)
    ensures
        r@ == chat_address(target@),
{
    let v = chars_of(target);
    let t = trim_ws(&v);
    let p = chars_of("discord://");
    proof {
        reveal_strlit("discord://");
    }
    let mut from: usize = 0;
    assert(t@.skip(0) =~= t@);
    loop
        invariant
            from <= t.len(),
            p@ == "discord://"@,
            p@.len() == 10,
            t@ == trim(target@),
            without_prefixes(t@, p@) == without_prefixes(t@.skip(from as int), p@),
        decreases t.len() - from,
    {
        let rest = sub_vec(&t, from, t.len());
        assert(rest@ =~= t@.skip(from as int));
        if !starts_with(&rest, &p) {
            let mut out: Vec<char> = Vec::new();
            extend_str(&mut out, "https://discord.com/api/webhooks/");
            extend_chars(&mut out, &rest);
            assert(without_prefixes(rest@, p@) == rest@);
            assert(out@ =~= chat_address(target@));
            return string_of(&out);
        }
        assert(without_prefixes(rest@, p@) == without_prefixes(rest@.skip(10), p@));
        assert(t@.skip(from as int).skip(10) =~= t@.skip(from + 10));
        from = from + 10;
    }
}

} // verus!
