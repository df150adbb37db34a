//! Reading the configuration document: a JSON text whose values are looked
//! up by JSON Pointer. What a place holds is handed on as plain values;
//! what is absent, or of another kind than is asked for, is `None`.

use crate::filter::{opt_view, raw_filters_view, RawFilter, RawFilterModel};
use crate::text::{decimal, decimal_chars, extend_chars, extend_str, string_of};
use vstd::prelude::*;

verus! {

/// Whether a text is a JSON document that the parser accepts.
pub uninterp spec fn json_well_formed(text: Seq<char>) -> bool;

/// The text of the string at a place in a JSON document, if the document
/// parses and holds a string there.
pub uninterp spec fn json_text_at(text: Seq<char>, pointer: Seq<char>) -> Option<Seq<char>>;

/// The truth value at a place in a JSON document, if the document parses
/// and holds one there.
pub uninterp spec fn json_flag_at(text: Seq<char>, pointer: Seq<char>) -> Option<bool>;

/// The number at a place in a JSON document, if the document parses and
/// holds there an integer that fits 64 bits without sign.
pub uninterp spec fn json_number_at(text: Seq<char>, pointer: Seq<char>) -> Option<u64>;

/// The number of items of the array at a place in a JSON document, if the
/// document parses and holds an array there.
pub uninterp spec fn json_length_at(text: Seq<char>, pointer: Seq<char>) -> Option<nat>;

/// Tells whether a text parses as a JSON document.
///
/// Calls `serde_json::from_str` for a `serde_json::Value`. The claim is
/// that the same text is always either accepted or refused.
#[verifier::external_body]
fn json_parses(text: &str) -> (ok: bool)
    ensures
        ok == json_well_formed(text@),
{
    serde_json::from_str::<serde_json::Value>(text).is_ok()
}

/// The text of the string at a place in a JSON document.
///
/// Calls `serde_json::from_str`, `serde_json::Value::pointer` and
/// `serde_json::Value::as_str`. The claim is that the result depends on
/// the document and the pointer alone.
#[verifier::external_body]
fn json_text(text: &str, pointer: &str) -> (r: Option<String>)
    ensures
        opt_view(r) == json_text_at(text@, pointer@),
{
    serde_json::from_str::<serde_json::Value>(text).ok()?.pointer(pointer)?.as_str().map(
        str::to_owned,
    )
}

/// The truth value at a place in a JSON document.
///
/// Calls `serde_json::from_str`, `serde_json::Value::pointer` and
/// `serde_json::Value::as_bool`. The claim is that the result depends on
/// the document and the pointer alone.
#[verifier::external_body]
fn json_flag(text: &str, pointer: &str) -> (r: Option<bool>)
    ensures
        r == json_flag_at(text@, pointer@),
{
    serde_json::from_str::<serde_json::Value>(text).ok()?.pointer(pointer)?.as_bool()
}

/// The number at a place in a JSON document.
///
/// Calls `serde_json::from_str`, `serde_json::Value::pointer` and
/// `serde_json::Value::as_u64`. The claim is that the result depends on
/// the document and the pointer alone.
#[verifier::external_body]
fn json_number(text: &str, pointer: &str) -> (r: Option<u64>)
    ensures
        r == json_number_at(text@, pointer@),
{
    serde_json::from_str::<serde_json::Value>(text).ok()?.pointer(pointer)?.as_u64()
}

/// The number of items of the array at a place in a JSON document.
///
/// Calls `serde_json::from_str`, `serde_json::Value::pointer` and
/// `serde_json::Value::as_array`, and takes the length of the vector that
/// the last one gives. The claim is that the result depends on the
/// document and the pointer alone.
#[verifier::external_body]
fn json_length(text: &str, pointer: &str) -> (r: Option<usize>)
    ensures
        match r {
            Some(n) => json_length_at(text@, pointer@) == Some(n as nat),
            None => json_length_at(text@, pointer@) is None,
        },
{
    serde_json::from_str::<serde_json::Value>(text).ok()?.pointer(pointer)?.as_array().map(
        Vec::len,
    )
}

/// What the configuration document holds under each of its keys.
#[derive(Debug, Clone)]
pub struct RawConfig {
    pub shared_state_dir: Option<String>,
    pub dedicated_alert_log_file: Option<String>,
    pub should_log_all_alerts: Option<bool>,
    pub should_relay: Option<bool>,
    pub should_relay_icecast: Option<bool>,
    pub icecast_relay: Option<String>,
    pub should_relay_dasdec: Option<bool>,
    pub dasdec_url: Option<String>,
    pub icecast_intro: Option<String>,
    pub icecast_outro: Option<String>,
    pub tz: Option<String>,
    pub watched_fips: Option<String>,
    pub recording_dir: Option<String>,
    pub icecast_stream_url_array: Option<Vec<Option<String>>>,
    pub monitoring_bind_addr: Option<String>,
    pub monitoring_max_logs: Option<u64>,
    pub monitoring_activity_window_secs: Option<u64>,
    pub use_reverse_proxy: Option<bool>,
    pub alert_log_file: Option<String>,
    pub apprise_config_path: Option<String>,
    pub monitoring_bind_port: Option<u64>,
    pub ws_reverse_proxy_url: Option<String>,
    pub dashboard_username: Option<String>,
    pub dashboard_password: Option<String>,
    pub eas_relay_name: Option<String>,
    pub reverse_proxy_url: Option<String>,
    pub local_deeplink_host: Option<String>,
    pub web_server_port: Option<String>,
    pub rust_log: Option<String>,
    pub filters: Option<Vec<RawFilter>>,
}

/// The place of item `index` of the array at `pointer`.
pub open spec fn item_pointer(pointer: Seq<char>, index: nat) -> Seq<char> {
    pointer + "/"@ + decimal(index)
}

/// The first `n` items of the array at a place, each as text where it is a
/// string.
pub open spec fn json_items(text: Seq<char>, pointer: Seq<char>, n: nat) -> Seq<Option<Seq<char>>> {
    Seq::new(n, |i: int| json_text_at(text, item_pointer(pointer, i as nat)))
}

/// The items of the array at a place, each as text where it is a string,
/// if the document holds an array there.
pub open spec fn json_texts_at(text: Seq<char>, pointer: Seq<char>) -> Option<
    Seq<Option<Seq<char>>>,
> {
    match json_length_at(text, pointer) {
        Some(n) => Some(json_items(text, pointer, n)),
        None => None,
    }
}

/// The filter entry that item `index` of the filter list gives, whatever
/// the item holds.
pub open spec fn json_filter_at(text: Seq<char>, index: nat) -> RawFilterModel {
    let entry = item_pointer("/FILTERS"@, index);
    RawFilterModel {
        name: json_text_at(text, entry + "/name"@),
        event_codes: json_texts_at(text, entry + "/event_codes"@),
        action: json_text_at(text, entry + "/action"@),
    }
}

/// The first `n` entries of the filter list.
pub open spec fn json_filter_entries(text: Seq<char>, n: nat) -> Seq<RawFilterModel> {
    Seq::new(n, |i: int| json_filter_at(text, i as nat))
}

/// The entries of the filter list, if the document holds one.
pub open spec fn json_filters_at(text: Seq<char>) -> Option<Seq<RawFilterModel>> {
    match json_length_at(text, "/FILTERS"@) {
        Some(n) => Some(json_filter_entries(text, n)),
        None => None,
    }
}

/// The model of an optional list of optional strings.
pub open spec fn texts_view(list: Option<Vec<Option<String>>>) -> Option<Seq<Option<Seq<char>>>> {
    match list {
        Some(v) => Some(v@.map_values(|c: Option<String>| opt_view(c))),
        None => None,
    }
}

/// The model of an optional list of filter entries.
pub open spec fn entries_view(list: Option<Vec<RawFilter>>) -> Option<Seq<RawFilterModel>> {
    match list {
        Some(v) => Some(raw_filters_view(v@)),
        None => None,
    }
}

/// Whether `raw` holds, field by field, what the document holds under the
/// key of that field.
pub open spec fn read_from(raw: RawConfig, text: Seq<char>) -> bool {
    &&& opt_view(raw.shared_state_dir) == json_text_at(text, "/SHARED_STATE_DIR"@)
    &&& opt_view(raw.dedicated_alert_log_file) == json_text_at(text, "/DEDICATED_ALERT_LOG_FILE"@)
    &&& raw.should_log_all_alerts == json_flag_at(text, "/SHOULD_LOG_ALL_ALERTS"@)
    &&& raw.should_relay == json_flag_at(text, "/SHOULD_RELAY"@)
    &&& raw.should_relay_icecast == json_flag_at(text, "/SHOULD_RELAY_ICECAST"@)
    &&& opt_view(raw.icecast_relay) == json_text_at(text, "/ICECAST_RELAY"@)
    &&& raw.should_relay_dasdec == json_flag_at(text, "/SHOULD_RELAY_DASDEC"@)
    &&& opt_view(raw.dasdec_url) == json_text_at(text, "/DASDEC_URL"@)
    &&& opt_view(raw.icecast_intro) == json_text_at(text, "/ICECAST_INTRO"@)
    &&& opt_view(raw.icecast_outro) == json_text_at(text, "/ICECAST_OUTRO"@)
    &&& opt_view(raw.tz) == json_text_at(text, "/TZ"@)
    &&& opt_view(raw.watched_fips) == json_text_at(text, "/WATCHED_FIPS"@)
    &&& opt_view(raw.recording_dir) == json_text_at(text, "/RECORDING_DIR"@)
    &&& texts_view(raw.icecast_stream_url_array) == json_texts_at(
        text,
        "/ICECAST_STREAM_URL_ARRAY"@,
    )
    &&& opt_view(raw.monitoring_bind_addr) == json_text_at(text, "/MONITORING_BIND_ADDR"@)
    &&& raw.monitoring_max_logs == json_number_at(text, "/MONITORING_MAX_LOGS"@)
    &&& raw.monitoring_activity_window_secs == json_number_at(
        text,
        "/MONITORING_ACTIVITY_WINDOW_SECS"@,
    )
    &&& raw.use_reverse_proxy == json_flag_at(text, "/USE_REVERSE_PROXY"@)
    &&& opt_view(raw.alert_log_file) == json_text_at(text, "/ALERT_LOG_FILE"@)
    &&& opt_view(raw.apprise_config_path) == json_text_at(text, "/APPRISE_CONFIG_PATH"@)
    &&& raw.monitoring_bind_port == json_number_at(text, "/MONITORING_BIND_PORT"@)
    &&& opt_view(raw.ws_reverse_proxy_url) == json_text_at(text, "/WS_REVERSE_PROXY_URL"@)
    &&& opt_view(raw.dashboard_username) == json_text_at(text, "/DASHBOARD_USERNAME"@)
    &&& opt_view(raw.dashboard_password) == json_text_at(text, "/DASHBOARD_PASSWORD"@)
    &&& opt_view(raw.eas_relay_name) == json_text_at(text, "/EAS_RELAY_NAME"@)
    &&& opt_view(raw.reverse_proxy_url) == json_text_at(text, "/REVERSE_PROXY_URL"@)
    &&& opt_view(raw.local_deeplink_host) == json_text_at(text, "/LOCAL_DEEPLINK_HOST"@)
    &&& opt_view(raw.web_server_port) == json_text_at(text, "/WEB_SERVER_PORT"@)
    &&& opt_view(raw.rust_log) == json_text_at(text, "/RUST_LOG"@)
    &&& entries_view(raw.filters) == json_filters_at(text)
}

/// The place of item `index` of the array at `pointer`.
fn item_place(pointer: &str, index: usize) -> (r: String)
    ensures
        r@ == item_pointer(pointer@, index as nat),
{
    let mut out: Vec<char> = Vec::new();
    extend_str(&mut out, pointer);
    extend_str(&mut out, "/");
    let digits = decimal_chars(index as u64);
    extend_chars(&mut out, &digits);
    assert(out@ =~= item_pointer(pointer@, index as nat));
    string_of(&out)
}

/// The place of a member of the value at `pointer`. The member is given
/// with the slash in front of its name.
fn member_place(pointer: &str, member: &str) -> (r: String)
    ensures
        r@ == pointer@ + member@,
{
    let mut out: Vec<char> = Vec::new();
    extend_str(&mut out, pointer);
    extend_str(&mut out, member);
    assert(out@ =~= pointer@ + member@);
    string_of(&out)
}

/// The items of the array at a place, each as text where it is a string,
/// if the document holds an array there.
fn texts_at(text: &str, pointer: &str) -> (r: Option<Vec<Option<String>>>)
    ensures
        texts_view(r) == json_texts_at(text@, pointer@),
{
    let n = match json_length(text, pointer) {
        Some(n) => n,
        None => {
            return None;
        },
    };
    let mut items: Vec<Option<String>> = Vec::new();
    let mut i: usize = 0;
    while i < n
        invariant
            i <= n,
            items@.len() == i,
            forall|j: int|
                0 <= j < i ==> opt_view(#[trigger] items@[j]) == json_text_at(
                    text@,
                    item_pointer(pointer@, j as nat),
                ),
        decreases n - i,
    {
        let place = item_place(pointer, i);
        items.push(json_text(text, place.as_str()));
        i += 1;
    }
    assert(items@.map_values(|c: Option<String>| opt_view(c)) =~= json_items(
        text@,
        pointer@,
        n as nat,
    ));
    Some(items)
}

/// The filter entry that item `index` of the filter list gives.
fn filter_at(text: &str, index: usize) -> (entry: RawFilter)
    ensures
        entry@ == json_filter_at(text@, index as nat),
{
    let place = item_place("/FILTERS", index);
    let name_place = member_place(place.as_str(), "/name");
    let codes_place = member_place(place.as_str(), "/event_codes");
    let action_place = member_place(place.as_str(), "/action");
    let name = json_text(text, name_place.as_str());
    let event_codes = texts_at(text, codes_place.as_str());
    let action = json_text(text, action_place.as_str());
    RawFilter { name, event_codes, action }
}

/// The entries of the filter list, if the document holds one.
fn filters_at(text: &str) -> (r: Option<Vec<RawFilter>>)
    ensures
        entries_view(r) == json_filters_at(text@),
{
    let n = match json_length(text, "/FILTERS") {
        Some(n) => n,
        None => {
            return None;
        },
    };
    let mut entries: Vec<RawFilter> = Vec::new();
    let mut i: usize = 0;
    while i < n
        invariant
            i <= n,
            entries@.len() == i,
            forall|j: int| 0 <= j < i ==> (#[trigger] entries@[j])@ == json_filter_at(text@, j as nat),
        decreases n - i,
    {
        entries.push(filter_at(text, i));
        i += 1;
    }
    assert(raw_filters_view(entries@) =~= json_filter_entries(text@, n as nat));
    Some(entries)
}

/// Reads the configuration document. A text that is no JSON document gives
/// `None`; any other text gives what it holds under each key.
pub fn parse_config_document(text: &str) -> (r: Option<RawConfig>)
    ensures
        match r {
            Some(raw) => json_well_formed(text@) && read_from(raw, text@),
            None => !json_well_formed(text@),
        },
{
    if !json_parses(text) {
        return None;
    }
    Some(
        RawConfig {
            shared_state_dir: json_text(text, "/SHARED_STATE_DIR"),
            dedicated_alert_log_file: json_text(text, "/DEDICATED_ALERT_LOG_FILE"),
            should_log_all_alerts: json_flag(text, "/SHOULD_LOG_ALL_ALERTS"),
            should_relay: json_flag(text, "/SHOULD_RELAY"),
            should_relay_icecast: json_flag(text, "/SHOULD_RELAY_ICECAST"),
            icecast_relay: json_text(text, "/ICECAST_RELAY"),
            should_relay_dasdec: json_flag(text, "/SHOULD_RELAY_DASDEC"),
            dasdec_url: json_text(text, "/DASDEC_URL"),
            icecast_intro: json_text(text, "/ICECAST_INTRO"),
            icecast_outro: json_text(text, "/ICECAST_OUTRO"),
            tz: json_text(text, "/TZ"),
            watched_fips: json_text(text, "/WATCHED_FIPS"),
            recording_dir: json_text(text, "/RECORDING_DIR"),
            icecast_stream_url_array: texts_at(text, "/ICECAST_STREAM_URL_ARRAY"),
            monitoring_bind_addr: json_text(text, "/MONITORING_BIND_ADDR"),
            monitoring_max_logs: json_number(text, "/MONITORING_MAX_LOGS"),
            monitoring_activity_window_secs: json_number(text, "/MONITORING_ACTIVITY_WINDOW_SECS"),
            use_reverse_proxy: json_flag(text, "/USE_REVERSE_PROXY"),
            alert_log_file: json_text(text, "/ALERT_LOG_FILE"),
            apprise_config_path: json_text(text, "/APPRISE_CONFIG_PATH"),
            monitoring_bind_port: json_number(text, "/MONITORING_BIND_PORT"),
            ws_reverse_proxy_url: json_text(text, "/WS_REVERSE_PROXY_URL"),
            dashboard_username: json_text(text, "/DASHBOARD_USERNAME"),
            dashboard_password: json_text(text, "/DASHBOARD_PASSWORD"),
            eas_relay_name: json_text(text, "/EAS_RELAY_NAME"),
            reverse_proxy_url: json_text(text, "/REVERSE_PROXY_URL"),
            local_deeplink_host: json_text(text, "/LOCAL_DEEPLINK_HOST"),
            web_server_port: json_text(text, "/WEB_SERVER_PORT"),
            rust_log: json_text(text, "/RUST_LOG"),
            filters: filters_at(text),
        },
    )
}

} // verus!
