//! The configuration snapshot and the rules by which it is made from what
//! the configuration document holds.
//!
//! Paths are kept as the document gives them: the alert log and the
//! recording directory are names below the shared-state directory.

use crate::document::RawConfig;
use crate::filter::{
    parse_filters, raw_filters_view, rules_from, rules_view, FilterRule, RuleModel,
};
use crate::text::{
    chars_of, list_contains, piece_views, same_lists, split, split_on, string_of, trim, trim_ws,
    views,
};
use vstd::prelude::*;

verus! {

/// Why a configuration was refused.
#[derive(Debug, Clone, Copy, PartialEq, Eq, Structural)]
pub enum ConfigError {
    MissingSharedStateDir,
    MissingDedicatedAlertLogFile,
    BadShouldLogAllAlerts,
    BadShouldRelay,
    BadShouldRelayIcecast,
    BadShouldRelayDasdec,
    MissingIcecastRelay,
    MissingStreamUrls,
    NoStreamUrls,
    MissingBindAddr,
    BadBindAddr,
    BadUseReverseProxy,
    MissingAlertLogFile,
    MissingAppriseConfigPath,
}

/// A configuration snapshot.
#[derive(Debug, Clone)]
pub struct Config {
    pub apprise_config_path: String,
    pub should_relay_icecast: bool,
    pub icecast_relay: String,
    pub dasdec_url: String,
    pub should_relay_dasdec: bool,
    pub icecast_intro: String,
    pub icecast_outro: String,
    pub should_relay: bool,
    pub should_log_all_alerts: bool,
    pub icecast_stream_urls: Vec<String>,
    pub shared_state_dir: String,
    pub alert_log_file: String,
    pub dedicated_alert_log_file: String,
    pub timezone: String,
    pub watched_fips: Vec<String>,
    pub recording_dir: String,
    pub monitoring_bind_addr: String,
    pub monitoring_max_log_entries: usize,
    pub monitoring_activity_window_secs: u64,
    pub use_reverse_proxy: bool,
    pub monitoring_bind_port: u16,
    pub ws_reverse_proxy_url: String,
    pub dashboard_username: String,
    pub dashboard_password: String,
    pub eas_relay_name: String,
    pub reverse_proxy_url: String,
    pub local_deeplink_host: String,
    pub web_server_port: String,
    pub filters: Vec<FilterRule>,
    pub log_level: String,
}

/// Whether a name is that of a time zone in the time zone database.
pub uninterp spec fn timezone_known(name: Seq<char>) -> bool;

/// Tells whether a name is that of a known time zone.
///
/// Calls `str::parse` for a `chrono_tz::Tz`, that is `chrono_tz::Tz::from_str`,
/// which looks the name up, letter for letter, in the table of zone names
/// that the crate was built with. The claim is that the answer depends on
/// the name alone.
#[verifier::external_body]
fn is_known_timezone(name: &str) -> (known: bool)
    ensures
        known == timezone_known(name@),
{
    name.parse::<chrono_tz::Tz>().is_ok()
}

/// The text of an optional string, or a default.
pub open spec fn text_or(o: Option<String>, default: Seq<char>) -> Seq<char> {
    match o {
        Some(s) => s@,
        None => default,
    }
}

/// The number of an optional number, or a default.
pub open spec fn number_or(o: Option<u64>, default: u64) -> u64 {
    match o {
        Some(n) => n,
        None => default,
    }
}

/// The pieces that are not empty, each once, in the order in which they
/// first occur.
pub open spec fn distinct_nonempty(pieces: Seq<Seq<char>>) -> Seq<Seq<char>>
    decreases pieces.len(),
{
    if pieces.len() == 0 {
        Seq::empty()
    } else {
        let rest = distinct_nonempty(pieces.drop_last());
        if pieces.last().len() > 0 && !rest.contains(pieces.last()) {
            rest.push(pieces.last())
        } else {
            rest
        }
    }
}

/// The watched zones that a comma-separated list names.
pub open spec fn watched_from(list: Seq<char>) -> Seq<Seq<char>> {
    distinct_nonempty(split(list, ','))
}

/// The texts among the items of an array, in order.
pub open spec fn texts_among(items: Seq<Option<String>>) -> Seq<Seq<char>>
    decreases items.len(),
{
    if items.len() == 0 {
        Seq::empty()
    } else {
        let rest = texts_among(items.drop_last());
        match items.last() {
            Some(s) => rest.push(s@),
            None => rest,
        }
    }
}

/// The stream addresses that the document names.
pub open spec fn stream_urls_of(raw: RawConfig) -> Seq<Seq<char>> {
    match raw.icecast_stream_url_array {
        Some(items) => texts_among(items@),
        None => Seq::empty(),
    }
}

/// Whether relaying to an Icecast server is switched on.
pub open spec fn icecast_relay_on(raw: RawConfig) -> bool {
    raw.should_relay == Some(true) && raw.should_relay_icecast == Some(true)
}

/// The first reason to refuse what the document holds, if there is one.
/// The keys are looked at in a fixed order.
pub open spec fn config_error(raw: RawConfig, bind_addr_valid: bool) -> Option<ConfigError> {
    if raw.shared_state_dir is None {
        Some(ConfigError::MissingSharedStateDir)
    } else if raw.dedicated_alert_log_file is None {
        Some(ConfigError::MissingDedicatedAlertLogFile)
    } else if raw.should_log_all_alerts is None {
        Some(ConfigError::BadShouldLogAllAlerts)
    } else if raw.should_relay is None {
        Some(ConfigError::BadShouldRelay)
    } else if raw.should_relay_icecast is None {
        Some(ConfigError::BadShouldRelayIcecast)
    } else if raw.should_relay_dasdec is None {
        Some(ConfigError::BadShouldRelayDasdec)
    } else if icecast_relay_on(raw) && text_or(raw.icecast_relay, Seq::empty()).len() == 0 {
        Some(ConfigError::MissingIcecastRelay)
    } else if raw.icecast_stream_url_array is None {
        Some(ConfigError::MissingStreamUrls)
    } else if stream_urls_of(raw).len() == 0 {
        Some(ConfigError::NoStreamUrls)
    } else if raw.monitoring_bind_addr is None {
        Some(ConfigError::MissingBindAddr)
    } else if !bind_addr_valid {
        Some(ConfigError::BadBindAddr)
    } else if raw.use_reverse_proxy is None {
        Some(ConfigError::BadUseReverseProxy)
    } else if raw.alert_log_file is None {
        Some(ConfigError::MissingAlertLogFile)
    } else if raw.apprise_config_path is None {
        Some(ConfigError::MissingAppriseConfigPath)
    } else {
        None
    }
}

/// The host for links to recordings: the one from the environment, where
/// it is not blank, else the one from the document, else `auto`; trimmed
/// in each case.
pub open spec fn deeplink_host_of(raw: RawConfig, env_host: Option<Seq<char>>) -> Seq<char> {
    if env_host is Some && trim(env_host->0).len() > 0 {
        trim(env_host->0)
    } else {
        trim(text_or(raw.local_deeplink_host, "auto"@))
    }
}

/// The number of log entries that the monitor keeps: 500 where the
/// document names none, and never more than the machine can count.
pub open spec fn max_logs_of(raw: RawConfig) -> usize {
    let n = number_or(raw.monitoring_max_logs, 500);
    if n > usize::MAX {
        usize::MAX
    } else {
        n as usize
    }
}

/// The rules that the document's filter list stands for.
pub open spec fn filters_of(raw: RawConfig) -> Seq<RuleModel> {
    match raw.filters {
        Some(entries) => rules_from(raw_filters_view(entries@)),
        None => Seq::empty(),
    }
}

/// Whether a snapshot is the one that the document stands for.
pub open spec fn describes(
    c: Config,
    raw: RawConfig,
    env_host: Option<Seq<char>>,
    timezone_valid: bool,
) -> bool {
    &&& c.shared_state_dir@ == text_or(raw.shared_state_dir, Seq::empty())
    &&& c.dedicated_alert_log_file@ == text_or(raw.dedicated_alert_log_file, Seq::empty())
    &&& Some(c.should_log_all_alerts) == raw.should_log_all_alerts
    &&& Some(c.should_relay) == raw.should_relay
    &&& Some(c.should_relay_icecast) == raw.should_relay_icecast
    &&& Some(c.should_relay_dasdec) == raw.should_relay_dasdec
    &&& c.icecast_relay@ == text_or(raw.icecast_relay, Seq::empty())
    &&& c.dasdec_url@ == text_or(raw.dasdec_url, Seq::empty())
    &&& c.icecast_intro@ == if icecast_relay_on(raw) {
        text_or(raw.icecast_intro, Seq::empty())
    } else {
        Seq::empty()
    }
    &&& c.icecast_outro@ == if icecast_relay_on(raw) {
        text_or(raw.icecast_outro, Seq::empty())
    } else {
        Seq::empty()
    }
    &&& c.timezone@ == if timezone_valid {
        text_or(raw.tz, "UTC"@)
    } else {
        "UTC"@
    }
    &&& views(c.watched_fips@) == watched_from(text_or(raw.watched_fips, Seq::empty()))
    &&& c.recording_dir@ == text_or(raw.recording_dir, "recordings"@)
    &&& views(c.icecast_stream_urls@) == stream_urls_of(raw)
    &&& c.monitoring_bind_addr@ == text_or(raw.monitoring_bind_addr, Seq::empty())
    &&& c.monitoring_max_log_entries == max_logs_of(raw)
    &&& c.monitoring_activity_window_secs == if number_or(
        raw.monitoring_activity_window_secs,
        45,
    ) < 1 {
        1
    } else {
        number_or(raw.monitoring_activity_window_secs, 45)
    }
    &&& Some(c.use_reverse_proxy) == raw.use_reverse_proxy
    &&& c.alert_log_file@ == text_or(raw.alert_log_file, Seq::empty())
    &&& c.apprise_config_path@ == text_or(raw.apprise_config_path, Seq::empty())
    &&& c.monitoring_bind_port == number_or(raw.monitoring_bind_port, 8080) % 65536
    &&& c.ws_reverse_proxy_url@ == text_or(raw.ws_reverse_proxy_url, "localhost"@)
    &&& c.dashboard_username@ == text_or(raw.dashboard_username, "admin"@)
    &&& c.dashboard_password@ == text_or(raw.dashboard_password, "password"@)
    &&& c.eas_relay_name@ == text_or(raw.eas_relay_name, "WAGSENDC"@)
    &&& c.reverse_proxy_url@ == text_or(raw.reverse_proxy_url, "localhost"@)
    &&& c.local_deeplink_host@ == deeplink_host_of(raw, env_host)
    &&& c.web_server_port@ == text_or(raw.web_server_port, "3010"@)
    &&& c.log_level@ == text_or(raw.rust_log, "INFO"@)
    &&& rules_view(c.filters@) == filters_of(raw)
}

/// No text occurs twice.
pub open spec fn no_repeats(list: Seq<Seq<char>>) -> bool {
    forall|i: int, j: int| 0 <= i < j < list.len() ==> #[trigger] list[i] != #[trigger] list[j]
}

/// No text is empty.
pub open spec fn no_blanks(list: Seq<Seq<char>>) -> bool {
    forall|i: int| 0 <= i < list.len() ==> (#[trigger] list[i]).len() > 0
}

/// `distinct_nonempty` makes a set of the pieces: nothing occurs twice in
/// it, nothing in it is empty, and it holds exactly the pieces that are
/// not empty.
pub proof fn lemma_distinct_nonempty(pieces: Seq<Seq<char>>)
    ensures
        no_repeats(distinct_nonempty(pieces)),
        no_blanks(distinct_nonempty(pieces)),
        forall|x: Seq<char>|
            #[trigger] distinct_nonempty(pieces).contains(x) <==> x.len() > 0 && pieces.contains(
                x,
            ),
    decreases pieces.len(),
{
    let d = distinct_nonempty(pieces);
    if pieces.len() > 0 {
        let front = pieces.drop_last();
        let last = pieces.last();
        let rest = distinct_nonempty(front);
        lemma_distinct_nonempty(front);
        assert(pieces[pieces.len() - 1] == last);
        assert forall|i: int, j: int| 0 <= i < j < d.len() implies #[trigger] d[i]
            != #[trigger] d[j] by {
            if j < rest.len() {
                assert(d[i] == rest[i] && d[j] == rest[j]);
            } else {
                assert(d[i] == rest[i]);
                assert(rest.contains(rest[i]));
            }
        }
        assert forall|i: int| 0 <= i < d.len() implies (#[trigger] d[i]).len() > 0 by {
            if i < rest.len() {
                assert(d[i] == rest[i]);
            }
        }
        assert forall|x: Seq<char>| #[trigger] d.contains(x) <==> x.len() > 0 && pieces.contains(
            x,
        ) by {
            if d.contains(x) {
                let i = choose|i: int| 0 <= i < d.len() && d[i] == x;
                if i < rest.len() {
                    assert(rest[i] == x);
                    assert(rest.contains(x));
                    let j = choose|j: int| 0 <= j < front.len() && front[j] == x;
                    assert(pieces[j] == x);
                } else {
                    assert(x == last);
                }
            }
            if x.len() > 0 && pieces.contains(x) {
                let j = choose|j: int| 0 <= j < pieces.len() && pieces[j] == x;
                if j < front.len() {
                    assert(front[j] == x);
                    assert(front.contains(x));
                    assert(rest.contains(x));
                    let i = choose|i: int| 0 <= i < rest.len() && rest[i] == x;
                    assert(d[i] == x);
                } else {
                    assert(x == last);
                    if rest.contains(last) {
                        let i = choose|i: int| 0 <= i < rest.len() && rest[i] == last;
                        assert(d[i] == x);
                    } else {
                        assert(d[d.len() - 1] == x);
                    }
                }
            }
        }
    }
}

/// The watched zones are a set: no zone is named twice, none is empty, and
/// a zone is watched exactly when it is a non-empty entry of the list.
pub proof fn lemma_watched_is_a_set(list: Seq<char>)
    ensures
        no_repeats(watched_from(list)),
        no_blanks(watched_from(list)),
        forall|zone: Seq<char>|
            #[trigger] watched_from(list).contains(zone) <==> zone.len() > 0 && split(
                list,
                ',',
            ).contains(zone),
{
    lemma_distinct_nonempty(split(list, ','));
}

/// A snapshot that was accepted names at least one stream, names an
/// Icecast server where it relays to one, and names no watched zone twice.
pub open spec fn well_formed(c: Config) -> bool {
    &&& c.icecast_stream_urls@.len() > 0
    &&& c.should_relay && c.should_relay_icecast ==> c.icecast_relay@.len() > 0
    &&& no_repeats(views(c.watched_fips@))
    &&& no_blanks(views(c.watched_fips@))
}

/// Every snapshot that stands for an acceptable document is well formed.
pub proof fn lemma_accepted_is_well_formed(
    c: Config,
    raw: RawConfig,
    env_host: Option<Seq<char>>,
    timezone_valid: bool,
    bind_addr_valid: bool,
)
    requires
        config_error(raw, bind_addr_valid) is None,
        describes(c, raw, env_host, timezone_valid),
    ensures
        well_formed(c),
{
    assert(views(c.icecast_stream_urls@).len() == c.icecast_stream_urls@.len());
    lemma_watched_is_a_set(text_or(raw.watched_fips, Seq::empty()));
}

/// The text of an optional string, or a default.
fn text_or_default(o: &Option<String>, default: &str) -> (r: String)
    ensures
        r@ == text_or(*o, default@),
{
    match o {
        Some(s) => s.clone(),
        None => default.to_owned(),
    }
}

/// The texts among the items of an array, in order.
fn collect_texts(items: &Vec<Option<String>>) -> (r: Vec<String>)
    ensures
        views(r@) == texts_among(items@),
{
    let mut r: Vec<String> = Vec::new();
    let mut i: usize = 0;
    assert(items@.take(0) =~= Seq::<Option<String>>::empty());
    assert(views(r@) =~= Seq::<Seq<char>>::empty());
    while i < items.len()
        invariant
            i <= items.len(),
            views(r@) == texts_among(items@.take(i as int)),
        decreases items.len() - i,
    {
        let ghost before = views(r@);
        proof {
            let t = items@.take(i + 1);
            assert(t.drop_last() =~= items@.take(i as int));
            assert(t.last() == items@[i as int]);
        }
        match &items[i] {
            Some(s) => {
                r.push(s.clone());
                assert(views(r@) =~= before.push(s@));
            },
            None => {},
        }
        i += 1;
    }
    assert(items@.take(items.len() as int) =~= items@);
    r
}

/// The watched zones that a comma-separated list names: its entries that
/// are not empty, each once.
pub fn parse_watched_fips(list: &str) -> (r: Vec<String>)
    ensures
        views(r@) == watched_from(list@),
{
    let v = chars_of(list);
    let pieces = split_on(&v, ',');
    let ghost model = split(v@, ',');
    let mut r: Vec<String> = Vec::new();
    let mut i: usize = 0;
    assert(model.take(0) =~= Seq::<Seq<char>>::empty());
    assert(views(r@) =~= Seq::<Seq<char>>::empty());
    while i < pieces.len()
        invariant
            i <= pieces.len(),
            model == piece_views(pieces@),
            views(r@) == distinct_nonempty(model.take(i as int)),
        decreases pieces.len() - i,
    {
        let ghost before = views(r@);
        proof {
            let t = model.take(i + 1);
            assert(t.drop_last() =~= model.take(i as int));
            assert(t.last() == pieces@[i as int]@);
        }
        if pieces[i].len() > 0 && !list_contains(&r, &pieces[i]) {
            let s = string_of(&pieces[i]);
            r.push(s);
            assert(views(r@) =~= before.push(pieces@[i as int]@));
        }
        i += 1;
    }
    assert(model.take(pieces.len() as int) =~= model);
    r
}

/// The trimmed form of a text.
fn trimmed(s: &str) -> (r: String)
    ensures
        r@ == trim(s@),
{
    let v = chars_of(s);
    let t = trim_ws(&v);
    string_of(&t)
}

/// Tells whether a reload names other streams than the snapshot in force.
/// Such a change takes effect only after a restart.
pub fn stream_urls_changed(current: &Config, reloaded: &Config) -> (changed: bool)
    ensures
        changed == (views(current.icecast_stream_urls@) != views(reloaded.icecast_stream_urls@)),
{
    !same_lists(&current.icecast_stream_urls, &reloaded.icecast_stream_urls)
}

/// Watches the signal that asks for the configuration to be read again.
#[derive(Debug, Clone, Copy, PartialEq, Eq, Structural)]
pub struct ReloadWatch {
    /// When the signal that was last acted on had been modified.
    pub last_seen_modified: Option<u64>,
}

/// Whether a signal modified at `modified` asks for a reload: the first
/// signal does, and every signal that was modified after the last one that
/// was acted on.
pub open spec fn asks_reload(w: ReloadWatch, modified: u64) -> bool {
    match w.last_seen_modified {
        None => true,
        Some(known) => modified > known,
    }
}

impl ReloadWatch {
    /// A watch that has acted on no signal yet.
    pub fn new() -> (w: Self)
        ensures
            w.last_seen_modified is None,
    {
        ReloadWatch { last_seen_modified: None }
    }

    /// Looks at a signal that was modified at `modified` and tells whether
    /// the configuration is to be read again. A signal that is acted on is
    /// remembered, whether or not the reload succeeds.
    pub fn reload_due(&mut self, modified: u64) -> (due: bool)
        ensures
            due == asks_reload(*old(self), modified),
            final(self).last_seen_modified == if due {
                Some(modified)
            } else {
                old(self).last_seen_modified
            },
    {
        let due = match self.last_seen_modified {
            None => true,
            Some(known) => modified > known,
        };
        if due {
            self.last_seen_modified = Some(modified);
        }
        due
    }
}

/// What a key must be for the document to be accepted.
pub open spec fn demand_of(e: ConfigError) -> Seq<char> {
    match e {
        ConfigError::MissingSharedStateDir => "SHARED_STATE_DIR must be set in your config.json file"@,
        ConfigError::MissingDedicatedAlertLogFile => "DEDICATED_ALERT_LOG_FILE must be set in your config.json file"@,
        ConfigError::BadShouldLogAllAlerts => "SHOULD_LOG_ALL_ALERTS must be either true or false in your config.json file"@,
        ConfigError::BadShouldRelay => "SHOULD_RELAY must be either true or false in your config.json file"@,
        ConfigError::BadShouldRelayIcecast => "SHOULD_RELAY_ICECAST must be either true or false in your config.json file"@,
        ConfigError::BadShouldRelayDasdec => "SHOULD_RELAY_DASDEC must be either true or false in your config.json file"@,
        ConfigError::MissingIcecastRelay => "ICECAST_RELAY must be set if SHOULD_RELAY and SHOULD_RELAY_ICECAST are true"@,
        ConfigError::MissingStreamUrls => "ICECAST_STREAM_URL_ARRAY must be set in your config.json file"@,
        ConfigError::NoStreamUrls => "ICECAST_STREAM_URL_ARRAY must contain at least one stream URL"@,
        ConfigError::MissingBindAddr => "MONITORING_BIND_ADDR must be set in your config.json file"@,
        ConfigError::BadBindAddr => "MONITORING_BIND_ADDR must be a valid socket address"@,
        ConfigError::BadUseReverseProxy => "USE_REVERSE_PROXY must be either true or false in your config.json file"@,
        ConfigError::MissingAlertLogFile => "ALERT_LOG_FILE must be set in your config.json file"@,
        ConfigError::MissingAppriseConfigPath => "APPRISE_CONFIG_PATH must be set in your config.json file"@,
    }
}

impl ConfigError {
    /// The words in which the refusal is reported.
    pub fn message(&self) -> (r: String)
        ensures
            r@ == demand_of(*self),
    {
        let text = match self {
            ConfigError::MissingSharedStateDir => {
                "SHARED_STATE_DIR must be set in your config.json file"
            },
            ConfigError::MissingDedicatedAlertLogFile => {
                "DEDICATED_ALERT_LOG_FILE must be set in your config.json file"
            },
            ConfigError::BadShouldLogAllAlerts => {
                "SHOULD_LOG_ALL_ALERTS must be either true or false in your config.json file"
            },
            ConfigError::BadShouldRelay => {
                "SHOULD_RELAY must be either true or false in your config.json file"
            },
            ConfigError::BadShouldRelayIcecast => {
                "SHOULD_RELAY_ICECAST must be either true or false in your config.json file"
            },
            ConfigError::BadShouldRelayDasdec => {
                "SHOULD_RELAY_DASDEC must be either true or false in your config.json file"
            },
            ConfigError::MissingIcecastRelay => {
                "ICECAST_RELAY must be set if SHOULD_RELAY and SHOULD_RELAY_ICECAST are true"
            },
            ConfigError::MissingStreamUrls => {
                "ICECAST_STREAM_URL_ARRAY must be set in your config.json file"
            },
            ConfigError::NoStreamUrls => {
                "ICECAST_STREAM_URL_ARRAY must contain at least one stream URL"
            },
            ConfigError::MissingBindAddr => {
                "MONITORING_BIND_ADDR must be set in your config.json file"
            },
            ConfigError::BadBindAddr => "MONITORING_BIND_ADDR must be a valid socket address",
            ConfigError::BadUseReverseProxy => {
                "USE_REVERSE_PROXY must be either true or false in your config.json file"
            },
            ConfigError::MissingAlertLogFile => {
                "ALERT_LOG_FILE must be set in your config.json file"
            },
            ConfigError::MissingAppriseConfigPath => {
                "APPRISE_CONFIG_PATH must be set in your config.json file"
            },
        };
        text.to_owned()
    }
}

impl Config {
    /// Makes a snapshot from what the document holds, or tells the first
    /// reason to refuse it. `env_host` is the host for links that the
    /// environment names, if it names one; `bind_addr_valid` tells whether
    /// the address to bind to is a socket address; `timezone_valid` tells
    /// whether the time zone that the document names is a known one.
    pub fn assemble(
        raw: &RawConfig,
        env_host: Option<&str>,
        bind_addr_valid: bool,
        timezone_valid: bool,
    ) -> (r: Result<Config, ConfigError>)
        ensures
            match r {
                Ok(c) => config_error(*raw, bind_addr_valid) is None && describes(
                    c,
                    *raw,
                    match env_host {
                        Some(h) => Some(h@),
                        None => None,
                    },
                    timezone_valid,
                ) && well_formed(c),
                Err(e) => config_error(*raw, bind_addr_valid) == Some(e),
            },
    {
        let shared_state_dir = match &raw.shared_state_dir {
            Some(s) => s.clone(),
            None => {
                return Err(ConfigError::MissingSharedStateDir);
            },
        };
        let dedicated_alert_log_file = match &raw.dedicated_alert_log_file {
            Some(s) => s.clone(),
            None => {
                return Err(ConfigError::MissingDedicatedAlertLogFile);
            },
        };
        let should_log_all_alerts = match raw.should_log_all_alerts {
            Some(b) => b,
            None => {
                return Err(ConfigError::BadShouldLogAllAlerts);
            },
        };
        let should_relay = match raw.should_relay {
            Some(b) => b,
            None => {
                return Err(ConfigError::BadShouldRelay);
            },
        };
        let should_relay_icecast = match raw.should_relay_icecast {
            Some(b) => b,
            None => {
                return Err(ConfigError::BadShouldRelayIcecast);
            },
        };
        let icecast_relay = text_or_default(&raw.icecast_relay, "");
        let should_relay_dasdec = match raw.should_relay_dasdec {
            Some(b) => b,
            None => {
                return Err(ConfigError::BadShouldRelayDasdec);
            },
        };
        let dasdec_url = text_or_default(&raw.dasdec_url, "");
        proof {
            reveal_strlit("");
            assert(""@ =~= Seq::<char>::empty());
        }
        let mut icecast_intro = String::new();
        let mut icecast_outro = String::new();
        if should_relay && should_relay_icecast {
            if icecast_relay.as_str().unicode_len() == 0 {
                return Err(ConfigError::MissingIcecastRelay);
            }
            icecast_intro = text_or_default(&raw.icecast_intro, "");
            icecast_outro = text_or_default(&raw.icecast_outro, "");
        }
        let timezone = if timezone_valid {
            text_or_default(&raw.tz, "UTC")
        } else {
            "UTC".to_owned()
        };
        let watched_text = text_or_default(&raw.watched_fips, "");
        let watched_fips = parse_watched_fips(watched_text.as_str());
        let recording_dir = text_or_default(&raw.recording_dir, "recordings");
        let icecast_stream_urls = match &raw.icecast_stream_url_array {
            Some(items) => collect_texts(items),
            None => {
                return Err(ConfigError::MissingStreamUrls);
            },
        };
        if icecast_stream_urls.len() == 0 {
            return Err(ConfigError::NoStreamUrls);
        }
        let monitoring_bind_addr = match &raw.monitoring_bind_addr {
            Some(s) => s.clone(),
            None => {
                return Err(ConfigError::MissingBindAddr);
            },
        };
        if !bind_addr_valid {
            return Err(ConfigError::BadBindAddr);
        }
        let max_logs: u64 = match raw.monitoring_max_logs {
            Some(n) => n,
            None => 500,
        };
        let monitoring_max_log_entries: usize = if max_logs > usize::MAX as u64 {
            usize::MAX
        } else {
            max_logs as usize
        };
        let window: u64 = match raw.monitoring_activity_window_secs {
            Some(n) => n,
            None => 45,
        };
        let monitoring_activity_window_secs: u64 = if window < 1 {
            1
        } else {
            window
        };
        let use_reverse_proxy = match raw.use_reverse_proxy {
            Some(b) => b,
            None => {
                return Err(ConfigError::BadUseReverseProxy);
            },
        };
        let alert_log_file = match &raw.alert_log_file {
            Some(s) => s.clone(),
            None => {
                return Err(ConfigError::MissingAlertLogFile);
            },
        };
        let apprise_config_path = match &raw.apprise_config_path {
            Some(s) => s.clone(),
            None => {
                return Err(ConfigError::MissingAppriseConfigPath);
            },
        };
        let port: u64 = match raw.monitoring_bind_port {
            Some(n) => n,
            None => 8080,
        };
        let monitoring_bind_port: u16 = (port % 65536) as u16;
        let ws_reverse_proxy_url = text_or_default(&raw.ws_reverse_proxy_url, "localhost");
        let dashboard_username = text_or_default(&raw.dashboard_username, "admin");
        let dashboard_password = text_or_default(&raw.dashboard_password, "password");
        let eas_relay_name = text_or_default(&raw.eas_relay_name, "WAGSENDC");
        let reverse_proxy_url = text_or_default(&raw.reverse_proxy_url, "localhost");
        let from_env = match env_host {
            Some(h) => {
                let t = trimmed(h);
                if t.as_str().unicode_len() > 0 {
                    Some(t)
                } else {
                    None
                }
            },
            None => None,
        };
        let local_deeplink_host = match from_env {
            Some(t) => t,
            None => {
                let configured = text_or_default(&raw.local_deeplink_host, "auto");
                trimmed(configured.as_str())
            },
        };
        let web_server_port = text_or_default(&raw.web_server_port, "3010");
        let log_level = text_or_default(&raw.rust_log, "INFO");
        let filters = match &raw.filters {
            Some(entries) => parse_filters(entries),
            None => {
                let empty: Vec<FilterRule> = Vec::new();
                assert(rules_view(empty@) =~= Seq::<RuleModel>::empty());
                empty
            },
        };
        let c = Config {
            apprise_config_path,
            should_relay_icecast,
            icecast_relay,
            dasdec_url,
            should_relay_dasdec,
            icecast_intro,
            icecast_outro,
            should_relay,
            should_log_all_alerts,
            icecast_stream_urls,
            shared_state_dir,
            alert_log_file,
            dedicated_alert_log_file,
            timezone,
            watched_fips,
            recording_dir,
            monitoring_bind_addr,
            monitoring_max_log_entries,
            monitoring_activity_window_secs,
            use_reverse_proxy,
            monitoring_bind_port,
            ws_reverse_proxy_url,
            dashboard_username,
            dashboard_password,
            eas_relay_name,
            reverse_proxy_url,
            local_deeplink_host,
            web_server_port,
            filters,
            log_level,
        };
        proof {
            assert(views(c.icecast_stream_urls@).len() == c.icecast_stream_urls@.len());
            lemma_watched_is_a_set(watched_text@);
        }
        Ok(c)
    }

    /// Makes a snapshot from what the document holds, or tells the first
    /// reason to refuse it. The time zone that the document names is kept
    /// where it is a known one; `UTC` stands in for any other.
    pub fn from_config_json(raw: &RawConfig, env_host: Option<&str>, bind_addr_valid: bool) -> (r:
        Result<Config, ConfigError>)
        ensures
            match r {
                Ok(c) => config_error(*raw, bind_addr_valid) is None && describes(
                    c,
                    *raw,
                    match env_host {
                        Some(h) => Some(h@),
                        None => None,
                    },
                    timezone_known(text_or(raw.tz, "UTC"@)),
                ) && well_formed(c),
                Err(e) => config_error(*raw, bind_addr_valid) == Some(e),
            },
    {
        let name = text_or_default(&raw.tz, "UTC");
        let timezone_valid = is_known_timezone(name.as_str());
        Config::assemble(raw, env_host, bind_addr_valid, timezone_valid)
    }
}

} // verus!
