//! What is handed on downstream once a recording is complete: whether the
//! alert is relayed at all, the audio that is bundled for the relay, and
//! the addresses that the archive is reached under.

use crate::config::{Config, ConfigError};
use crate::filter::{action_of, evaluate_action, rules_view, FilterAction, FilterRule};
use crate::host::{base64_encode_text, base64_standard, sanitize_host_header, sanitized_host};
use crate::text::{
    chars_are, chars_of, decimal, decimal_chars, extend_chars, extend_str, lower_seq, string_of,
    to_lower, trim, trim_ws, views,
};
use vstd::prelude::*;

verus! {

/// One input of the bundle: a file, or a second of silence.
#[derive(Debug, Clone)]
pub enum Segment {
    File(String),
    Silence,
}

/// The model of a segment.
pub enum SegmentModel {
    File(Seq<char>),
    Silence,
}

impl View for Segment {
    type V = SegmentModel;

    open spec fn view(&self) -> SegmentModel {
        match self {
            Segment::File(p) => SegmentModel::File(p@),
            Segment::Silence => SegmentModel::Silence,
        }
    }
}

/// Why a relay could not be planned.
#[derive(Debug, Clone, Copy, PartialEq, Eq, Structural)]
pub enum RelayError {
    EmptyRecordingPath,
    IcecastRelayUnset,
}

/// What a relay does.
#[derive(Debug, Clone)]
pub struct RelayPlan {
    /// Whether the filters let the alert be relayed at all.
    pub relayed: bool,
    /// The inputs of the bundle for the Icecast server, in order; empty
    /// where nothing is sent there.
    pub icecast_inputs: Vec<Segment>,
    /// Whether the alert is announced to the DASDEC unit.
    pub dasdec: bool,
}

/// The state of the relay: the configuration it works under.
pub struct RelayState {
    pub config: Config,
}

/// The files of the bundle: the intro, where one is configured, the
/// recording, and the outro, where one is configured.
pub open spec fn bundle_files(intro: Seq<char>, recording: Seq<char>, outro: Seq<char>) -> Seq<
    Seq<char>,
> {
    (if intro.len() > 0 {
        seq![intro]
    } else {
        Seq::empty()
    }) + seq![recording] + (if outro.len() > 0 {
        seq![outro]
    } else {
        Seq::empty()
    })
}

/// The inputs of the bundle: the files, with a second of silence between
/// any two of them.
pub open spec fn with_silences(files: Seq<Seq<char>>) -> Seq<SegmentModel>
    decreases files.len(),
{
    if files.len() == 0 {
        Seq::empty()
    } else if files.len() == 1 {
        seq![SegmentModel::File(files[0])]
    } else {
        with_silences(files.drop_last()).push(SegmentModel::Silence).push(
            SegmentModel::File(files.last()),
        )
    }
}

/// Whether the configuration sends the bundle to an Icecast server.
pub open spec fn sends_icecast(c: Config) -> bool {
    c.should_relay && c.should_relay_icecast
}

/// Whether the configuration announces alerts to a DASDEC unit.
pub open spec fn sends_dasdec(c: Config) -> bool {
    c.should_relay && c.should_relay_dasdec && trim(c.dasdec_url@).len() > 0
}

/// The filter that conditions one input for the bundle.
pub open spec fn input_filter(index: nat) -> Seq<char> {
    "["@ + decimal(index)
        + ":a]aresample=sample_rate=48000,aformat=sample_rates=48000:channel_layouts=mono,asetpts=N/SR/TB[s"@
        + decimal(index) + "]"@
}

/// The filters of the first `n` inputs, separated by `;`.
pub open spec fn input_filters(n: nat) -> Seq<char>
    decreases n,
{
    if n == 0 {
        Seq::empty()
    } else if n == 1 {
        input_filter(0)
    } else {
        input_filters((n - 1) as nat) + ";"@ + input_filter((n - 1) as nat)
    }
}

/// The labels of the first `n` conditioned inputs, one after the other.
pub open spec fn input_labels(n: nat) -> Seq<char>
    decreases n,
{
    if n == 0 {
        Seq::empty()
    } else {
        input_labels((n - 1) as nat) + "[s"@ + decimal((n - 1) as nat) + "]"@
    }
}

/// The filter graph that conditions `n` inputs and, where there are
/// several, joins them end to end.
pub open spec fn filter_graph(n: nat) -> Seq<char> {
    if n > 1 {
        input_filters(n) + ";"@ + input_labels(n) + "concat=n="@ + decimal(n) + ":v=0:a=1[outa]"@
    } else {
        input_filters(n)
    }
}

/// The label under which the filter graph hands out its result.
pub open spec fn graph_output(n: nat) -> Seq<char> {
    if n > 1 {
        "[outa]"@
    } else {
        "[s0]"@
    }
}

/// The scheme, host and port part of an address of the archive.
pub open spec fn archive_base(secure: bool, host: Seq<char>, port: Seq<char>) -> Seq<char> {
    (if secure {
        "https://"@
    } else {
        "http://"@
    }) + host + ":"@ + port
}

/// The address that tells the newest recording of the archive.
pub open spec fn latest_id_address(c: Config) -> Seq<char> {
    if c.use_reverse_proxy {
        archive_base(true, c.reverse_proxy_url@, "443"@) + "/archive.php?latest_id=true"@
    } else {
        archive_base(false, "127.0.0.1"@, "80"@) + "/archive.php?latest_id=true"@
    }
}

/// Whether the configuration names a host for links itself.
pub open spec fn names_link_host(c: Config) -> bool {
    c.local_deeplink_host@.len() > 0 && lower_seq(c.local_deeplink_host@) != "auto"@
}

/// The host of links to recordings: the proxy behind a reverse proxy, else
/// the host that the configuration names, else the host that requests were
/// addressed to, else the address of this machine, else `127.0.0.1`.
pub open spec fn link_host(
    c: Config,
    runtime_host: Option<Seq<char>>,
    local_ip: Option<Seq<char>>,
) -> Seq<char> {
    if c.use_reverse_proxy {
        c.reverse_proxy_url@
    } else if names_link_host(c) {
        c.local_deeplink_host@
    } else if runtime_host is Some {
        runtime_host->0
    } else if local_ip is Some {
        local_ip->0
    } else {
        "127.0.0.1"@
    }
}

/// The link to a recording of the archive.
pub open spec fn recording_link(c: Config, host: Seq<char>, recording_id: Seq<char>) -> Seq<
    char,
> {
    if c.use_reverse_proxy {
        archive_base(true, host, "443"@) + "/archive.php?recording_id="@ + recording_id
    } else {
        archive_base(false, host, c.web_server_port@) + "/archive.php?recording_id="@
            + recording_id
    }
}

/// The host that the notes of earlier requests name: the host for links,
/// where its note names one, else the host last seen.
pub open spec fn noted_host(preferred: Option<Seq<char>>, last_seen: Option<Seq<char>>) -> Option<
    Seq<char>,
> {
    if preferred is Some && sanitized_host(trim(preferred->0)) is Some {
        sanitized_host(trim(preferred->0))
    } else if last_seen is Some {
        sanitized_host(trim(last_seen->0))
    } else {
        None
    }
}

/// The inputs of the bundle, as the plan holds them.
pub open spec fn segments_view(v: Seq<Segment>) -> Seq<SegmentModel> {
    v.map_values(|s: Segment| s@)
}

/// The inputs of the bundle for a recording under a configuration.
fn bundle_inputs(c: &Config, recording: &str) -> (r: Vec<Segment>)
    ensures
        segments_view(r@) == with_silences(
            bundle_files(c.icecast_intro@, recording@, c.icecast_outro@),
        ),
        r.len() >= 1,
{
    let mut r: Vec<Segment> = Vec::new();
    let ghost mut files: Seq<Seq<char>> = Seq::empty();
    assert(segments_view(r@) =~= with_silences(files));
    if c.icecast_intro.as_str().unicode_len() > 0 {
        r.push(Segment::File(c.icecast_intro.clone()));
        proof {
            files = seq![c.icecast_intro@];
            assert(segments_view(r@) =~= with_silences(files));
        }
    }
    let ghost files_before = files;
    if r.len() > 0 {
        r.push(Segment::Silence);
    }
    r.push(Segment::File(recording.to_owned()));
    proof {
        files = files_before.push(recording@);
        assert(files.drop_last() =~= files_before);
        assert(segments_view(r@) =~= with_silences(files));
    }
    if c.icecast_outro.as_str().unicode_len() > 0 {
        let ghost files_mid = files;
        r.push(Segment::Silence);
        r.push(Segment::File(c.icecast_outro.clone()));
        proof {
            files = files_mid.push(c.icecast_outro@);
            assert(files.drop_last() =~= files_mid);
            assert(segments_view(r@) =~= with_silences(files));
        }
    }
    assert(files =~= bundle_files(c.icecast_intro@, recording@, c.icecast_outro@));
    r
}

/// Appends to `out` the filter that conditions one input.
fn extend_input_filter(out: &mut Vec<char>, index: u64)
    ensures
        final(out)@ == old(out)@ + input_filter(index as nat),
{
    let digits = decimal_chars(index);
    extend_str(out, "[");
    extend_chars(out, &digits);
    extend_str(
        out,
        ":a]aresample=sample_rate=48000,aformat=sample_rates=48000:channel_layouts=mono,asetpts=N/SR/TB[s",
    );
    extend_chars(out, &digits);
    extend_str(out, "]");
    assert(out@ =~= old(out)@ + input_filter(index as nat));
}

/// The filter graph that conditions `inputs` inputs and, where there are
/// several, joins them end to end.
pub fn build_filter_graph(inputs: u64) -> (r: String)
    ensures
        r@ == filter_graph(inputs as nat),
{
    let mut out: Vec<char> = Vec::new();
    let mut labels: Vec<char> = Vec::new();
    let mut i: u64 = 0;
    while i < inputs
        invariant
            i <= inputs,
            out@ == input_filters(i as nat),
            labels@ == input_labels(i as nat),
        decreases inputs - i,
    {
        if i > 0 {
            extend_str(&mut out, ";");
        }
        extend_input_filter(&mut out, i);
        let digits = decimal_chars(i);
        let ghost before = labels@;
        extend_str(&mut labels, "[s");
        extend_chars(&mut labels, &digits);
        extend_str(&mut labels, "]");
        proof {
            assert(labels@ =~= before + "[s"@ + decimal(i as nat) + "]"@);
            if i == 0 {
                assert(out@ =~= input_filter(0));
            }
        }
        i += 1;
    }
    if inputs > 1 {
        let digits = decimal_chars(inputs);
        extend_str(&mut out, ";");
        extend_chars(&mut out, &labels);
        extend_str(&mut out, "concat=n=");
        extend_chars(&mut out, &digits);
        extend_str(&mut out, ":v=0:a=1[outa]");
        assert(out@ =~= filter_graph(inputs as nat));
    }
    string_of(&out)
}

/// The label under which the filter graph hands out its result.
pub fn filter_graph_output(inputs: u64) -> (r: String)
    ensures
        r@ == graph_output(inputs as nat),
{
    if inputs > 1 {
        "[outa]".to_owned()
    } else {
        "[s0]".to_owned()
    }
}

/// Appends to `out` the scheme, host and port part of an address.
fn extend_archive_base(out: &mut Vec<char>, secure: bool, host: &str, port: &str)
    ensures
        final(out)@ == old(out)@ + archive_base(secure, host@, port@),
{
    if secure {
        extend_str(out, "https://");
    } else {
        extend_str(out, "http://");
    }
    extend_str(out, host);
    extend_str(out, ":");
    extend_str(out, port);
    assert(out@ =~= old(out)@ + archive_base(secure, host@, port@));
}

/// The host that the notes of earlier requests name, given what the two
/// notes hold, where they could be read.
pub fn resolve_runtime_deeplink_host(preferred: Option<&str>, last_seen: Option<&str>) -> (r:
    Option<String>)
    ensures
        match r {
            Some(h) => noted_host(
                match preferred {
                    Some(p) => Some(p@),
                    None => None,
                },
                match last_seen {
                    Some(l) => Some(l@),
                    None => None,
                },
            ) == Some(h@),
            None => noted_host(
                match preferred {
                    Some(p) => Some(p@),
                    None => None,
                },
                match last_seen {
                    Some(l) => Some(l@),
                    None => None,
                },
            ) is None,
        },
{
    match preferred {
        Some(p) => {
            let v = chars_of(p);
            let t = trim_ws(&v);
            let s = string_of(&t);
            match sanitize_host_header(s.as_str()) {
                Some(h) => {
                    return Some(h);
                },
                None => {},
            }
        },
        None => {},
    }
    match last_seen {
        Some(l) => {
            let v = chars_of(l);
            let t = trim_ws(&v);
            let s = string_of(&t);
            sanitize_host_header(s.as_str())
        },
        None => None,
    }
}

impl RelayState {
    /// A relay under a configuration. A configuration that relays to an
    /// Icecast server without naming one is refused.
    pub fn new(config: Config) -> (r: Result<RelayState, ConfigError>)
        ensures
            match r {
                Ok(s) => s.config == config && !(sends_icecast(config)
                    && config.icecast_relay@.len() == 0),
                Err(e) => e == ConfigError::MissingIcecastRelay && sends_icecast(config)
                    && config.icecast_relay@.len() == 0,
            },
    {
        if config.should_relay && config.should_relay_icecast
            && config.icecast_relay.as_str().unicode_len() == 0 {
            return Err(ConfigError::MissingIcecastRelay);
        }
        Ok(RelayState { config })
    }

    /// Plans the relay of a recording. Only an alert whose filter action is
    /// `Relay` is relayed; for it the recording must have a path, and the
    /// bundle for the Icecast server is the intro, the recording and the
    /// outro with silence in between.
    pub fn start_relay(&self, event_code: &str, filters: &[FilterRule], recorded_segment: &str) -> (r:
        Result<RelayPlan, RelayError>)
        ensures
            match r {
                Ok(plan) => {
                    &&& plan.relayed == (action_of(rules_view(filters@), event_code@)
                        == FilterAction::Relay)
                    &&& !plan.relayed ==> plan.icecast_inputs@.len() == 0 && !plan.dasdec
                    &&& plan.relayed ==> recorded_segment@.len() > 0
                    &&& plan.relayed ==> plan.dasdec == sends_dasdec(self.config)
                    &&& plan.relayed && !sends_icecast(self.config) ==> plan.icecast_inputs@.len()
                        == 0
                    &&& plan.relayed && sends_icecast(self.config) ==> segments_view(
                        plan.icecast_inputs@,
                    ) == with_silences(
                        bundle_files(
                            self.config.icecast_intro@,
                            recorded_segment@,
                            self.config.icecast_outro@,
                        ),
                    ) && self.config.icecast_relay@.len() > 0
                },
                Err(e) => {
                    &&& action_of(rules_view(filters@), event_code@) == FilterAction::Relay
                    &&& e == if recorded_segment@.len() == 0 {
                        RelayError::EmptyRecordingPath
                    } else {
                        RelayError::IcecastRelayUnset
                    }
                    &&& recorded_segment@.len() > 0 ==> sends_icecast(self.config)
                        && self.config.icecast_relay@.len() == 0
                },
            },
    {
        match evaluate_action(filters, event_code) {
            FilterAction::Relay => {},
            _ => {
                return Ok(RelayPlan { relayed: false, icecast_inputs: Vec::new(), dasdec: false });
            },
        }
        if recorded_segment.unicode_len() == 0 {
            return Err(RelayError::EmptyRecordingPath);
        }
        let mut icecast_inputs: Vec<Segment> = Vec::new();
        if self.config.should_relay && self.config.should_relay_icecast {
            if self.config.icecast_relay.as_str().unicode_len() == 0 {
                return Err(RelayError::IcecastRelayUnset);
            }
            icecast_inputs = bundle_inputs(&self.config, recorded_segment);
        }
        let url = chars_of(self.config.dasdec_url.as_str());
        let trimmed = trim_ws(&url);
        let dasdec = self.config.should_relay && self.config.should_relay_dasdec && trimmed.len()
            > 0;
        Ok(RelayPlan { relayed: true, icecast_inputs, dasdec })
    }

    /// The address that tells the newest recording of the archive.
    pub fn latest_id_url(&self) -> (r: String)
        ensures
            r@ == latest_id_address(self.config),
    {
        let mut out: Vec<char> = Vec::new();
        if self.config.use_reverse_proxy {
            extend_archive_base(&mut out, true, self.config.reverse_proxy_url.as_str(), "443");
        } else {
            extend_archive_base(&mut out, false, "127.0.0.1", "80");
        }
        extend_str(&mut out, "/archive.php?latest_id=true");
        assert(out@ =~= latest_id_address(self.config));
        string_of(&out)
    }

    /// The bearer token that the archive is asked with: the base64 text of
    /// user name, colon and password.
    pub fn bearer_token(&self) -> (r: String)
        ensures
            r@ == base64_standard(
                self.config.dashboard_username@ + ":"@ + self.config.dashboard_password@,
            ),
    {
        let mut pair: Vec<char> = Vec::new();
        extend_str(&mut pair, self.config.dashboard_username.as_str());
        extend_str(&mut pair, ":");
        extend_str(&mut pair, self.config.dashboard_password.as_str());
        assert(pair@ =~= self.config.dashboard_username@ + ":"@
            + self.config.dashboard_password@);
        let text = string_of(&pair);
        base64_encode_text(text.as_str())
    }

    /// The host of links to recordings.
    pub fn deeplink_host(&self, runtime_host: Option<&str>, local_ip: Option<&str>) -> (r: String)
        ensures
            r@ == link_host(
                self.config,
                match runtime_host {
                    Some(h) => Some(h@),
                    None => None,
                },
                match local_ip {
                    Some(h) => Some(h@),
                    None => None,
                },
            ),
    {
        if self.config.use_reverse_proxy {
            return self.config.reverse_proxy_url.clone();
        }
        let host = chars_of(self.config.local_deeplink_host.as_str());
        let lowered = to_lower(&host);
        if host.len() > 0 && !chars_are(&lowered, "auto") {
            return self.config.local_deeplink_host.clone();
        }
        match runtime_host {
            Some(h) => h.to_owned(),
            None => match local_ip {
                Some(ip) => ip.to_owned(),
                None => "127.0.0.1".to_owned(),
            },
        }
    }

    /// The link to a recording of the archive.
    pub fn audio_deeplink(&self, host: &str, recording_id: &str) -> (r: String)
        ensures
            r@ == recording_link(self.config, host@, recording_id@),
    {
        let mut out: Vec<char> = Vec::new();
        if self.config.use_reverse_proxy {
            extend_archive_base(&mut out, true, host, "443");
        } else {
            extend_archive_base(&mut out, false, host, self.config.web_server_port.as_str());
        }
        extend_str(&mut out, "/archive.php?recording_id=");
        extend_str(&mut out, recording_id);
        assert(out@ =~= recording_link(self.config, host@, recording_id@));
        string_of(&out)
    }
}

/// The arguments that name one input to the muxing tool.
pub open spec fn segment_arguments(segment: SegmentModel) -> Seq<Seq<char>> {
    match segment {
        SegmentModel::File(path) => seq!["-i"@, path],
        SegmentModel::Silence => seq![
            "-f"@,
            "lavfi"@,
            "-t"@,
            "1"@,
            "-i"@,
            "anullsrc=channel_layout=mono:sample_rate=48000"@,
        ],
    }
}

/// The arguments that name the inputs to the muxing tool, in order.
pub open spec fn input_arguments(inputs: Seq<SegmentModel>) -> Seq<Seq<char>>
    decreases inputs.len(),
{
    if inputs.len() == 0 {
        Seq::empty()
    } else {
        input_arguments(inputs.drop_last()) + segment_arguments(inputs.last())
    }
}

/// The arguments with which the muxing tool makes the bundle.
pub open spec fn bundle_arguments(inputs: Seq<SegmentModel>, output: Seq<char>) -> Seq<Seq<char>> {
    seq!["-nostdin"@, "-hide_banner"@, "-loglevel"@, "info"@, "-y"@] + input_arguments(inputs)
        + seq![
        "-filter_complex"@,
        filter_graph(inputs.len()),
        "-map"@,
        graph_output(inputs.len()),
        "-ar"@,
        "48000"@,
        "-ac"@,
        "1"@,
        "-c:a"@,
        "libvorbis"@,
        "-b:a"@,
        "128k"@,
        output,
    ]
}

/// The arguments with which the muxing tool sends the bundle to the
/// Icecast server.
pub open spec fn stream_arguments(bundle: Seq<char>, destination: Seq<char>) -> Seq<Seq<char>> {
    seq![
        "-nostdin"@,
        "-hide_banner"@,
        "-loglevel"@,
        "info"@,
        "-re"@,
        "-i"@,
        bundle,
        "-c:a"@,
        "copy"@,
        "-f"@,
        "wav"@,
        "-metadata"@,
        "title=Emergency Alert"@,
        "-metadata"@,
        "artist=EAS Listener"@,
        destination,
    ]
}

/// Appends one argument.
fn push_arg(args: &mut Vec<String>, arg: &str)
    ensures
        views(final(args)@) == views(old(args)@).push(arg@),
{
    args.push(arg.to_owned());
    assert(views(args@) =~= views(old(args)@).push(arg@));
}

/// The arguments with which the muxing tool makes the bundle of `inputs`
/// at `output`.
pub fn bundle_command(inputs: &Vec<Segment>, output: &str) -> (args: Vec<String>)
    ensures
        views(args@) == bundle_arguments(segments_view(inputs@), output@),
{
    let ghost model = segments_view(inputs@);
    let mut args: Vec<String> = Vec::new();
    assert(views(args@) =~= Seq::<Seq<char>>::empty());
    push_arg(&mut args, "-nostdin");
    push_arg(&mut args, "-hide_banner");
    push_arg(&mut args, "-loglevel");
    push_arg(&mut args, "info");
    push_arg(&mut args, "-y");
    let ghost head = views(args@);
    assert(head =~= seq!["-nostdin"@, "-hide_banner"@, "-loglevel"@, "info"@, "-y"@]);
    let mut i: usize = 0;
    assert(model.take(0) =~= Seq::<SegmentModel>::empty());
    assert(head + Seq::<Seq<char>>::empty() =~= head);
    while i < inputs.len()
        invariant
            i <= inputs.len(),
            model == segments_view(inputs@),
            views(args@) == head + input_arguments(model.take(i as int)),
        decreases inputs.len() - i,
    {
        let ghost before = views(args@);
        proof {
            let t = model.take(i + 1);
            assert(t.drop_last() =~= model.take(i as int));
            assert(t.last() == inputs@[i as int]@);
        }
        match &inputs[i] {
            Segment::File(path) => {
                push_arg(&mut args, "-i");
                push_arg(&mut args, path.as_str());
                assert(views(args@) =~= before + seq!["-i"@, path@]);
            },
            Segment::Silence => {
                push_arg(&mut args, "-f");
                push_arg(&mut args, "lavfi");
                push_arg(&mut args, "-t");
                push_arg(&mut args, "1");
                push_arg(&mut args, "-i");
                push_arg(&mut args, "anullsrc=channel_layout=mono:sample_rate=48000");
                assert(views(args@) =~= before + segment_arguments(SegmentModel::Silence));
            },
        }
        assert(views(args@) =~= head + (input_arguments(model.take(i as int))
            + segment_arguments(inputs@[i as int]@)));
        i += 1;
    }
    assert(model.take(inputs.len() as int) =~= model);
    let count: u64 = inputs.len() as u64;
    let graph = build_filter_graph(count);
    let label = filter_graph_output(count);
    push_arg(&mut args, "-filter_complex");
    push_arg(&mut args, graph.as_str());
    push_arg(&mut args, "-map");
    push_arg(&mut args, label.as_str());
    push_arg(&mut args, "-ar");
    push_arg(&mut args, "48000");
    push_arg(&mut args, "-ac");
    push_arg(&mut args, "1");
    push_arg(&mut args, "-c:a");
    push_arg(&mut args, "libvorbis");
    push_arg(&mut args, "-b:a");
    push_arg(&mut args, "128k");
    push_arg(&mut args, output);
    assert(views(args@) =~= bundle_arguments(model, output@));
    args
}

/// The arguments with which the muxing tool sends the bundle to the
/// Icecast server at `destination`.
pub fn stream_command(bundle: &str, destination: &str) -> (args: Vec<String>)
    ensures
        views(args@) == stream_arguments(bundle@, destination@),
{
    let mut args: Vec<String> = Vec::new();
    assert(views(args@) =~= Seq::<Seq<char>>::empty());
    push_arg(&mut args, "-nostdin");
    push_arg(&mut args, "-hide_banner");
    push_arg(&mut args, "-loglevel");
    push_arg(&mut args, "info");
    push_arg(&mut args, "-re");
    push_arg(&mut args, "-i");
    push_arg(&mut args, bundle);
    push_arg(&mut args, "-c:a");
    push_arg(&mut args, "copy");
    push_arg(&mut args, "-f");
    push_arg(&mut args, "wav");
    push_arg(&mut args, "-metadata");
    push_arg(&mut args, "title=Emergency Alert");
    push_arg(&mut args, "-metadata");
    push_arg(&mut args, "artist=EAS Listener");
    push_arg(&mut args, destination);
    assert(views(args@) =~= stream_arguments(bundle@, destination@));
    args
}

} // verus!
