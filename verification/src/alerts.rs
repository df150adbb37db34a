//! What is decided when an alert arrives and when its recording ends:
//! whether it concerns the watched zones, which day flag the active alerts
//! call for, and who is told once the recording is complete.

use crate::filter::{action_of, evaluate_action, rules_view, FilterAction, FilterRule};
use crate::state::{
    alerts_view, inserted, ActiveAlert, AlertModel, AppState, EasAlertData, EasAlertModel,
};
use crate::text::{
    chars_are, chars_of, extend_str, list_contains, string_of, trim, trim_ws, views,
};
use crate::tone::{header_event_code, tone_event_code};
use vstd::prelude::*;

verus! {

/// The file that is present while a severe alert is active.
pub const SEVERE_DAY_FILE: &'static str = "severe_day.txt";

/// The file that is present while a watch, and no severe alert, is active.
pub const RAINY_DAY_FILE: &'static str = "rainy_day.txt";

/// How many seconds pass between two sweeps of the active alerts.
pub const SWEEP_INTERVAL_SECS: u64 = 60;

/// What the active alerts call for.
#[derive(Debug, Clone, Copy, PartialEq, Eq, Structural)]
pub enum DayFlag {
    Severe,
    Rainy,
    Clear,
}

/// Who is told of an alert once its recording is complete.
#[derive(Debug, Clone, Copy, PartialEq, Eq, Structural)]
pub struct DispatchPlan {
    pub notify: bool,
    pub relay: bool,
}

/// What can happen while a recording of a SAME message is awaited.
#[derive(Debug, Clone)]
pub enum WaitEvent {
    /// The time limit of the recording has passed.
    Deadline,
    /// An end of message was heard on the named stream.
    EndOfMessage(String),
    /// The named stream was disconnected.
    Disconnected(String),
    /// Some ends of message were missed.
    Lagged,
    /// No end of message will be announced any more.
    Closed,
}

/// Whether an alert for the zones `fips` concerns the watched zones: it
/// does where nothing in particular is watched, where everything is watched
/// (`000000` or an empty entry), where the alert is for every zone
/// (`000000`), and where one of its zones is watched.
pub open spec fn relevant(fips: Seq<Seq<char>>, watched: Seq<Seq<char>>) -> bool {
    watched.len() == 0 || watched.contains("000000"@) || watched.contains(Seq::<char>::empty())
        || fips.contains("000000"@) || exists|i: int|
        0 <= i < fips.len() && watched.contains(#[trigger] fips[i])
}

/// Whether an event code is one of a severe alert: `SVR`, `TOR` or `TOA`.
pub open spec fn is_severe_code(code: Seq<char>) -> bool {
    let c = trim(code);
    c == "SVR"@ || c == "TOR"@ || c == "TOA"@
}

/// Whether an event code is that of a watch: `SVA`.
pub open spec fn is_watch_code(code: Seq<char>) -> bool {
    trim(code) == "SVA"@
}

/// Whether one of the alerts is severe.
pub open spec fn any_severe(alerts: Seq<AlertModel>) -> bool {
    exists|i: int| 0 <= i < alerts.len() && is_severe_code((#[trigger] alerts[i]).data.event_code)
}

/// Whether one of the alerts is a watch.
pub open spec fn any_watch(alerts: Seq<AlertModel>) -> bool {
    exists|i: int| 0 <= i < alerts.len() && is_watch_code((#[trigger] alerts[i]).data.event_code)
}

/// The flag that a set of active alerts calls for.
pub open spec fn day_flag(alerts: Seq<AlertModel>) -> DayFlag {
    if any_severe(alerts) {
        DayFlag::Severe
    } else if any_watch(alerts) {
        DayFlag::Rainy
    } else {
        DayFlag::Clear
    }
}

/// Who is told under an action: everybody but under `Ignore` is notified,
/// and the recording is relayed only under `Relay`, where relaying is
/// switched on and there is a recording.
pub open spec fn dispatch_for(action: FilterAction, relay_enabled: bool, has_recording: bool)
    -> DispatchPlan {
    DispatchPlan {
        notify: action != FilterAction::Ignore,
        relay: action == FilterAction::Relay && relay_enabled && has_recording,
    }
}

/// Whether an event ends the wait for the end of a recording on `stream`.
pub open spec fn ends_wait(event: WaitEvent, stream: Seq<char>) -> bool {
    match event {
        WaitEvent::Deadline => true,
        WaitEvent::EndOfMessage(s) => s@ == stream,
        WaitEvent::Disconnected(s) => s@ == stream,
        WaitEvent::Lagged => false,
        WaitEvent::Closed => true,
    }
}

/// The line that the alert log gets for one alert.
pub open spec fn log_line(raw_header: Seq<char>, text: Seq<char>, timestamp: Seq<char>) -> Seq<
    char,
> {
    raw_header + ": "@ + text + " (Received @ "@ + timestamp + ")\n\n"@
}

/// What is known of an alert whose header could not be put into words: the
/// fields that were read from the header, its zones among them, and a note
/// of the failure.
pub open spec fn fallback_model(
    event: Seq<char>,
    locations: Seq<char>,
    originator: Seq<char>,
    fips: Seq<Seq<char>>,
) -> EasAlertModel {
    EasAlertModel {
        eas_text: "Decoder script failed."@,
        event_text: event,
        event_code: event,
        fips,
        locations,
        originator,
    }
}

/// An alert whose header could not be put into words concerns the watched
/// zones exactly when the zones read from its header do.
pub proof fn lemma_fallback_keeps_relevance(
    event: Seq<char>,
    locations: Seq<char>,
    originator: Seq<char>,
    fips: Seq<Seq<char>>,
    watched: Seq<Seq<char>>,
)
    ensures
        relevant(fallback_model(event, locations, originator, fips).fips, watched) == relevant(
            fips,
            watched,
        ),
{
}

/// The relevance of an alert depends on nothing but its zones and the
/// watched zones: two alerts with the same zones are relevant alike.
pub proof fn lemma_relevance_is_a_function(
    a: EasAlertModel,
    b: EasAlertModel,
    watched: Seq<Seq<char>>,
)
    requires
        a.fips == b.fips,
    ensures
        relevant(a.fips, watched) == relevant(b.fips, watched),
{
}

/// The flag files follow the active alerts: the severe file is called for
/// exactly when a severe alert is active, the rainy file exactly when a
/// watch and no severe alert is active.
pub proof fn lemma_flags_follow_alerts(alerts: Seq<AlertModel>)
    ensures
        day_flag(alerts) == DayFlag::Severe <==> any_severe(alerts),
        day_flag(alerts) == DayFlag::Rainy <==> !any_severe(alerts) && any_watch(alerts),
        day_flag(alerts) == DayFlag::Clear <==> !any_severe(alerts) && !any_watch(alerts),
{
}

/// One of the two flag files.
#[derive(Debug, Clone, Copy, PartialEq, Eq, Structural)]
pub enum FlagFile {
    Severe,
    Rainy,
}

/// One step in bringing the flag files up to date. Each step is one
/// operation of the file system, and so is seen by others either not at
/// all or as a whole.
#[derive(Debug, Clone, Copy, PartialEq, Eq, Structural)]
pub enum FlagStep {
    /// Remove the file, which is present.
    Remove(FlagFile),
    /// Create the file, which is absent.
    Create(FlagFile),
    /// Give the first file, which is present, the name of the second.
    Rename(FlagFile, FlagFile),
}

/// Which of the flag files are present.
#[derive(Debug, Clone, Copy, PartialEq, Eq, Structural)]
pub struct FlagFiles {
    pub severe: bool,
    pub rainy: bool,
}

/// The files that a flag calls for.
pub open spec fn files_for(flag: DayFlag) -> FlagFiles {
    FlagFiles { severe: flag == DayFlag::Severe, rainy: flag == DayFlag::Rainy }
}

/// The files with one of them present or absent.
pub open spec fn with_file(files: FlagFiles, file: FlagFile, present: bool) -> FlagFiles {
    match file {
        FlagFile::Severe => FlagFiles { severe: present, ..files },
        FlagFile::Rainy => FlagFiles { rainy: present, ..files },
    }
}

/// The files after one step.
pub open spec fn after_step(files: FlagFiles, step: FlagStep) -> FlagFiles {
    match step {
        FlagStep::Remove(file) => with_file(files, file, false),
        FlagStep::Create(file) => with_file(files, file, true),
        FlagStep::Rename(from, to) => with_file(with_file(files, from, false), to, true),
    }
}

/// The files after a run of steps, first step first.
pub open spec fn after_steps(files: FlagFiles, steps: Seq<FlagStep>) -> FlagFiles
    decreases steps.len(),
{
    if steps.len() == 0 {
        files
    } else {
        after_step(after_steps(files, steps.drop_last()), steps.last())
    }
}

/// The steps that bring the files that are present up to date with a
/// flag. Where the other file is present it is given the wanted name, so
/// that both files change in one step.
pub open spec fn steps_for(prior: FlagFiles, flag: DayFlag) -> Seq<FlagStep> {
    match flag {
        DayFlag::Severe => if prior.severe {
            if prior.rainy {
                seq![FlagStep::Remove(FlagFile::Rainy)]
            } else {
                Seq::empty()
            }
        } else if prior.rainy {
            seq![FlagStep::Rename(FlagFile::Rainy, FlagFile::Severe)]
        } else {
            seq![FlagStep::Create(FlagFile::Severe)]
        },
        DayFlag::Rainy => if prior.rainy {
            if prior.severe {
                seq![FlagStep::Remove(FlagFile::Severe)]
            } else {
                Seq::empty()
            }
        } else if prior.severe {
            seq![FlagStep::Rename(FlagFile::Severe, FlagFile::Rainy)]
        } else {
            seq![FlagStep::Create(FlagFile::Rainy)]
        },
        DayFlag::Clear => (if prior.rainy {
            seq![FlagStep::Remove(FlagFile::Rainy)]
        } else {
            Seq::empty()
        }) + (if prior.severe {
            seq![FlagStep::Remove(FlagFile::Severe)]
        } else {
            Seq::empty()
        }),
    }
}

/// Whatever files were present before, the steps for a flag leave exactly
/// the files that the flag calls for. Where the two files were not both
/// present, there is at most one step: the files change at once, and are
/// never seen both present or in a state that neither the old nor the new
/// flag calls for.
pub proof fn lemma_steps_bring_files_up_to_date(prior: FlagFiles, flag: DayFlag)
    ensures
        after_steps(prior, steps_for(prior, flag)) == files_for(flag),
        !(prior.severe && prior.rainy) ==> steps_for(prior, flag).len() <= 1,
        steps_for(prior, flag).len() <= 2,
        prior == files_for(flag) ==> steps_for(prior, flag).len() == 0,
{
    let steps = steps_for(prior, flag);
    if steps.len() == 1 {
        assert(steps.drop_last().len() == 0);
        assert(after_steps(prior, steps.drop_last()) == prior);
        assert(steps.last() == steps[0]);
    } else if steps.len() == 2 {
        let one = steps.drop_last();
        assert(one.drop_last().len() == 0);
        assert(after_steps(prior, one.drop_last()) == prior);
        assert(one.last() == steps[0]);
        assert(steps.last() == steps[1]);
        assert(after_steps(prior, one) == after_step(prior, steps[0]));
    }
}

/// The flag files after the steps for the active alerts follow the rules:
/// the severe file is present exactly when a severe alert is active, the
/// rainy file exactly when a watch and no severe alert is active, whatever
/// files were present before.
pub proof fn lemma_files_follow_alerts(prior: FlagFiles, alerts: Seq<AlertModel>)
    ensures
        after_steps(prior, steps_for(prior, day_flag(alerts))).severe == any_severe(alerts),
        after_steps(prior, steps_for(prior, day_flag(alerts))).rainy == (!any_severe(alerts)
            && any_watch(alerts)),
        !(after_steps(prior, steps_for(prior, day_flag(alerts))).severe && after_steps(
            prior,
            steps_for(prior, day_flag(alerts)),
        ).rainy),
{
    lemma_steps_bring_files_up_to_date(prior, day_flag(alerts));
}

/// Whether one of the alerts carries exactly the event code.
pub open spec fn any_code(alerts: Seq<AlertModel>, code: Seq<char>) -> bool {
    exists|i: int| 0 <= i < alerts.len() && (#[trigger] alerts[i]).data.event_code == code
}

/// Whether no event code of the alerts has white space at either end.
pub open spec fn plain_codes(alerts: Seq<AlertModel>) -> bool {
    forall|i: int|
        0 <= i < alerts.len() ==> trim((#[trigger] alerts[i]).data.event_code)
            == alerts[i].data.event_code
}

/// For alerts whose event codes carry no white space around them, the
/// severe flag is called for exactly when an alert has the code `SVR`,
/// `TOR` or `TOA`, and the rainy flag exactly when none has and an alert
/// has the code `SVA`.
pub proof fn lemma_flags_for_plain_codes(alerts: Seq<AlertModel>)
    requires
        plain_codes(alerts),
    ensures
        day_flag(alerts) == DayFlag::Severe <==> any_code(alerts, "SVR"@) || any_code(
            alerts,
            "TOR"@,
        ) || any_code(alerts, "TOA"@),
        day_flag(alerts) == DayFlag::Rainy <==> !(any_code(alerts, "SVR"@) || any_code(
            alerts,
            "TOR"@,
        ) || any_code(alerts, "TOA"@)) && any_code(alerts, "SVA"@),
{
    if any_severe(alerts) {
        let i = choose|i: int|
            0 <= i < alerts.len() && is_severe_code((#[trigger] alerts[i]).data.event_code);
        assert(alerts[i].data.event_code == trim(alerts[i].data.event_code));
    }
    if any_watch(alerts) {
        let i = choose|i: int|
            0 <= i < alerts.len() && is_watch_code((#[trigger] alerts[i]).data.event_code);
        assert(alerts[i].data.event_code == trim(alerts[i].data.event_code));
    }
    if any_code(alerts, "SVR"@) {
        let i = choose|i: int|
            0 <= i < alerts.len() && (#[trigger] alerts[i]).data.event_code == "SVR"@;
        assert(is_severe_code(alerts[i].data.event_code));
    }
    if any_code(alerts, "TOR"@) {
        let i = choose|i: int|
            0 <= i < alerts.len() && (#[trigger] alerts[i]).data.event_code == "TOR"@;
        assert(is_severe_code(alerts[i].data.event_code));
    }
    if any_code(alerts, "TOA"@) {
        let i = choose|i: int|
            0 <= i < alerts.len() && (#[trigger] alerts[i]).data.event_code == "TOA"@;
        assert(is_severe_code(alerts[i].data.event_code));
    }
    if any_code(alerts, "SVA"@) {
        let i = choose|i: int|
            0 <= i < alerts.len() && (#[trigger] alerts[i]).data.event_code == "SVA"@;
        assert(is_watch_code(alerts[i].data.event_code));
    }
}

impl DayFlag {
    /// The steps that bring the flag files up to date, given which of
    /// them are present.
    pub fn file_steps(&self, present: FlagFiles) -> (steps: Vec<FlagStep>)
        ensures
            steps@ == steps_for(present, *self),
    {
        let mut steps: Vec<FlagStep> = Vec::new();
        match self {
            DayFlag::Severe => {
                if present.severe {
                    if present.rainy {
                        steps.push(FlagStep::Remove(FlagFile::Rainy));
                    }
                } else if present.rainy {
                    steps.push(FlagStep::Rename(FlagFile::Rainy, FlagFile::Severe));
                } else {
                    steps.push(FlagStep::Create(FlagFile::Severe));
                }
            },
            DayFlag::Rainy => {
                if present.rainy {
                    if present.severe {
                        steps.push(FlagStep::Remove(FlagFile::Severe));
                    }
                } else if present.severe {
                    steps.push(FlagStep::Rename(FlagFile::Severe, FlagFile::Rainy));
                } else {
                    steps.push(FlagStep::Create(FlagFile::Rainy));
                }
            },
            DayFlag::Clear => {
                if present.rainy {
                    steps.push(FlagStep::Remove(FlagFile::Rainy));
                }
                if present.severe {
                    steps.push(FlagStep::Remove(FlagFile::Severe));
                }
            },
        }
        assert(steps@ =~= steps_for(present, *self));
        steps
    }

    /// Whether the severe file is to be present.
    pub fn severe_file(&self) -> (r: bool)
        ensures
            r == (*self == DayFlag::Severe),
    {
        match self {
            DayFlag::Severe => true,
            _ => false,
        }
    }

    /// Whether the rainy file is to be present.
    pub fn rainy_file(&self) -> (r: bool)
        ensures
            r == (*self == DayFlag::Rainy),
    {
        match self {
            DayFlag::Rainy => true,
            _ => false,
        }
    }
}

/// The name of a flag file in the shared-state directory.
pub fn flag_file_name(file: FlagFile) -> (name: &'static str)
    ensures
        name@ == match file {
            FlagFile::Severe => SEVERE_DAY_FILE@,
            FlagFile::Rainy => RAINY_DAY_FILE@,
        },
{
    match file {
        FlagFile::Severe => SEVERE_DAY_FILE,
        FlagFile::Rainy => RAINY_DAY_FILE,
    }
}

/// Tells whether an alert concerns the watched zones.
pub fn is_alert_relevant(alert_data: &EasAlertData, watched_fips: &Vec<String>) -> (r: bool)
    ensures
        r == relevant(alert_data@.fips, views(watched_fips@)),
{
    if watched_fips.len() == 0 {
        return true;
    }
    let all = chars_of("000000");
    let none: Vec<char> = Vec::new();
    if list_contains(watched_fips, &all) || list_contains(watched_fips, &none) {
        assert(none@ =~= Seq::<char>::empty());
        return true;
    }
    assert(none@ =~= Seq::<char>::empty());
    if list_contains(&alert_data.fips, &all) {
        return true;
    }
    let mut i: usize = 0;
    while i < alert_data.fips.len()
        invariant
            i <= alert_data.fips.len(),
            forall|j: int|
                0 <= j < i ==> !views(watched_fips@).contains(#[trigger] alert_data@.fips[j]),
        decreases alert_data.fips.len() - i,
    {
        let zone = chars_of(alert_data.fips[i].as_str());
        assert(zone@ == alert_data@.fips[i as int]);
        if list_contains(watched_fips, &zone) {
            return true;
        }
        i += 1;
    }
    false
}

/// Tells whether an event code, trimmed, is the given one.
fn code_is(code: &Vec<char>, expected: &str) -> (r: bool)
    ensures
        r == (code@ == expected@),
{
    chars_are(code, expected)
}

/// The flag that the active alerts call for.
pub fn day_flag_for(alerts: &Vec<ActiveAlert>) -> (flag: DayFlag)
    ensures
        flag == day_flag(alerts_view(alerts@)),
{
    let ghost model = alerts_view(alerts@);
    let mut severe = false;
    let mut watch = false;
    let mut i: usize = 0;
    while i < alerts.len()
        invariant
            i <= alerts.len(),
            model == alerts_view(alerts@),
            severe == exists|j: int|
                0 <= j < i && is_severe_code((#[trigger] model[j]).data.event_code),
            watch == exists|j: int|
                0 <= j < i && is_watch_code((#[trigger] model[j]).data.event_code),
        decreases alerts.len() - i,
    {
        let raw = chars_of(alerts[i].data.event_code.as_str());
        let code = trim_ws(&raw);
        assert(code@ == trim(model[i as int].data.event_code));
        let s = code_is(&code, "SVR") || code_is(&code, "TOR") || code_is(&code, "TOA");
        let w = code_is(&code, "SVA");
        assert(s == is_severe_code(model[i as int].data.event_code));
        assert(w == is_watch_code(model[i as int].data.event_code));
        if s {
            severe = true;
        }
        if w {
            watch = true;
        }
        i += 1;
    }
    if severe {
        DayFlag::Severe
    } else if watch {
        DayFlag::Rainy
    } else {
        DayFlag::Clear
    }
}

/// What is known of an alert whose header could not be put into words:
/// the event code, the locations, the originator and the zone codes that
/// were read from the header, and a note of the failure.
pub fn fallback_alert_data(
    event: String,
    locations: String,
    originator: String,
    fips: Vec<String>,
) -> (d: EasAlertData)
    ensures
        d@ == fallback_model(event@, locations@, originator@, views(fips@)),
        d@.fips == views(fips@),
{
    EasAlertData {
        eas_text: "Decoder script failed.".to_owned(),
        event_text: event.clone(),
        event_code: event,
        fips,
        locations,
        originator,
    }
}

/// What is known of the alert that a tone alone announced.
pub open spec fn tone_alert_model(stream: Seq<char>, raw_header: Seq<char>) -> EasAlertModel {
    EasAlertModel {
        eas_text: "Detected 1050 Hz NOAA Weather Radio tone on stream "@ + stream + "."@,
        event_text: "1050"@,
        event_code: header_event_code(raw_header),
        fips: seq!["000000"@],
        locations: "Unknown"@,
        originator: "WXR"@,
    }
}

/// What is known of the alert that a tone on `stream` announced, under
/// the header that its recording was written with: an alert for every
/// zone, from the weather service, without words of its own.
pub fn tone_alert_data(stream: &str, raw_header: &str) -> (d: EasAlertData)
    ensures
        d@ == tone_alert_model(stream@, raw_header@),
{
    let mut text: Vec<char> = Vec::new();
    extend_str(&mut text, "Detected 1050 Hz NOAA Weather Radio tone on stream ");
    extend_str(&mut text, stream);
    extend_str(&mut text, ".");
    assert(text@ =~= "Detected 1050 Hz NOAA Weather Radio tone on stream "@ + stream@ + "."@);
    let mut fips: Vec<String> = Vec::new();
    fips.push("000000".to_owned());
    let d = EasAlertData {
        eas_text: string_of(&text),
        event_text: "1050".to_owned(),
        event_code: tone_event_code(raw_header),
        fips,
        locations: "Unknown".to_owned(),
        originator: "WXR".to_owned(),
    };
    assert(d@.fips =~= seq!["000000"@]);
    d
}

/// The text that stands for the words of an alert when the header could
/// not be put into words: a note of the failure and its cause.
pub fn decoder_failure_text(cause: &str) -> (r: String)
    ensures
        r@ == "Decoder script failed: "@ + cause@,
{
    let mut out: Vec<char> = Vec::new();
    extend_str(&mut out, "Decoder script failed: ");
    extend_str(&mut out, cause);
    assert(out@ =~= "Decoder script failed: "@ + cause@);
    string_of(&out)
}

/// The line that the alert log gets for one alert: the raw header, the
/// words of the alert, and the local time of receipt, then an empty line.
pub fn alert_log_line(raw_header: &str, eas_text: &str, timestamp: &str) -> (r: String)
    ensures
        r@ == log_line(raw_header@, eas_text@, timestamp@),
{
    let mut out: Vec<char> = Vec::new();
    extend_str(&mut out, raw_header);
    extend_str(&mut out, ": ");
    extend_str(&mut out, eas_text);
    extend_str(&mut out, " (Received @ ");
    extend_str(&mut out, timestamp);
    extend_str(&mut out, ")\n\n");
    assert(out@ =~= log_line(raw_header@, eas_text@, timestamp@));
    string_of(&out)
}

/// Takes in an alert that has just been received. An alert that concerns
/// the watched zones is inserted among the active alerts; any other alert
/// leaves the state as it is. Tells whether the alert was inserted.
pub fn receive_alert(
    state: &mut AppState,
    watched_fips: &Vec<String>,
    alert: ActiveAlert,
    now: i64,
) -> (accepted: bool)
    ensures
        accepted == relevant(alert@.data.fips, views(watched_fips@)),
        final(state)@.filters == old(state)@.filters,
        final(state)@.active_alerts == if accepted {
            inserted(old(state)@.active_alerts, alert@, now as int)
        } else {
            old(state)@.active_alerts
        },
{
    if is_alert_relevant(&alert.data, watched_fips) {
        state.insert_alert(alert, now);
        true
    } else {
        false
    }
}

/// Decides who is told of an alert once its recording is complete.
pub fn plan_dispatch(
    filters: &[FilterRule],
    event_code: &str,
    relay_enabled: bool,
    has_recording: bool,
) -> (plan: DispatchPlan)
    ensures
        plan == dispatch_for(
            action_of(rules_view(filters@), event_code@),
            relay_enabled,
            has_recording,
        ),
{
    match evaluate_action(filters, event_code) {
        FilterAction::Ignore => DispatchPlan { notify: false, relay: false },
        FilterAction::Log => DispatchPlan { notify: true, relay: false },
        FilterAction::Forward => DispatchPlan { notify: true, relay: false },
        FilterAction::Relay => DispatchPlan { notify: true, relay: relay_enabled && has_recording },
    }
}

/// Tells whether an event ends the wait for the end of the recording on
/// `stream_id`: the time limit, an end of message on that stream, the
/// disconnection of that stream, or the loss of the announcements.
pub fn wait_is_over(event: &WaitEvent, stream_id: &str) -> (r: bool)
    ensures
        r == ends_wait(*event, stream_id@),
{
    match event {
        WaitEvent::Deadline => true,
        WaitEvent::EndOfMessage(s) => {
            let a = chars_of(s.as_str());
            chars_are(&a, stream_id)
        },
        WaitEvent::Disconnected(s) => {
            let a = chars_of(s.as_str());
            chars_are(&a, stream_id)
        },
        WaitEvent::Lagged => false,
        WaitEvent::Closed => true,
    }
}

} // verus!
