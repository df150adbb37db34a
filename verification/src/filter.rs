//! Event-code filters: an ordered list of rules, each mapping a set of event
//! codes to an action. The first rule that accepts a code decides; a code
//! that no rule accepts is relayed under the name "Default Filter".

use crate::text::{
    chars_are, chars_of, lemma_trim_upper, lemma_upper_absorbs, lower_seq, string_of, to_lower,
    to_upper, trim, trim_ws, upper_seq,
};
use vstd::prelude::*;

verus! {

/// What is done with an alert whose event code a rule accepts.
#[derive(Debug, Clone, Copy, PartialEq, Eq, Structural)]
pub enum FilterAction {
    Ignore,
    Relay,
    Log,
    Forward,
}

/// One pattern of a rule: a single normalized event code, or any code.
#[derive(Debug, Clone)]
pub enum EventCodeMatcher {
    Exact(String),
    Wildcard,
}

/// A named rule. It accepts a code when one of its matchers does.
#[derive(Debug, Clone)]
pub struct FilterRule {
    pub name: String,
    pub action: FilterAction,
    pub matchers: Vec<EventCodeMatcher>,
}

/// One entry of the filter list as the configuration document holds it,
/// before validation. A field that is absent, or of the wrong kind, is
/// `None`; so is an event code that is not a string.
#[derive(Debug, Clone)]
pub struct RawFilter {
    pub name: Option<String>,
    pub event_codes: Option<Vec<Option<String>>>,
    pub action: Option<String>,
}

/// The model of a matcher.
pub enum MatcherModel {
    Exact(Seq<char>),
    Wildcard,
}

/// The model of a rule.
pub struct RuleModel {
    pub name: Seq<char>,
    pub action: FilterAction,
    pub matchers: Seq<MatcherModel>,
}

/// The model of an unvalidated filter entry.
pub struct RawFilterModel {
    pub name: Option<Seq<char>>,
    pub event_codes: Option<Seq<Option<Seq<char>>>>,
    pub action: Option<Seq<char>>,
}

impl View for EventCodeMatcher {
    type V = MatcherModel;

    open spec fn view(&self) -> MatcherModel {
        match self {
            EventCodeMatcher::Exact(code) => MatcherModel::Exact(code@),
            EventCodeMatcher::Wildcard => MatcherModel::Wildcard,
        }
    }
}

impl View for FilterRule {
    type V = RuleModel;

    open spec fn view(&self) -> RuleModel {
        RuleModel {
            name: self.name@,
            action: self.action,
            matchers: self.matchers@.map_values(|m: EventCodeMatcher| m@),
        }
    }
}

/// The model of an optional string.
pub open spec fn opt_view(s: Option<String>) -> Option<Seq<char>> {
    match s {
        Some(x) => Some(x@),
        None => None,
    }
}

impl View for RawFilter {
    type V = RawFilterModel;

    open spec fn view(&self) -> RawFilterModel {
        RawFilterModel {
            name: opt_view(self.name),
            event_codes: match self.event_codes {
                Some(codes) => Some(codes@.map_values(|c: Option<String>| opt_view(c))),
                None => None,
            },
            action: opt_view(self.action),
        }
    }
}

/// The models of a list of rules.
pub open spec fn rules_view(rules: Seq<FilterRule>) -> Seq<RuleModel> {
    rules.map_values(|r: FilterRule| r@)
}

/// The models of a list of unvalidated entries.
pub open spec fn raw_filters_view(entries: Seq<RawFilter>) -> Seq<RawFilterModel> {
    entries.map_values(|e: RawFilter| e@)
}

/// The normal form of an event code: trimmed, ASCII letters in upper case.
pub open spec fn normalize(code: Seq<char>) -> Seq<char> {
    upper_seq(trim(code))
}

/// Whether a matcher accepts a normalized code.
pub open spec fn matcher_accepts(m: MatcherModel, normalized: Seq<char>) -> bool {
    match m {
        MatcherModel::Wildcard => true,
        MatcherModel::Exact(expected) => expected == normalized,
    }
}

/// Whether a rule accepts a normalized code.
pub open spec fn rule_accepts(rule: RuleModel, normalized: Seq<char>) -> bool {
    exists|i: int|
        0 <= i < rule.matchers.len() && matcher_accepts(#[trigger] rule.matchers[i], normalized)
}

/// The index of the first rule that accepts a normalized code, or the number
/// of rules where none does.
pub open spec fn first_match(rules: Seq<RuleModel>, normalized: Seq<char>) -> nat
    decreases rules.len(),
{
    if rules.len() == 0 || rule_accepts(rules[0], normalized) {
        0
    } else {
        1 + first_match(rules.drop_first(), normalized)
    }
}

/// The index of the rule that decides on an event code, if any does.
pub open spec fn matched_index(rules: Seq<RuleModel>, code: Seq<char>) -> Option<int> {
    let i = first_match(rules, normalize(code));
    if i < rules.len() {
        Some(i as int)
    } else {
        None
    }
}

/// The action for an event code: that of the deciding rule, or `Relay`.
pub open spec fn action_of(rules: Seq<RuleModel>, code: Seq<char>) -> FilterAction {
    match matched_index(rules, code) {
        Some(i) => rules[i].action,
        None => FilterAction::Relay,
    }
}

/// The name of the rule that decides on an event code, or "Default Filter".
pub open spec fn filter_name_of(rules: Seq<RuleModel>, code: Seq<char>) -> Seq<char> {
    match matched_index(rules, code) {
        Some(i) => rules[i].name,
        None => "Default Filter"@,
    }
}

/// The action that a piece of configuration text names; text that names none
/// stands for `Relay`.
pub open spec fn action_from_text(action: Seq<char>) -> FilterAction {
    let a = lower_seq(trim(action));
    if a == "ignore"@ {
        FilterAction::Ignore
    } else if a == "relay"@ {
        FilterAction::Relay
    } else if a == "log"@ {
        FilterAction::Log
    } else if a == "forward"@ {
        FilterAction::Forward
    } else {
        FilterAction::Relay
    }
}

/// The matcher that one configured event code stands for, if any: `*` is the
/// wildcard, blank text and values that are not strings stand for nothing.
pub open spec fn matcher_from(code: Option<Seq<char>>) -> Option<MatcherModel> {
    match code {
        None => None,
        Some(pattern) => {
            let t = trim(pattern);
            if t == "*"@ {
                Some(MatcherModel::Wildcard)
            } else if t.len() > 0 {
                Some(MatcherModel::Exact(normalize(t)))
            } else {
                None
            }
        },
    }
}

/// The matchers that a list of configured event codes stands for, in order.
pub open spec fn matchers_from(codes: Seq<Option<Seq<char>>>) -> Seq<MatcherModel>
    decreases codes.len(),
{
    if codes.len() == 0 {
        Seq::empty()
    } else {
        let rest = matchers_from(codes.drop_last());
        match matcher_from(codes.last()) {
            Some(m) => rest.push(m),
            None => rest,
        }
    }
}

/// The rule that one configured entry stands for, if it is usable: it needs
/// a name, a list of event codes, and at least one usable code among them.
/// An entry without an action relays.
pub open spec fn rule_from(entry: RawFilterModel) -> Option<RuleModel> {
    if entry.name is None || entry.event_codes is None {
        None
    } else {
        let matchers = matchers_from(entry.event_codes->0);
        if matchers.len() == 0 {
            None
        } else {
            Some(
                RuleModel {
                    name: trim(entry.name->0),
                    action: match entry.action {
                        Some(a) => action_from_text(a),
                        None => FilterAction::Relay,
                    },
                    matchers,
                },
            )
        }
    }
}

/// The rules that a configured list stands for: its usable entries, in order.
pub open spec fn rules_from(entries: Seq<RawFilterModel>) -> Seq<RuleModel>
    decreases entries.len(),
{
    if entries.len() == 0 {
        Seq::empty()
    } else {
        let rest = rules_from(entries.drop_last());
        match rule_from(entries.last()) {
            Some(r) => rest.push(r),
            None => rest,
        }
    }
}

/// Whether the action lets the alert be logged: `Log` and `Relay` do.
pub open spec fn action_logs(a: FilterAction) -> bool {
    a == FilterAction::Log || a == FilterAction::Relay
}

/// Whether the action forwards the alert as a notification only.
pub open spec fn action_forwards(a: FilterAction) -> bool {
    a == FilterAction::Forward
}

/// Whether the action hands the recording on downstream: only `Relay` does.
pub open spec fn action_relays(a: FilterAction) -> bool {
    a == FilterAction::Relay
}

/// `first_match` is the least index of an accepting rule, or the length.
pub proof fn lemma_first_match(rules: Seq<RuleModel>, normalized: Seq<char>, i: int)
    requires
        0 <= i <= rules.len(),
        forall|j: int| 0 <= j < i ==> !rule_accepts(#[trigger] rules[j], normalized),
        i < rules.len() ==> rule_accepts(rules[i], normalized),
    ensures
        first_match(rules, normalized) == i,
    decreases i,
{
    if i > 0 {
        let t = rules.drop_first();
        assert forall|j: int| 0 <= j < i - 1 implies !rule_accepts(
            #[trigger] t[j],
            normalized,
        ) by {
            assert(t[j] == rules[j + 1]);
        }
        assert(!rule_accepts(rules[0], normalized));
        if i - 1 < t.len() {
            assert(t[i - 1] == rules[i]);
        }
        lemma_first_match(t, normalized, i - 1);
    }
}

/// The normal form of an event code does not depend on the case of its
/// ASCII letters.
pub proof fn lemma_normalize_ignores_case(a: Seq<char>, b: Seq<char>)
    requires
        upper_seq(a) == upper_seq(b),
    ensures
        normalize(a) == normalize(b),
{
    lemma_trim_upper(a);
    lemma_trim_upper(b);
}

/// Two spellings of an event code that differ only in the case of ASCII
/// letters are decided by the same rule, and so get the same action and the
/// same filter name.
pub proof fn lemma_match_ignores_case(rules: Seq<RuleModel>, a: Seq<char>, b: Seq<char>)
    requires
        upper_seq(a) == upper_seq(b),
    ensures
        matched_index(rules, a) == matched_index(rules, b),
        action_of(rules, a) == action_of(rules, b),
        filter_name_of(rules, a) == filter_name_of(rules, b),
{
    lemma_normalize_ignores_case(a, b);
}

/// An event code, its upper-case and its lower-case spelling are decided by
/// the same rule.
pub proof fn lemma_match_stable_under_case(rules: Seq<RuleModel>, code: Seq<char>)
    ensures
        matched_index(rules, upper_seq(code)) == matched_index(rules, code),
        matched_index(rules, lower_seq(code)) == matched_index(rules, code),
{
    lemma_upper_absorbs(code);
    lemma_match_ignores_case(rules, upper_seq(code), code);
    lemma_match_ignores_case(rules, lower_seq(code), code);
}

impl FilterRule {
    /// Tells whether one of the rule's matchers accepts a normalized code.
    pub fn matches(&self, normalized_code: &str) -> (r: bool)
        ensures
            r == rule_accepts(self@, normalized_code@),
    {
        let code = chars_of(normalized_code);
        let mut i: usize = 0;
        while i < self.matchers.len()
            invariant
                i <= self.matchers.len(),
                code@ == normalized_code@,
                forall|j: int|
                    0 <= j < i ==> !matcher_accepts(#[trigger] self@.matchers[j], code@),
            decreases self.matchers.len() - i,
        {
            let hit = match &self.matchers[i] {
                EventCodeMatcher::Wildcard => true,
                EventCodeMatcher::Exact(expected) => chars_are(&code, expected.as_str()),
            };
            assert(hit == matcher_accepts(self@.matchers[i as int], code@));
            if hit {
                return true;
            }
            i += 1;
        }
        false
    }
}

/// The normal form of an event code: trimmed, ASCII letters in upper case.
pub fn normalize_event_code(code: &str) -> (r: String)
    ensures
        r@ == normalize(code@),
{
    let v = chars_of(code);
    let t = trim_ws(&v);
    let u = to_upper(&t);
    string_of(&u)
}

/// Reads an action from configuration text. Case and surrounding white
/// space do not matter; text that names no action stands for `Relay`.
pub fn parse_action(action: &str) -> (r: FilterAction)
    ensures
        r == action_from_text(action@),
{
    let v = chars_of(action);
    let t = trim_ws(&v);
    let a = to_lower(&t);
    if chars_are(&a, "ignore") {
        FilterAction::Ignore
    } else if chars_are(&a, "relay") {
        FilterAction::Relay
    } else if chars_are(&a, "log") {
        FilterAction::Log
    } else if chars_are(&a, "forward") {
        FilterAction::Forward
    } else {
        FilterAction::Relay
    }
}

/// Reads the matchers of one entry from its configured event codes.
fn parse_matchers(codes: &Vec<Option<String>>) -> (r: Vec<EventCodeMatcher>)
    ensures
        r@.map_values(|m: EventCodeMatcher| m@) == matchers_from(
            codes@.map_values(|c: Option<String>| opt_view(c)),
        ),
{
    let ghost model = codes@.map_values(|c: Option<String>| opt_view(c));
    let mut r: Vec<EventCodeMatcher> = Vec::new();
    let mut i: usize = 0;
    assert(model.take(0) =~= Seq::<Option<Seq<char>>>::empty());
    assert(r@.map_values(|m: EventCodeMatcher| m@) =~= Seq::<MatcherModel>::empty());
    while i < codes.len()
        invariant
            i <= codes.len(),
            model == codes@.map_values(|c: Option<String>| opt_view(c)),
            r@.map_values(|m: EventCodeMatcher| m@) == matchers_from(model.take(i as int)),
        decreases codes.len() - i,
    {
        let ghost before = r@.map_values(|m: EventCodeMatcher| m@);
        proof {
            let t = model.take(i + 1);
            assert(t.drop_last() =~= model.take(i as int));
            assert(t.last() == opt_view(codes@[i as int]));
        }
        match &codes[i] {
            Some(pattern) => {
                let v = chars_of(pattern.as_str());
                let t = trim_ws(&v);
                if chars_are(&t, "*") {
                    r.push(EventCodeMatcher::Wildcard);
                    assert(r@.map_values(|m: EventCodeMatcher| m@) =~= before.push(
                        MatcherModel::Wildcard,
                    ));
                } else if t.len() > 0 {
                    let inner = trim_ws(&t);
                    let u = to_upper(&inner);
                    let code = string_of(&u);
                    r.push(EventCodeMatcher::Exact(code));
                    assert(r@.map_values(|m: EventCodeMatcher| m@) =~= before.push(
                        MatcherModel::Exact(normalize(t@)),
                    ));
                }
            },
            None => {},
        }
        i += 1;
    }
    assert(model.take(codes.len() as int) =~= model);
    r
}

/// Reads one rule from a configured entry, where the entry is usable.
fn parse_rule(entry: &RawFilter) -> (r: Option<FilterRule>)
    ensures
        match r {
            Some(rule) => rule_from(entry@) == Some(rule@),
            None => rule_from(entry@) is None,
        },
{
    let name = match &entry.name {
        Some(n) => n,
        None => {
            return None;
        },
    };
    let codes = match &entry.event_codes {
        Some(c) => c,
        None => {
            return None;
        },
    };
    let matchers = parse_matchers(codes);
    if matchers.len() == 0 {
        return None;
    }
    let action = match &entry.action {
        Some(a) => parse_action(a.as_str()),
        None => FilterAction::Relay,
    };
    let v = chars_of(name.as_str());
    let t = trim_ws(&v);
    Some(FilterRule { name: string_of(&t), action, matchers })
}

/// Builds the rule list from the configured entries: the usable entries, in
/// the order in which they were configured.
pub fn parse_filters(entries: &Vec<RawFilter>) -> (filters: Vec<FilterRule>)
    ensures
        rules_view(filters@) == rules_from(raw_filters_view(entries@)),
{
    let ghost model = raw_filters_view(entries@);
    let mut filters: Vec<FilterRule> = Vec::new();
    let mut i: usize = 0;
    assert(model.take(0) =~= Seq::<RawFilterModel>::empty());
    assert(rules_view(filters@) =~= Seq::<RuleModel>::empty());
    while i < entries.len()
        invariant
            i <= entries.len(),
            model == raw_filters_view(entries@),
            rules_view(filters@) == rules_from(model.take(i as int)),
        decreases entries.len() - i,
    {
        let ghost before = rules_view(filters@);
        proof {
            let t = model.take(i + 1);
            assert(t.drop_last() =~= model.take(i as int));
            assert(t.last() == entries@[i as int]@);
        }
        match parse_rule(&entries[i]) {
            Some(rule) => {
                let ghost rm = rule@;
                filters.push(rule);
                assert(rules_view(filters@) =~= before.push(rm));
            },
            None => {},
        }
        i += 1;
    }
    assert(model.take(entries.len() as int) =~= model);
    filters
}

/// Replaces the rule list in `table` by `filters`.
pub fn install_filters(table: &mut Vec<FilterRule>, filters: Vec<FilterRule>)
    ensures
        *final(table) == filters,
{
    *table = filters;
}

/// The rule that decides on an event code: the first one, in list order,
/// that accepts the normalized code.
pub fn match_filter<'a>(filters: &'a [FilterRule], event_code: &str) -> (r: Option<
    &'a FilterRule,
>)
    ensures
        match matched_index(rules_view(filters@), event_code@) {
            Some(i) => r == Some(&filters@[i]),
            None => r is None,
        },
{
    let normalized = normalize_event_code(event_code);
    let ghost rules = rules_view(filters@);
    let mut i: usize = 0;
    while i < filters.len()
        invariant
            i <= filters.len(),
            rules == rules_view(filters@),
            normalized@ == normalize(event_code@),
            forall|j: int| 0 <= j < i ==> !rule_accepts(#[trigger] rules[j], normalized@),
        decreases filters.len() - i,
    {
        if filters[i].matches(normalized.as_str()) {
            proof {
                assert(rules[i as int] == filters@[i as int]@);
                lemma_first_match(rules, normalized@, i as int);
            }
            return Some(&filters[i]);
        }
        assert(rules[i as int] == filters@[i as int]@);
        i += 1;
    }
    proof {
        lemma_first_match(rules, normalized@, i as int);
    }
    None
}

/// The action for an event code: that of the deciding rule, or `Relay`
/// where no rule accepts the code.
pub fn evaluate_action(filters: &[FilterRule], event_code: &str) -> (r: FilterAction)
    ensures
        r == action_of(rules_view(filters@), event_code@),
{
    match match_filter(filters, event_code) {
        Some(rule) => rule.action,
        None => FilterAction::Relay,
    }
}

/// The name of the rule that decides on an event code, or "Default Filter"
/// where no rule accepts the code.
pub fn determine_filter_name(filters: &[FilterRule], event_code: &str) -> (r: String)
    ensures
        r@ == filter_name_of(rules_view(filters@), event_code@),
{
    match match_filter(filters, event_code) {
        Some(rule) => rule.name.clone(),
        None => "Default Filter".to_owned(),
    }
}

/// Tells whether the recording of an alert with this event code is handed on
/// downstream: only where the action is `Relay`.
pub fn should_relay_alert(filters: &[FilterRule], event_code: &str) -> (r: bool)
    ensures
        r == action_relays(action_of(rules_view(filters@), event_code@)),
{
    match evaluate_action(filters, event_code) {
        FilterAction::Relay => true,
        _ => false,
    }
}

/// Tells whether an alert with this event code is logged: where the action
/// is `Log` or `Relay`.
pub fn should_log_alert(filters: &[FilterRule], event_code: &str) -> (r: bool)
    ensures
        r == action_logs(action_of(rules_view(filters@), event_code@)),
{
    match evaluate_action(filters, event_code) {
        FilterAction::Log => true,
        FilterAction::Relay => true,
        _ => false,
    }
}

/// Tells whether an alert with this event code is forwarded as a
/// notification only: where the action is `Forward`.
pub fn should_forward_alert(filters: &[FilterRule], event_code: &str) -> (r: bool)
    ensures
        r == action_forwards(action_of(rules_view(filters@), event_code@)),
{
    match evaluate_action(filters, event_code) {
        FilterAction::Forward => true,
        _ => false,
    }
}

} // verus!
