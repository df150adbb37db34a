//! The set of active alerts and the filter list that travel with it.
//!
//! Times are whole seconds since the Unix epoch. An alert is identified by
//! its raw header: the set never holds two alerts with the same one.

use crate::filter::{rules_view, EventCodeMatcher, FilterRule, RuleModel};
use crate::text::views;
use vstd::prelude::*;

verus! {

/// What is known of one alert once its header has been read.
#[derive(Debug, Clone)]
pub struct EasAlertData {
    pub eas_text: String,
    pub event_text: String,
    pub event_code: String,
    pub fips: Vec<String>,
    pub locations: String,
    pub originator: String,
}

/// An alert that has been received and has not yet been evicted.
#[derive(Debug, Clone)]
pub struct ActiveAlert {
    pub data: EasAlertData,
    pub raw_header: String,
    pub received_at: i64,
    pub expires_at: i64,
    pub purge_time: u64,
}

/// The active alerts, oldest first, and the filter list in force.
pub struct AppState {
    pub active_alerts: Vec<ActiveAlert>,
    pub filters: Vec<FilterRule>,
}

/// The model of `EasAlertData`.
pub struct EasAlertModel {
    pub eas_text: Seq<char>,
    pub event_text: Seq<char>,
    pub event_code: Seq<char>,
    pub fips: Seq<Seq<char>>,
    pub locations: Seq<char>,
    pub originator: Seq<char>,
}

/// The model of `ActiveAlert`.
pub struct AlertModel {
    pub data: EasAlertModel,
    pub raw_header: Seq<char>,
    pub received_at: int,
    pub expires_at: int,
    pub purge_time: nat,
}

/// The model of `AppState`.
pub struct AppModel {
    pub active_alerts: Seq<AlertModel>,
    pub filters: Seq<RuleModel>,
}

impl View for EasAlertData {
    type V = EasAlertModel;

    open spec fn view(&self) -> EasAlertModel {
        EasAlertModel {
            eas_text: self.eas_text@,
            event_text: self.event_text@,
            event_code: self.event_code@,
            fips: views(self.fips@),
            locations: self.locations@,
            originator: self.originator@,
        }
    }
}

impl View for ActiveAlert {
    type V = AlertModel;

    open spec fn view(&self) -> AlertModel {
        AlertModel {
            data: self.data@,
            raw_header: self.raw_header@,
            received_at: self.received_at as int,
            expires_at: self.expires_at as int,
            purge_time: self.purge_time as nat,
        }
    }
}

impl View for AppState {
    type V = AppModel;

    open spec fn view(&self) -> AppModel {
        AppModel {
            active_alerts: alerts_view(self.active_alerts@),
            filters: rules_view(self.filters@),
        }
    }
}

/// The models of a list of alerts.
pub open spec fn alerts_view(alerts: Seq<ActiveAlert>) -> Seq<AlertModel> {
    alerts.map_values(|a: ActiveAlert| a@)
}

/// Whether an alert survives an eviction at time `now`: it must not have
/// expired, and, where a header is given, must not carry that header.
pub open spec fn stays(a: AlertModel, now: int, header: Option<Seq<char>>) -> bool {
    a.expires_at > now && (header is Some ==> a.raw_header != header->0)
}

/// The alerts that survive an eviction, in their order.
pub open spec fn kept(alerts: Seq<AlertModel>, now: int, header: Option<Seq<char>>) -> Seq<
    AlertModel,
>
    decreases alerts.len(),
{
    if alerts.len() == 0 {
        Seq::empty()
    } else {
        let rest = kept(alerts.drop_last(), now, header);
        if stays(alerts.last(), now, header) {
            rest.push(alerts.last())
        } else {
            rest
        }
    }
}

/// The alerts left by a sweep at time `now`: those that expire later.
pub open spec fn swept(alerts: Seq<AlertModel>, now: int) -> Seq<AlertModel> {
    kept(alerts, now, None)
}

/// The alerts after `alert` has been inserted at time `now`: those that
/// expire later and carry another header, followed by `alert`.
pub open spec fn inserted(alerts: Seq<AlertModel>, alert: AlertModel, now: int) -> Seq<
    AlertModel,
> {
    kept(alerts, now, Some(alert.raw_header)).push(alert)
}

/// No two alerts carry the same raw header.
pub open spec fn distinct_headers(alerts: Seq<AlertModel>) -> bool {
    forall|i: int, j: int|
        0 <= i < j < alerts.len() ==> (#[trigger] alerts[i]).raw_header != (
        #[trigger] alerts[j]).raw_header
}

/// Every alert expires after `now`.
pub open spec fn all_live(alerts: Seq<AlertModel>, now: int) -> bool {
    forall|i: int| 0 <= i < alerts.len() ==> (#[trigger] alerts[i]).expires_at > now
}

/// Whether some alert carries the header.
pub open spec fn has_header(alerts: Seq<AlertModel>, header: Seq<char>) -> bool {
    exists|i: int| 0 <= i < alerts.len() && (#[trigger] alerts[i]).raw_header == header
}

/// Every alert that survives an eviction was there before, satisfies the
/// condition to stay, and the survivors keep their order.
pub proof fn lemma_kept_members(alerts: Seq<AlertModel>, now: int, header: Option<Seq<char>>)
    ensures
        kept(alerts, now, header).len() <= alerts.len(),
        forall|i: int|
            0 <= i < kept(alerts, now, header).len() ==> stays(
                #[trigger] kept(alerts, now, header)[i],
                now,
                header,
            ),
        forall|i: int|
            0 <= i < kept(alerts, now, header).len() ==> alerts.contains(
                #[trigger] kept(alerts, now, header)[i],
            ),
        distinct_headers(alerts) ==> distinct_headers(kept(alerts, now, header)),
    decreases alerts.len(),
{
    if alerts.len() > 0 {
        let front = alerts.drop_last();
        let rest = kept(front, now, header);
        lemma_kept_members(front, now, header);
        let k = kept(alerts, now, header);
        assert forall|i: int| 0 <= i < k.len() implies alerts.contains(#[trigger] k[i]) by {
            if i < rest.len() {
                assert(front.contains(rest[i]));
                let j = choose|j: int| 0 <= j < front.len() && front[j] == rest[i];
                assert(alerts[j] == rest[i]);
            } else {
                assert(k[i] == alerts.last());
                assert(alerts[alerts.len() - 1] == k[i]);
            }
        }
        if distinct_headers(alerts) {
            assert(distinct_headers(front)) by {
                assert forall|i: int, j: int| 0 <= i < j < front.len() implies (
                #[trigger] front[i]).raw_header != (#[trigger] front[j]).raw_header by {
                    assert(front[i] == alerts[i]);
                    assert(front[j] == alerts[j]);
                }
            }
            assert forall|i: int, j: int| 0 <= i < j < k.len() implies (#[trigger] k[i]).raw_header
                != (#[trigger] k[j]).raw_header by {
                if j < rest.len() {
                    assert(k[i] == rest[i]);
                    assert(k[j] == rest[j]);
                } else {
                    assert(k[j] == alerts.last());
                    assert(k[i] == rest[i]);
                    assert(front.contains(rest[i]));
                    let m = choose|m: int| 0 <= m < front.len() && front[m] == rest[i];
                    assert(alerts[m] == rest[i]);
                    assert(alerts[alerts.len() - 1] == alerts.last());
                }
            }
        }
    }
}

/// An eviction that removes an alert leaves fewer alerts than there were.
pub proof fn lemma_kept_drops(alerts: Seq<AlertModel>, now: int, header: Option<Seq<char>>)
    requires
        exists|i: int| 0 <= i < alerts.len() && !stays(#[trigger] alerts[i], now, header),
    ensures
        kept(alerts, now, header).len() < alerts.len(),
    decreases alerts.len(),
{
    let i = choose|i: int| 0 <= i < alerts.len() && !stays(#[trigger] alerts[i], now, header);
    let front = alerts.drop_last();
    lemma_kept_members(front, now, header);
    if i < alerts.len() - 1 {
        assert(front[i] == alerts[i]);
        lemma_kept_drops(front, now, header);
    }
}

/// After a sweep every active alert expires later than the time of the
/// sweep, none has been added, and the headers stay distinct.
pub proof fn lemma_sweep_leaves_live(alerts: Seq<AlertModel>, now: int)
    ensures
        all_live(swept(alerts, now), now),
        swept(alerts, now).len() <= alerts.len(),
        distinct_headers(alerts) ==> distinct_headers(swept(alerts, now)),
{
    lemma_kept_members(alerts, now, None);
}

/// After an insertion no two active alerts share a raw header, whatever the
/// alert that was inserted, and every alert but the inserted one expires
/// later than the time of the insertion.
pub proof fn lemma_insert_keeps_distinct(alerts: Seq<AlertModel>, alert: AlertModel, now: int)
    requires
        distinct_headers(alerts),
    ensures
        distinct_headers(inserted(alerts, alert, now)),
        forall|i: int|
            0 <= i < inserted(alerts, alert, now).len() - 1 ==> (#[trigger] inserted(
                alerts,
                alert,
                now,
            )[i]).expires_at > now,
        inserted(alerts, alert, now).last() == alert,
{
    let header = Some(alert.raw_header);
    lemma_kept_members(alerts, now, header);
    let k = kept(alerts, now, header);
    let a = inserted(alerts, alert, now);
    assert forall|i: int, j: int| 0 <= i < j < a.len() implies (#[trigger] a[i]).raw_header != (
    #[trigger] a[j]).raw_header by {
        assert(a[i] == k[i]);
        assert(stays(k[i], now, header));
        if j < k.len() {
            assert(a[j] == k[j]);
        }
    }
    assert forall|i: int| 0 <= i < a.len() - 1 implies (#[trigger] a[i]).expires_at > now by {
        assert(a[i] == k[i]);
        assert(stays(k[i], now, header));
    }
}

/// Inserting an alert whose raw header is already active does not increase
/// the number of active alerts: the earlier entry is replaced, and the entry
/// that stays carries the new time of receipt.
pub proof fn lemma_reinsert_keeps_count(alerts: Seq<AlertModel>, alert: AlertModel, now: int)
    requires
        has_header(alerts, alert.raw_header),
    ensures
        inserted(alerts, alert, now).len() <= alerts.len(),
        inserted(alerts, alert, now).last().received_at == alert.received_at,
{
    let header = Some(alert.raw_header);
    let i = choose|i: int| 0 <= i < alerts.len() && (#[trigger] alerts[i]).raw_header == alert.raw_header;
    assert(!stays(alerts[i], now, header));
    lemma_kept_drops(alerts, now, header);
}

/// An eviction that finds nothing to remove leaves the alerts as they are.
pub proof fn lemma_kept_all(alerts: Seq<AlertModel>, now: int, header: Option<Seq<char>>)
    requires
        forall|i: int| 0 <= i < alerts.len() ==> stays(#[trigger] alerts[i], now, header),
    ensures
        kept(alerts, now, header) == alerts,
    decreases alerts.len(),
{
    if alerts.len() > 0 {
        let front = alerts.drop_last();
        assert forall|i: int| 0 <= i < front.len() implies stays(
            #[trigger] front[i],
            now,
            header,
        ) by {
            assert(front[i] == alerts[i]);
        }
        lemma_kept_all(front, now, header);
        assert(stays(alerts[alerts.len() - 1], now, header));
        assert(front.push(alerts.last()) =~= alerts);
    } else {
        assert(kept(alerts, now, header) =~= alerts);
    }
}

/// Where no alert has expired and no two share a header, evicting a header
/// that is active removes exactly one alert.
pub proof fn lemma_kept_drops_one(alerts: Seq<AlertModel>, now: int, header: Seq<char>)
    requires
        distinct_headers(alerts),
        all_live(alerts, now),
        has_header(alerts, header),
    ensures
        kept(alerts, now, Some(header)).len() == alerts.len() - 1,
    decreases alerts.len(),
{
    let w = choose|w: int| 0 <= w < alerts.len() && (#[trigger] alerts[w]).raw_header == header;
    let front = alerts.drop_last();
    let last = alerts[alerts.len() - 1];
    assert forall|i: int, j: int| 0 <= i < j < front.len() implies (#[trigger] front[i]).raw_header
        != (#[trigger] front[j]).raw_header by {
        assert(front[i] == alerts[i]);
        assert(front[j] == alerts[j]);
    }
    assert forall|i: int| 0 <= i < front.len() implies (#[trigger] front[i]).expires_at > now by {
        assert(front[i] == alerts[i]);
    }
    if last.raw_header == header {
        assert forall|i: int| 0 <= i < front.len() implies stays(
            #[trigger] front[i],
            now,
            Some(header),
        ) by {
            assert(front[i] == alerts[i]);
            assert(alerts[i].raw_header != alerts[alerts.len() - 1].raw_header);
        }
        lemma_kept_all(front, now, Some(header));
    } else {
        assert(front[w] == alerts[w]);
        lemma_kept_drops_one(front, now, header);
        assert(stays(last, now, Some(header)));
    }
}

/// Renewing an alert: where no alert has expired and no two share a
/// header, inserting an alert whose header is active leaves the number of
/// active alerts as it was. Exactly one entry then carries the header: the
/// inserted one, with its time of receipt and its time of expiry.
pub proof fn lemma_renewal_keeps_count(alerts: Seq<AlertModel>, alert: AlertModel, now: int)
    requires
        distinct_headers(alerts),
        all_live(alerts, now),
        has_header(alerts, alert.raw_header),
    ensures
        inserted(alerts, alert, now).len() == alerts.len(),
        inserted(alerts, alert, now).last() == alert,
        forall|i: int|
            0 <= i < inserted(alerts, alert, now).len() - 1 ==> (#[trigger] inserted(
                alerts,
                alert,
                now,
            )[i]).raw_header != alert.raw_header,
{
    let header = Some(alert.raw_header);
    lemma_kept_drops_one(alerts, now, alert.raw_header);
    lemma_kept_members(alerts, now, header);
    let k = kept(alerts, now, header);
    let a = inserted(alerts, alert, now);
    assert forall|i: int| 0 <= i < a.len() - 1 implies (#[trigger] a[i]).raw_header
        != alert.raw_header by {
        assert(a[i] == k[i]);
        assert(stays(k[i], now, header));
    }
}

/// Delivering the same raw header twice leaves as many active alerts as
/// delivering it once, and the second time of receipt is the one that stays.
pub proof fn lemma_redelivery(
    alerts: Seq<AlertModel>,
    first: AlertModel,
    again: AlertModel,
    t1: int,
    t2: int,
)
    requires
        first.raw_header == again.raw_header,
    ensures
        inserted(inserted(alerts, first, t1), again, t2).len() <= inserted(alerts, first, t1).len(),
        inserted(inserted(alerts, first, t1), again, t2).last().received_at == again.received_at,
{
    let once = inserted(alerts, first, t1);
    assert(once[once.len() - 1].raw_header == again.raw_header);
    lemma_reinsert_keeps_count(once, again, t2);
}

/// Removes from `alerts` every alert that has expired at `now` and, where a
/// header is given, every alert that carries it. Returns how many left.
fn evict(alerts: &mut Vec<ActiveAlert>, now: i64, header: Option<&String>) -> (removed: usize)
    ensures
        alerts_view(final(alerts)@) == kept(
            alerts_view(old(alerts)@),
            now as int,
            match header {
                Some(h) => Some(h@),
                None => None,
            },
        ),
        removed == old(alerts)@.len() - final(alerts)@.len(),
{
    let ghost before = alerts_view(alerts@);
    let ghost h: Option<Seq<char>> = match header {
        Some(x) => Some(x@),
        None => None,
    };
    let ghost mut k: int = 0;
    let mut i: usize = 0;
    let mut removed: usize = 0;
    let n0: usize = alerts.len();
    proof {
        assert(before.take(0) =~= Seq::<AlertModel>::empty());
        assert(before.skip(0) =~= before);
        assert(Seq::<AlertModel>::empty() + before =~= before);
    }
    while i < alerts.len()
        invariant
            0 <= k <= before.len(),
            i <= alerts.len(),
            before == alerts_view(old(alerts)@),
            h == match header {
                Some(x) => Some(x@),
                None => None,
            },
            alerts_view(alerts@) == kept(before.take(k), now as int, h) + before.skip(k),
            i == kept(before.take(k), now as int, h).len(),
            removed + alerts.len() == before.len(),
            n0 == before.len(),
        decreases alerts.len() - i,
    {
        let ghost cur = alerts_view(alerts@);
        let ghost done = kept(before.take(k), now as int, h);
        proof {
            assert(cur[i as int] == before.skip(k)[0]);
            assert(cur[i as int] == alerts@[i as int]@);
            let t = before.take(k + 1);
            assert(t.drop_last() =~= before.take(k));
            assert(t.last() == before[k]);
        }
        let same = match header {
            Some(x) => alerts[i].raw_header == *x,
            None => false,
        };
        let stay = alerts[i].expires_at > now && !same;
        assert(stay == stays(before[k], now as int, h));
        if stay {
            proof {
                assert(done.push(before[k]) + before.skip(k + 1) =~= done + before.skip(k));
            }
            i += 1;
        } else {
            alerts.remove(i);
            removed += 1;
            proof {
                assert(alerts_view(alerts@) =~= cur.remove(i as int));
                assert(cur.remove(i as int) =~= done + before.skip(k + 1));
            }
        }
        proof {
            k = k + 1;
        }
    }
    proof {
        assert(before.skip(k).len() == 0);
        assert(before.take(k) =~= before);
        assert(kept(before, now as int, h) + before.skip(k) =~= kept(before, now as int, h));
    }
    removed
}

/// A copy of a matcher.
fn copy_matcher(m: &EventCodeMatcher) -> (r: EventCodeMatcher)
    ensures
        r@ == m@,
{
    match m {
        EventCodeMatcher::Exact(code) => EventCodeMatcher::Exact(code.clone()),
        EventCodeMatcher::Wildcard => EventCodeMatcher::Wildcard,
    }
}

/// A copy of a rule.
fn copy_rule(rule: &FilterRule) -> (r: FilterRule)
    ensures
        r@ == rule@,
{
    let mut matchers: Vec<EventCodeMatcher> = Vec::new();
    let mut i: usize = 0;
    while i < rule.matchers.len()
        invariant
            i <= rule.matchers.len(),
            matchers@.len() == i,
            forall|j: int| 0 <= j < i ==> matchers@[j]@ == rule.matchers@[j]@,
        decreases rule.matchers.len() - i,
    {
        matchers.push(copy_matcher(&rule.matchers[i]));
        i += 1;
    }
    let r = FilterRule { name: rule.name.clone(), action: rule.action, matchers };
    assert(r@.matchers =~= rule@.matchers);
    r
}

/// A copy of a rule list.
pub fn copy_rules(rules: &Vec<FilterRule>) -> (r: Vec<FilterRule>)
    ensures
        rules_view(r@) == rules_view(rules@),
{
    let mut r: Vec<FilterRule> = Vec::new();
    let mut i: usize = 0;
    while i < rules.len()
        invariant
            i <= rules.len(),
            r@.len() == i,
            forall|j: int| 0 <= j < i ==> r@[j]@ == rules@[j]@,
        decreases rules.len() - i,
    {
        r.push(copy_rule(&rules[i]));
        i += 1;
    }
    assert(rules_view(r@) =~= rules_view(rules@));
    r
}

impl ActiveAlert {
    /// An alert received at `now` that stays active for `purge_time`
    /// seconds.
    pub fn new(data: EasAlertData, raw_header: String, purge_time: u64, now: i64) -> (a: Self)
        requires
            now + purge_time <= i64::MAX,
        ensures
            a.data == data,
            a.raw_header == raw_header,
            a.purge_time == purge_time,
            a.received_at == now,
            a.expires_at == now + purge_time,
            purge_time > 0 ==> a.expires_at > a.received_at,
    {
        let sum: i128 = (now as i128) + (purge_time as i128);
        let expires_at: i64 = sum as i64;
        ActiveAlert { data, raw_header, received_at: now, expires_at, purge_time }
    }
}

impl AppState {
    /// A state without active alerts, under the given filter list.
    pub fn new(filters: Vec<FilterRule>) -> (s: Self)
        ensures
            s@.active_alerts == Seq::<AlertModel>::empty(),
            s@.filters == rules_view(filters@),
    {
        let s = AppState { active_alerts: Vec::new(), filters };
        assert(alerts_view(s.active_alerts@) =~= Seq::<AlertModel>::empty());
        s
    }

    /// A copy of the filter list in force.
    pub fn cloned_filters(&self) -> (r: Vec<FilterRule>)
        ensures
            rules_view(r@) == self@.filters,
    {
        copy_rules(&self.filters)
    }

    /// Puts another filter list in force. The active alerts stay.
    pub fn update_filters(&mut self, filters: Vec<FilterRule>)
        ensures
            final(self)@.filters == rules_view(filters@),
            final(self)@.active_alerts == old(self)@.active_alerts,
    {
        self.filters = filters;
    }

    /// Inserts `alert` at time `now`: evicts every alert that has expired and
    /// every alert with the same raw header, then adds `alert` at the end.
    pub fn insert_alert(&mut self, alert: ActiveAlert, now: i64)
        ensures
            final(self)@.active_alerts == inserted(old(self)@.active_alerts, alert@, now as int),
            final(self)@.filters == old(self)@.filters,
    {
        let ghost am = alert@;
        evict(&mut self.active_alerts, now, Some(&alert.raw_header));
        let ghost mid = alerts_view(self.active_alerts@);
        self.active_alerts.push(alert);
        assert(alerts_view(self.active_alerts@) =~= mid.push(am));
    }

    /// Removes every alert that has expired at `now` and returns how many
    /// were removed.
    pub fn sweep(&mut self, now: i64) -> (removed: usize)
        ensures
            final(self)@.active_alerts == swept(old(self)@.active_alerts, now as int),
            final(self)@.filters == old(self)@.filters,
            removed == old(self)@.active_alerts.len() - final(self)@.active_alerts.len(),
    {
        evict(&mut self.active_alerts, now, None)
    }
}

} // verus!
