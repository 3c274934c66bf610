//! When a resource is due for a refresh.
//!
//! Each kind of resource has its own cadence: teams weekly, stages monthly,
//! fixtures and tables faster around matches, timelines only while a match is
//! live or recent. A forced refresh always runs; a resource never refreshed
//! runs at once.

use vstd::prelude::*;

use crate::domain::time::{in_time_range, nanos_per_second, Timestamp};
use crate::sync::resource::{ResourceKey, ResourceView};

verus! {

#[derive(Clone, Copy, Debug, Eq, PartialEq, Structural)]
pub enum RefreshPolicyReason {
    Forced,
    NeverRefreshed,
    Stale,
    Fresh,
    WaitingForRelevantMatchWindow,
    Immutable,
}

#[derive(Clone, Debug, Eq, PartialEq)]
pub struct RefreshPolicyDecision {
    pub should_refresh: bool,
    pub next_refresh_after: Option<Timestamp>,
    pub reason: RefreshPolicyReason,
}

/// What is known of the tournament's schedule, overall and for the resource
/// at hand.
#[derive(Debug, Eq, PartialEq)]
pub struct ScheduleContext {
    pub tournament_started: bool,
    pub tournament_finished: bool,
    pub next_match_at: Option<Timestamp>,
    pub active_match_window: bool,
    pub resource_next_match_at: Option<Timestamp>,
    pub resource_recent_match_at: Option<Timestamp>,
    pub resource_live: bool,
}

impl Clone for ScheduleContext {
    fn clone(&self) -> (r: Self)
        ensures
            r == *self,
    {
        ScheduleContext {
            tournament_started: self.tournament_started,
            tournament_finished: self.tournament_finished,
            next_match_at: self.next_match_at,
            active_match_window: self.active_match_window,
            resource_next_match_at: self.resource_next_match_at,
            resource_recent_match_at: self.resource_recent_match_at,
            resource_live: self.resource_live,
        }
    }
}

impl Default for ScheduleContext {
    fn default() -> (r: Self)
        ensures
            !r.tournament_started,
            !r.tournament_finished,
            r.next_match_at is None,
            !r.active_match_window,
            r.resource_next_match_at is None,
            r.resource_recent_match_at is None,
            !r.resource_live,
    {
        ScheduleContext {
            tournament_started: false,
            tournament_finished: false,
            next_match_at: None,
            active_match_window: false,
            resource_next_match_at: None,
            resource_recent_match_at: None,
            resource_live: false,
        }
    }
}

#[derive(Debug, Eq, PartialEq)]
pub struct RefreshPolicyInput {
    pub resource: ResourceKey,
    pub now: Timestamp,
    pub last_success_at: Option<Timestamp>,
    pub force: bool,
    pub schedule: ScheduleContext,
}

/// A decision, with its instant in nanoseconds.
pub ghost struct Plan {
    pub refresh: bool,
    pub next: Option<int>,
    pub reason: RefreshPolicyReason,
}

pub open spec fn minute() -> int {
    60
}

pub open spec fn hour() -> int {
    3600
}

pub open spec fn day() -> int {
    86400
}

/// `t` shifted by `seconds`.
pub open spec fn shifted(t: int, seconds: int) -> int {
    t + seconds * nanos_per_second()
}

pub open spec fn plan_of(d: RefreshPolicyDecision) -> Plan {
    Plan {
        refresh: d.should_refresh,
        next: match d.next_refresh_after {
            Some(t) => Some(t@),
            None => None,
        },
        reason: d.reason,
    }
}

pub open spec fn time_of(t: Option<Timestamp>) -> Option<int> {
    match t {
        Some(x) => Some(x@),
        None => None,
    }
}

/// Refresh once `interval` seconds have passed since the last success.
pub open spec fn interval_plan(now: int, last: int, interval: int) -> Plan {
    let next = shifted(last, interval);
    Plan {
        refresh: now >= next,
        next: Some(next),
        reason: if now >= next {
            RefreshPolicyReason::Stale
        } else {
            RefreshPolicyReason::Fresh
        },
    }
}

/// Wait until two hours before `match_at`; from then on, every `interval`.
pub open spec fn pre_match_plan(now: int, last: int, match_at: int, interval: int) -> Plan {
    let pre = shifted(match_at, -2 * hour());
    if now < pre {
        Plan {
            refresh: false,
            next: Some(pre),
            reason: RefreshPolicyReason::WaitingForRelevantMatchWindow,
        }
    } else {
        interval_plan(now, last, interval)
    }
}

pub open spec fn immutable_plan() -> Plan {
    Plan { refresh: false, next: None, reason: RefreshPolicyReason::Immutable }
}

/// The decision for a resource refreshed before, at `last`.
pub open spec fn cadence_plan(
    resource: ResourceView,
    now: int,
    last: int,
    s: ScheduleContext,
) -> Plan {
    match resource {
        ResourceView::Teams => interval_plan(now, last, 7 * day()),
        ResourceView::Stages => interval_plan(now, last, 30 * day()),
        ResourceView::Matches => matches_plan(now, last, s),
        ResourceView::StandingsGroup(_) => standings_plan(now, last, s),
        ResourceView::TopScorers => top_scorers_plan(now, last, s),
        ResourceView::Timeline(_) => timeline_plan(now, last, s),
    }
}

/// Matches: every minute while a match is on; otherwise wait for the two
/// hours before the next match, then every five minutes; with no match
/// ahead, twice a day.
pub open spec fn matches_plan(now: int, last: int, s: ScheduleContext) -> Plan {
    if s.active_match_window {
        interval_plan(now, last, minute())
    } else if s.next_match_at is Some {
        pre_match_plan(now, last, s.next_match_at.unwrap()@, 5 * minute())
    } else {
        interval_plan(now, last, 12 * hour())
    }
}

/// A group's standings: every minute while its match is on, every five
/// minutes after one, from two hours before its next match; nothing once
/// the tournament is over, daily otherwise.
pub open spec fn standings_plan(now: int, last: int, s: ScheduleContext) -> Plan {
    if s.resource_live {
        interval_plan(now, last, minute())
    } else if s.resource_recent_match_at is Some {
        interval_plan(now, last, 5 * minute())
    } else if s.resource_next_match_at is Some {
        pre_match_plan(now, last, s.resource_next_match_at.unwrap()@, 5 * minute())
    } else if s.tournament_finished {
        immutable_plan()
    } else {
        interval_plan(now, last, day())
    }
}

/// Top scorers: every five minutes while a match is on, twice a day
/// otherwise.
pub open spec fn top_scorers_plan(now: int, last: int, s: ScheduleContext) -> Plan {
    if s.active_match_window {
        interval_plan(now, last, 5 * minute())
    } else {
        interval_plan(now, last, 12 * hour())
    }
}

/// A match's timeline: every minute while it is on, every five minutes
/// just after; settled otherwise.
pub open spec fn timeline_plan(now: int, last: int, s: ScheduleContext) -> Plan {
    if s.resource_live {
        interval_plan(now, last, minute())
    } else if s.resource_recent_match_at is Some {
        interval_plan(now, last, 5 * minute())
    } else {
        immutable_plan()
    }
}

/// Every instant a plan's computation consults or returns is representable.
pub open spec fn plan_in_range(p: Plan) -> bool {
    p.next matches Some(n) ==> in_time_range(n)
}

/// The decision the policy makes.
pub open spec fn planned(input: RefreshPolicyInput) -> Plan {
    if input.force {
        Plan { refresh: true, next: None, reason: RefreshPolicyReason::Forced }
    } else if input.last_success_at is None {
        Plan { refresh: true, next: Some(input.now@), reason: RefreshPolicyReason::NeverRefreshed }
    } else {
        cadence_plan(input.resource@, input.now@, input.last_success_at.unwrap()@, input.schedule)
    }
}

/// Every instant the policy computes on the way to its decision lies inside
/// the representable range (the instant two hours before a match, when that
/// match is consulted, and the instant it returns).
pub open spec fn stays_in_range(input: RefreshPolicyInput) -> bool {
    let s = input.schedule;
    let consulted = if input.force || input.last_success_at is None {
        None
    } else {
        match input.resource@ {
            ResourceView::Matches => if !s.active_match_window {
                time_of(s.next_match_at)
            } else {
                None
            },
            ResourceView::StandingsGroup(_) => if !s.resource_live
                && s.resource_recent_match_at is None {
                time_of(s.resource_next_match_at)
            } else {
                None
            },
            _ => None,
        }
    };
    &&& consulted matches Some(m) ==> in_time_range(shifted(m, -2 * hour()))
    &&& planned(input).next matches Some(n) ==> in_time_range(n)
}

fn shift(t: &Timestamp, seconds: i64) -> (r: Timestamp)
    requires
        in_time_range(shifted(t@, seconds as int)),
    ensures
        r@ == shifted(t@, seconds as int),
{
    match t.checked_add_seconds(seconds) {
        Some(r) => r,
        None => {
            assert(false);
            *t
        },
    }
}

fn interval_decision(now: &Timestamp, last: &Timestamp, interval: i64) -> (r: RefreshPolicyDecision)
    requires
        in_time_range(shifted(last@, interval as int)),
    ensures
        plan_of(r) == interval_plan(now@, last@, interval as int),
{
    let next = shift(last, interval);
    let should_refresh = !now.is_before(&next);
    RefreshPolicyDecision {
        should_refresh,
        next_refresh_after: Some(next),
        reason: if should_refresh {
            RefreshPolicyReason::Stale
        } else {
            RefreshPolicyReason::Fresh
        },
    }
}

fn pre_match_decision(now: &Timestamp, last: &Timestamp, match_at: &Timestamp, interval: i64) -> (r:
    RefreshPolicyDecision)
    requires
        in_time_range(shifted(match_at@, -2 * hour())),
        pre_match_plan(now@, last@, match_at@, interval as int).next matches Some(n)
            ==> in_time_range(n),
    ensures
        plan_of(r) == pre_match_plan(now@, last@, match_at@, interval as int),
{
    let pre = shift(match_at, -7200);
    if now.is_before(&pre) {
        RefreshPolicyDecision {
            should_refresh: false,
            next_refresh_after: Some(pre),
            reason: RefreshPolicyReason::WaitingForRelevantMatchWindow,
        }
    } else {
        interval_decision(now, last, interval)
    }
}

fn immutable_decision() -> (r: RefreshPolicyDecision)
    ensures
        plan_of(r) == immutable_plan(),
{
    RefreshPolicyDecision {
        should_refresh: false,
        next_refresh_after: None,
        reason: RefreshPolicyReason::Immutable,
    }
}

/// Decides whether `input.resource` should be refreshed now, and when it is
/// next due.
pub fn decide(input: RefreshPolicyInput) -> (r: RefreshPolicyDecision)
    requires
        stays_in_range(input),
    ensures
        plan_of(r) == planned(input),
{
    if input.force {
        return RefreshPolicyDecision {
            should_refresh: true,
            next_refresh_after: None,
            reason: RefreshPolicyReason::Forced,
        };
    }
    let last = match input.last_success_at {
        Some(t) => t,
        None => {
            return RefreshPolicyDecision {
                should_refresh: true,
                next_refresh_after: Some(input.now),
                reason: RefreshPolicyReason::NeverRefreshed,
            };
        },
    };
    let now = input.now;
    let s = &input.schedule;
    match &input.resource {
        ResourceKey::Teams => interval_decision(&now, &last, 7 * 86400),
        ResourceKey::Stages => interval_decision(&now, &last, 30 * 86400),
        ResourceKey::Matches => matches_policy(&now, &last, s),
        ResourceKey::StandingsGroup(_) => standings_policy(&now, &last, s),
        ResourceKey::TopScorers => top_scorers_policy(&now, &last, s),
        ResourceKey::Timeline(_) => timeline_policy(&now, &last, s),
    }
}

fn matches_policy(now: &Timestamp, last: &Timestamp, s: &ScheduleContext) -> (r: RefreshPolicyDecision)
    requires
        !s.active_match_window && s.next_match_at is Some ==> in_time_range(
            shifted(s.next_match_at.unwrap()@, -2 * hour()),
        ),
        plan_in_range(matches_plan(now@, last@, *s)),
    ensures
        plan_of(r) == matches_plan(now@, last@, *s),
{
    if s.active_match_window {
        interval_decision(now, last, 60)
    } else if let Some(m) = &s.next_match_at {
        pre_match_decision(now, last, m, 300)
    } else {
        interval_decision(now, last, 12 * 3600)
    }
}

fn standings_policy(now: &Timestamp, last: &Timestamp, s: &ScheduleContext) -> (r: RefreshPolicyDecision)
    requires
        !s.resource_live && s.resource_recent_match_at is None && s.resource_next_match_at is Some
            ==> in_time_range(shifted(s.resource_next_match_at.unwrap()@, -2 * hour())),
        plan_in_range(standings_plan(now@, last@, *s)),
    ensures
        plan_of(r) == standings_plan(now@, last@, *s),
{
    if s.resource_live {
        interval_decision(now, last, 60)
    } else if s.resource_recent_match_at.is_some() {
        interval_decision(now, last, 300)
    } else if let Some(m) = &s.resource_next_match_at {
        pre_match_decision(now, last, m, 300)
    } else if s.tournament_finished {
        immutable_decision()
    } else {
        interval_decision(now, last, 86400)
    }
}

fn top_scorers_policy(now: &Timestamp, last: &Timestamp, s: &ScheduleContext) -> (r: RefreshPolicyDecision)
    requires
        plan_in_range(top_scorers_plan(now@, last@, *s)),
    ensures
        plan_of(r) == top_scorers_plan(now@, last@, *s),
{
    if s.active_match_window {
        interval_decision(now, last, 300)
    } else {
        interval_decision(now, last, 12 * 3600)
    }
}

fn timeline_policy(now: &Timestamp, last: &Timestamp, s: &ScheduleContext) -> (r: RefreshPolicyDecision)
    requires
        plan_in_range(timeline_plan(now@, last@, *s)),
    ensures
        plan_of(r) == timeline_plan(now@, last@, *s),
{
    if s.resource_live {
        interval_decision(now, last, 60)
    } else if s.resource_recent_match_at.is_some() {
        interval_decision(now, last, 300)
    } else {
        immutable_decision()
    }
}

fn fits(t: &Timestamp, seconds: i64) -> (r: bool)
    ensures
        r == in_time_range(shifted(t@, seconds as int)),
{
    t.checked_add_seconds(seconds).is_some()
}

fn pre_match_fits(now: &Timestamp, last: &Timestamp, match_at: &Timestamp, interval: i64) -> (r: bool)
    ensures
        r == (in_time_range(shifted(match_at@, -2 * hour())) && plan_in_range(
            pre_match_plan(now@, last@, match_at@, interval as int),
        )),
{
    match match_at.checked_add_seconds(-7200) {
        None => false,
        Some(pre) => {
            if now.is_before(&pre) {
                true
            } else {
                fits(last, interval)
            }
        },
    }
}

/// Whether every instant the policy would compute for `input` is
/// representable, so that `decide` may be asked.
pub fn policy_stays_in_range(input: &RefreshPolicyInput) -> (r: bool)
    ensures
        r == stays_in_range(*input),
{
    let _ = input.now.as_nanosecond();
    if input.force {
        return true;
    }
    let last = match &input.last_success_at {
        Some(t) => t,
        None => {
            return true;
        },
    };
    let now = &input.now;
    let s = &input.schedule;
    match &input.resource {
        ResourceKey::Teams => fits(last, 7 * 86400),
        ResourceKey::Stages => fits(last, 30 * 86400),
        ResourceKey::Matches => {
            if s.active_match_window {
                fits(last, 60)
            } else if let Some(m) = &s.next_match_at {
                pre_match_fits(now, last, m, 300)
            } else {
                fits(last, 12 * 3600)
            }
        },
        ResourceKey::StandingsGroup(_) => {
            if s.resource_live {
                fits(last, 60)
            } else if s.resource_recent_match_at.is_some() {
                fits(last, 300)
            } else if let Some(m) = &s.resource_next_match_at {
                pre_match_fits(now, last, m, 300)
            } else if s.tournament_finished {
                true
            } else {
                fits(last, 86400)
            }
        },
        ResourceKey::TopScorers => {
            if s.active_match_window {
                fits(last, 300)
            } else {
                fits(last, 12 * 3600)
            }
        },
        ResourceKey::Timeline(_) => {
            if s.resource_live {
                fits(last, 60)
            } else if s.resource_recent_match_at.is_some() {
                fits(last, 300)
            } else {
                true
            }
        },
    }
}

/// When a resource that has just been refreshed successfully is next due.
pub fn next_after_success(resource: &ResourceKey, now: Timestamp, schedule: &ScheduleContext) -> (r:
    Option<Timestamp>)
    requires
        stays_in_range(
            RefreshPolicyInput {
                resource: *resource,
                now,
                last_success_at: Some(now),
                force: false,
                schedule: *schedule,
            },
        ),
    ensures
        time_of(r) == cadence_plan(resource@, now@, now@, *schedule).next,
{
    let input = RefreshPolicyInput {
        resource: resource.clone(),
        now,
        last_success_at: Some(now),
        force: false,
        schedule: schedule.clone(),
    };
    decide(input).next_refresh_after
}

/// A refresh that is asked for by force always runs, and a resource that has
/// never been refreshed always runs; otherwise the policy refreshes exactly
/// when the instant it names has been reached.
pub proof fn refresh_is_due_exactly_at_its_next_instant(input: RefreshPolicyInput)
    ensures
        input.force ==> planned(input).refresh,
        input.last_success_at is None ==> planned(input).refresh,
        !input.force && input.last_success_at is Some ==> (planned(input).refresh <==> (
        planned(input).next matches Some(n) && input.now@ >= n)),
{
}

/// A resource that was refreshed successfully is never due again before the
/// next refresh instant the policy gives for it, and that instant never
/// precedes the success.
pub proof fn success_postpones_the_next_refresh(resource: ResourceView, now: int, s: ScheduleContext)
    ensures
        !cadence_plan(resource, now, now, s).refresh ==> cadence_plan(resource, now, now, s).reason
            != RefreshPolicyReason::Stale,
        cadence_plan(resource, now, now, s).next matches Some(n) ==> n >= now || (
        cadence_plan(resource, now, now, s).reason
            == RefreshPolicyReason::WaitingForRelevantMatchWindow && n > now),
{
}

/// Whether plan `p` refreshes every `seconds` after the last success at
/// `last`: due from that instant on, stale once it has passed, fresh before.
pub open spec fn refreshes_every(p: Plan, now: int, last: int, seconds: int) -> bool {
    let next = last + seconds * 1_000_000_000;
    &&& p.next == Some(next)
    &&& p.refresh == (now >= next)
    &&& p.reason == (if now >= next {
        RefreshPolicyReason::Stale
    } else {
        RefreshPolicyReason::Fresh
    })
}

/// Whether plan `p` waits for the window that opens two hours before the
/// match at `match_at`, and inside it refreshes every `seconds`.
pub open spec fn waits_for_match_window(p: Plan, now: int, last: int, match_at: int, seconds: int) -> bool {
    let opens = match_at - 7200 * 1_000_000_000;
    &&& now < opens ==> p == Plan {
        refresh: false,
        next: Some(opens),
        reason: RefreshPolicyReason::WaitingForRelevantMatchWindow,
    }
    &&& now >= opens ==> refreshes_every(p, now, last, seconds)
}

/// A forced refresh always runs and names no next instant; a resource never
/// refreshed before runs now.
pub proof fn forced_and_first_refreshes_run(input: RefreshPolicyInput)
    ensures
        input.force ==> planned(input) == (Plan { refresh: true, next: None, reason: RefreshPolicyReason::Forced }),
        !input.force && input.last_success_at is None ==> planned(input) == (Plan {
            refresh: true,
            next: Some(input.now@),
            reason: RefreshPolicyReason::NeverRefreshed,
        }),
{
}

/// How often each resource is refreshed once it has been refreshed before:
/// teams weekly, stages monthly; matches every minute while a match is on,
/// else every five minutes from two hours before the next match, else twice
/// a day; a group's standings every minute while its match is on, every five
/// minutes just after one, every five minutes from two hours before its next
/// match, never again once the tournament is over, else daily; top scorers
/// every five minutes while a match is on, else twice a day; a match's
/// timeline every minute while it is on, every five minutes just after, and
/// never again otherwise.
pub proof fn refresh_cadences(input: RefreshPolicyInput)
    requires
        !input.force,
        input.last_success_at is Some,
    ensures
        ({
            let p = planned(input);
            let now = input.now@;
            let last = input.last_success_at->0@;
            let s = input.schedule;
            &&& input.resource@ is Teams ==> refreshes_every(p, now, last, 604800)
            &&& input.resource@ is Stages ==> refreshes_every(p, now, last, 2592000)
            &&& input.resource@ is Matches ==> {
                &&& s.active_match_window ==> refreshes_every(p, now, last, 60)
                &&& !s.active_match_window && s.next_match_at is Some ==> waits_for_match_window(
                    p,
                    now,
                    last,
                    s.next_match_at->0@,
                    300,
                )
                &&& !s.active_match_window && s.next_match_at is None ==> refreshes_every(p, now, last, 43200)
            }
            &&& input.resource@ is StandingsGroup ==> {
                &&& s.resource_live ==> refreshes_every(p, now, last, 60)
                &&& !s.resource_live && s.resource_recent_match_at is Some ==> refreshes_every(p, now, last, 300)
                &&& !s.resource_live && s.resource_recent_match_at is None && s.resource_next_match_at is Some
                    ==> waits_for_match_window(p, now, last, s.resource_next_match_at->0@, 300)
                &&& !s.resource_live && s.resource_recent_match_at is None && s.resource_next_match_at is None
                    && s.tournament_finished ==> p == (Plan {
                    refresh: false,
                    next: None,
                    reason: RefreshPolicyReason::Immutable,
                })
                &&& !s.resource_live && s.resource_recent_match_at is None && s.resource_next_match_at is None
                    && !s.tournament_finished ==> refreshes_every(p, now, last, 86400)
            }
            &&& input.resource@ is TopScorers ==> {
                &&& s.active_match_window ==> refreshes_every(p, now, last, 300)
                &&& !s.active_match_window ==> refreshes_every(p, now, last, 43200)
            }
            &&& input.resource@ is Timeline ==> {
                &&& s.resource_live ==> refreshes_every(p, now, last, 60)
                &&& !s.resource_live && s.resource_recent_match_at is Some ==> refreshes_every(p, now, last, 300)
                &&& !s.resource_live && s.resource_recent_match_at is None ==> p == (Plan {
                    refresh: false,
                    next: None,
                    reason: RefreshPolicyReason::Immutable,
                })
            }
        }),
{
}

} // verus!
