//! Coordination of refresh requests.
//!
//! Refreshes run in the background, one task per resource. The coordinator
//! decides, for each resource of a request, whether to start it: a resource
//! already being refreshed is not started again (deduplicated), one that was
//! started or found offline less than ten seconds ago is cooling down, and one
//! that needs the network is skipped while the network is unreachable. The
//! tasks themselves, and the network check, run outside the library; this
//! state machine is told the time, the network check's outcome and which
//! tasks have finished.

use vstd::prelude::*;

use crate::sync::resource::{needs_network, ResourceKey, ResourceView};

verus! {

/// How long a started (or offline) resource is held back from being started
/// again, in nanoseconds of the monotonic clock.
pub const COOLDOWN_NANOS: u64 = 10_000_000_000;

#[derive(Clone, Copy, Debug, Eq, PartialEq, Structural)]
pub enum RefreshReason {
    Startup,
    Manual,
    ScreenEnter,
    Policy,
}

#[derive(Debug, Eq, PartialEq)]
pub struct RefreshRequest {
    pub resources: Vec<ResourceKey>,
    pub reason: RefreshReason,
    pub force: bool,
}

impl RefreshRequest {
    /// A forced request from the user.
    pub fn manual(resources: Vec<ResourceKey>) -> (r: Self)
        ensures
            r.resources == resources,
            r.reason == RefreshReason::Manual,
            r.force,
    {
        RefreshRequest { resources, reason: RefreshReason::Manual, force: true }
    }
}

/// What the refresh machinery reports about a resource.
#[derive(Debug, Eq, PartialEq)]
pub enum RefreshEvent {
    Started { resource: ResourceKey },
    Deduped { resource: ResourceKey },
    Cooldown { resource: ResourceKey },
    Succeeded { resource: ResourceKey, at: String },
    Failed { resource: ResourceKey, error: String },
    Offline { resource: ResourceKey, error: String },
}

/// One thing the coordinator asks its host to do, in order: report an event,
/// or run the refresh of a resource.
#[derive(Debug)]
pub enum CoordinatorStep {
    Emit(RefreshEvent),
    Run(ResourceKey),
}

/// The steps, with resources and texts taken as values.
pub ghost enum StepView {
    Started(ResourceView),
    Deduped(ResourceView),
    Cooldown(ResourceView),
    Offline(ResourceView, Seq<char>),
    Run(ResourceView),
    Other,
}

pub open spec fn step_view(s: CoordinatorStep) -> StepView {
    match s {
        CoordinatorStep::Emit(RefreshEvent::Started { resource }) => StepView::Started(resource@),
        CoordinatorStep::Emit(RefreshEvent::Deduped { resource }) => StepView::Deduped(resource@),
        CoordinatorStep::Emit(RefreshEvent::Cooldown { resource }) => StepView::Cooldown(resource@),
        CoordinatorStep::Emit(RefreshEvent::Offline { resource, error }) => StepView::Offline(
            resource@,
            error@,
        ),
        CoordinatorStep::Run(resource) => StepView::Run(resource@),
        _ => StepView::Other,
    }
}

/// The coordinator's knowledge: which resources are being refreshed, and
/// until when each resource cools down.
pub ghost struct CoordinatorView {
    pub in_flight: spec_fn(ResourceView) -> bool,
    pub cooldown_until: spec_fn(ResourceView) -> Option<u64>,
}

/// What the coordinator does with one resource of a request, given the
/// monotonic time `now` and the network check's error, if any.
pub open spec fn step_one(
    v: CoordinatorView,
    r: ResourceView,
    now: u64,
    network_error: Option<Seq<char>>,
) -> (CoordinatorView, Seq<StepView>) {
    if (v.in_flight)(r) {
        (v, seq![StepView::Deduped(r)])
    } else if (v.cooldown_until)(r) matches Some(until) && until > now {
        (v, seq![StepView::Cooldown(r)])
    } else if needs_network(r) && network_error is Some {
        (
            CoordinatorView {
                in_flight: v.in_flight,
                cooldown_until: |x: ResourceView|
                    if x == r {
                        Some((now + COOLDOWN_NANOS) as u64)
                    } else {
                        (v.cooldown_until)(x)
                    },
            },
            seq![StepView::Offline(r, network_error.unwrap())],
        )
    } else {
        (
            CoordinatorView {
                in_flight: |x: ResourceView| x == r || (v.in_flight)(x),
                cooldown_until: |x: ResourceView|
                    if x == r {
                        Some((now + COOLDOWN_NANOS) as u64)
                    } else {
                        (v.cooldown_until)(x)
                    },
            },
            seq![StepView::Started(r), StepView::Run(r)],
        )
    }
}

/// What the coordinator does with the resources of a request, in order.
pub open spec fn process(
    v: CoordinatorView,
    rs: Seq<ResourceView>,
    now: u64,
    network_error: Option<Seq<char>>,
) -> (CoordinatorView, Seq<StepView>)
    decreases rs.len(),
{
    if rs.len() == 0 {
        (v, Seq::empty())
    } else {
        let (v1, out1) = process(v, rs.drop_last(), now, network_error);
        let (v2, out2) = step_one(v1, rs.last(), now, network_error);
        (v2, out1 + out2)
    }
}

pub open spec fn key_views(s: Seq<ResourceKey>) -> Seq<ResourceView> {
    s.map_values(|k: ResourceKey| k@)
}

/// First cooldown entry for `r`, if any.
pub open spec fn lookup(s: Seq<(ResourceKey, u64)>, r: ResourceView) -> Option<u64>
    decreases s.len(),
{
    if s.len() == 0 {
        None
    } else if s[0].0@ == r {
        Some(s[0].1)
    } else {
        lookup(s.drop_first(), r)
    }
}

pub open spec fn error_view(e: Option<String>) -> Option<Seq<char>> {
    match e {
        Some(s) => Some(s@),
        None => None,
    }
}

/// The refresh coordinator's decision state.
pub struct CoordinatorState {
    in_flight: Vec<ResourceKey>,
    cooldown_until: Vec<(ResourceKey, u64)>,
}

impl CoordinatorState {
    pub closed spec fn view(&self) -> CoordinatorView {
        CoordinatorView {
            in_flight: |x: ResourceView| key_views(self.in_flight@).contains(x),
            cooldown_until: |x: ResourceView| lookup(self.cooldown_until@, x),
        }
    }

    /// No resource is recorded as in flight twice.
    pub closed spec fn wf(&self) -> bool {
        forall|i: int, j: int|
            0 <= i < j < self.in_flight@.len() ==> self.in_flight@[i]@ != self.in_flight@[j]@
    }

    /// Nothing in flight, nothing cooling down.
    pub fn new() -> (r: Self)
        ensures
            r.wf(),
            forall|x: ResourceView| !#[trigger] (r.view().in_flight)(x),
            forall|x: ResourceView| #[trigger] (r.view().cooldown_until)(x) is None,
    {
        CoordinatorState { in_flight: Vec::new(), cooldown_until: Vec::new() }
    }

    /// Whether the host should check the network before handing `request`
    /// over: it should when some resource of it needs the network.
    pub fn request_needs_network(request: &RefreshRequest) -> (r: bool)
        ensures
            r == exists|i: int|
                0 <= i < request.resources@.len() && needs_network(
                    #[trigger] request.resources@[i]@,
                ),
    {
        let mut i: usize = 0;
        while i < request.resources.len()
            invariant
                i <= request.resources@.len(),
                forall|j: int| 0 <= j < i ==> !needs_network(#[trigger] request.resources@[j]@),
            decreases request.resources@.len() - i,
        {
            if request.resources[i].requires_network() {
                return true;
            }
            i = i + 1;
        }
        false
    }

    fn in_flight_index(&self, r: &ResourceKey) -> (res: Option<usize>)
        ensures
            res matches Some(i) ==> i < self.in_flight@.len() && self.in_flight@[i as int]@ == r@,
            res is None ==> !key_views(self.in_flight@).contains(r@),
    {
        let mut i: usize = 0;
        while i < self.in_flight.len()
            invariant
                i <= self.in_flight@.len(),
                forall|j: int| 0 <= j < i ==> self.in_flight@[j]@ != r@,
            decreases self.in_flight@.len() - i,
        {
            if self.in_flight[i] == *r {
                return Some(i);
            }
            i = i + 1;
        }
        assert(!key_views(self.in_flight@).contains(r@)) by {
            if key_views(self.in_flight@).contains(r@) {
                let j = choose|j: int|
                    0 <= j < self.in_flight@.len() && #[trigger] key_views(self.in_flight@)[j] == r@;
                assert(self.in_flight@[j]@ != r@);
            }
        }
        None
    }

    fn cooldown_index(&self, r: &ResourceKey) -> (res: Option<usize>)
        ensures
            res matches Some(i) ==> i < self.cooldown_until@.len() && self.cooldown_until@[i as int].0@
                == r@ && lookup(self.cooldown_until@, r@) == Some(self.cooldown_until@[i as int].1)
                && forall|j: int| 0 <= j < i ==> self.cooldown_until@[j].0@ != r@,
            res is None ==> lookup(self.cooldown_until@, r@) is None,
    {
        let mut i: usize = 0;
        assert(self.cooldown_until@.skip(0) =~= self.cooldown_until@);
        while i < self.cooldown_until.len()
            invariant
                i <= self.cooldown_until@.len(),
                forall|j: int| 0 <= j < i ==> self.cooldown_until@[j].0@ != r@,
                lookup(self.cooldown_until@, r@) == lookup(self.cooldown_until@.skip(i as int), r@),
            decreases self.cooldown_until@.len() - i,
        {
            if self.cooldown_until[i].0 == *r {
                return Some(i);
            }
            assert(self.cooldown_until@.skip(i as int).drop_first() =~= self.cooldown_until@.skip(
                i + 1,
            ));
            i = i + 1;
        }
        None
    }

    fn set_cooldown(&mut self, r: &ResourceKey, until: u64)
        ensures
            final(self).in_flight == old(self).in_flight,
            forall|x: ResourceView|
                #[trigger] lookup(final(self).cooldown_until@, x) == if x == r@ {
                    Some(until)
                } else {
                    lookup(old(self).cooldown_until@, x)
                },
    {
        match self.cooldown_index(r) {
            Some(i) => {
                let ghost before = self.cooldown_until@;
                let k = r.clone();
                let ghost kg = k;
                self.cooldown_until.set(i, (k, until));
                proof {
                    assert forall|x: ResourceView|
                        #[trigger] lookup(self.cooldown_until@, x) == if x == r@ {
                            Some(until)
                        } else {
                            lookup(before, x)
                        } by {
                        lemma_lookup_update(before, i as int, kg, until, x);
                    }
                }
            },
            None => {
                let ghost before = self.cooldown_until@;
                let k = r.clone();
                let ghost kg = k;
                self.cooldown_until.push((k, until));
                proof {
                    assert forall|x: ResourceView|
                        #[trigger] lookup(self.cooldown_until@, x) == if x == r@ {
                            Some(until)
                        } else {
                            lookup(before, x)
                        } by {
                        lemma_lookup_push(before, kg, until, x);
                    }
                }
            },
        }
    }
    /// Handles a request: for each of its resources in order, reports it as
    /// deduplicated, cooling down, offline or started, and asks for the
    /// started ones to be run. `now` is the monotonic time of the request and
    /// `network_error` the outcome of the host's network check.
    pub fn handle_request(
        &mut self,
        request: RefreshRequest,
        now: u64,
        network_error: Option<String>,
    ) -> (steps: Vec<CoordinatorStep>)
        requires
            old(self).wf(),
            now + COOLDOWN_NANOS <= u64::MAX,
        ensures
            final(self).wf(),
            same_view(
                final(self).view(),
                process(
                    old(self).view(),
                    key_views(request.resources@),
                    now,
                    error_view(network_error),
                ).0,
            ),
            steps@.map_values(|s: CoordinatorStep| step_view(s)) == process(
                old(self).view(),
                key_views(request.resources@),
                now,
                error_view(network_error),
            ).1,
    {
        let ghost v0 = self.view();
        let ghost rs = key_views(request.resources@);
        let ghost err = error_view(network_error);
        let mut steps: Vec<CoordinatorStep> = Vec::new();
        let until = now + COOLDOWN_NANOS;
        let mut i: usize = 0;
        assert(rs.take(0) =~= Seq::<ResourceView>::empty());
        while i < request.resources.len()
            invariant
                i <= request.resources@.len(),
                rs == key_views(request.resources@),
                err == error_view(network_error),
                until == now + COOLDOWN_NANOS,
                self.wf(),
                same_view(self.view(), process(v0, rs.take(i as int), now, err).0),
                steps@.map_values(|s: CoordinatorStep| step_view(s)) == process(
                    v0,
                    rs.take(i as int),
                    now,
                    err,
                ).1,
            decreases request.resources@.len() - i,
        {
            let ghost before_steps = steps@;
            let ghost vi = process(v0, rs.take(i as int), now, err).0;
            let r = request.resources[i].clone();
            let ghost rv = r@;
            assert(rs.take(i + 1).drop_last() =~= rs.take(i as int));
            assert(rs.take(i + 1).last() == rv);
            let ghost (v_next, out_next) = step_one(vi, rv, now, err);
            proof {
                assert((self.view().in_flight)(rv) == (vi.in_flight)(rv));
                assert((self.view().cooldown_until)(rv) == (vi.cooldown_until)(rv));
            }
            match self.in_flight_index(&r) {
                Some(k) => {
                    assert(key_views(self.in_flight@)[k as int] == rv);
                    assert((vi.in_flight)(rv));
                    assert(out_next == seq![StepView::Deduped(rv)]);
                    assert(v_next == vi);
                    steps.push(CoordinatorStep::Emit(RefreshEvent::Deduped { resource: r }));
                },
                None => {
                    let cooling = match self.cooldown_index(&r) {
                        Some(j) => self.cooldown_until[j].1 > now,
                        None => false,
                    };
                    assert(!(vi.in_flight)(rv));
                    assert(cooling == ((vi.cooldown_until)(rv) matches Some(u) && u > now));
                    if cooling {
                        assert(out_next == seq![StepView::Cooldown(rv)]);
                        assert(v_next == vi);
                        steps.push(CoordinatorStep::Emit(RefreshEvent::Cooldown { resource: r }));
                    } else if r.requires_network() && network_error.is_some() {
                        let error = match &network_error {
                            Some(e) => e.clone(),
                            None => String::new(),
                        };
                        let ghost old_view = self.view();
                        self.set_cooldown(&r, until);
                        proof {
                            assert(out_next == seq![StepView::Offline(rv, err.unwrap())]);
                            assert forall|x: ResourceView|
                                #[trigger] (self.view().cooldown_until)(x) == (
                                v_next.cooldown_until)(x) by {
                                assert((self.view().cooldown_until)(x) == lookup(
                                    self.cooldown_until@,
                                    x,
                                ));
                                assert((old_view.cooldown_until)(x) == (vi.cooldown_until)(x));
                            }
                        }
                        steps.push(
                            CoordinatorStep::Emit(RefreshEvent::Offline { resource: r, error }),
                        );
                    } else {
                        let ghost old_in_flight = self.in_flight@;
                        let ghost pre_view = self.view();
                        self.in_flight.push(r.clone());
                        proof {
                            assert(key_views(self.in_flight@) =~= key_views(old_in_flight).push(
                                rv,
                            ));
                            assert forall|a: int, b: int|
                                0 <= a < b < self.in_flight@.len() implies self.in_flight@[a]@
                                != self.in_flight@[b]@ by {
                                if b == self.in_flight@.len() - 1 {
                                    assert(key_views(old_in_flight)[a] == old_in_flight[a]@);
                                }
                            }
                        }
                        let ghost old_view = self.view();
                        self.set_cooldown(&r, until);
                        proof {
                            assert(out_next == seq![StepView::Started(rv), StepView::Run(rv)]);
                            assert forall|x: ResourceView|
                                #[trigger] (self.view().cooldown_until)(x) == (
                                v_next.cooldown_until)(x) by {
                                assert((self.view().cooldown_until)(x) == lookup(
                                    self.cooldown_until@,
                                    x,
                                ));
                                assert((old_view.cooldown_until)(x) == (vi.cooldown_until)(x));
                            }
                            assert forall|x: ResourceView|
                                #[trigger] (self.view().in_flight)(x) == (v_next.in_flight)(
                                    x,
                                ) by {
                                assert((pre_view.in_flight)(x) == (vi.in_flight)(x));
                                assert(key_views(old_in_flight).contains(x) == (pre_view.in_flight)(
                                    x,
                                ));
                                let nv = key_views(self.in_flight@);
                                let ov = key_views(old_in_flight);
                                assert(nv =~= ov.push(rv));
                                if x == rv {
                                    assert(nv[ov.len() as int] == rv);
                                    assert(nv.contains(x));
                                } else {
                                    if nv.contains(x) {
                                        let k = choose|k: int| 0 <= k < nv.len() && nv[k] == x;
                                        assert(ov[k] == x);
                                        assert(ov.contains(x));
                                    }
                                    if ov.contains(x) {
                                        let k = choose|k: int| 0 <= k < ov.len() && ov[k] == x;
                                        assert(nv[k] == x);
                                        assert(nv.contains(x));
                                    }
                                }
                            }
                        }
                        let r2 = r.clone();
                        steps.push(CoordinatorStep::Emit(RefreshEvent::Started { resource: r }));
                        steps.push(CoordinatorStep::Run(r2));
                    }
                },
            }
            proof {
                assert(steps@.map_values(|s: CoordinatorStep| step_view(s)) =~= before_steps.map_values(
                    |s: CoordinatorStep| step_view(s),
                ) + out_next);
            }
            i = i + 1;
        }
        assert(rs.take(i as int) =~= rs);
        steps
    }

    /// The refresh of `resource` has finished: it is no longer in flight.
    pub fn handle_done(&mut self, resource: &ResourceKey)
        requires
            old(self).wf(),
        ensures
            final(self).wf(),
            forall|x: ResourceView|
                #[trigger] (final(self).view().in_flight)(x) == ((old(self).view().in_flight)(x)
                    && x != resource@),
            forall|x: ResourceView|
                #[trigger] (final(self).view().cooldown_until)(x) == (old(
                    self,
                ).view().cooldown_until)(x),
    {
        match self.in_flight_index(resource) {
            Some(i) => {
                let ghost before = self.in_flight@;
                self.in_flight.remove(i);
                proof {
                    assert forall|x: ResourceView|
                        key_views(self.in_flight@).contains(x) == (key_views(before).contains(x)
                            && x != resource@) by {
                        if key_views(self.in_flight@).contains(x) {
                            let k = choose|k: int|
                                0 <= k < self.in_flight@.len() && #[trigger] key_views(
                                    self.in_flight@,
                                )[k] == x;
                            if k < i {
                                assert(key_views(before)[k] == x);
                            } else {
                                assert(key_views(before)[k + 1] == x);
                            }
                        }
                        if key_views(before).contains(x) && x != resource@ {
                            let k = choose|k: int|
                                0 <= k < before.len() && #[trigger] key_views(before)[k] == x;
                            if k < i {
                                assert(key_views(self.in_flight@)[k] == x);
                            } else {
                                assert(k != i);
                                assert(key_views(self.in_flight@)[k - 1] == x);
                            }
                        }
                    }
                }
            },
            None => {},
        }
    }
}

/// Two views that agree on every resource.
pub open spec fn same_view(a: CoordinatorView, b: CoordinatorView) -> bool {
    &&& forall|x: ResourceView| #[trigger] (a.in_flight)(x) == (b.in_flight)(x)
    &&& forall|x: ResourceView| #[trigger] (a.cooldown_until)(x) == (b.cooldown_until)(x)
}


/// Within one request: a resource is run only if it was neither being
/// refreshed nor cooling down when the request came, and is in flight after
/// it; no resource is run twice; nothing in flight stops being in flight; and
/// every cooldown the request sets ends `COOLDOWN_NANOS` after its time.
pub proof fn request_runs_only_idle_resources_once(
    v: CoordinatorView,
    rs: Seq<ResourceView>,
    now: u64,
    network_error: Option<Seq<char>>,
)
    requires
        now + COOLDOWN_NANOS <= u64::MAX,
    ensures
        ({
            let (v2, out) = process(v, rs, now, network_error);
            &&& forall|k: int|
                0 <= k < out.len() ==> (#[trigger] out[k] matches StepView::Run(r) ==> {
                    &&& !(v.in_flight)(r)
                    &&& !((v.cooldown_until)(r) matches Some(u) && u > now)
                    &&& (v2.in_flight)(r)
                })
            &&& forall|k1: int, k2: int|
                0 <= k1 < k2 < out.len() ==> (#[trigger] out[k1] matches StepView::Run(a) ==> (
                #[trigger] out[k2] matches StepView::Run(b) ==> a != b))
            &&& forall|x: ResourceView| (v.in_flight)(x) ==> #[trigger] (v2.in_flight)(x)
            &&& forall|x: ResourceView|
                #[trigger] (v2.cooldown_until)(x) == (v.cooldown_until)(x) || (v2.cooldown_until)(
                    x,
                ) == Some((now + COOLDOWN_NANOS) as u64)
        }),
    decreases rs.len(),
{
    if rs.len() > 0 {
        let (v1, out1) = process(v, rs.drop_last(), now, network_error);
        request_runs_only_idle_resources_once(v, rs.drop_last(), now, network_error);
        let (v2, out2) = step_one(v1, rs.last(), now, network_error);
        let out = out1 + out2;
        assert(process(v, rs, now, network_error) == (v2, out));
        assert forall|k: int|
            0 <= k < out.len() implies (#[trigger] out[k] matches StepView::Run(r) ==> {
                &&& !(v.in_flight)(r)
                &&& !((v.cooldown_until)(r) matches Some(u) && u > now)
                &&& (v2.in_flight)(r)
            }) by {
            if k < out1.len() {
                assert(out[k] == out1[k]);
            } else {
                assert(out[k] == out2[k - out1.len()]);
            }
        }
        assert forall|k1: int, k2: int|
            0 <= k1 < k2 < out.len() implies (#[trigger] out[k1] matches StepView::Run(a) ==> (
            #[trigger] out[k2] matches StepView::Run(b) ==> a != b)) by {
            if k2 < out1.len() {
                assert(out[k1] == out1[k1]);
                assert(out[k2] == out1[k2]);
            } else if k1 < out1.len() {
                assert(out[k1] == out1[k1]);
                assert(out[k2] == out2[k2 - out1.len()]);
            } else {
                assert(out[k1] == out2[k1 - out1.len()]);
                assert(out[k2] == out2[k2 - out1.len()]);
            }
        }
    }
}

proof fn lemma_lookup_update(s: Seq<(ResourceKey, u64)>, i: int, k: ResourceKey, until: u64, x: ResourceView)
    requires
        0 <= i < s.len(),
        s[i].0@ == k@,
        forall|j: int| 0 <= j < i ==> s[j].0@ != k@,
    ensures
        lookup(s.update(i, (k, until)), x) == if x == k@ {
            Some(until)
        } else {
            lookup(s, x)
        },
    decreases i,
{
    let t = s.update(i, (k, until));
    if i == 0 {
        assert(t.drop_first() =~= s.drop_first());
    } else {
        lemma_lookup_update(s.drop_first(), i - 1, k, until, x);
        assert(t.drop_first() =~= s.drop_first().update(i - 1, (k, until)));
    }
}

proof fn lemma_lookup_push(s: Seq<(ResourceKey, u64)>, k: ResourceKey, until: u64, x: ResourceView)
    requires
        lookup(s, k@) is None,
    ensures
        lookup(s.push((k, until)), x) == if x == k@ {
            Some(until)
        } else {
            lookup(s, x)
        },
    decreases s.len(),
{
    let t = s.push((k, until));
    if s.len() > 0 {
        assert(t[0] == s[0]);
        assert(s[0].0@ != k@);
        lemma_lookup_push(s.drop_first(), k, until, x);
        assert(t.drop_first() =~= s.drop_first().push((k, until)));
        if s[0].0@ == x {
            assert(lookup(t, x) == Some(s[0].1));
        } else {
            assert(lookup(t, x) == lookup(t.drop_first(), x));
        }
    } else {
        assert(t.drop_first() =~= Seq::<(ResourceKey, u64)>::empty());
        assert(t[0] == (k, until));
        assert(lookup(t.drop_first(), x) is None);
    }
}

} // verus!
