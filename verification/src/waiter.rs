//! Waiting, by bounded polling, until a set of resources has reached a state.
//!
//! The waiter is a state machine: `Polling`, then `Satisfied` or `TimedOut`
//! (or `Aborted`, when a query itself fails). While it polls it asks in turn
//! for one query of all resources still awaited and for one rest of the
//! interval. The caller performs both and reports back.

use vstd::prelude::*;
use vstd::string::*;
use crate::paging::DiscoveryError;
use crate::text::{copy_string, copy_strings, same_text, views};

verus! {

/// Ticks allowed by default.
pub const DEFAULT_MAX_ATTEMPTS: u32 = 40;

/// Rest between two ticks by default, in seconds.
pub const DEFAULT_INTERVAL_SECS: u64 = 15;

/// The state that one resource was seen in.
pub struct Observation {
    pub resource: String,
    pub state: String,
}

/// The model of an `Observation`.
pub struct ObservationView {
    pub resource: Seq<char>,
    pub state: Seq<char>,
}

impl View for Observation {
    type V = ObservationView;

    open spec fn view(&self) -> ObservationView {
        ObservationView { resource: self.resource@, state: self.state@ }
    }
}

/// The models of a sequence of observations.
pub open spec fn observation_views(v: Seq<Observation>) -> Seq<ObservationView> {
    Seq::new(v.len(), |i: int| v[i]@)
}

/// The wait loop ran out of ticks; `remaining` never reached the state.
pub struct TimeoutError {
    pub remaining: Vec<String>,
}

/// Why a wait ended without all resources in the state.
pub enum WaitError {
    /// The ticks were used up; these resources never reached the state.
    Timeout(TimeoutError),
    /// A query of the states failed, and the wait was aborted at once.
    Discovery(DiscoveryError),
}

/// The model of a `WaitError`.
pub enum WaitErrorView {
    Timeout(Seq<Seq<char>>),
    Discovery(Seq<char>),
}

impl View for WaitError {
    type V = WaitErrorView;

    open spec fn view(&self) -> WaitErrorView {
        match self {
            WaitError::Timeout(e) => WaitErrorView::Timeout(views(e.remaining@)),
            WaitError::Discovery(e) => WaitErrorView::Discovery(e.cause@),
        }
    }
}

/// The model of how a wait ended, if it has.
pub open spec fn wait_result_view(r: Option<Result<(), WaitError>>) -> Option<
    Result<(), WaitErrorView>,
> {
    match r {
        Some(Ok(_)) => Some(Ok(())),
        Some(Err(e)) => Some(Err(e@)),
        None => None,
    }
}

/// Where the wait stands.
#[derive(Debug, Clone, Copy, PartialEq, Eq, Structural)]
pub enum WaitState {
    Polling,
    Satisfied,
    TimedOut,
    Aborted,
}

/// What the caller is to do next.
pub enum WaitStep {
    /// Query the state of these resources in one call, then `observe`.
    Query(Vec<String>),
    /// Suspend for this many seconds, then `rested`.
    Sleep(u64),
    /// Every resource reached the state.
    Satisfied,
    /// The ticks are used up.
    TimedOut(TimeoutError),
    /// A query failed, with this cause.
    Aborted(String),
}

/// The model of a `WaitStep`.
pub enum WaitStepView {
    Query(Seq<Seq<char>>),
    Sleep(nat),
    Satisfied,
    TimedOut(Seq<Seq<char>>),
    Aborted(Seq<char>),
}

impl View for WaitStep {
    type V = WaitStepView;

    open spec fn view(&self) -> WaitStepView {
        match self {
            WaitStep::Query(ids) => WaitStepView::Query(views(ids@)),
            WaitStep::Sleep(secs) => WaitStepView::Sleep(*secs as nat),
            WaitStep::Satisfied => WaitStepView::Satisfied,
            WaitStep::TimedOut(e) => WaitStepView::TimedOut(views(e.remaining@)),
            WaitStep::Aborted(cause) => WaitStepView::Aborted(cause@),
        }
    }
}

/// Whether `observations` show `resource` in the state `target`.
pub open spec fn reached(observations: Seq<ObservationView>, resource: Seq<char>, target: Seq<char>) -> bool {
    exists|i: int|
        0 <= i < observations.len() && (#[trigger] observations[i]).resource == resource
            && observations[i].state == target
}

/// Those of `pending`, in order, that `observations` do not show in the state `target`.
pub open spec fn still_pending(
    pending: Seq<Seq<char>>,
    observations: Seq<ObservationView>,
    target: Seq<char>,
) -> Seq<Seq<char>>
    decreases pending.len(),
{
    if pending.len() == 0 {
        Seq::empty()
    } else if reached(observations, pending.last(), target) {
        still_pending(pending.drop_last(), observations, target)
    } else {
        still_pending(pending.drop_last(), observations, target).push(pending.last())
    }
}

/// The model of a `Waiter`.
pub struct WaiterView {
    /// The resources still awaited.
    pub pending: Seq<Seq<char>>,
    /// The state they are to reach.
    pub target: Seq<char>,
    /// Queries answered so far.
    pub ticks: nat,
    /// Queries allowed.
    pub max_attempts: nat,
    /// Seconds to rest between two ticks.
    pub interval: nat,
    /// A tick has been taken and the rest after it is still due.
    pub resting: bool,
    /// The cause of a failed query.
    pub failure: Option<Seq<char>>,
}

impl WaiterView {
    /// The wait as it begins.
    pub open spec fn begin(targets: Seq<Seq<char>>, target: Seq<char>, max_attempts: nat, interval: nat) -> WaiterView {
        WaiterView {
            pending: targets,
            target,
            ticks: 0,
            max_attempts,
            interval,
            resting: false,
            failure: None,
        }
    }

    pub open spec fn state(self) -> WaitState {
        if self.failure is Some {
            WaitState::Aborted
        } else if self.pending.len() == 0 {
            WaitState::Satisfied
        } else if self.ticks >= self.max_attempts {
            WaitState::TimedOut
        } else {
            WaitState::Polling
        }
    }

    /// How the wait ended: `None` while it polls; success when every
    /// resource reached the state; else the resources that remained at the
    /// timeout, or the cause of the query that failed.
    pub open spec fn result(self) -> Option<Result<(), WaitErrorView>> {
        match self.state() {
            WaitState::Polling => None,
            WaitState::Satisfied => Some(Ok(())),
            WaitState::TimedOut => Some(Err(WaitErrorView::Timeout(self.pending))),
            WaitState::Aborted => Some(Err(WaitErrorView::Discovery(self.failure->0))),
        }
    }

    pub open spec fn step(self) -> WaitStepView {
        match self.state() {
            WaitState::Aborted => WaitStepView::Aborted(self.failure->0),
            WaitState::Satisfied => WaitStepView::Satisfied,
            WaitState::TimedOut => WaitStepView::TimedOut(self.pending),
            WaitState::Polling => if self.resting {
                WaitStepView::Sleep(self.interval)
            } else {
                WaitStepView::Query(self.pending)
            },
        }
    }

    /// Whether a query is due.
    pub open spec fn query_due(self) -> bool {
        self.state() == WaitState::Polling && !self.resting
    }

    /// One tick: the answer to the query that was due. Every awaited
    /// resource seen in the target state leaves the pending set. Where no
    /// query was due, nothing changes.
    pub open spec fn observe(self, observations: Seq<ObservationView>) -> WaiterView {
        if self.query_due() {
            let ticked = WaiterView {
                pending: still_pending(self.pending, observations, self.target),
                ticks: self.ticks + 1,
                ..self
            };
            WaiterView { resting: ticked.state() == WaitState::Polling, ..ticked }
        } else {
            self
        }
    }

    /// The rest that was due has been taken.
    pub open spec fn rested(self) -> WaiterView {
        if self.state() == WaitState::Polling && self.resting {
            WaiterView { resting: false, ..self }
        } else {
            self
        }
    }

    /// The query that was due failed: the wait is aborted at once, and the
    /// failed query is no tick.
    pub open spec fn query_failed(self, cause: Seq<char>) -> WaiterView {
        if self.query_due() {
            WaiterView { failure: Some(cause), ..self }
        } else {
            self
        }
    }

    /// No more ticks were taken than allowed.
    pub open spec fn within_bound(self) -> bool {
        self.ticks <= self.max_attempts
    }

    /// The wait after one tick for each entry of `script`, with the rest
    /// that follows each of them taken.
    pub open spec fn run(self, script: Seq<Seq<ObservationView>>) -> WaiterView
        decreases script.len(),
    {
        if script.len() == 0 {
            self
        } else {
            self.run(script.drop_last()).observe(script.last()).rested()
        }
    }
}

/// What stays pending was pending and was not seen in the target state, and
/// every such resource stays pending.
pub proof fn lemma_still_pending_shrinks(
    pending: Seq<Seq<char>>,
    observations: Seq<ObservationView>,
    target: Seq<char>,
)
    ensures
        still_pending(pending, observations, target).len() <= pending.len(),
        forall|r: Seq<char>| #[trigger]
            still_pending(pending, observations, target).contains(r) ==> pending.contains(r)
                && !reached(observations, r, target),
        forall|r: Seq<char>| #[trigger]
            pending.contains(r) && !reached(observations, r, target) ==> still_pending(
                pending,
                observations,
                target,
            ).contains(r),
    decreases pending.len(),
{
    let kept = still_pending(pending, observations, target);
    if pending.len() > 0 {
        let front = pending.drop_last();
        let kept_front = still_pending(front, observations, target);
        lemma_still_pending_shrinks(front, observations, target);
        assert forall|r: Seq<char>| #[trigger] kept.contains(r) implies pending.contains(r)
            && !reached(observations, r, target) by {
            let k = choose|k: int| 0 <= k < kept.len() && kept[k] == r;
            if k < kept_front.len() {
                assert(kept_front[k] == r);
                assert(kept_front.contains(r));
                assert(front.contains(r));
                let j = choose|j: int| 0 <= j < front.len() && front[j] == r;
                assert(pending[j] == r);
            } else {
                assert(r == pending.last());
                assert(pending[pending.len() - 1] == r);
            }
        }
        assert forall|r: Seq<char>| #[trigger]
            pending.contains(r) && !reached(observations, r, target) implies kept.contains(r) by {
            let j = choose|j: int| 0 <= j < pending.len() && pending[j] == r;
            if j < front.len() {
                assert(front[j] == r);
                assert(front.contains(r));
                assert(kept_front.contains(r));
                let k = choose|k: int| 0 <= k < kept_front.len() && kept_front[k] == r;
                assert(kept[k] == r);
            } else {
                assert(kept[kept.len() - 1] == r);
            }
        }
    }
}

/// Where no awaited resource is seen in the target state, all stay pending.
pub proof fn lemma_nothing_reached(
    pending: Seq<Seq<char>>,
    observations: Seq<ObservationView>,
    target: Seq<char>,
)
    requires
        forall|i: int| 0 <= i < pending.len() ==> !reached(observations, #[trigger] pending[i], target),
    ensures
        still_pending(pending, observations, target) == pending,
    decreases pending.len(),
{
    if pending.len() > 0 {
        let front = pending.drop_last();
        assert forall|i: int| 0 <= i < front.len() implies !reached(
            observations,
            #[trigger] front[i],
            target,
        ) by {
            assert(front[i] == pending[i]);
        }
        lemma_nothing_reached(front, observations, target);
        assert(!reached(observations, pending[pending.len() - 1], target));
        assert(front.push(pending.last()) =~= pending);
    } else {
        assert(pending =~= Seq::empty());
    }
}

/// Whatever is reported, the pending set only shrinks, the number of ticks
/// stays within the bound, and a wait that has ended stays as it ended.
pub proof fn lemma_observe_is_safe(w: WaiterView, observations: Seq<ObservationView>)
    requires
        w.within_bound(),
    ensures
        w.observe(observations).within_bound(),
        w.observe(observations).pending.len() <= w.pending.len(),
        forall|r: Seq<char>| w.observe(observations).pending.contains(r) ==> w.pending.contains(r),
        w.observe(observations).ticks <= w.ticks + 1,
        w.state() != WaitState::Polling ==> w.observe(observations) == w,
        w.rested().pending == w.pending && w.rested().ticks == w.ticks,
        w.state() != WaitState::Polling ==> w.rested() == w,
{
    lemma_still_pending_shrinks(w.pending, observations, w.target);
}

/// However long the script, a run never takes more ticks than allowed, and
/// never awaits a resource that was not awaited at the start.
pub proof fn lemma_run_is_bounded(w: WaiterView, script: Seq<Seq<ObservationView>>)
    requires
        w.within_bound(),
    ensures
        w.run(script).within_bound(),
        w.run(script).ticks <= w.ticks + script.len(),
        w.run(script).pending.len() <= w.pending.len(),
        forall|r: Seq<char>| w.run(script).pending.contains(r) ==> w.pending.contains(r),
        w.run(script).target == w.target,
        w.run(script).max_attempts == w.max_attempts,
    decreases script.len(),
{
    if script.len() > 0 {
        let before = w.run(script.drop_last());
        lemma_run_is_bounded(w, script.drop_last());
        lemma_observe_is_safe(before, script.last());
    }
}

/// Where the awaited state is never seen, the wait times out after exactly
/// `max_attempts` ticks, with every target remaining, however many more
/// answers the script holds.
pub proof fn lemma_never_satisfied_times_out(
    targets: Seq<Seq<char>>,
    target: Seq<char>,
    max_attempts: nat,
    interval: nat,
    script: Seq<Seq<ObservationView>>,
)
    requires
        targets.len() > 0,
        forall|k: int, i: int|
            0 <= k < script.len() && 0 <= i < targets.len() ==> !reached(
                #[trigger] script[k],
                #[trigger] targets[i],
                target,
            ),
    ensures
        ({
            let end = WaiterView::begin(targets, target, max_attempts, interval).run(script);
            &&& end.pending == targets
            &&& end.target == target
            &&& end.max_attempts == max_attempts
            &&& end.interval == interval
            &&& end.failure is None
            &&& !end.resting
            &&& end.ticks == if script.len() <= max_attempts {
                script.len()
            } else {
                max_attempts
            }
            &&& script.len() >= max_attempts <==> end.state() == WaitState::TimedOut
            &&& script.len() < max_attempts <==> end.state() == WaitState::Polling
        }),
    decreases script.len(),
{
    let start = WaiterView::begin(targets, target, max_attempts, interval);
    if script.len() > 0 {
        let front = script.drop_last();
        assert forall|k: int, i: int| 0 <= k < front.len() && 0 <= i < targets.len() implies !reached(
            #[trigger] front[k],
            #[trigger] targets[i],
            target,
        ) by {
            assert(front[k] == script[k]);
        }
        lemma_never_satisfied_times_out(targets, target, max_attempts, interval, front);
        let before = start.run(front);
        assert forall|i: int| 0 <= i < targets.len() implies !reached(
            script.last(),
            #[trigger] targets[i],
            target,
        ) by {
            assert(!reached(script[script.len() - 1], targets[i], target));
        }
        lemma_nothing_reached(targets, script.last(), target);
    }
}

/// While the wait is still polling before each tick, every answer is one tick.
pub proof fn lemma_ticks_count_answers(w: WaiterView, script: Seq<Seq<ObservationView>>)
    requires
        !w.resting,
        forall|k: int|
            0 <= k < script.len() ==> (#[trigger] w.run(script.take(k))).state()
                == WaitState::Polling,
    ensures
        w.run(script).ticks == w.ticks + script.len(),
        !w.run(script).resting,
    decreases script.len(),
{
    if script.len() > 0 {
        let front = script.drop_last();
        assert forall|k: int| 0 <= k < front.len() implies (#[trigger] w.run(front.take(k))).state()
            == WaitState::Polling by {
            assert(front.take(k) =~= script.take(k));
        }
        lemma_ticks_count_answers(w, front);
        assert(script.take(script.len() - 1) =~= front);
        assert(w.run(script.take(script.len() - 1)).state() == WaitState::Polling);
    }
}

/// Where every answer takes exactly one resource out of the pending set, a
/// wait for `n` resources that is allowed at least `n` ticks is satisfied
/// after exactly `n` of them, and not before.
pub proof fn lemma_one_per_tick(w: WaiterView, script: Seq<Seq<ObservationView>>)
    requires
        w.failure is None,
        !w.resting,
        w.ticks == 0,
        script.len() <= w.pending.len(),
        w.pending.len() <= w.max_attempts,
        forall|k: int|
            0 <= k < script.len() ==> still_pending(
                (#[trigger] w.run(script.take(k))).pending,
                script[k],
                w.target,
            ).len() + 1 == w.run(script.take(k)).pending.len(),
    ensures
        w.run(script).ticks == script.len(),
        w.run(script).pending.len() == w.pending.len() - script.len(),
        w.run(script).failure is None,
        !w.run(script).resting,
        w.run(script).target == w.target,
        w.run(script).max_attempts == w.max_attempts,
        script.len() == w.pending.len() ==> w.run(script).state() == WaitState::Satisfied,
        script.len() < w.pending.len() ==> w.run(script).state() == WaitState::Polling,
    decreases script.len(),
{
    if script.len() > 0 {
        let front = script.drop_last();
        assert forall|k: int| 0 <= k < front.len() implies still_pending(
            (#[trigger] w.run(front.take(k))).pending,
            front[k],
            w.target,
        ).len() + 1 == w.run(front.take(k)).pending.len() by {
            assert(front.take(k) =~= script.take(k));
            assert(front[k] == script[k]);
        }
        lemma_one_per_tick(w, front);
        assert(script.take(script.len() - 1) =~= front);
        let before = w.run(script.take(script.len() - 1));
        assert(still_pending(before.pending, script[script.len() - 1], w.target).len() + 1
            == before.pending.len());
    }
}

/// A bounded wait for a set of resources to reach a state.
pub struct Waiter {
    pending: Vec<String>,
    target: String,
    ticks: u32,
    max_attempts: u32,
    interval_secs: u64,
    resting: bool,
    failure: Option<String>,
}

impl View for Waiter {
    type V = WaiterView;

    closed spec fn view(&self) -> WaiterView {
        WaiterView {
            pending: views(self.pending@),
            target: self.target@,
            ticks: self.ticks as nat,
            max_attempts: self.max_attempts as nat,
            interval: self.interval_secs as nat,
            resting: self.resting,
            failure: match self.failure {
                Some(c) => Some(c@),
                None => None,
            },
        }
    }
}

/// Whether `observations` show `resource` in the state `target`.
pub fn has_reached(observations: &Vec<Observation>, resource: &String, target: &String) -> (r: bool)
    ensures
        r == reached(observation_views(observations@), resource@, target@),
{
    let mut i: usize = 0;
    while i < observations.len()
        invariant
            i <= observations@.len(),
            forall|k: int|
                0 <= k < i ==> !(observations@[k]@.resource == resource@ && observations@[k]@.state
                    == target@),
        decreases observations@.len() - i,
    {
        if same_text(&observations[i].resource, resource) && same_text(
            &observations[i].state,
            target,
        ) {
            assert(observation_views(observations@)[i as int] == observations@[i as int]@);
            return true;
        }
        i = i + 1;
    }
    assert(!reached(observation_views(observations@), resource@, target@)) by {
        if reached(observation_views(observations@), resource@, target@) {
            let k = choose|k: int|
                0 <= k < observations@.len() && (#[trigger] observation_views(
                    observations@,
                )[k]).resource == resource@ && observation_views(observations@)[k].state == target@;
            assert(observation_views(observations@)[k] == observations@[k]@);
        }
    }
    false
}

impl Waiter {
    /// Begins a wait for `targets` to reach `target`, with at most
    /// `max_attempts` ticks and `interval_secs` seconds between two ticks.
    pub fn new(targets: Vec<String>, target: &str, max_attempts: u32, interval_secs: u64) -> (w: Waiter)
        ensures
            w@ == WaiterView::begin(
                views(targets@),
                target@,
                max_attempts as nat,
                interval_secs as nat,
            ),
            w@.within_bound(),
    {
        Waiter {
            pending: targets,
            target: String::from_str(target),
            ticks: 0,
            max_attempts,
            interval_secs,
            resting: false,
            failure: None,
        }
    }

    /// Where the wait stands.
    pub fn state(&self) -> (s: WaitState)
        ensures
            s == self@.state(),
    {
        if self.failure.is_some() {
            WaitState::Aborted
        } else if self.pending.len() == 0 {
            WaitState::Satisfied
        } else if self.ticks >= self.max_attempts {
            WaitState::TimedOut
        } else {
            WaitState::Polling
        }
    }

    /// What the caller is to do next.
    pub fn step(&self) -> (s: WaitStep)
        ensures
            s@ == self@.step(),
    {
        match self.state() {
            WaitState::Aborted => {
                match &self.failure {
                    Some(c) => WaitStep::Aborted(copy_string(c)),
                    None => WaitStep::Satisfied,
                }
            },
            WaitState::Satisfied => WaitStep::Satisfied,
            WaitState::TimedOut => WaitStep::TimedOut(
                TimeoutError { remaining: copy_strings(&self.pending) },
            ),
            WaitState::Polling => if self.resting {
                WaitStep::Sleep(self.interval_secs)
            } else {
                WaitStep::Query(copy_strings(&self.pending))
            },
        }
    }

    /// How the wait ended; `None` while it polls.
    pub fn result(&self) -> (r: Option<Result<(), WaitError>>)
        ensures
            wait_result_view(r) == self@.result(),
    {
        match self.state() {
            WaitState::Polling => None,
            WaitState::Satisfied => Some(Ok(())),
            WaitState::TimedOut => Some(
                Err(WaitError::Timeout(TimeoutError { remaining: copy_strings(&self.pending) })),
            ),
            WaitState::Aborted => {
                match &self.failure {
                    Some(c) => Some(
                        Err(WaitError::Discovery(DiscoveryError { cause: copy_string(c) })),
                    ),
                    None => None,
                }
            },
        }
    }

    /// Ticks taken so far.
    pub fn ticks(&self) -> (n: u32)
        ensures
            n == self@.ticks,
    {
        self.ticks
    }

    /// The resources still awaited.
    pub fn pending(&self) -> (r: Vec<String>)
        ensures
            views(r@) == self@.pending,
    {
        copy_strings(&self.pending)
    }

    /// Takes the answer to the query that was due.
    pub fn observe(&mut self, observations: &Vec<Observation>)
        ensures
            final(self)@ == old(self)@.observe(observation_views(observations@)),
    {
        let due = match self.state() {
            WaitState::Polling => !self.resting,
            _ => false,
        };
        if !due {
            return ;
        }
        let mut kept: Vec<String> = Vec::new();
        let mut i: usize = 0;
        let ghost obs = observation_views(observations@);
        assert(views(self.pending@).take(0) =~= Seq::empty());
        assert(views(kept@) =~= Seq::empty());
        while i < self.pending.len()
            invariant
                i <= self.pending@.len(),
                obs == observation_views(observations@),
                views(kept@) == still_pending(
                    views(self.pending@).take(i as int),
                    obs,
                    self.target@,
                ),
            decreases self.pending@.len() - i,
        {
            proof {
                let now = views(self.pending@).take(i + 1);
                assert(now.drop_last() =~= views(self.pending@).take(i as int));
                assert(now.last() == self.pending@[i as int]@);
            }
            if !has_reached(observations, &self.pending[i], &self.target) {
                let ghost before = kept@;
                kept.push(self.pending[i].clone());
                assert(views(kept@) =~= views(before).push(self.pending@[i as int]@));
            }
            i = i + 1;
        }
        assert(views(self.pending@).take(self.pending@.len() as int) =~= views(self.pending@));
        self.pending = kept;
        self.ticks = self.ticks + 1;
        self.resting = self.pending.len() > 0 && self.ticks < self.max_attempts;
    }

    /// Notes that the rest that was due has been taken.
    pub fn rested(&mut self)
        ensures
            final(self)@ == old(self)@.rested(),
    {
        match self.state() {
            WaitState::Polling => {
                self.resting = false;
            },
            _ => {},
        }
    }

    /// Notes that the query that was due failed.
    pub fn query_failed(&mut self, cause: String)
        ensures
            final(self)@ == old(self)@.query_failed(cause@),
    {
        let due = match self.state() {
            WaitState::Polling => !self.resting,
            _ => false,
        };
        if due {
            self.failure = Some(cause);
        }
    }
}

} // verus!
