//! Carrying out a batch of actions, one resource at a time.
//!
//! One call is one resource and one verb. A call that fails is reported and
//! the batch goes on: no failure keeps the calls after it from being made.

use vstd::prelude::*;
use vstd::string::*;
use crate::family::{ResourceFamily, Verb};
use crate::text::{copy_string, opt_view, views};

verus! {

/// One action on one resource.
pub struct ActionCall {
    pub family: ResourceFamily,
    pub verb: Verb,
    /// The identifier handed to the provider.
    pub resource: String,
    /// The name under which the resource is reported.
    pub name: String,
    /// The cluster of a container service; empty for every other family.
    pub cluster: String,
    /// The task count a container service is set to.
    pub desired_count: Option<i32>,
    /// The call is made only if no group owns the resource.
    pub check_owner: bool,
}

/// The model of an `ActionCall`.
pub struct ActionCallView {
    pub family: ResourceFamily,
    pub verb: Verb,
    pub resource: Seq<char>,
    pub name: Seq<char>,
    pub cluster: Seq<char>,
    pub desired_count: Option<i32>,
    pub check_owner: bool,
}

impl View for ActionCall {
    type V = ActionCallView;

    open spec fn view(&self) -> ActionCallView {
        ActionCallView {
            family: self.family,
            verb: self.verb,
            resource: self.resource@,
            name: self.name@,
            cluster: self.cluster@,
            desired_count: self.desired_count,
            check_owner: self.check_owner,
        }
    }
}

/// The models of a sequence of calls.
pub open spec fn call_views(v: Seq<ActionCall>) -> Seq<ActionCallView> {
    Seq::new(v.len(), |i: int| v[i]@)
}

/// The state change of one resource failed.
pub struct ActionError {
    pub resource: String,
    pub verb: Verb,
    pub cause: String,
}

/// The model of an `ActionError`.
pub struct ActionErrorView {
    pub resource: Seq<char>,
    pub verb: Verb,
    pub cause: Seq<char>,
}

impl View for ActionError {
    type V = ActionErrorView;

    open spec fn view(&self) -> ActionErrorView {
        ActionErrorView { resource: self.resource@, verb: self.verb, cause: self.cause@ }
    }
}

/// How one call ended.
pub enum Outcome {
    /// The provider accepted the call.
    Succeeded,
    /// The call was not made: this group owns the resource.
    Skipped(String),
    /// The lookup of the owner or the call itself failed.
    Failed(ActionError),
}

/// The model of an `Outcome`.
pub enum OutcomeView {
    Succeeded,
    Skipped(Seq<char>),
    Failed(ActionErrorView),
}

impl View for Outcome {
    type V = OutcomeView;

    open spec fn view(&self) -> OutcomeView {
        match self {
            Outcome::Succeeded => OutcomeView::Succeeded,
            Outcome::Skipped(g) => OutcomeView::Skipped(g@),
            Outcome::Failed(e) => OutcomeView::Failed(e@),
        }
    }
}

/// The models of a sequence of outcomes.
pub open spec fn outcome_views(v: Seq<Outcome>) -> Seq<OutcomeView> {
    Seq::new(v.len(), |i: int| v[i]@)
}

/// The model of a provider's answer to one call: `Ok`, or the cause of
/// the failure.
pub open spec fn result_view(r: Result<(), String>) -> Result<(), Seq<char>> {
    match r {
        Ok(_) => Ok(()),
        Err(c) => Err(c@),
    }
}

/// What the caller is to do next.
pub enum BatchStep {
    /// Look up the group that owns this instance, then `owner_known` or `lookup_failed`.
    LookupOwner(String),
    /// Make this call, then `completed`.
    Invoke(ActionCall),
    /// Every call has its outcome.
    Finished,
}

/// The model of a `BatchStep`.
pub enum BatchStepView {
    LookupOwner(Seq<char>),
    Invoke(ActionCallView),
    Finished,
}

impl View for BatchStep {
    type V = BatchStepView;

    open spec fn view(&self) -> BatchStepView {
        match self {
            BatchStep::LookupOwner(id) => BatchStepView::LookupOwner(id@),
            BatchStep::Invoke(call) => BatchStepView::Invoke(call@),
            BatchStep::Finished => BatchStepView::Finished,
        }
    }
}

/// The failure of `call` with `cause`.
pub open spec fn failure_of(call: ActionCallView, cause: Seq<char>) -> OutcomeView {
    OutcomeView::Failed(ActionErrorView { resource: call.resource, verb: call.verb, cause })
}

/// The outcome of `call` when the provider answered `result`.
pub open spec fn outcome_of(call: ActionCallView, result: Result<(), Seq<char>>) -> OutcomeView {
    match result {
        Ok(_) => OutcomeView::Succeeded,
        Err(cause) => failure_of(call, cause),
    }
}

/// The resources, in order, whose calls succeeded.
pub open spec fn succeeded_of(calls: Seq<ActionCallView>, outcomes: Seq<OutcomeView>) -> Seq<Seq<char>>
    decreases outcomes.len(),
{
    if outcomes.len() == 0 || outcomes.len() > calls.len() {
        Seq::empty()
    } else {
        let before = succeeded_of(calls, outcomes.drop_last());
        if outcomes.last() is Succeeded {
            before.push(calls[outcomes.len() - 1].resource)
        } else {
            before
        }
    }
}

/// The model of a `Batch`.
pub struct BatchView {
    pub calls: Seq<ActionCallView>,
    /// The outcome of each call made so far, in the order of the calls.
    pub outcomes: Seq<OutcomeView>,
    /// The call that is due was found to have no owner.
    pub cleared: bool,
}

impl BatchView {
    /// A batch of which no call was made.
    pub open spec fn begin(calls: Seq<ActionCallView>) -> BatchView {
        BatchView { calls, outcomes: Seq::empty(), cleared: false }
    }

    pub open spec fn is_finished(self) -> bool {
        self.outcomes.len() >= self.calls.len()
    }

    /// The call that is due.
    pub open spec fn current(self) -> ActionCallView
        recommends
            !self.is_finished(),
    {
        self.calls[self.outcomes.len() as int]
    }

    pub open spec fn step(self) -> BatchStepView {
        if self.is_finished() {
            BatchStepView::Finished
        } else if self.current().check_owner && !self.cleared {
            BatchStepView::LookupOwner(self.current().resource)
        } else {
            BatchStepView::Invoke(self.current())
        }
    }

    /// The batch with `outcome` for the call that is due.
    pub open spec fn settle(self, outcome: OutcomeView) -> BatchView {
        BatchView { outcomes: self.outcomes.push(outcome), cleared: false, ..self }
    }

    /// The owner of the resource was looked up. An owned resource is
    /// skipped; for one without an owner the call comes next.
    pub open spec fn owner_known(self, owner: Option<Seq<char>>) -> BatchView {
        if self.step() is LookupOwner {
            match owner {
                Some(group) => self.settle(OutcomeView::Skipped(group)),
                None => BatchView { cleared: true, ..self },
            }
        } else {
            self
        }
    }

    /// The lookup of the owner failed: the resource is reported as failed
    /// and the batch goes on.
    pub open spec fn lookup_failed(self, cause: Seq<char>) -> BatchView {
        if self.step() is LookupOwner {
            self.settle(failure_of(self.current(), cause))
        } else {
            self
        }
    }

    /// The call was made and answered: whatever the answer, the batch goes on.
    pub open spec fn completed(self, result: Result<(), Seq<char>>) -> BatchView {
        if self.step() is Invoke {
            self.settle(outcome_of(self.current(), result))
        } else {
            self
        }
    }

    /// The batch after the answers `results` to its next calls, in order.
    pub open spec fn complete_all(self, results: Seq<Result<(), Seq<char>>>) -> BatchView
        decreases results.len(),
    {
        if results.len() == 0 {
            self
        } else {
            self.complete_all(results.drop_last()).completed(results.last())
        }
    }

    /// The resources whose calls succeeded.
    pub open spec fn succeeded(self) -> Seq<Seq<char>> {
        succeeded_of(self.calls, self.outcomes)
    }

    /// No call has more than one outcome.
    pub open spec fn within_bound(self) -> bool {
        self.outcomes.len() <= self.calls.len()
    }
}

/// Whatever is reported, the calls stay as planned, outcomes already given
/// stay as given, and at most one is added, for the call that was due.
pub proof fn lemma_reports_are_independent(
    b: BatchView,
    owner: Option<Seq<char>>,
    cause: Seq<char>,
    result: Result<(), Seq<char>>,
)
    requires
        b.within_bound(),
    ensures
        b.owner_known(owner).within_bound(),
        b.lookup_failed(cause).within_bound(),
        b.completed(result).within_bound(),
        b.owner_known(owner).calls == b.calls && b.lookup_failed(cause).calls == b.calls
            && b.completed(result).calls == b.calls,
        b.outcomes.is_prefix_of(b.owner_known(owner).outcomes),
        b.outcomes.is_prefix_of(b.lookup_failed(cause).outcomes),
        b.outcomes.is_prefix_of(b.completed(result).outcomes),
        b.step() is Invoke ==> b.completed(result).outcomes.len() == b.outcomes.len() + 1,
        b.step() is LookupOwner ==> b.lookup_failed(cause).outcomes.len() == b.outcomes.len() + 1,
        b.is_finished() ==> b.owner_known(owner) == b && b.lookup_failed(cause) == b && b.completed(
            result,
        ) == b,
{
}

/// A resource that may be owned is called only after its lookup has found
/// no owner. One found to be owned gets no call: it is skipped, and the
/// resource after it is due.
pub proof fn lemma_owned_resources_are_skipped(b: BatchView, group: Seq<char>)
    requires
        b.within_bound(),
    ensures
        (b.step() matches BatchStepView::Invoke(call) && call.check_owner) ==> b.cleared,
        b.step() is LookupOwner ==> {
            &&& b.owner_known(Some(group)).outcomes == b.outcomes.push(OutcomeView::Skipped(group))
            &&& !b.owner_known(Some(group)).cleared
            &&& b.owner_known(None).outcomes == b.outcomes
            &&& b.owner_known(None).step() == BatchStepView::Invoke(b.current())
        },
{
}

/// Failure isolation. In a batch whose calls need no lookup, after as many
/// answers as there are calls every call was attempted, whatever the
/// answers were: each call has its own outcome, which depends on its own
/// answer alone.
pub proof fn lemma_every_call_is_attempted(
    calls: Seq<ActionCallView>,
    results: Seq<Result<(), Seq<char>>>,
)
    requires
        results.len() <= calls.len(),
        forall|i: int| 0 <= i < calls.len() ==> !(#[trigger] calls[i]).check_owner,
    ensures
        ({
            let end = BatchView::begin(calls).complete_all(results);
            &&& end.calls == calls
            &&& !end.cleared
            &&& end.outcomes.len() == results.len()
            &&& forall|i: int|
                0 <= i < results.len() ==> #[trigger] end.outcomes[i] == outcome_of(
                    calls[i],
                    results[i],
                )
            &&& end.is_finished() <==> results.len() == calls.len()
        }),
    decreases results.len(),
{
    if results.len() > 0 {
        lemma_every_call_is_attempted(calls, results.drop_last());
        let before = BatchView::begin(calls).complete_all(results.drop_last());
        let end = before.completed(results.last());
        assert(!calls[before.outcomes.len() as int].check_owner);
        assert(before.step() is Invoke);
        assert forall|i: int| 0 <= i < results.len() implies #[trigger] end.outcomes[i]
            == outcome_of(calls[i], results[i]) by {
            if i < results.len() - 1 {
                assert(end.outcomes[i] == before.outcomes[i]);
                assert(results.drop_last()[i] == results[i]);
            }
        }
    }
}

/// Only resources of the batch succeed, and no more than were attempted.
pub proof fn lemma_succeeded_were_called(calls: Seq<ActionCallView>, outcomes: Seq<OutcomeView>)
    requires
        outcomes.len() <= calls.len(),
    ensures
        succeeded_of(calls, outcomes).len() <= outcomes.len(),
        forall|r: Seq<char>| #[trigger]
            succeeded_of(calls, outcomes).contains(r) ==> exists|i: int|
                0 <= i < outcomes.len() && outcomes[i] is Succeeded && (#[trigger] calls[i]).resource
                    == r,
    decreases outcomes.len(),
{
    if outcomes.len() > 0 {
        let front = outcomes.drop_last();
        lemma_succeeded_were_called(calls, front);
        let all = succeeded_of(calls, outcomes);
        let before = succeeded_of(calls, front);
        assert forall|r: Seq<char>| #[trigger] all.contains(r) implies exists|i: int|
            0 <= i < outcomes.len() && outcomes[i] is Succeeded && (#[trigger] calls[i]).resource
                == r by {
            let k = choose|k: int| 0 <= k < all.len() && all[k] == r;
            if k < before.len() {
                assert(before[k] == r);
                assert(before.contains(r));
                let i = choose|i: int|
                    0 <= i < front.len() && front[i] is Succeeded && (#[trigger] calls[i]).resource
                        == r;
                assert(outcomes[i] == front[i]);
            } else {
                let i = outcomes.len() - 1;
                assert(outcomes[i] is Succeeded && calls[i].resource == r);
            }
        }
    }
}

/// A copy of `call`.
pub fn copy_call(call: &ActionCall) -> (r: ActionCall)
    ensures
        r@ == call@,
{
    ActionCall {
        family: call.family,
        verb: call.verb,
        resource: copy_string(&call.resource),
        name: copy_string(&call.name),
        cluster: copy_string(&call.cluster),
        desired_count: call.desired_count,
        check_owner: call.check_owner,
    }
}

/// A batch of calls and the outcome of each call made so far.
pub struct Batch {
    calls: Vec<ActionCall>,
    outcomes: Vec<Outcome>,
    cleared: bool,
}

impl View for Batch {
    type V = BatchView;

    closed spec fn view(&self) -> BatchView {
        BatchView {
            calls: call_views(self.calls@),
            outcomes: outcome_views(self.outcomes@),
            cleared: self.cleared,
        }
    }
}

impl Batch {
    /// A batch of `calls`, none of them made.
    pub fn new(calls: Vec<ActionCall>) -> (b: Batch)
        ensures
            b@ == BatchView::begin(call_views(calls@)),
    {
        let b = Batch { calls, outcomes: Vec::new(), cleared: false };
        assert(outcome_views(b.outcomes@) =~= Seq::empty());
        b
    }

    /// Whether every call has its outcome.
    pub fn is_finished(&self) -> (r: bool)
        ensures
            r == self@.is_finished(),
    {
        self.outcomes.len() >= self.calls.len()
    }

    /// How many calls there are.
    pub fn planned(&self) -> (n: usize)
        ensures
            n == self@.calls.len(),
    {
        self.calls.len()
    }

    /// How many calls have their outcome.
    pub fn attempted(&self) -> (n: usize)
        ensures
            n == self@.outcomes.len(),
    {
        self.outcomes.len()
    }

    /// What the caller is to do next.
    pub fn step(&self) -> (s: BatchStep)
        ensures
            s@ == self@.step(),
    {
        if self.outcomes.len() >= self.calls.len() {
            BatchStep::Finished
        } else {
            let call = &self.calls[self.outcomes.len()];
            assert(call@ == self@.current());
            if call.check_owner && !self.cleared {
                BatchStep::LookupOwner(copy_string(&call.resource))
            } else {
                BatchStep::Invoke(copy_call(call))
            }
        }
    }

    fn settle(&mut self, outcome: Outcome)
        ensures
            final(self)@ == old(self)@.settle(outcome@),
    {
        self.outcomes.push(outcome);
        self.cleared = false;
        assert(outcome_views(self.outcomes@) =~= outcome_views(old(self).outcomes@).push(outcome@));
    }

    fn failure(&self, cause: String) -> (o: Outcome)
        requires
            !self@.is_finished(),
        ensures
            o@ == failure_of(self@.current(), cause@),
    {
        let call = &self.calls[self.outcomes.len()];
        assert(call@ == self@.current());
        Outcome::Failed(
            ActionError { resource: copy_string(&call.resource), verb: call.verb, cause },
        )
    }

    /// Takes the answer to the lookup that was due.
    pub fn owner_known(&mut self, owner: Option<String>)
        ensures
            final(self)@ == old(self)@.owner_known(opt_view(owner)),
    {
        match self.step() {
            BatchStep::LookupOwner(_) => {
                match owner {
                    Some(group) => {
                        self.settle(Outcome::Skipped(group));
                    },
                    None => {
                        self.cleared = true;
                    },
                }
            },
            _ => {},
        }
    }

    /// Notes that the lookup that was due failed.
    pub fn lookup_failed(&mut self, cause: String)
        ensures
            final(self)@ == old(self)@.lookup_failed(cause@),
    {
        match self.step() {
            BatchStep::LookupOwner(_) => {
                let outcome = self.failure(cause);
                self.settle(outcome);
            },
            _ => {},
        }
    }

    /// Takes the answer to the call that was due.
    pub fn completed(&mut self, result: Result<(), String>)
        ensures
            final(self)@ == old(self)@.completed(result_view(result)),
    {
        match self.step() {
            BatchStep::Invoke(_) => {
                let outcome = match result {
                    Ok(_) => Outcome::Succeeded,
                    Err(cause) => self.failure(cause),
                };
                self.settle(outcome);
            },
            _ => {},
        }
    }

    /// The resources whose calls succeeded, in order.
    pub fn succeeded(&self) -> (r: Vec<String>)
        ensures
            views(r@) == self@.succeeded(),
    {
        let mut r: Vec<String> = Vec::new();
        if self.outcomes.len() > self.calls.len() {
            assert(views(r@) =~= Seq::empty());
            return r;
        }
        let ghost calls = call_views(self.calls@);
        let ghost outcomes = outcome_views(self.outcomes@);
        let mut i: usize = 0;
        assert(outcomes.take(0) =~= Seq::empty());
        assert(views(r@) =~= Seq::empty());
        while i < self.outcomes.len()
            invariant
                i <= self.outcomes@.len() <= self.calls@.len(),
                calls == call_views(self.calls@),
                outcomes == outcome_views(self.outcomes@),
                views(r@) == succeeded_of(calls, outcomes.take(i as int)),
            decreases self.outcomes@.len() - i,
        {
            proof {
                assert(outcomes.take(i + 1).drop_last() =~= outcomes.take(i as int));
                assert(outcomes.take(i + 1).last() == self.outcomes@[i as int]@);
                assert(calls[i as int] == self.calls@[i as int]@);
            }
            match &self.outcomes[i] {
                Outcome::Succeeded => {
                    let ghost before = r@;
                    r.push(copy_string(&self.calls[i].resource));
                    assert(views(r@) =~= views(before).push(self.calls@[i as int].resource@));
                },
                _ => {},
            }
            i = i + 1;
        }
        assert(outcomes.take(self.outcomes@.len() as int) =~= outcomes);
        r
    }

    /// Ends the batch and hands out its calls and their outcomes.
    pub fn into_parts(self) -> (r: (Vec<ActionCall>, Vec<Outcome>))
        ensures
            call_views(r.0@) == self@.calls,
            outcome_views(r.1@) == self@.outcomes,
    {
        (self.calls, self.outcomes)
    }
}

} // verus!
