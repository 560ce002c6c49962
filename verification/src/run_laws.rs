//! What holds of every run of a facade, from its first step to its last.

use vstd::prelude::*;
use crate::config::ScheduleAction;
use crate::executor::{
    lemma_every_call_is_attempted,
    outcome_of,
    ActionCallView,
    BatchStepView,
    BatchView,
};
use crate::facade::{
    batch_after,
    calls_for,
    group_calls,
    member_calls,
    waiter_after,
    EventView,
    RunView,
    StageView,
    StepView,
};
use crate::autoscaling::{
    member_ids,
    tagged_group_names,
    GroupScanView,
    GroupView,
    MemberExpansionView,
};
use crate::family::{Facade, ResourceFamily, Verb};
use crate::paging::{all_items, lemma_unfinished_listing, one_listing, PageView, PagerView};
use crate::text::distinct;
use crate::waiter::{WaitState, WaiterView};

verus! {

/// The calls that resume the groups of a run.
pub open spec fn resume_calls(groups: Seq<Seq<char>>) -> Seq<ActionCallView> {
    calls_for(ResourceFamily::ComputeGroup, ScheduleAction::Start, groups)
}

/// Whether the run awaits what it started before it resumes its groups.
pub open spec fn awaits_members(run: RunView) -> bool {
    run.ctx.facade.spec_is_hierarchical() && run.ctx.action == ScheduleAction::Start
}

/// Every call that the run will have made when it is complete.
pub open spec fn all_calls(run: RunView) -> Seq<ActionCallView> {
    if awaits_members(run) {
        run.ctx.planned + resume_calls(run.ctx.groups)
    } else {
        run.ctx.planned
    }
}

/// What holds of a run at every moment: what it has found, what it plans
/// and what it reports fit together, and it stands in a stage only while
/// there is something to do in it.
pub open spec fn sound(run: RunView) -> bool {
    let c = run.ctx;
    let hierarchical = c.facade.spec_is_hierarchical();
    &&& c.report.calls.len() == c.report.outcomes.len()
    &&& hierarchical ==> c.arns.len() == 0
    &&& !hierarchical ==> c.groups.len() == 0 && c.members.len() == 0 && c.planned.len()
        == c.arns.len()
    &&& match run.stage {
        StageView::Locating { index, listing } => {
            &&& !hierarchical
            &&& index < c.facade.spec_families().len()
            &&& !listing.pager.is_finished()
            &&& listing.pager.failure is None
            &&& c.report.calls.len() == 0
        },
        StageView::ScanningGroups { scan } => {
            &&& hierarchical
            &&& !scan.pager.is_finished()
            &&& scan.pager.failure is None
            &&& c.groups.len() == 0
            &&& c.members.len() == 0
            &&& c.planned.len() == 0
            &&& c.report.calls.len() == 0
        },
        StageView::ExpandingMembers { expansion } => {
            &&& hierarchical
            &&& !expansion.pager.is_finished()
            &&& expansion.pager.failure is None
            &&& expansion.group_names == c.groups
            &&& c.members.len() == 0
            &&& c.planned.len() == 0
            &&& c.report.calls.len() == 0
        },
        StageView::Acting { batch } => {
            &&& batch.calls == c.planned
            &&& batch.outcomes.len() < batch.calls.len()
            &&& hierarchical ==> c.planned == group_calls(c.action, c.groups, c.members)
            &&& c.report.calls.len() == 0
        },
        StageView::Waiting { waiter } => {
            &&& awaits_members(run)
            &&& waiter.state() == WaitState::Polling
            &&& c.planned == group_calls(c.action, c.groups, c.members)
            &&& c.report.calls == c.planned
        },
        StageView::Resuming { batch } => {
            &&& awaits_members(run)
            &&& batch.calls == resume_calls(c.groups)
            &&& batch.outcomes.len() < batch.calls.len()
            &&& c.planned == group_calls(c.action, c.groups, c.members)
            &&& c.report.calls == c.planned
        },
        StageView::Finished => {
            &&& hierarchical ==> c.planned == group_calls(c.action, c.groups, c.members)
            &&& c.report.calls == all_calls(run)
        },
        StageView::Failed { cause } => c.report.calls.len() == 0,
    }
}

/// A run is sound as it begins.
pub proof fn lemma_begin_is_sound(
    facade: Facade,
    action: ScheduleAction,
    tag_key: Seq<char>,
    tag_value: Seq<char>,
)
    ensures
        sound(RunView::begin(facade, action, tag_key, tag_value).0),
        !(RunView::begin(facade, action, tag_key, tag_value).1 is Finished),
        !(RunView::begin(facade, action, tag_key, tag_value).1 is Invoke),
{
}

/// A sound run stays sound, whatever comes of the step that was due.
pub proof fn lemma_advance_is_sound(run: RunView, event: EventView)
    requires
        sound(run),
    ensures
        sound(run.advance(event).0),
{
    let c = run.ctx;
    match run.stage {
        StageView::Locating { index, listing } => {
            lemma_locating_is_sound(run, event);
        },
        StageView::ScanningGroups { scan } => {
            lemma_scanning_is_sound(run, event);
        },
        StageView::ExpandingMembers { expansion } => {
            lemma_expanding_is_sound(run, event);
        },
        StageView::Acting { batch } => {
            lemma_acting_is_sound(run, event);
        },
        StageView::Waiting { waiter } => {
            lemma_waiting_is_sound(run, event);
        },
        StageView::Resuming { batch } => {
            lemma_resuming_is_sound(run, event);
        },
        StageView::Finished => {},
        StageView::Failed { cause } => {},
    }
}

proof fn lemma_settle_acting_is_sound(run: RunView, batch: BatchView)
    requires
        sound(RunView { ctx: run.ctx, stage: StageView::Acting { batch } }) || ({
            &&& batch.calls == run.ctx.planned
            &&& batch.outcomes.len() == batch.calls.len()
            &&& run.ctx.report.calls.len() == 0
            &&& run.ctx.report.outcomes.len() == 0
            &&& run.ctx.facade.spec_is_hierarchical() ==> run.ctx.arns.len() == 0 && run.ctx.planned
                == group_calls(run.ctx.action, run.ctx.groups, run.ctx.members)
            &&& !run.ctx.facade.spec_is_hierarchical() ==> run.ctx.groups.len() == 0
                && run.ctx.members.len() == 0 && run.ctx.planned.len() == run.ctx.arns.len()
        }),
    ensures
        sound(run.ctx.settle_acting(batch).0),
{
    let c = run.ctx;
    if batch.step() is Finished {
        let reported = c.reported(batch);
        assert(reported.report.calls =~= c.planned);
        assert(reported.report.outcomes =~= batch.outcomes);
        if awaits_members(run) {
            let waiter = WaiterView::begin(
                batch.succeeded(),
                crate::facade::awaited_state(),
                crate::waiter::DEFAULT_MAX_ATTEMPTS as nat,
                crate::waiter::DEFAULT_INTERVAL_SECS as nat,
            );
            lemma_settle_waiting_is_sound(RunView { ctx: reported, stage: run.stage }, waiter);
        }
    }
}

proof fn lemma_settle_waiting_is_sound(run: RunView, waiter: WaiterView)
    requires
        awaits_members(run),
        run.ctx.arns.len() == 0,
        run.ctx.planned == group_calls(run.ctx.action, run.ctx.groups, run.ctx.members),
        run.ctx.report.calls == run.ctx.planned,
        run.ctx.report.calls.len() == run.ctx.report.outcomes.len(),
    ensures
        sound(run.ctx.settle_waiting(waiter).0),
{
    if waiter.state() != WaitState::Polling {
        let c = run.ctx;
        let batch = BatchView::begin(resume_calls(c.groups));
        let next = c.settle_waiting(waiter).0;
        if batch.step() is Finished {
            assert(batch.calls.len() == 0);
            assert(next.ctx.report.calls =~= all_calls(next));
            assert(next.ctx.report.outcomes =~= c.report.outcomes);
        }
    }
}

proof fn lemma_locating_is_sound(run: RunView, event: EventView)
    requires
        sound(run),
        run.stage is Locating,
    ensures
        sound(run.advance(event).0),
{
    let c = run.ctx;
    let index = run.stage->Locating_index;
    let listing = run.stage->Locating_listing;
    let after = match event {
        EventView::Resources(page) => listing.take_page(page),
        EventView::Failed(cause) => listing.fail(cause),
        _ => listing,
    };
    if after.pager.failure is None && after.request() is None {
        let families = c.facade.spec_families();
        let found = calls_for(families[index as int], c.action, after.pager.found);
        let ctx = crate::facade::ContextView {
            arns: c.arns + after.pager.found,
            planned: c.planned + found,
            ..c
        };
        assert(found.len() == after.pager.found.len());
        if !(index + 1 < families.len()) {
            lemma_settle_acting_is_sound(
                RunView { ctx, stage: run.stage },
                BatchView::begin(ctx.planned),
            );
        }
    }
}

proof fn lemma_settle_expanding_is_sound(
    run: RunView,
    expansion: crate::autoscaling::MemberExpansionView,
)
    requires
        run.ctx.facade.spec_is_hierarchical(),
        run.ctx.arns.len() == 0,
        run.ctx.members.len() == 0,
        run.ctx.planned.len() == 0,
        run.ctx.report.calls.len() == 0,
        run.ctx.report.outcomes.len() == 0,
        expansion.group_names == run.ctx.groups,
        expansion.pager.failure is Some ==> expansion.pager.is_finished(),
    ensures
        sound(run.ctx.settle_expanding(expansion).0),
{
    let c = run.ctx;
    if expansion.request() is None && expansion.pager.failure is None {
        let ctx = crate::facade::ContextView {
            members: expansion.pager.found,
            planned: group_calls(c.action, c.groups, expansion.pager.found),
            ..c
        };
        lemma_settle_acting_is_sound(
            RunView { ctx, stage: run.stage },
            BatchView::begin(ctx.planned),
        );
    }
}

proof fn lemma_scanning_is_sound(run: RunView, event: EventView)
    requires
        sound(run),
        run.stage is ScanningGroups,
    ensures
        sound(run.advance(event).0),
{
    let c = run.ctx;
    let scan = run.stage->ScanningGroups_scan;
    let after = match event {
        EventView::Groups(groups, token) => scan.take_page(groups, token),
        EventView::Failed(cause) => scan.fail(cause),
        _ => scan,
    };
    if after.pager.failure is None && after.request() is None {
        let ctx = crate::facade::ContextView { groups: after.pager.found, ..c };
        lemma_settle_expanding_is_sound(
            RunView { ctx, stage: run.stage },
            crate::autoscaling::MemberExpansionView::begin(ctx.groups),
        );
    }
}

proof fn lemma_expanding_is_sound(run: RunView, event: EventView)
    requires
        sound(run),
        run.stage is ExpandingMembers,
    ensures
        sound(run.advance(event).0),
{
    let expansion = run.stage->ExpandingMembers_expansion;
    let after = match event {
        EventView::Groups(groups, token) => expansion.take_page(groups, token),
        EventView::Failed(cause) => expansion.fail(cause),
        _ => expansion,
    };
    lemma_settle_expanding_is_sound(run, after);
}

proof fn lemma_acting_is_sound(run: RunView, event: EventView)
    requires
        sound(run),
        run.stage is Acting,
    ensures
        sound(run.advance(event).0),
{
    let batch = run.stage->Acting_batch;
    let after = batch_after(batch, event);
    assert(after.calls == batch.calls);
    assert(after.outcomes.len() <= batch.calls.len());
    lemma_settle_acting_is_sound(run, after);
}

proof fn lemma_waiting_is_sound(run: RunView, event: EventView)
    requires
        sound(run),
        run.stage is Waiting,
    ensures
        sound(run.advance(event).0),
{
    let waiter = run.stage->Waiting_waiter;
    lemma_settle_waiting_is_sound(run, waiter_after(waiter, event));
}

proof fn lemma_resuming_is_sound(run: RunView, event: EventView)
    requires
        sound(run),
        run.stage is Resuming,
    ensures
        sound(run.advance(event).0),
{
    let c = run.ctx;
    let batch = run.stage->Resuming_batch;
    let after = batch_after(batch, event);
    if after.step() is Finished {
        let next = c.settle_resuming(after).0;
        assert(next.ctx.report.calls =~= all_calls(next));
    }
}

/// Failure isolation within a run. When a run is complete, every resource
/// it found was attempted, whatever became of the others: there is one call
/// and one outcome for each ARN found by tag, or for each compute group and
/// each member instance.
pub proof fn lemma_every_resource_is_attempted(run: RunView)
    requires
        sound(run),
        run.stage is Finished,
    ensures
        run.ctx.report.outcomes.len() == run.ctx.report.calls.len(),
        run.ctx.report.calls == all_calls(run),
        run.ctx.report.calls.len() == run.ctx.arns.len() + run.ctx.groups.len()
            + run.ctx.members.len(),
{
}

/// A lookup that fails ends the run at once, before any call is made, and
/// a run that was given up stays given up.
pub proof fn lemma_failed_lookup_ends_the_run(run: RunView, cause: Seq<char>, later: EventView)
    requires
        sound(run),
        run.stage is Locating || run.stage is ScanningGroups || run.stage is ExpandingMembers,
    ensures
        run.advance(EventView::Failed(cause)).0.stage == (StageView::Failed { cause }),
        run.advance(EventView::Failed(cause)).1 == StepView::Failed(cause),
        run.advance(EventView::Failed(cause)).0.ctx.report.calls.len() == 0,
        run.advance(EventView::Failed(cause)).0.advance(later) == run.advance(
            EventView::Failed(cause),
        ),
{
}

/// A call that fails, or an owner that cannot be looked up, does not end
/// the run: the failure becomes the outcome of that one resource.
pub proof fn lemma_failed_call_does_not_end_the_run(run: RunView, cause: Seq<char>)
    requires
        sound(run),
        run.stage is Acting || run.stage is Resuming,
    ensures
        !(run.advance(EventView::Failed(cause)).0.stage is Failed),
        !(run.advance(EventView::Failed(cause)).1 is Failed),
{
    lemma_advance_is_sound(run, EventView::Failed(cause));
}

/// To stop compute groups, every group is suspended before any member
/// instance is stopped.
pub proof fn lemma_groups_are_suspended_first(groups: Seq<Seq<char>>, members: Seq<Seq<char>>)
    ensures
        group_calls(ScheduleAction::Stop, groups, members).len() == groups.len() + members.len(),
        forall|i: int|
            0 <= i < groups.len() ==> {
                let call = #[trigger] group_calls(ScheduleAction::Stop, groups, members)[i];
                call.family == ResourceFamily::ComputeGroup && call.verb == Verb::Suspend
                    && call.resource == groups[i]
            },
        forall|i: int|
            groups.len() <= i < groups.len() + members.len() ==> {
                let call = #[trigger] group_calls(ScheduleAction::Stop, groups, members)[i];
                call.family == ResourceFamily::ComputeInstance && call.verb == Verb::Stop
                    && call.resource == members[i - groups.len()]
            },
{
}

/// To start compute groups, the member instances are started first, and a
/// group is resumed only when no started member is awaited any more: the wait
/// was satisfied, timed out or was aborted, or no member was started, or the
/// groups have no member at all.
pub proof fn lemma_groups_are_resumed_last(run: RunView, event: EventView)
    requires
        sound(run),
        awaits_members(run),
    ensures
        ({
            let (next, step) = run.advance(event);
            &&& (step matches StepView::Invoke(call) && call.verb == Verb::Resume)
                ==> next.stage is Resuming
            &&& (next.stage is Resuming || next.stage is Finished) ==> {
                ||| run.stage is Resuming
                ||| run.stage is Finished
                ||| (run.stage matches StageView::Waiting { waiter } && waiter_after(
                    waiter,
                    event,
                ).state() != WaitState::Polling)
                ||| (run.stage matches StageView::Acting { batch } && batch_after(
                    batch,
                    event,
                ).is_finished() && batch_after(batch, event).succeeded().len() == 0)
                ||| ((run.stage is ScanningGroups || run.stage is ExpandingMembers)
                    && next.ctx.members.len() == 0)
            }
        }),
{
    lemma_advance_is_sound(run, event);
    let (next, step) = run.advance(event);
    match run.stage {
        StageView::Acting { batch } => {
            let after = batch_after(batch, event);
            if !after.is_finished() {
                let i = after.outcomes.len() as int;
                assert(after.calls[i] == member_calls(run.ctx.action, run.ctx.members)[i]);
            }
        },
        _ => {},
    }
}

/// The run after these events, each answering the step that was due.
pub open spec fn after_events(run: RunView, events: Seq<EventView>) -> RunView
    decreases events.len(),
{
    if events.len() == 0 {
        run
    } else {
        after_events(run, events.drop_last()).advance(events.last()).0
    }
}

/// The pages of a lookup, as the events that hand them to a run.
pub open spec fn page_events(pages: Seq<PageView>) -> Seq<EventView> {
    Seq::new(pages.len(), |i: int| EventView::Resources(pages[i]))
}

/// The answers to a run's calls, as the events that hand them to it.
pub open spec fn result_events(results: Seq<Result<(), Seq<char>>>) -> Seq<EventView> {
    Seq::new(
        results.len(),
        |i: int|
            match results[i] {
                Ok(_) => EventView::Done,
                Err(cause) => EventView::Failed(cause),
            },
    )
}

/// Whether the facade is flat: one family, found by tag, acted on at once.
pub open spec fn is_flat(facade: Facade) -> bool {
    &&& !facade.spec_is_hierarchical()
    &&& facade.spec_families().len() == 1
    &&& !facade.spec_families()[0].spec_may_be_owned()
}

/// Events taken one after the other are taken in order.
pub proof fn lemma_after_events_add(run: RunView, first: Seq<EventView>, second: Seq<EventView>)
    ensures
        after_events(run, first + second) == after_events(after_events(run, first), second),
    decreases second.len(),
{
    if second.len() == 0 {
        assert(first + second =~= first);
    } else {
        assert((first + second).drop_last() =~= first + second.drop_last());
        assert((first + second).last() == second.last());
        lemma_after_events_add(run, first, second.drop_last());
    }
}

proof fn lemma_flat_run_locates(
    facade: Facade,
    action: ScheduleAction,
    tag_key: Seq<char>,
    tag_value: Seq<char>,
    pages: Seq<PageView>,
)
    requires
        is_flat(facade),
        forall|i: int| 0 <= i < pages.len() ==> crate::paging::continues(#[trigger] pages[i].token),
    ensures
        ({
            let begin = RunView::begin(facade, action, tag_key, tag_value).0;
            let now = after_events(begin, page_events(pages));
            &&& now.ctx == begin.ctx
            &&& begin.stage is Locating
            &&& now.stage == (StageView::Locating {
                index: 0,
                listing: crate::filter_resources_by_tags::ListingView {
                    pager: PagerView::start().take_pages(pages),
                    ..begin.stage->Locating_listing
                },
            })
        }),
    decreases pages.len(),
{
    let begin = RunView::begin(facade, action, tag_key, tag_value).0;
    if pages.len() > 0 {
        let front = pages.drop_last();
        assert forall|i: int| 0 <= i < front.len() implies crate::paging::continues(
            #[trigger] front[i].token,
        ) by {
            assert(front[i] == pages[i]);
        }
        lemma_flat_run_locates(facade, action, tag_key, tag_value, front);
        lemma_unfinished_listing(PagerView::start(), front);
        lemma_unfinished_listing(PagerView::start(), pages);
        assert(page_events(pages).drop_last() =~= page_events(front));
        assert(page_events(pages).last() == EventView::Resources(pages.last()));
    }
}

proof fn lemma_flat_run_acts(
    run: RunView,
    planned: Seq<ActionCallView>,
    results: Seq<Result<(), Seq<char>>>,
)
    requires
        !awaits_members(run),
        results.len() <= planned.len(),
        forall|i: int| 0 <= i < planned.len() ==> !(#[trigger] planned[i]).check_owner,
        run == run.ctx.settle_acting(BatchView::begin(planned)).0,
    ensures
        after_events(run, result_events(results)) == run.ctx.settle_acting(
            BatchView::begin(planned).complete_all(results),
        ).0,
    decreases results.len(),
{
    if results.len() > 0 {
        let front = results.drop_last();
        lemma_flat_run_acts(run, planned, front);
        lemma_every_call_is_attempted(planned, front);
        let batch = BatchView::begin(planned).complete_all(front);
        assert(!planned[batch.outcomes.len() as int].check_owner);
        assert(batch.step() is Invoke);
        assert(result_events(results).drop_last() =~= result_events(front));
    }
}

/// A flat facade, from its first step to its last. When the lookup serves
/// its pages and every call is answered, the run is complete; it has made
/// one call for each resource of the pages, once however often the resource
/// was served, in the order in which the resources first came; and the
/// outcome of each call is its own answer, whatever became of the others.
pub proof fn lemma_flat_run_attempts_every_resource(
    facade: Facade,
    action: ScheduleAction,
    tag_key: Seq<char>,
    tag_value: Seq<char>,
    pages: Seq<PageView>,
    results: Seq<Result<(), Seq<char>>>,
)
    requires
        is_flat(facade),
        one_listing(pages),
        results.len() == distinct(all_items(pages)).len(),
    ensures
        ({
            let end = after_events(
                RunView::begin(facade, action, tag_key, tag_value).0,
                page_events(pages) + result_events(results),
            );
            let found = distinct(all_items(pages));
            let calls = calls_for(facade.spec_families()[0], action, found);
            &&& end.stage is Finished
            &&& end.ctx.arns == found
            &&& found.no_duplicates()
            &&& found.to_set() == all_items(pages).to_set()
            &&& end.ctx.report.calls == calls
            &&& end.ctx.report.outcomes.len() == calls.len()
            &&& forall|i: int|
                0 <= i < calls.len() ==> #[trigger] end.ctx.report.outcomes[i] == outcome_of(
                    calls[i],
                    results[i],
                )
        }),
{
    let begin = RunView::begin(facade, action, tag_key, tag_value).0;
    let family = facade.spec_families()[0];
    let found = distinct(all_items(pages));
    let calls = calls_for(family, action, found);
    let front = pages.drop_last();
    assert forall|i: int| 0 <= i < front.len() implies crate::paging::continues(
        #[trigger] front[i].token,
    ) by {
        assert(front[i] == pages[i]);
    }
    lemma_flat_run_locates(facade, action, tag_key, tag_value, front);
    lemma_unfinished_listing(PagerView::start(), front);
    crate::paging::lemma_listing_is_union_of_pages(PagerView::start(), pages);
    crate::paging::lemma_page_boundaries_do_not_matter(pages, pages);
    assert(page_events(pages).drop_last() =~= page_events(front));
    assert(page_events(pages).last() == EventView::Resources(pages.last()));
    let located = after_events(begin, page_events(pages));
    assert(Seq::<Seq<char>>::empty() + found =~= found);
    assert(Seq::<ActionCallView>::empty() + calls =~= calls);
    let ctx = crate::facade::ContextView { arns: found, planned: calls, ..begin.ctx };
    assert(located == ctx.settle_acting(BatchView::begin(calls)).0);
    assert(located.ctx.facade == facade);
    assert forall|i: int| 0 <= i < calls.len() implies !(#[trigger] calls[i]).check_owner by {}
    lemma_flat_run_acts(located, calls, results);
    lemma_every_call_is_attempted(calls, results);
    lemma_after_events_add(begin, page_events(pages), result_events(results));
    let batch = BatchView::begin(calls).complete_all(results);
    let end = located.ctx.settle_acting(batch).0;
    assert(end.ctx.report.calls =~= calls);
    assert(end.ctx.report.outcomes =~= batch.outcomes);
}

/// One page of group descriptions, as a backend serves it.
pub struct GroupPageView {
    pub groups: Seq<GroupView>,
    pub token: Option<Seq<char>>,
}

/// Pages of group descriptions, as the events that hand them to a run.
pub open spec fn group_page_events(pages: Seq<GroupPageView>) -> Seq<EventView> {
    Seq::new(pages.len(), |i: int| EventView::Groups(pages[i].groups, pages[i].token))
}

/// What the search for tagged groups takes from each page: the names of
/// the groups that carry the tag.
pub open spec fn name_pages(pages: Seq<GroupPageView>, tag_key: Seq<char>, tag_value: Seq<char>) -> Seq<PageView> {
    Seq::new(
        pages.len(),
        |i: int|
            PageView {
                items: tagged_group_names(pages[i].groups, tag_key, tag_value),
                token: pages[i].token,
            },
    )
}

/// What the expansion takes from each page: the ids of the members.
pub open spec fn member_pages(pages: Seq<GroupPageView>) -> Seq<PageView> {
    Seq::new(
        pages.len(),
        |i: int| PageView { items: member_ids(pages[i].groups), token: pages[i].token },
    )
}

proof fn lemma_group_run_scans(
    action: ScheduleAction,
    tag_key: Seq<char>,
    tag_value: Seq<char>,
    pages: Seq<GroupPageView>,
)
    requires
        forall|i: int| 0 <= i < pages.len() ==> crate::paging::continues(#[trigger] pages[i].token),
    ensures
        ({
            let begin = RunView::begin(Facade::AutoScaling, action, tag_key, tag_value).0;
            let now = after_events(begin, group_page_events(pages));
            &&& now.ctx == begin.ctx
            &&& now.stage == (StageView::ScanningGroups {
                scan: GroupScanView {
                    tag_key,
                    tag_value,
                    pager: PagerView::start().take_pages(name_pages(pages, tag_key, tag_value)),
                },
            })
        }),
    decreases pages.len(),
{
    if pages.len() > 0 {
        let front = pages.drop_last();
        let names = name_pages(pages, tag_key, tag_value);
        assert forall|i: int| 0 <= i < front.len() implies crate::paging::continues(
            #[trigger] front[i].token,
        ) by {
            assert(front[i] == pages[i]);
        }
        lemma_group_run_scans(action, tag_key, tag_value, front);
        assert(names.drop_last() =~= name_pages(front, tag_key, tag_value));
        assert forall|i: int| 0 <= i < names.len() implies crate::paging::continues(
            #[trigger] names[i].token,
        ) by {
            assert(crate::paging::continues(pages[i].token));
        }
        lemma_unfinished_listing(PagerView::start(), names.drop_last());
        lemma_unfinished_listing(PagerView::start(), names);
        assert(group_page_events(pages).drop_last() =~= group_page_events(front));
        assert(group_page_events(pages).last() == EventView::Groups(
            pages.last().groups,
            pages.last().token,
        ));
    }
}

proof fn lemma_group_run_expands(run: RunView, pages: Seq<GroupPageView>)
    requires
        run.stage == (StageView::ExpandingMembers {
            expansion: MemberExpansionView::begin(run.ctx.groups),
        }),
        run.ctx.groups.len() > 0,
        forall|i: int| 0 <= i < pages.len() ==> crate::paging::continues(#[trigger] pages[i].token),
    ensures
        after_events(run, group_page_events(pages)) == (RunView {
            ctx: run.ctx,
            stage: StageView::ExpandingMembers {
                expansion: MemberExpansionView {
                    group_names: run.ctx.groups,
                    pager: PagerView::start().take_pages(member_pages(pages)),
                },
            },
        }),
    decreases pages.len(),
{
    if pages.len() > 0 {
        let front = pages.drop_last();
        let members = member_pages(pages);
        assert forall|i: int| 0 <= i < front.len() implies crate::paging::continues(
            #[trigger] front[i].token,
        ) by {
            assert(front[i] == pages[i]);
        }
        lemma_group_run_expands(run, front);
        assert(members.drop_last() =~= member_pages(front));
        assert forall|i: int| 0 <= i < members.len() implies crate::paging::continues(
            #[trigger] members[i].token,
        ) by {
            assert(crate::paging::continues(pages[i].token));
        }
        lemma_unfinished_listing(PagerView::start(), members.drop_last());
        lemma_unfinished_listing(PagerView::start(), members);
        assert(group_page_events(pages).drop_last() =~= group_page_events(front));
        assert(group_page_events(pages).last() == EventView::Groups(
            pages.last().groups,
            pages.last().token,
        ));
    }
}

/// Stopping compute groups, from the first step to the last, however many
/// pages the search and the expansion take. When both serve their pages and
/// every call is answered, the run is complete; every tagged group was
/// suspended, once, before any member instance was stopped; every member of
/// those groups was stopped, once; and the outcome of each call is its own
/// answer, whatever became of the others.
pub proof fn lemma_group_stop_attempts_every_resource(
    tag_key: Seq<char>,
    tag_value: Seq<char>,
    scanned: Seq<GroupPageView>,
    expanded: Seq<GroupPageView>,
    results: Seq<Result<(), Seq<char>>>,
)
    requires
        one_listing(name_pages(scanned, tag_key, tag_value)),
        distinct(all_items(name_pages(scanned, tag_key, tag_value))).len() > 0,
        one_listing(member_pages(expanded)),
        results.len() == distinct(all_items(name_pages(scanned, tag_key, tag_value))).len()
            + distinct(all_items(member_pages(expanded))).len(),
    ensures
        ({
            let end = after_events(
                RunView::begin(Facade::AutoScaling, ScheduleAction::Stop, tag_key, tag_value).0,
                group_page_events(scanned) + group_page_events(expanded) + result_events(results),
            );
            let groups = distinct(all_items(name_pages(scanned, tag_key, tag_value)));
            let members = distinct(all_items(member_pages(expanded)));
            let calls = group_calls(ScheduleAction::Stop, groups, members);
            &&& end.stage is Finished
            &&& end.ctx.groups == groups
            &&& end.ctx.members == members
            &&& groups.no_duplicates()
            &&& members.no_duplicates()
            &&& end.ctx.report.calls == calls
            &&& end.ctx.report.outcomes.len() == calls.len()
            &&& forall|i: int|
                0 <= i < calls.len() ==> #[trigger] end.ctx.report.outcomes[i] == outcome_of(
                    calls[i],
                    results[i],
                )
        }),
{
    let action = ScheduleAction::Stop;
    let begin = RunView::begin(Facade::AutoScaling, action, tag_key, tag_value).0;
    let names = name_pages(scanned, tag_key, tag_value);
    let ids = member_pages(expanded);
    let groups = distinct(all_items(names));
    let members = distinct(all_items(ids));
    let calls = group_calls(action, groups, members);

    // the search
    let scan_front = scanned.drop_last();
    assert forall|i: int| 0 <= i < scan_front.len() implies crate::paging::continues(
        #[trigger] scan_front[i].token,
    ) by {
        assert(scan_front[i] == scanned[i]);
        assert(names[i].token == scanned[i].token);
    }
    lemma_group_run_scans(action, tag_key, tag_value, scan_front);
    assert(names.drop_last() =~= name_pages(scan_front, tag_key, tag_value));
    lemma_unfinished_listing(PagerView::start(), names.drop_last());
    crate::paging::lemma_page_boundaries_do_not_matter(names, names);
    crate::paging::lemma_listing_is_union_of_pages(PagerView::start(), names);
    assert(group_page_events(scanned).drop_last() =~= group_page_events(scan_front));
    assert(group_page_events(scanned).last() == EventView::Groups(
        scanned.last().groups,
        scanned.last().token,
    ));
    assert(names.last() == (PageView {
        items: tagged_group_names(scanned.last().groups, tag_key, tag_value),
        token: scanned.last().token,
    }));
    let scanned_run = after_events(begin, group_page_events(scanned));
    let ctx1 = crate::facade::ContextView { groups, ..begin.ctx };
    assert(scanned_run == (RunView {
        ctx: ctx1,
        stage: StageView::ExpandingMembers { expansion: MemberExpansionView::begin(groups) },
    }));

    // the expansion
    let expand_front = expanded.drop_last();
    assert forall|i: int| 0 <= i < expand_front.len() implies crate::paging::continues(
        #[trigger] expand_front[i].token,
    ) by {
        assert(expand_front[i] == expanded[i]);
        assert(ids[i].token == expanded[i].token);
    }
    lemma_group_run_expands(scanned_run, expand_front);
    assert(ids.drop_last() =~= member_pages(expand_front));
    lemma_unfinished_listing(PagerView::start(), ids.drop_last());
    crate::paging::lemma_page_boundaries_do_not_matter(ids, ids);
    crate::paging::lemma_listing_is_union_of_pages(PagerView::start(), ids);
    assert(group_page_events(expanded).drop_last() =~= group_page_events(expand_front));
    assert(group_page_events(expanded).last() == EventView::Groups(
        expanded.last().groups,
        expanded.last().token,
    ));
    assert(ids.last() == (PageView {
        items: member_ids(expanded.last().groups),
        token: expanded.last().token,
    }));
    let expanded_run = after_events(scanned_run, group_page_events(expanded));
    let ctx2 = crate::facade::ContextView { members, planned: calls, ..ctx1 };
    assert(expanded_run == ctx2.settle_acting(BatchView::begin(calls)).0);

    // the calls
    assert(calls.len() == groups.len() + members.len());
    assert forall|i: int| 0 <= i < calls.len() implies !(#[trigger] calls[i]).check_owner by {}
    assert(expanded_run.ctx.facade == Facade::AutoScaling && expanded_run.ctx.action == action);
    lemma_flat_run_acts(expanded_run, calls, results);
    lemma_every_call_is_attempted(calls, results);
    lemma_after_events_add(begin, group_page_events(scanned), group_page_events(expanded));
    lemma_after_events_add(
        begin,
        group_page_events(scanned) + group_page_events(expanded),
        result_events(results),
    );
    let batch = BatchView::begin(calls).complete_all(results);
    let end = expanded_run.ctx.settle_acting(batch).0;
    assert(end.ctx.report.calls =~= calls);
    assert(end.ctx.report.outcomes =~= batch.outcomes);
}

} // verus!
