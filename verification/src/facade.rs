//! One run of one facade: find the resources, act on each, and, for a
//! compute group that is started, wait before the group is resumed.
//!
//! A run asks for one step at a time. The caller carries the step out and
//! hands back what came of it; the run then says what comes next. A lookup
//! that fails ends the run. A call that fails is reported and the run
//! goes on with the next call.

use vstd::prelude::*;
use vstd::string::*;
use crate::apprunner::{extract_service_name, service_name};
use crate::arn::last_segment;
use crate::autoscaling::{
    find_owner,
    group_views,
    membership_views,
    owner_of,
    GroupPage,
    GroupRequest,
    GroupRequestView,
    GroupScan,
    GroupScanView,
    GroupView,
    MemberExpansion,
    MemberExpansionView,
    Membership,
    MembershipView,
};
use crate::cloudwatch::extract_alarm_name;
use crate::config::ScheduleAction;
use crate::documentdb;
use crate::ec2::extract_instance_id;
use crate::ecs::{desired_count, ecs_names, extract_ecs_names, spec_desired_count};
use crate::executor::{
    call_views,
    copy_call,
    outcome_views,
    ActionCall,
    ActionCallView,
    Batch,
    BatchStep,
    BatchStepView,
    BatchView,
    Outcome,
    OutcomeView,
};
use crate::family::{Facade, ResourceFamily, Verb};
use crate::filter_resources_by_tags::{
    get_resources,
    ListRequest,
    ListRequestView,
    Listing,
    ListingView,
    ResourcePage,
};
use crate::paging::{DiscoveryError, PageView, PagerView};
use crate::rds::extract_rds_id;
use crate::redshift;
use crate::text::{append_copies, copy_string, copy_strings, opt_view, or_empty, views};
use crate::transfer::extract_server_id;
use crate::waiter::{
    observation_views,
    wait_result_view,
    WaitError,
    WaitErrorView,
    Observation,
    ObservationView,
    WaitState,
    WaitStep,
    WaitStepView,
    Waiter,
    WaiterView,
    DEFAULT_INTERVAL_SECS,
    DEFAULT_MAX_ATTEMPTS,
};

verus! {

/// The state that a started member instance is awaited in.
pub open spec fn awaited_state() -> Seq<char> {
    "running"@
}

/// The call that carries out `action` on the resource of `family` found
/// under `arn`. The identifier handed to the provider is cut out of the ARN
/// as the family has it; a text that is no ARN is handed on whole.
pub open spec fn call_for(family: ResourceFamily, action: ScheduleAction, arn: Seq<char>) -> ActionCallView {
    let verb = family.spec_verb(action);
    match family {
        ResourceFamily::ContainerService => ActionCallView {
            family,
            verb,
            resource: ecs_names(arn).1,
            name: ecs_names(arn).1,
            cluster: ecs_names(arn).0,
            desired_count: Some(spec_desired_count(action == ScheduleAction::Start)),
            check_owner: false,
        },
        ResourceFamily::AppRunnerService => ActionCallView {
            family,
            verb,
            resource: arn,
            name: service_name(arn),
            cluster: Seq::empty(),
            desired_count: None,
            check_owner: false,
        },
        ResourceFamily::ComputeInstance => ActionCallView {
            family,
            verb,
            resource: last_segment(arn, '/'),
            name: last_segment(arn, '/'),
            cluster: Seq::empty(),
            desired_count: None,
            check_owner: true,
        },
        ResourceFamily::TransferEndpoint => ActionCallView {
            family,
            verb,
            resource: last_segment(arn, '/'),
            name: last_segment(arn, '/'),
            cluster: Seq::empty(),
            desired_count: None,
            check_owner: false,
        },
        ResourceFamily::ComputeGroup => ActionCallView {
            family,
            verb,
            resource: arn,
            name: arn,
            cluster: Seq::empty(),
            desired_count: None,
            check_owner: false,
        },
        _ => ActionCallView {
            family,
            verb,
            resource: last_segment(arn, ':'),
            name: last_segment(arn, ':'),
            cluster: Seq::empty(),
            desired_count: None,
            check_owner: false,
        },
    }
}

/// The call for each of `arns`, in order.
pub open spec fn calls_for(family: ResourceFamily, action: ScheduleAction, arns: Seq<Seq<char>>) -> Seq<ActionCallView> {
    Seq::new(arns.len(), |i: int| call_for(family, action, arns[i]))
}

/// The call that carries out `action` on a member instance of a compute
/// group. The instance is known by its id, and is not looked up for an
/// owner: its group is the one being handled.
pub open spec fn member_call(action: ScheduleAction, instance_id: Seq<char>) -> ActionCallView {
    ActionCallView {
        family: ResourceFamily::ComputeInstance,
        verb: ResourceFamily::ComputeInstance.spec_verb(action),
        resource: instance_id,
        name: instance_id,
        cluster: Seq::empty(),
        desired_count: None,
        check_owner: false,
    }
}

/// The call for each member instance, in order.
pub open spec fn member_calls(action: ScheduleAction, ids: Seq<Seq<char>>) -> Seq<ActionCallView> {
    Seq::new(ids.len(), |i: int| member_call(action, ids[i]))
}

/// The calls made first for a compute group facade. To stop, every group
/// is suspended before any member is stopped. To start, the members are
/// started; the groups are resumed later, after the wait.
pub open spec fn group_calls(action: ScheduleAction, groups: Seq<Seq<char>>, members: Seq<Seq<char>>) -> Seq<ActionCallView> {
    match action {
        ScheduleAction::Stop => calls_for(ResourceFamily::ComputeGroup, action, groups)
            + member_calls(action, members),
        ScheduleAction::Start => member_calls(action, members),
    }
}

/// What the caller is to do next.
pub enum Step {
    /// Send this lookup by tag; answer with `Event::Resources` or `Event::Failed`.
    ListResources(ListRequest),
    /// Ask for these group descriptions; answer with `Event::Groups` or `Event::Failed`.
    DescribeGroups(GroupRequest),
    /// Look up the groups this instance is a member of; answer with
    /// `Event::Owner` or `Event::Failed`.
    LookupOwner(String),
    /// Make this call; answer with `Event::Done` or `Event::Failed`.
    Invoke(ActionCall),
    /// Query the state of these instances in one call; answer with
    /// `Event::States` or `Event::Failed`.
    QueryStates(Vec<String>),
    /// Suspend for this many seconds; answer with `Event::Rested`.
    Sleep(u64),
    /// The run is complete.
    Finished,
    /// The run was given up.
    Failed(DiscoveryError),
}

/// The model of a `Step`.
pub enum StepView {
    ListResources(ListRequestView),
    DescribeGroups(GroupRequestView),
    LookupOwner(Seq<char>),
    Invoke(ActionCallView),
    QueryStates(Seq<Seq<char>>),
    Sleep(nat),
    Finished,
    Failed(Seq<char>),
}

impl View for Step {
    type V = StepView;

    open spec fn view(&self) -> StepView {
        match self {
            Step::ListResources(r) => StepView::ListResources(r@),
            Step::DescribeGroups(r) => StepView::DescribeGroups(r@),
            Step::LookupOwner(id) => StepView::LookupOwner(id@),
            Step::Invoke(call) => StepView::Invoke(call@),
            Step::QueryStates(ids) => StepView::QueryStates(views(ids@)),
            Step::Sleep(secs) => StepView::Sleep(*secs as nat),
            Step::Finished => StepView::Finished,
            Step::Failed(e) => StepView::Failed(e.cause@),
        }
    }
}

/// What came of the step that was due.
pub enum Event {
    /// A page of the lookup by tag.
    Resources(ResourcePage),
    /// A page of group descriptions.
    Groups(GroupPage),
    /// The memberships found for the instance.
    Owner(Vec<Membership>),
    /// The call was accepted.
    Done,
    /// The states that the instances were seen in.
    States(Vec<Observation>),
    /// The rest was taken.
    Rested,
    /// The request could not be made or was refused, for this cause.
    Failed(String),
}

/// The model of an `Event`.
pub enum EventView {
    Resources(PageView),
    Groups(Seq<GroupView>, Option<Seq<char>>),
    Owner(Seq<MembershipView>),
    Done,
    States(Seq<ObservationView>),
    Rested,
    Failed(Seq<char>),
}

impl View for Event {
    type V = EventView;

    open spec fn view(&self) -> EventView {
        match self {
            Event::Resources(page) => EventView::Resources(page.spec_page()),
            Event::Groups(page) => EventView::Groups(
                group_views(page.groups@),
                opt_view(page.next_token),
            ),
            Event::Owner(ms) => EventView::Owner(membership_views(ms@)),
            Event::Done => EventView::Done,
            Event::States(obs) => EventView::States(observation_views(obs@)),
            Event::Rested => EventView::Rested,
            Event::Failed(cause) => EventView::Failed(cause@),
        }
    }
}

/// What a run has done: its calls with the outcome of each, and how the
/// wait ended if there was one: with success, with the resources that
/// remained at the timeout, or with the cause of the query that failed.
pub struct Report {
    pub calls: Vec<ActionCall>,
    pub outcomes: Vec<Outcome>,
    pub wait: Option<Result<(), WaitError>>,
}

/// The model of a `Report`.
pub struct ReportView {
    pub calls: Seq<ActionCallView>,
    pub outcomes: Seq<OutcomeView>,
    pub wait: Option<Result<(), WaitErrorView>>,
}

impl View for Report {
    type V = ReportView;

    open spec fn view(&self) -> ReportView {
        ReportView {
            calls: call_views(self.calls@),
            outcomes: outcome_views(self.outcomes@),
            wait: wait_result_view(self.wait),
        }
    }
}

/// What a run knows whatever its stage: the model.
pub struct ContextView {
    pub facade: Facade,
    pub action: ScheduleAction,
    pub tag_key: Seq<char>,
    pub tag_value: Seq<char>,
    /// The ARNs found by the lookups by tag that are complete.
    pub arns: Seq<Seq<char>>,
    /// The tagged compute groups.
    pub groups: Seq<Seq<char>>,
    /// The member instances of the tagged compute groups.
    pub members: Seq<Seq<char>>,
    /// The calls planned for what was found.
    pub planned: Seq<ActionCallView>,
    pub report: ReportView,
}

/// Where a run stands: the model.
pub enum StageView {
    /// The lookup by tag for the family at `index` is under way.
    Locating { index: nat, listing: ListingView },
    /// The tagged compute groups are being searched for.
    ScanningGroups { scan: GroupScanView },
    /// The members of the tagged groups are being read.
    ExpandingMembers { expansion: MemberExpansionView },
    /// The calls are being made.
    Acting { batch: BatchView },
    /// The started members are awaited.
    Waiting { waiter: WaiterView },
    /// The groups are being resumed.
    Resuming { batch: BatchView },
    Finished,
    Failed { cause: Seq<char> },
}

/// The model of a `Run`.
pub struct RunView {
    pub ctx: ContextView,
    pub stage: StageView,
}

impl ContextView {
    /// The lookup by tag for `family`.
    pub open spec fn listing_for(self, family: ResourceFamily) -> ListingView {
        ListingView {
            resource_type: or_empty(family.spec_resource_type()),
            tag_key: self.tag_key,
            tag_value: self.tag_value,
            pager: PagerView::start(),
        }
    }

    /// The report with the calls of `batch` and their outcomes added.
    pub open spec fn reported(self, batch: BatchView) -> ContextView {
        ContextView {
            report: ReportView {
                calls: self.report.calls + batch.calls,
                outcomes: self.report.outcomes + batch.outcomes,
                ..self.report
            },
            ..self
        }
    }

    /// A lookup failed: the run is given up.
    pub open spec fn fail(self, cause: Seq<char>) -> (RunView, StepView) {
        (RunView { ctx: self, stage: StageView::Failed { cause } }, StepView::Failed(cause))
    }

    pub open spec fn finish(self) -> (RunView, StepView) {
        (RunView { ctx: self, stage: StageView::Finished }, StepView::Finished)
    }

    /// Goes on with the lookup by tag. A lookup that was given up ends the
    /// run. When the lookup is complete, the calls for what it found are
    /// planned; then the next family is looked up, or, after the last, the
    /// calls are made.
    pub open spec fn settle_locating(self, index: nat, listing: ListingView) -> (RunView, StepView) {
        match listing.request() {
            Some(request) => (
                RunView { ctx: self, stage: StageView::Locating { index, listing } },
                StepView::ListResources(request),
            ),
            None => if listing.pager.failure is Some {
                self.fail(listing.pager.failure->0)
            } else {
                let families = self.facade.spec_families();
                let found = if index < families.len() {
                    calls_for(families[index as int], self.action, listing.pager.found)
                } else {
                    Seq::empty()
                };
                let ctx = ContextView {
                    arns: self.arns + listing.pager.found,
                    planned: self.planned + found,
                    ..self
                };
                if index + 1 < families.len() {
                    let next = ctx.listing_for(families[index as int + 1]);
                    (
                        RunView {
                            ctx,
                            stage: StageView::Locating { index: index + 1, listing: next },
                        },
                        StepView::ListResources(next.request()->0),
                    )
                } else {
                    ctx.settle_acting(BatchView::begin(ctx.planned))
                }
            },
        }
    }

    /// Goes on with the search for the tagged groups, and then with
    /// reading their members. A search that was given up ends the run.
    pub open spec fn settle_scanning(self, scan: GroupScanView) -> (RunView, StepView) {
        match scan.request() {
            Some(request) => (
                RunView { ctx: self, stage: StageView::ScanningGroups { scan } },
                StepView::DescribeGroups(request),
            ),
            None => if scan.pager.failure is Some {
                self.fail(scan.pager.failure->0)
            } else {
                let ctx = ContextView { groups: scan.pager.found, ..self };
                ctx.settle_expanding(MemberExpansionView::begin(ctx.groups))
            },
        }
    }

    /// Goes on with reading the members, and then with the calls. An
    /// expansion that was given up ends the run.
    pub open spec fn settle_expanding(self, expansion: MemberExpansionView) -> (RunView, StepView) {
        match expansion.request() {
            Some(request) => (
                RunView { ctx: self, stage: StageView::ExpandingMembers { expansion } },
                StepView::DescribeGroups(request),
            ),
            None => if expansion.pager.failure is Some {
                self.fail(expansion.pager.failure->0)
            } else {
                let ctx = ContextView {
                    members: expansion.pager.found,
                    planned: group_calls(self.action, self.groups, expansion.pager.found),
                    ..self
                };
                ctx.settle_acting(BatchView::begin(ctx.planned))
            },
        }
    }

    /// Goes on with the calls. When all are made, a compute group facade
    /// that starts awaits the members it started, and resumes its groups
    /// after that; every other run is complete.
    pub open spec fn settle_acting(self, batch: BatchView) -> (RunView, StepView) {
        match batch.step() {
            BatchStepView::LookupOwner(id) => (
                RunView { ctx: self, stage: StageView::Acting { batch } },
                StepView::LookupOwner(id),
            ),
            BatchStepView::Invoke(call) => (
                RunView { ctx: self, stage: StageView::Acting { batch } },
                StepView::Invoke(call),
            ),
            BatchStepView::Finished => {
                let ctx = self.reported(batch);
                if self.facade.spec_is_hierarchical() && self.action == ScheduleAction::Start {
                    ctx.settle_waiting(
                        WaiterView::begin(
                            batch.succeeded(),
                            awaited_state(),
                            DEFAULT_MAX_ATTEMPTS as nat,
                            DEFAULT_INTERVAL_SECS as nat,
                        ),
                    )
                } else {
                    ctx.finish()
                }
            },
        }
    }

    /// Goes on with the wait. However it ends, the groups are resumed after
    /// it, and how it ended is kept for the report.
    pub open spec fn settle_waiting(self, waiter: WaiterView) -> (RunView, StepView) {
        match waiter.step() {
            WaitStepView::Query(ids) => (
                RunView { ctx: self, stage: StageView::Waiting { waiter } },
                StepView::QueryStates(ids),
            ),
            WaitStepView::Sleep(secs) => (
                RunView { ctx: self, stage: StageView::Waiting { waiter } },
                StepView::Sleep(secs),
            ),
            _ => {
                let ctx = ContextView {
                    report: ReportView {
                        wait: if waiter.ticks == 0 && waiter.state() == WaitState::Satisfied {
                            None
                        } else {
                            waiter.result()
                        },
                        ..self.report
                    },
                    ..self
                };
                ctx.settle_resuming(
                    BatchView::begin(
                        calls_for(ResourceFamily::ComputeGroup, ScheduleAction::Start, self.groups),
                    ),
                )
            },
        }
    }

    /// Goes on with resuming the groups.
    pub open spec fn settle_resuming(self, batch: BatchView) -> (RunView, StepView) {
        match batch.step() {
            BatchStepView::LookupOwner(id) => (
                RunView { ctx: self, stage: StageView::Resuming { batch } },
                StepView::LookupOwner(id),
            ),
            BatchStepView::Invoke(call) => (
                RunView { ctx: self, stage: StageView::Resuming { batch } },
                StepView::Invoke(call),
            ),
            BatchStepView::Finished => self.reported(batch).finish(),
        }
    }
}

/// What `event` does to a batch: the answer to whatever was due.
pub open spec fn batch_after(batch: BatchView, event: EventView) -> BatchView {
    match event {
        EventView::Owner(memberships) => batch.owner_known(
            owner_of(memberships, batch.current().resource),
        ),
        EventView::Done => batch.completed(Ok(())),
        EventView::Failed(cause) => if batch.step() is LookupOwner {
            batch.lookup_failed(cause)
        } else {
            batch.completed(Err(cause))
        },
        _ => batch,
    }
}

/// What `event` does to a wait.
pub open spec fn waiter_after(waiter: WaiterView, event: EventView) -> WaiterView {
    match event {
        EventView::States(observations) => waiter.observe(observations),
        EventView::Rested => waiter.rested(),
        EventView::Failed(cause) => waiter.query_failed(cause),
        _ => waiter,
    }
}

impl RunView {
    /// The run as it begins, with its first step.
    pub open spec fn begin(facade: Facade, action: ScheduleAction, tag_key: Seq<char>, tag_value: Seq<char>) -> (RunView, StepView) {
        let ctx = ContextView {
            facade,
            action,
            tag_key,
            tag_value,
            arns: Seq::empty(),
            groups: Seq::empty(),
            members: Seq::empty(),
            planned: Seq::empty(),
            report: ReportView { calls: Seq::empty(), outcomes: Seq::empty(), wait: None },
        };
        if facade.spec_is_hierarchical() {
            ctx.settle_scanning(
                GroupScanView { tag_key, tag_value, pager: PagerView::start() },
            )
        } else {
            ctx.settle_locating(0, ctx.listing_for(facade.spec_families()[0]))
        }
    }

    /// The run after `event`, with the step that comes next. An event that
    /// answers no step that was due changes nothing, and the step is due again.
    pub open spec fn advance(self, event: EventView) -> (RunView, StepView) {
        match self.stage {
            StageView::Locating { index, listing } => match event {
                EventView::Resources(page) => self.ctx.settle_locating(
                    index,
                    listing.take_page(page),
                ),
                EventView::Failed(cause) => self.ctx.settle_locating(index, listing.fail(cause)),
                _ => self.ctx.settle_locating(index, listing),
            },
            StageView::ScanningGroups { scan } => match event {
                EventView::Groups(groups, token) => self.ctx.settle_scanning(
                    scan.take_page(groups, token),
                ),
                EventView::Failed(cause) => self.ctx.settle_scanning(scan.fail(cause)),
                _ => self.ctx.settle_scanning(scan),
            },
            StageView::ExpandingMembers { expansion } => match event {
                EventView::Groups(groups, token) => self.ctx.settle_expanding(
                    expansion.take_page(groups, token),
                ),
                EventView::Failed(cause) => self.ctx.settle_expanding(expansion.fail(cause)),
                _ => self.ctx.settle_expanding(expansion),
            },
            StageView::Acting { batch } => self.ctx.settle_acting(batch_after(batch, event)),
            StageView::Waiting { waiter } => self.ctx.settle_waiting(waiter_after(waiter, event)),
            StageView::Resuming { batch } => self.ctx.settle_resuming(batch_after(batch, event)),
            StageView::Finished => (self, StepView::Finished),
            StageView::Failed { cause } => (self, StepView::Failed(cause)),
        }
    }
}

/// The call that carries out `action` on the resource of `family` found
/// under `arn`.
pub fn make_call(family: ResourceFamily, action: ScheduleAction, arn: &String) -> (call: ActionCall)
    ensures
        call@ == call_for(family, action, arn@),
{
    let verb = family.verb(action);
    match family {
        ResourceFamily::ContainerService => {
            let (cluster, service) = extract_ecs_names(arn.as_str());
            ActionCall {
                family,
                verb,
                resource: copy_string(&service),
                name: service,
                cluster,
                desired_count: Some(desired_count(action == ScheduleAction::Start)),
                check_owner: false,
            }
        },
        ResourceFamily::AppRunnerService => ActionCall {
            family,
            verb,
            resource: copy_string(arn),
            name: extract_service_name(arn.as_str()),
            cluster: String::new(),
            desired_count: None,
            check_owner: false,
        },
        ResourceFamily::ComputeGroup => ActionCall {
            family,
            verb,
            resource: copy_string(arn),
            name: copy_string(arn),
            cluster: String::new(),
            desired_count: None,
            check_owner: false,
        },
        _ => {
            let id = match family {
                ResourceFamily::ComputeInstance => extract_instance_id(arn.as_str()),
                ResourceFamily::TransferEndpoint => extract_server_id(arn.as_str()),
                ResourceFamily::Alarm => extract_alarm_name(arn.as_str()),
                ResourceFamily::DocumentStoreCluster => documentdb::extract_cluster_id(
                    arn.as_str(),
                ),
                ResourceFamily::AnalyticsCluster => redshift::extract_cluster_id(arn.as_str()),
                _ => extract_rds_id(arn.as_str()),
            };
            ActionCall {
                family,
                verb,
                resource: copy_string(&id),
                name: id,
                cluster: String::new(),
                desired_count: None,
                check_owner: family.may_be_owned(),
            }
        },
    }
}

/// The call for each of `arns`, in order.
pub fn make_calls(family: ResourceFamily, action: ScheduleAction, arns: &Vec<String>) -> (calls: Vec<ActionCall>)
    ensures
        call_views(calls@) == calls_for(family, action, views(arns@)),
{
    let mut calls: Vec<ActionCall> = Vec::new();
    let mut i: usize = 0;
    while i < arns.len()
        invariant
            i <= arns@.len(),
            calls@.len() == i,
            forall|k: int| 0 <= k < i ==> (#[trigger] calls@[k])@ == call_for(family, action, arns@[k]@),
        decreases arns@.len() - i,
    {
        calls.push(make_call(family, action, &arns[i]));
        i = i + 1;
    }
    assert(call_views(calls@) =~= calls_for(family, action, views(arns@)));
    calls
}

/// The call for each member instance, in order.
pub fn make_member_calls(action: ScheduleAction, ids: &Vec<String>) -> (calls: Vec<ActionCall>)
    ensures
        call_views(calls@) == member_calls(action, views(ids@)),
{
    let mut calls: Vec<ActionCall> = Vec::new();
    let mut i: usize = 0;
    while i < ids.len()
        invariant
            i <= ids@.len(),
            calls@.len() == i,
            forall|k: int| 0 <= k < i ==> (#[trigger] calls@[k])@ == member_call(action, ids@[k]@),
        decreases ids@.len() - i,
    {
        calls.push(
            ActionCall {
                family: ResourceFamily::ComputeInstance,
                verb: ResourceFamily::ComputeInstance.verb(action),
                resource: copy_string(&ids[i]),
                name: copy_string(&ids[i]),
                cluster: String::new(),
                desired_count: None,
                check_owner: false,
            },
        );
        i = i + 1;
    }
    assert(call_views(calls@) =~= member_calls(action, views(ids@)));
    calls
}

/// The calls made first for a compute group facade.
pub fn make_group_calls(action: ScheduleAction, groups: &Vec<String>, members: &Vec<String>) -> (calls: Vec<ActionCall>)
    ensures
        call_views(calls@) == group_calls(action, views(groups@), views(members@)),
{
    match action {
        ScheduleAction::Stop => {
            let mut calls = make_calls(ResourceFamily::ComputeGroup, action, groups);
            let mut stops = make_member_calls(action, members);
            let ghost first = calls@;
            let ghost second = stops@;
            calls.append(&mut stops);
            assert(call_views(first + second) =~= call_views(first) + call_views(second));
            calls
        },
        ScheduleAction::Start => make_member_calls(action, members),
    }
}

struct Context {
    facade: Facade,
    action: ScheduleAction,
    tag_key: String,
    tag_value: String,
    arns: Vec<String>,
    groups: Vec<String>,
    members: Vec<String>,
    planned: Vec<ActionCall>,
    report: Report,
}

impl View for Context {
    type V = ContextView;

    closed spec fn view(&self) -> ContextView {
        ContextView {
            facade: self.facade,
            action: self.action,
            tag_key: self.tag_key@,
            tag_value: self.tag_value@,
            arns: views(self.arns@),
            groups: views(self.groups@),
            members: views(self.members@),
            planned: call_views(self.planned@),
            report: self.report@,
        }
    }
}

enum Stage {
    Locating { index: usize, listing: Listing },
    ScanningGroups { scan: GroupScan },
    ExpandingMembers { expansion: MemberExpansion },
    Acting { batch: Batch },
    Waiting { waiter: Waiter },
    Resuming { batch: Batch },
    Finished,
    Failed { cause: String },
}

impl View for Stage {
    type V = StageView;

    closed spec fn view(&self) -> StageView {
        match self {
            Stage::Locating { index, listing } => StageView::Locating {
                index: *index as nat,
                listing: listing@,
            },
            Stage::ScanningGroups { scan } => StageView::ScanningGroups { scan: scan@ },
            Stage::ExpandingMembers { expansion } => StageView::ExpandingMembers {
                expansion: expansion@,
            },
            Stage::Acting { batch } => StageView::Acting { batch: batch@ },
            Stage::Waiting { waiter } => StageView::Waiting { waiter: waiter@ },
            Stage::Resuming { batch } => StageView::Resuming { batch: batch@ },
            Stage::Finished => StageView::Finished,
            Stage::Failed { cause } => StageView::Failed { cause: cause@ },
        }
    }
}

/// One run of one facade.
pub struct Run {
    ctx: Context,
    stage: Stage,
}

impl View for Run {
    type V = RunView;

    closed spec fn view(&self) -> RunView {
        RunView { ctx: self.ctx@, stage: self.stage@ }
    }
}

/// A copy of a whole vector of calls.
fn copy_calls(calls: &Vec<ActionCall>) -> (r: Vec<ActionCall>)
    ensures
        call_views(r@) == call_views(calls@),
{
    let mut r: Vec<ActionCall> = Vec::new();
    let mut i: usize = 0;
    while i < calls.len()
        invariant
            i <= calls@.len(),
            r@.len() == i,
            forall|k: int| 0 <= k < i ==> (#[trigger] r@[k])@ == calls@[k]@,
        decreases calls@.len() - i,
    {
        r.push(copy_call(&calls[i]));
        i = i + 1;
    }
    assert(call_views(r@) =~= call_views(calls@));
    r
}

impl Context {
    /// The lookup by tag for `family`, with its first request.
    fn begin_listing(&self, family: ResourceFamily) -> (r: (Listing, ListRequest))
        ensures
            r.0@ == self@.listing_for(family),
            r.0@.request() == Some(r.1@),
    {
        let resource_type = match family.resource_type() {
            Some(t) => t,
            None => "",
        };
        proof {
            reveal_strlit("");
            assert(""@ =~= Seq::<char>::empty());
        }
        let listing = get_resources(resource_type, self.tag_key.as_str(), self.tag_value.as_str());
        let request = ListRequest {
            resource_type: String::from_str(resource_type),
            tag_key: copy_string(&self.tag_key),
            tag_value: copy_string(&self.tag_value),
            pagination_token: None,
        };
        (listing, request)
    }

    fn fail(self, cause: String) -> (r: (Run, Step))
        ensures
            (r.0@, r.1@) == self@.fail(cause@),
    {
        let step = Step::Failed(DiscoveryError { cause: copy_string(&cause) });
        (Run { ctx: self, stage: Stage::Failed { cause } }, step)
    }

    fn finish(self) -> (r: (Run, Step))
        ensures
            (r.0@, r.1@) == self@.finish(),
    {
        (Run { ctx: self, stage: Stage::Finished }, Step::Finished)
    }

    fn reported(self, batch: Batch) -> (ctx: Context)
        ensures
            ctx@ == self@.reported(batch@),
    {
        let mut ctx = self;
        let (mut calls, mut outcomes) = batch.into_parts();
        let ghost c0 = ctx.report.calls@;
        let ghost o0 = ctx.report.outcomes@;
        let ghost c1 = calls@;
        let ghost o1 = outcomes@;
        ctx.report.calls.append(&mut calls);
        ctx.report.outcomes.append(&mut outcomes);
        assert(call_views(c0 + c1) =~= call_views(c0) + call_views(c1));
        assert(outcome_views(o0 + o1) =~= outcome_views(o0) + outcome_views(o1));
        ctx
    }

    fn settle_locating(self, index: usize, listing: Listing) -> (r: (Run, Step))
        ensures
            (r.0@, r.1@) == self@.settle_locating(index as nat, listing@),
    {
        match listing.request() {
            Some(request) => (
                Run { ctx: self, stage: Stage::Locating { index, listing } },
                Step::ListResources(request),
            ),
            None => {
                let arns = match listing.into_result() {
                    Ok(arns) => arns,
                    Err(e) => {
                        return self.fail(e.cause);
                    },
                };
                let mut ctx = self;
                let ghost before = ctx@;
                let ghost families = ctx.facade.spec_families();
                assert(families.len() <= 2);
                match ctx.facade.family_at(index) {
                    Some(family) => {
                        let mut found = make_calls(family, ctx.action, &arns);
                        let ghost p0 = ctx.planned@;
                        let ghost p1 = found@;
                        ctx.planned.append(&mut found);
                        assert(call_views(p0 + p1) =~= call_views(p0) + call_views(p1));
                        append_copies(&mut ctx.arns, &arns);
                    },
                    None => {
                        assert(call_views(ctx.planned@) + Seq::<ActionCallView>::empty()
                            =~= call_views(ctx.planned@));
                        append_copies(&mut ctx.arns, &arns);
                    },
                }
                let next_family = if index < 2 {
                    ctx.facade.family_at(index + 1)
                } else {
                    None
                };
                match next_family {
                    Some(family) => {
                        let (next, request) = ctx.begin_listing(family);
                        (
                            Run { ctx, stage: Stage::Locating { index: index + 1, listing: next } },
                            Step::ListResources(request),
                        )
                    },
                    None => {
                        let batch = Batch::new(copy_calls(&ctx.planned));
                        ctx.settle_acting(batch)
                    },
                }
            },
        }
    }

    fn settle_scanning(self, scan: GroupScan) -> (r: (Run, Step))
        ensures
            (r.0@, r.1@) == self@.settle_scanning(scan@),
    {
        match scan.request() {
            Some(request) => (
                Run { ctx: self, stage: Stage::ScanningGroups { scan } },
                Step::DescribeGroups(request),
            ),
            None => {
                let names = match scan.into_result() {
                    Ok(names) => names,
                    Err(e) => {
                        return self.fail(e.cause);
                    },
                };
                let mut ctx = self;
                ctx.groups = names;
                let expansion = MemberExpansion::new(copy_strings(&ctx.groups));
                ctx.settle_expanding(expansion)
            },
        }
    }

    fn settle_expanding(self, expansion: MemberExpansion) -> (r: (Run, Step))
        ensures
            (r.0@, r.1@) == self@.settle_expanding(expansion@),
    {
        match expansion.request() {
            Some(request) => (
                Run { ctx: self, stage: Stage::ExpandingMembers { expansion } },
                Step::DescribeGroups(request),
            ),
            None => {
                let members = match expansion.into_result() {
                    Ok(members) => members,
                    Err(e) => {
                        return self.fail(e.cause);
                    },
                };
                let mut ctx = self;
                ctx.members = members;
                ctx.planned = make_group_calls(ctx.action, &ctx.groups, &ctx.members);
                let batch = Batch::new(copy_calls(&ctx.planned));
                ctx.settle_acting(batch)
            },
        }
    }

    fn settle_acting(self, batch: Batch) -> (r: (Run, Step))
        ensures
            (r.0@, r.1@) == self@.settle_acting(batch@),
    {
        match batch.step() {
            BatchStep::LookupOwner(id) => (
                Run { ctx: self, stage: Stage::Acting { batch } },
                Step::LookupOwner(id),
            ),
            BatchStep::Invoke(call) => (
                Run { ctx: self, stage: Stage::Acting { batch } },
                Step::Invoke(call),
            ),
            BatchStep::Finished => {
                let awaits = self.facade.is_hierarchical() && self.action == ScheduleAction::Start;
                let started = batch.succeeded();
                let ctx = self.reported(batch);
                if awaits {
                    let waiter = Waiter::new(
                        started,
                        "running",
                        DEFAULT_MAX_ATTEMPTS,
                        DEFAULT_INTERVAL_SECS,
                    );
                    ctx.settle_waiting(waiter)
                } else {
                    ctx.finish()
                }
            },
        }
    }

    fn settle_waiting(self, waiter: Waiter) -> (r: (Run, Step))
        ensures
            (r.0@, r.1@) == self@.settle_waiting(waiter@),
    {
        match waiter.step() {
            WaitStep::Query(ids) => (
                Run { ctx: self, stage: Stage::Waiting { waiter } },
                Step::QueryStates(ids),
            ),
            WaitStep::Sleep(secs) => (
                Run { ctx: self, stage: Stage::Waiting { waiter } },
                Step::Sleep(secs),
            ),
            _ => {
                let mut ctx = self;
                let state = waiter.state();
                ctx.report.wait = if waiter.ticks() == 0 && state == WaitState::Satisfied {
                    None
                } else {
                    waiter.result()
                };
                let calls = make_calls(
                    ResourceFamily::ComputeGroup,
                    ScheduleAction::Start,
                    &ctx.groups,
                );
                ctx.settle_resuming(Batch::new(calls))
            },
        }
    }

    fn settle_resuming(self, batch: Batch) -> (r: (Run, Step))
        ensures
            (r.0@, r.1@) == self@.settle_resuming(batch@),
    {
        match batch.step() {
            BatchStep::LookupOwner(id) => (
                Run { ctx: self, stage: Stage::Resuming { batch } },
                Step::LookupOwner(id),
            ),
            BatchStep::Invoke(call) => (
                Run { ctx: self, stage: Stage::Resuming { batch } },
                Step::Invoke(call),
            ),
            BatchStep::Finished => self.reported(batch).finish(),
        }
    }
}

/// Hands `event` to a batch as the answer to whatever was due.
fn batch_taking(batch: Batch, event: Event) -> (r: Batch)
    ensures
        r@ == batch_after(batch@, event@),
{
    let mut batch = batch;
    match event {
        Event::Owner(memberships) => {
            match batch.step() {
                BatchStep::LookupOwner(id) => {
                    let owner = find_owner(&memberships, &id);
                    batch.owner_known(owner);
                },
                _ => {},
            }
        },
        Event::Done => {
            batch.completed(Ok(()));
        },
        Event::Failed(cause) => {
            match batch.step() {
                BatchStep::LookupOwner(_) => {
                    batch.lookup_failed(cause);
                },
                _ => {
                    batch.completed(Err(cause));
                },
            }
        },
        _ => {},
    }
    batch
}

/// Hands `event` to a wait.
fn waiter_taking(waiter: Waiter, event: Event) -> (r: Waiter)
    ensures
        r@ == waiter_after(waiter@, event@),
{
    let mut waiter = waiter;
    match event {
        Event::States(observations) => {
            waiter.observe(&observations);
        },
        Event::Rested => {
            waiter.rested();
        },
        Event::Failed(cause) => {
            waiter.query_failed(cause);
        },
        _ => {},
    }
    waiter
}

impl Run {
    /// Begins the run of `facade` that carries out `action` on the
    /// resources tagged `tag_key` = `tag_value`, and says what to do first.
    pub fn begin(facade: Facade, action: ScheduleAction, tag_key: &str, tag_value: &str) -> (r: (Run, Step))
        ensures
            (r.0@, r.1@) == RunView::begin(facade, action, tag_key@, tag_value@),
    {
        let ctx = Context {
            facade,
            action,
            tag_key: String::from_str(tag_key),
            tag_value: String::from_str(tag_value),
            arns: Vec::new(),
            groups: Vec::new(),
            members: Vec::new(),
            planned: Vec::new(),
            report: Report { calls: Vec::new(), outcomes: Vec::new(), wait: None },
        };
        proof {
            assert(call_views(ctx.planned@) =~= Seq::empty());
            assert(views(ctx.arns@) =~= Seq::empty());
            assert(views(ctx.groups@) =~= Seq::empty());
            assert(views(ctx.members@) =~= Seq::empty());
            assert(call_views(ctx.report.calls@) =~= Seq::empty());
            assert(outcome_views(ctx.report.outcomes@) =~= Seq::empty());
        }
        if facade.is_hierarchical() {
            ctx.settle_scanning(GroupScan::new(tag_key, tag_value))
        } else {
            let (listing, request) = ctx.begin_listing(facade.first_family());
            (Run { ctx, stage: Stage::Locating { index: 0, listing } }, Step::ListResources(request))
        }
    }

    /// Takes what came of the step that was due, and says what to do next.
    pub fn advance(self, event: Event) -> (r: (Run, Step))
        ensures
            (r.0@, r.1@) == self@.advance(event@),
    {
        let Run { ctx, stage } = self;
        match stage {
            Stage::Locating { index, listing } => {
                let mut listing = listing;
                match event {
                    Event::Resources(page) => {
                        listing.take_page(&page);
                        ctx.settle_locating(index, listing)
                    },
                    Event::Failed(cause) => {
                        listing.fail(cause);
                        ctx.settle_locating(index, listing)
                    },
                    _ => ctx.settle_locating(index, listing),
                }
            },
            Stage::ScanningGroups { scan } => {
                let mut scan = scan;
                match event {
                    Event::Groups(page) => {
                        scan.take_page(&page);
                        ctx.settle_scanning(scan)
                    },
                    Event::Failed(cause) => {
                        scan.fail(cause);
                        ctx.settle_scanning(scan)
                    },
                    _ => ctx.settle_scanning(scan),
                }
            },
            Stage::ExpandingMembers { expansion } => {
                let mut expansion = expansion;
                match event {
                    Event::Groups(page) => {
                        expansion.take_page(&page);
                        ctx.settle_expanding(expansion)
                    },
                    Event::Failed(cause) => {
                        expansion.fail(cause);
                        ctx.settle_expanding(expansion)
                    },
                    _ => ctx.settle_expanding(expansion),
                }
            },
            Stage::Acting { batch } => ctx.settle_acting(batch_taking(batch, event)),
            Stage::Waiting { waiter } => ctx.settle_waiting(waiter_taking(waiter, event)),
            Stage::Resuming { batch } => ctx.settle_resuming(batch_taking(batch, event)),
            Stage::Finished => (Run { ctx, stage: Stage::Finished }, Step::Finished),
            Stage::Failed { cause } => {
                let step = Step::Failed(DiscoveryError { cause: copy_string(&cause) });
                (Run { ctx, stage: Stage::Failed { cause } }, step)
            },
        }
    }

    /// Whether the run is complete or was given up.
    pub fn is_over(&self) -> (r: bool)
        ensures
            r == (self@.stage is Finished || self@.stage is Failed),
    {
        match &self.stage {
            Stage::Finished => true,
            Stage::Failed { .. } => true,
            _ => false,
        }
    }

    /// The facade that the run is for.
    pub fn facade(&self) -> (f: Facade)
        ensures
            f == self@.ctx.facade,
    {
        self.ctx.facade
    }

    /// How many resources the run has found so far: ARNs by tag, compute
    /// groups, and member instances of the groups.
    pub fn found(&self) -> (n: (usize, usize, usize))
        ensures
            n.0 == self@.ctx.arns.len(),
            n.1 == self@.ctx.groups.len(),
            n.2 == self@.ctx.members.len(),
    {
        (self.ctx.arns.len(), self.ctx.groups.len(), self.ctx.members.len())
    }

    /// Ends the run and hands out what it has done so far.
    pub fn into_report(self) -> (r: Report)
        ensures
            r@ == self@.ctx.report,
    {
        self.ctx.report
    }
}

} // verus!
