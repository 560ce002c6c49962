//! The order of a whole run: the date gate, then every region in turn and,
//! within a region, every enabled facade in a fixed order.
//!
//! A task is one facade in one region. A task that fails is reported and the
//! run goes on with the next: no failure keeps the tasks after it from
//! being attempted.

use vstd::prelude::*;
use vstd::string::*;
use crate::config::{AppConfig, AppConfigView, ScheduleAction};
use crate::facade::{Run, RunView, Step};
use crate::family::Facade;
use crate::text::{copy_string, holds_text, views};

verus! {

/// Whether `c` is a decimal digit.
pub open spec fn is_digit(c: char) -> bool {
    '0' <= c && c <= '9'
}

/// The number that the two digits `tens` and `ones` write.
pub open spec fn two_digits(tens: char, ones: char) -> int {
    (tens as u32 - '0' as u32) * 10 + (ones as u32 - '0' as u32)
}

/// Whether `s` is a date of the form `MM-DD`: a month from `01` to `12`, a
/// hyphen, a day from `01` to `31`.
pub open spec fn is_month_day(s: Seq<char>) -> bool {
    &&& s.len() == 5
    &&& is_digit(s[0]) && is_digit(s[1]) && s[2] == '-' && is_digit(s[3]) && is_digit(s[4])
    &&& 1 <= two_digits(s[0], s[1]) <= 12
    &&& 1 <= two_digits(s[3], s[4]) <= 31
}

/// Today's date in UTC as `MM-DD`: the system clock, read by
/// `SystemTime::duration_since` as the time since 1970, made a date by
/// `chrono::DateTime::from_timestamp` and written by its `format` with
/// `%m-%d`. There is no date when the clock stands before 1970 or beyond
/// what chrono can hold. The clock decides which date it is; the contract
/// states only the form, which chrono's writing of `%m` and `%d` gives: two
/// digits each, padded with a zero.
#[verifier::external_body]
fn utc_month_day() -> (today: Option<String>)
    ensures
        today matches Some(t) ==> is_month_day(t@),
{
    let since = std::time::SystemTime::now().duration_since(std::time::UNIX_EPOCH).ok()?;
    let secs = i64::try_from(since.as_secs()).ok()?;
    let now = chrono::DateTime::from_timestamp(secs, since.subsec_nanos())?;
    Some(now.format("%m-%d").to_string())
}

/// Whether `today` is one of the excluded dates.
pub fn is_excluded_on(excluded_dates: &Vec<String>, today: &String) -> (r: bool)
    ensures
        r == views(excluded_dates@).contains(today@),
{
    holds_text(excluded_dates, today)
}

/// Whether today's date in UTC, written as `MM-DD`, is one of the excluded
/// dates; `None` when the clock gives no date. Only an entry of that form can
/// exclude a day.
pub fn is_date_excluded(excluded_dates: &Vec<String>) -> (r: Option<bool>)
    ensures
        r matches Some(excluded) ==> exists|today: Seq<char>|
            is_month_day(today) && excluded == #[trigger] views(excluded_dates@).contains(today),
        r == Some(true) ==> exists|i: int|
            0 <= i < excluded_dates@.len() && is_month_day(#[trigger] excluded_dates@[i]@),
{
    match utc_month_day() {
        Some(today) => {
            let excluded = is_excluded_on(excluded_dates, &today);
            proof {
                assert(is_month_day(today@) && excluded == views(excluded_dates@).contains(
                    today@,
                ));
                if excluded {
                    let i = choose|i: int|
                        0 <= i < views(excluded_dates@).len() && views(excluded_dates@)[i]
                            == today@;
                    assert(excluded_dates@[i]@ == today@);
                }
            }
            Some(excluded)
        },
        None => None,
    }
}

/// One facade in one region.
pub struct Task {
    pub region: String,
    pub facade: Facade,
}

/// The model of a `Task`.
pub struct TaskView {
    pub region: Seq<char>,
    pub facade: Facade,
}

impl View for Task {
    type V = TaskView;

    open spec fn view(&self) -> TaskView {
        TaskView { region: self.region@, facade: self.facade }
    }
}

/// The models of a sequence of tasks.
pub open spec fn task_views(v: Seq<Task>) -> Seq<TaskView> {
    Seq::new(v.len(), |i: int| v[i]@)
}

/// `facade`, if it is switched on.
pub open spec fn when(on: bool, facade: Facade) -> Seq<Facade> {
    if on {
        seq![facade]
    } else {
        Seq::empty()
    }
}

/// The facades that the configuration switches on, in the order in which a
/// region is worked through.
pub open spec fn enabled_facades(c: AppConfigView) -> Seq<Facade> {
    when(c.ec2_schedule, Facade::Ec2) + when(c.autoscaling_schedule, Facade::AutoScaling) + when(
        c.apprunner_schedule,
        Facade::AppRunner,
    ) + when(c.cloudwatch_alarm_schedule, Facade::CloudWatch) + when(
        c.documentdb_schedule,
        Facade::DocumentDb,
    ) + when(c.ecs_schedule, Facade::Ecs) + when(c.rds_schedule, Facade::Rds) + when(
        c.redshift_schedule,
        Facade::Redshift,
    ) + when(c.transfer_schedule, Facade::Transfer)
}

/// The tasks of one region: one for each facade, in order.
pub open spec fn tasks_in(region: Seq<char>, facades: Seq<Facade>) -> Seq<TaskView> {
    Seq::new(facades.len(), |j: int| TaskView { region, facade: facades[j] })
}

/// The tasks of all regions: region by region, in order.
pub open spec fn tasks_for(regions: Seq<Seq<char>>, facades: Seq<Facade>) -> Seq<TaskView>
    decreases regions.len(),
{
    if regions.len() == 0 {
        Seq::empty()
    } else {
        tasks_for(regions.drop_last(), facades) + tasks_in(regions.last(), facades)
    }
}

/// The tasks of a run on the day `today`: none on an excluded date.
pub open spec fn plan_of(c: AppConfigView, today: Seq<char>) -> Seq<TaskView> {
    if c.excluded_dates.contains(today) {
        Seq::empty()
    } else {
        tasks_for(c.aws_regions, enabled_facades(c))
    }
}

/// There is one task for each region and each facade, and the task of the
/// region at `i` and the facade at `j` stands at `i * facades.len() + j`.
pub proof fn lemma_tasks_cover_regions_and_facades(regions: Seq<Seq<char>>, facades: Seq<Facade>)
    ensures
        tasks_for(regions, facades).len() == regions.len() * facades.len(),
        forall|i: int, j: int|
            #![trigger regions[i], facades[j]]
            0 <= i < regions.len() && 0 <= j < facades.len() ==> 0 <= i * facades.len() + j
                < tasks_for(regions, facades).len() && tasks_for(regions, facades)[i
                * facades.len() + j] == (TaskView { region: regions[i], facade: facades[j] }),
    decreases regions.len(),
{
    let m = facades.len() as int;
    if regions.len() == 0 {
        assert(regions.len() * facades.len() == 0) by (nonlinear_arith)
            requires
                regions.len() == 0,
        ;
    } else {
        let front = regions.drop_last();
        let n = front.len() as int;
        lemma_tasks_cover_regions_and_facades(front, facades);
        assert((n + 1) * m == n * m + m) by (nonlinear_arith);
        assert forall|i: int, j: int|
            #![trigger regions[i], facades[j]]
            0 <= i < regions.len() && 0 <= j < facades.len() implies 0 <= i * facades.len() + j
                < tasks_for(regions, facades).len() && tasks_for(regions, facades)[i
                * facades.len() + j] == (TaskView { region: regions[i], facade: facades[j] }) by {
            assert(0 <= i * m + j < (n + 1) * m) by (nonlinear_arith)
                requires
                    0 <= i <= n,
                    0 <= j < m,
            ;
            if i < n {
                assert(i * m + j < n * m) by (nonlinear_arith)
                    requires
                        0 <= i < n,
                        0 <= j < m,
                ;
                assert(front[i] == regions[i]);
                assert(tasks_for(front, facades)[i * m + j] == (TaskView {
                    region: front[i],
                    facade: facades[j],
                }));
            } else {
                assert(i * m + j - n * m == j) by (nonlinear_arith)
                    requires
                        i == n,
                ;
            }
        }
    }
}

/// On an excluded date a run has no task, whatever else is configured.
pub proof fn lemma_excluded_date_is_a_no_op(c: AppConfigView, today: Seq<char>)
    requires
        c.excluded_dates.contains(today),
    ensures
        plan_of(c, today).len() == 0,
        OrchestrationView::begin(plan_of(c, today)).is_finished(),
        OrchestrationView::begin(plan_of(c, today)).current() is None,
{
}

/// Appends `facade` if it is switched on.
fn push_when(r: &mut Vec<Facade>, on: bool, facade: Facade)
    ensures
        final(r)@ == old(r)@ + when(on, facade),
{
    if on {
        r.push(facade);
        assert(r@ =~= old(r)@ + when(on, facade));
    } else {
        assert(r@ =~= old(r)@ + when(on, facade));
    }
}

/// The facades that the configuration switches on, in order.
pub fn facades_of(config: &AppConfig) -> (r: Vec<Facade>)
    ensures
        r@ == enabled_facades(config@),
{
    let mut r: Vec<Facade> = Vec::new();
    push_when(&mut r, config.ec2_schedule, Facade::Ec2);
    assert(r@ =~= when(config.ec2_schedule, Facade::Ec2));
    push_when(&mut r, config.autoscaling_schedule, Facade::AutoScaling);
    push_when(&mut r, config.apprunner_schedule, Facade::AppRunner);
    push_when(&mut r, config.cloudwatch_alarm_schedule, Facade::CloudWatch);
    push_when(&mut r, config.documentdb_schedule, Facade::DocumentDb);
    push_when(&mut r, config.ecs_schedule, Facade::Ecs);
    push_when(&mut r, config.rds_schedule, Facade::Rds);
    push_when(&mut r, config.redshift_schedule, Facade::Redshift);
    push_when(&mut r, config.transfer_schedule, Facade::Transfer);
    r
}

/// The tasks of a run on the day `today`.
pub fn plan(config: &AppConfig, today: &String) -> (tasks: Vec<Task>)
    ensures
        task_views(tasks@) == plan_of(config@, today@),
{
    let mut tasks: Vec<Task> = Vec::new();
    if is_excluded_on(&config.excluded_dates, today) {
        assert(task_views(tasks@) =~= Seq::empty());
        return tasks;
    }
    let facades = facades_of(config);
    let ghost regions = views(config.aws_regions@);
    let mut i: usize = 0;
    assert(regions.take(0) =~= Seq::empty());
    assert(task_views(tasks@) =~= Seq::empty());
    while i < config.aws_regions.len()
        invariant
            i <= config.aws_regions@.len(),
            regions == views(config.aws_regions@),
            facades@ == enabled_facades(config@),
            task_views(tasks@) == tasks_for(regions.take(i as int), facades@),
        decreases config.aws_regions@.len() - i,
    {
        proof {
            assert(regions.take(i + 1).drop_last() =~= regions.take(i as int));
            assert(regions.take(i + 1).last() == config.aws_regions@[i as int]@);
        }
        let ghost before = tasks@;
        let mut j: usize = 0;
        while j < facades.len()
            invariant
                i < config.aws_regions@.len(),
                j <= facades@.len(),
                tasks@.len() == before.len() + j,
                forall|k: int| 0 <= k < before.len() ==> tasks@[k] == before[k],
                forall|k: int|
                    0 <= k < j ==> (#[trigger] tasks@[before.len() + k])@ == (TaskView {
                        region: config.aws_regions@[i as int]@,
                        facade: facades@[k],
                    }),
            decreases facades@.len() - j,
        {
            tasks.push(Task { region: copy_string(&config.aws_regions[i]), facade: facades[j] });
            j = j + 1;
        }
        proof {
            let region = config.aws_regions@[i as int]@;
            assert(task_views(tasks@) =~= task_views(before) + tasks_in(region, facades@)) by {
                assert forall|k: int| 0 <= k < tasks@.len() implies task_views(tasks@)[k] == (
                task_views(before) + tasks_in(region, facades@))[k] by {
                    if k >= before.len() {
                        assert(tasks@[before.len() + (k - before.len())]@ == (TaskView {
                            region,
                            facade: facades@[k - before.len()],
                        }));
                    }
                }
            }
        }
        i = i + 1;
    }
    assert(regions.take(config.aws_regions@.len() as int) =~= regions);
    tasks
}

/// The tasks of a run today, by the date in UTC: none if today is an
/// excluded date, else every region with every enabled facade. `None` when
/// the clock gives no date: then nothing is planned at all.
pub fn execute(config: &AppConfig) -> (r: Option<Vec<Task>>)
    ensures
        r matches Some(tasks) ==> {
            &&& exists|today: Seq<char>|
                is_month_day(today) && task_views(tasks@) == #[trigger] plan_of(config@, today)
            &&& tasks@.len() == 0 || task_views(tasks@) == tasks_for(
                config@.aws_regions,
                enabled_facades(config@),
            )
        },
{
    match utc_month_day() {
        Some(today) => {
            let tasks = plan(config, &today);
            assert(task_views(tasks@) == plan_of(config@, today@));
            Some(tasks)
        },
        None => None,
    }
}

/// Begins the run of `task`: the scheduler of its facade, for its region,
/// is handed the configured action and tag.
pub fn launch(task: &Task, config: &AppConfig) -> (r: (Run, Step))
    ensures
        (r.0@, r.1@) == RunView::begin(
            task.facade,
            config.schedule_action,
            config.tag_key@,
            config.tag_value@,
        ),
{
    let key = config.tag_key.as_str();
    let value = config.tag_value.as_str();
    match task.facade {
        Facade::AppRunner => {
            let scheduler = crate::apprunner::AppRunnerScheduler::new(task.region.as_str());
            match config.schedule_action {
                ScheduleAction::Stop => scheduler.stop(key, value),
                ScheduleAction::Start => scheduler.start(key, value),
            }
        },
        Facade::AutoScaling => {
            let scheduler = crate::autoscaling::AutoScalingScheduler::new(task.region.as_str());
            match config.schedule_action {
                ScheduleAction::Stop => scheduler.stop(key, value),
                ScheduleAction::Start => scheduler.start(key, value),
            }
        },
        Facade::CloudWatch => {
            let scheduler = crate::cloudwatch::CloudWatchScheduler::new(task.region.as_str());
            match config.schedule_action {
                ScheduleAction::Stop => scheduler.stop(key, value),
                ScheduleAction::Start => scheduler.start(key, value),
            }
        },
        Facade::DocumentDb => {
            let scheduler = crate::documentdb::DocumentDbScheduler::new(task.region.as_str());
            match config.schedule_action {
                ScheduleAction::Stop => scheduler.stop(key, value),
                ScheduleAction::Start => scheduler.start(key, value),
            }
        },
        Facade::Ec2 => {
            let scheduler = crate::ec2::Ec2Scheduler::new(task.region.as_str());
            match config.schedule_action {
                ScheduleAction::Stop => scheduler.stop(key, value),
                ScheduleAction::Start => scheduler.start(key, value),
            }
        },
        Facade::Ecs => {
            let scheduler = crate::ecs::EcsScheduler::new(task.region.as_str());
            match config.schedule_action {
                ScheduleAction::Stop => scheduler.stop(key, value),
                ScheduleAction::Start => scheduler.start(key, value),
            }
        },
        Facade::Rds => {
            let scheduler = crate::rds::RdsScheduler::new(task.region.as_str());
            match config.schedule_action {
                ScheduleAction::Stop => scheduler.stop(key, value),
                ScheduleAction::Start => scheduler.start(key, value),
            }
        },
        Facade::Redshift => {
            let scheduler = crate::redshift::RedshiftScheduler::new(task.region.as_str());
            match config.schedule_action {
                ScheduleAction::Stop => scheduler.stop(key, value),
                ScheduleAction::Start => scheduler.start(key, value),
            }
        },
        Facade::Transfer => {
            let scheduler = crate::transfer::TransferScheduler::new(task.region.as_str());
            match config.schedule_action {
                ScheduleAction::Stop => scheduler.stop(key, value),
                ScheduleAction::Start => scheduler.start(key, value),
            }
        },
    }
}

/// How one task ended.
pub enum TaskOutcome {
    /// The facade's run came to its end; its report tells of each resource.
    Completed,
    /// The facade's run was given up, for this cause.
    GaveUp(String),
}

/// The model of a `TaskOutcome`.
pub enum TaskOutcomeView {
    Completed,
    GaveUp(Seq<char>),
}

impl View for TaskOutcome {
    type V = TaskOutcomeView;

    open spec fn view(&self) -> TaskOutcomeView {
        match self {
            TaskOutcome::Completed => TaskOutcomeView::Completed,
            TaskOutcome::GaveUp(cause) => TaskOutcomeView::GaveUp(cause@),
        }
    }
}

/// The models of a sequence of task outcomes.
pub open spec fn task_outcome_views(v: Seq<TaskOutcome>) -> Seq<TaskOutcomeView> {
    Seq::new(v.len(), |i: int| v[i]@)
}

/// The model of an `Orchestration`.
pub struct OrchestrationView {
    pub tasks: Seq<TaskView>,
    /// The outcome of each task attempted so far, in the order of the tasks.
    pub outcomes: Seq<TaskOutcomeView>,
}

impl OrchestrationView {
    /// A run of which no task was attempted.
    pub open spec fn begin(tasks: Seq<TaskView>) -> OrchestrationView {
        OrchestrationView { tasks, outcomes: Seq::empty() }
    }

    pub open spec fn is_finished(self) -> bool {
        self.outcomes.len() >= self.tasks.len()
    }

    /// The task that is due.
    pub open spec fn current(self) -> Option<TaskView> {
        if self.is_finished() {
            None
        } else {
            Some(self.tasks[self.outcomes.len() as int])
        }
    }

    /// The task that was due ended: however it ended, the next one is due.
    pub open spec fn record(self, outcome: TaskOutcomeView) -> OrchestrationView {
        if self.is_finished() {
            self
        } else {
            OrchestrationView { outcomes: self.outcomes.push(outcome), ..self }
        }
    }

    /// The run after the tasks that were due ended as `outcomes` say.
    pub open spec fn record_all(self, outcomes: Seq<TaskOutcomeView>) -> OrchestrationView
        decreases outcomes.len(),
    {
        if outcomes.len() == 0 {
            self
        } else {
            self.record_all(outcomes.drop_last()).record(outcomes.last())
        }
    }
}

/// Failure isolation between tasks. After as many tasks have ended as there
/// are, every task was attempted, however the others ended; until then the
/// task due is the one after those that ended.
pub proof fn lemma_every_task_is_attempted(tasks: Seq<TaskView>, outcomes: Seq<TaskOutcomeView>)
    requires
        outcomes.len() <= tasks.len(),
    ensures
        OrchestrationView::begin(tasks).record_all(outcomes).tasks == tasks,
        OrchestrationView::begin(tasks).record_all(outcomes).outcomes == outcomes,
        OrchestrationView::begin(tasks).record_all(outcomes).is_finished() <==> outcomes.len()
            == tasks.len(),
        outcomes.len() < tasks.len() ==> OrchestrationView::begin(tasks).record_all(
            outcomes,
        ).current() == Some(tasks[outcomes.len() as int]),
    decreases outcomes.len(),
{
    if outcomes.len() > 0 {
        lemma_every_task_is_attempted(tasks, outcomes.drop_last());
        assert(outcomes.drop_last().push(outcomes.last()) =~= outcomes);
    } else {
        assert(outcomes =~= Seq::empty());
    }
}

/// The course of a run through its tasks.
pub struct Orchestration {
    tasks: Vec<Task>,
    outcomes: Vec<TaskOutcome>,
}

impl View for Orchestration {
    type V = OrchestrationView;

    closed spec fn view(&self) -> OrchestrationView {
        OrchestrationView {
            tasks: task_views(self.tasks@),
            outcomes: task_outcome_views(self.outcomes@),
        }
    }
}

impl Orchestration {
    /// A run through `tasks`, none of them attempted.
    pub fn new(tasks: Vec<Task>) -> (o: Orchestration)
        ensures
            o@ == OrchestrationView::begin(task_views(tasks@)),
    {
        let o = Orchestration { tasks, outcomes: Vec::new() };
        assert(task_outcome_views(o.outcomes@) =~= Seq::empty());
        o
    }

    /// Whether every task was attempted.
    pub fn is_finished(&self) -> (r: bool)
        ensures
            r == self@.is_finished(),
    {
        self.outcomes.len() >= self.tasks.len()
    }

    /// The task that is due; `None` when every task was attempted.
    pub fn current(&self) -> (r: Option<Task>)
        ensures
            match r {
                Some(task) => self@.current() == Some(task@),
                None => self@.current() is None,
            },
    {
        if self.outcomes.len() >= self.tasks.len() {
            None
        } else {
            let task = &self.tasks[self.outcomes.len()];
            Some(Task { region: copy_string(&task.region), facade: task.facade })
        }
    }

    /// Notes how the task that was due ended.
    pub fn record(&mut self, outcome: TaskOutcome)
        ensures
            final(self)@ == old(self)@.record(outcome@),
    {
        if self.outcomes.len() < self.tasks.len() {
            self.outcomes.push(outcome);
            assert(task_outcome_views(self.outcomes@) =~= task_outcome_views(
                old(self).outcomes@,
            ).push(outcome@));
        }
    }

    /// How many tasks were attempted.
    pub fn attempted(&self) -> (n: usize)
        ensures
            n == self@.outcomes.len(),
    {
        self.outcomes.len()
    }

    /// How many of the tasks attempted were given up.
    pub fn given_up(&self) -> (n: usize)
        ensures
            n <= self@.outcomes.len(),
            n == self@.outcomes.filter(|o: TaskOutcomeView| o is GaveUp).len(),
    {
        let ghost outcomes = task_outcome_views(self.outcomes@);
        let ghost pred = |o: TaskOutcomeView| o is GaveUp;
        let mut n: usize = 0;
        let mut i: usize = 0;
        assert(outcomes.take(0) =~= Seq::empty());
        while i < self.outcomes.len()
            invariant
                i <= self.outcomes@.len(),
                outcomes == task_outcome_views(self.outcomes@),
                pred == |o: TaskOutcomeView| o is GaveUp,
                n <= i,
                n == outcomes.take(i as int).filter(pred).len(),
            decreases self.outcomes@.len() - i,
        {
            proof {
                reveal(Seq::filter);
                assert(outcomes.take(i + 1).drop_last() =~= outcomes.take(i as int));
                assert(outcomes.take(i + 1).last() == self.outcomes@[i as int]@);
            }
            match &self.outcomes[i] {
                TaskOutcome::GaveUp(_) => {
                    n = n + 1;
                },
                _ => {},
            }
            i = i + 1;
        }
        assert(outcomes.take(self.outcomes@.len() as int) =~= outcomes);
        n
    }
}

} // verus!
