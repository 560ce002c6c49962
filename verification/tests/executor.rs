use scheduler::config::ScheduleAction;
use scheduler::executor::{copy_call, ActionCall, Batch, BatchStep, Outcome};
use scheduler::facade::{make_call, make_calls, make_group_calls, make_member_calls};
use scheduler::family::{Facade, ResourceFamily, Verb};

fn alarm_calls(names: &[&str]) -> Vec<ActionCall> {
    let arns: Vec<String> =
        names.iter().map(|n| format!("arn:aws:cloudwatch:eu-west-1:1:alarm:{n}")).collect();
    make_calls(ResourceFamily::Alarm, ScheduleAction::Stop, &arns)
}

fn invoked(batch: &Batch) -> String {
    match batch.step() {
        BatchStep::Invoke(call) => call.resource,
        BatchStep::LookupOwner(id) => format!("lookup {id}"),
        BatchStep::Finished => "finished".to_string(),
    }
}

#[test]
fn a_failing_call_does_not_stop_the_batch() {
    let mut batch = Batch::new(alarm_calls(&["first", "second", "third"]));
    let mut attempted = Vec::new();
    while !batch.is_finished() {
        let resource = invoked(&batch);
        let result = if resource == "second" { Err("access denied".to_string()) } else { Ok(()) };
        attempted.push(resource);
        batch.completed(result);
    }
    assert_eq!(attempted, vec!["first", "second", "third"]);
    assert_eq!(batch.attempted(), 3);
    assert_eq!(batch.planned(), 3);
    assert_eq!(batch.succeeded(), vec!["first", "third"]);
    let (calls, outcomes) = batch.into_parts();
    assert_eq!(calls.len(), 3);
    assert!(matches!(outcomes[0], Outcome::Succeeded));
    assert!(matches!(outcomes[2], Outcome::Succeeded));
    match &outcomes[1] {
        Outcome::Failed(e) => {
            assert_eq!(e.resource, "second");
            assert_eq!(e.verb, Verb::Disable);
            assert_eq!(e.cause, "access denied");
        }
        _ => panic!("the second call failed"),
    }
}

#[test]
fn every_call_is_attempted_when_all_fail() {
    let mut batch = Batch::new(alarm_calls(&["a", "b", "c", "d"]));
    let mut n = 0;
    while !batch.is_finished() {
        batch.completed(Err(format!("failure {n}")));
        n += 1;
    }
    assert_eq!(n, 4);
    assert_eq!(batch.attempted(), 4);
    assert_eq!(batch.succeeded(), Vec::<String>::new());
}

#[test]
fn an_empty_batch_is_finished() {
    let mut batch = Batch::new(Vec::new());
    assert!(batch.is_finished());
    assert!(matches!(batch.step(), BatchStep::Finished));
    batch.completed(Ok(()));
    assert_eq!(batch.attempted(), 0);
}

#[test]
fn a_finished_batch_takes_no_more_answers() {
    let mut batch = Batch::new(alarm_calls(&["only"]));
    batch.completed(Ok(()));
    batch.completed(Err("late".to_string()));
    batch.lookup_failed("late".to_string());
    batch.owner_known(Some("g".to_string()));
    assert_eq!(batch.attempted(), 1);
    assert_eq!(batch.succeeded(), vec!["only"]);
}

#[test]
fn an_owned_instance_is_skipped() {
    let arns = vec![
        "arn:aws:ec2:eu-west-1:1:instance/i-1".to_string(),
        "arn:aws:ec2:eu-west-1:1:instance/i-2".to_string(),
        "arn:aws:ec2:eu-west-1:1:instance/i-3".to_string(),
    ];
    let mut batch =
        Batch::new(make_calls(ResourceFamily::ComputeInstance, ScheduleAction::Stop, &arns));
    // i-1 is owned: skipped without a call
    assert_eq!(invoked(&batch), "lookup i-1");
    batch.owner_known(Some("G1".to_string()));
    // the lookup for i-2 fails: reported, and the batch goes on
    assert_eq!(invoked(&batch), "lookup i-2");
    batch.lookup_failed("throttled".to_string());
    // i-3 has no owner: the call is made
    assert_eq!(invoked(&batch), "lookup i-3");
    batch.owner_known(None);
    assert_eq!(invoked(&batch), "i-3");
    batch.completed(Ok(()));
    assert!(batch.is_finished());
    assert_eq!(batch.succeeded(), vec!["i-3"]);
    let (_, outcomes) = batch.into_parts();
    match &outcomes[0] {
        Outcome::Skipped(group) => assert_eq!(group, "G1"),
        _ => panic!("i-1 is owned"),
    }
    match &outcomes[1] {
        Outcome::Failed(e) => {
            assert_eq!((e.resource.as_str(), e.verb, e.cause.as_str()), ("i-2", Verb::Stop, "throttled"))
        }
        _ => panic!("the lookup for i-2 failed"),
    }
    assert!(matches!(outcomes[2], Outcome::Succeeded));
}

#[test]
fn answers_out_of_turn_change_nothing() {
    let arns = vec!["arn:aws:ec2:eu-west-1:1:instance/i-1".to_string()];
    let mut batch =
        Batch::new(make_calls(ResourceFamily::ComputeInstance, ScheduleAction::Start, &arns));
    // no call was made yet: an answer to a call is ignored
    batch.completed(Ok(()));
    assert_eq!(batch.attempted(), 0);
    assert_eq!(invoked(&batch), "lookup i-1");
    batch.owner_known(None);
    // the lookup is done: a second answer to it is ignored
    batch.owner_known(Some("G".to_string()));
    batch.lookup_failed("late".to_string());
    assert_eq!(batch.attempted(), 0);
    assert_eq!(invoked(&batch), "i-1");
}

#[test]
fn each_family_has_its_verbs() {
    let (stop_action, start_action) = (ScheduleAction::Stop, ScheduleAction::Start);
    let table = [
        (ResourceFamily::ComputeInstance, Verb::Stop, Verb::Start),
        (ResourceFamily::ComputeGroup, Verb::Suspend, Verb::Resume),
        (ResourceFamily::AppRunnerService, Verb::Pause, Verb::Resume),
        (ResourceFamily::Alarm, Verb::Disable, Verb::Enable),
        (ResourceFamily::DocumentStoreCluster, Verb::Stop, Verb::Start),
        (ResourceFamily::ContainerService, Verb::Stop, Verb::Start),
        (ResourceFamily::RelationalDbCluster, Verb::Stop, Verb::Start),
        (ResourceFamily::RelationalDbInstance, Verb::Stop, Verb::Start),
        (ResourceFamily::AnalyticsCluster, Verb::Pause, Verb::Resume),
        (ResourceFamily::TransferEndpoint, Verb::Stop, Verb::Start),
    ];
    for (family, stop, start) in table {
        assert_eq!(family.verb(stop_action), stop);
        assert_eq!(family.verb(start_action), start);
        assert!(!stop.brings_up());
        assert!(start.brings_up());
        assert_eq!(family.has_members(), family == ResourceFamily::ComputeGroup);
        assert_eq!(family.may_be_owned(), family == ResourceFamily::ComputeInstance);
    }
    assert_eq!(Verb::Suspend.name(), "suspend");
    assert_eq!(Verb::Disable.name(), "disable");
    assert_eq!(Verb::Enable.name(), "enable");
    assert_eq!(Verb::Pause.name(), "pause");
    assert_eq!(Verb::Resume.name(), "resume");
    assert_eq!(Verb::Stop.name(), "stop");
    assert_eq!(Verb::Start.name(), "start");
}

#[test]
fn each_family_has_its_resource_type() {
    assert_eq!(ResourceFamily::ComputeInstance.resource_type(), Some("ec2:instance"));
    assert_eq!(ResourceFamily::ComputeGroup.resource_type(), None);
    assert_eq!(ResourceFamily::AppRunnerService.resource_type(), Some("apprunner:service"));
    assert_eq!(ResourceFamily::Alarm.resource_type(), Some("cloudwatch:alarm"));
    assert_eq!(ResourceFamily::DocumentStoreCluster.resource_type(), Some("rds:cluster"));
    assert_eq!(ResourceFamily::ContainerService.resource_type(), Some("ecs:service"));
    assert_eq!(ResourceFamily::RelationalDbCluster.resource_type(), Some("rds:cluster"));
    assert_eq!(ResourceFamily::RelationalDbInstance.resource_type(), Some("rds:db"));
    assert_eq!(ResourceFamily::AnalyticsCluster.resource_type(), Some("redshift:cluster"));
    assert_eq!(ResourceFamily::TransferEndpoint.resource_type(), Some("transfer:server"));
}

#[test]
fn each_facade_has_its_families() {
    assert_eq!(Facade::Rds.first_family(), ResourceFamily::RelationalDbCluster);
    assert_eq!(Facade::Ecs.first_family(), ResourceFamily::ContainerService);
    assert_eq!(Facade::Rds.family_at(0), Some(ResourceFamily::RelationalDbCluster));
    assert_eq!(Facade::Rds.family_at(1), Some(ResourceFamily::RelationalDbInstance));
    assert_eq!(Facade::Rds.family_at(2), None);
    assert_eq!(Facade::Ec2.family_at(0), Some(ResourceFamily::ComputeInstance));
    assert_eq!(Facade::Ec2.family_at(1), None);
    assert_eq!(Facade::AutoScaling.family_at(0), Some(ResourceFamily::ComputeGroup));
    assert!(Facade::AutoScaling.is_hierarchical());
    for facade in [
        Facade::Ec2,
        Facade::AppRunner,
        Facade::CloudWatch,
        Facade::DocumentDb,
        Facade::Ecs,
        Facade::Rds,
        Facade::Redshift,
        Facade::Transfer,
    ] {
        assert!(!facade.is_hierarchical());
        assert_eq!(facade.family_at(0), Some(facade.first_family()));
    }
}

#[test]
fn calls_carry_what_the_provider_needs() {
    let ecs = make_call(
        ResourceFamily::ContainerService,
        ScheduleAction::Stop,
        &"arn:aws:ecs:us-east-1:123:service/my-cluster/my-service".to_string(),
    );
    assert_eq!(ecs.resource, "my-service");
    assert_eq!(ecs.cluster, "my-cluster");
    assert_eq!(ecs.desired_count, Some(0));
    assert_eq!(ecs.verb, Verb::Stop);
    assert!(!ecs.check_owner);
    let ecs_start = make_call(
        ResourceFamily::ContainerService,
        ScheduleAction::Start,
        &"not-an-arn".to_string(),
    );
    assert_eq!(ecs_start.resource, "not-an-arn");
    assert_eq!(ecs_start.cluster, "");
    assert_eq!(ecs_start.desired_count, Some(1));

    let web = "arn:aws:apprunner:eu-west-1:1:service/web/8fe1e10304f84fd2".to_string();
    let apprunner = make_call(ResourceFamily::AppRunnerService, ScheduleAction::Start, &web);
    assert_eq!(apprunner.resource, web);
    assert_eq!(apprunner.name, "web");
    assert_eq!(apprunner.verb, Verb::Resume);
    assert_eq!(apprunner.desired_count, None);

    let instance = make_call(
        ResourceFamily::ComputeInstance,
        ScheduleAction::Stop,
        &"arn:aws:ec2:eu-west-1:1:instance/i-9".to_string(),
    );
    assert_eq!(instance.resource, "i-9");
    assert!(instance.check_owner);

    let db = make_call(
        ResourceFamily::RelationalDbInstance,
        ScheduleAction::Stop,
        &"arn:aws:rds:eu-west-1:1:db:orders".to_string(),
    );
    assert_eq!((db.resource.as_str(), db.name.as_str(), db.cluster.as_str()), ("orders", "orders", ""));
    assert_eq!(db.family, ResourceFamily::RelationalDbInstance);

    let server = make_call(
        ResourceFamily::TransferEndpoint,
        ScheduleAction::Stop,
        &"arn:aws:transfer:eu-west-1:1:server/s-1".to_string(),
    );
    assert_eq!(server.resource, "s-1");
    let warehouse = make_call(
        ResourceFamily::AnalyticsCluster,
        ScheduleAction::Stop,
        &"arn:aws:redshift:eu-west-1:1:cluster:wh".to_string(),
    );
    assert_eq!((warehouse.resource.as_str(), warehouse.verb), ("wh", Verb::Pause));
    let docs = make_call(
        ResourceFamily::DocumentStoreCluster,
        ScheduleAction::Start,
        &"arn:aws:rds:eu-west-1:1:cluster:docs".to_string(),
    );
    assert_eq!((docs.resource.as_str(), docs.verb), ("docs", Verb::Start));
    let group = make_call(ResourceFamily::ComputeGroup, ScheduleAction::Stop, &"web-asg".to_string());
    assert_eq!((group.resource.as_str(), group.verb), ("web-asg", Verb::Suspend));

    let copy = copy_call(&ecs);
    assert_eq!(copy.resource, ecs.resource);
    assert_eq!(copy.cluster, ecs.cluster);
    assert_eq!(copy.desired_count, ecs.desired_count);
}

#[test]
fn groups_are_suspended_before_members_are_stopped() {
    let groups = vec!["g1".to_string(), "g2".to_string()];
    let members = vec!["i-1".to_string(), "i-2".to_string(), "i-3".to_string()];
    let stop = make_group_calls(ScheduleAction::Stop, &groups, &members);
    let order: Vec<(Verb, &str)> = stop.iter().map(|c| (c.verb, c.resource.as_str())).collect();
    assert_eq!(
        order,
        vec![
            (Verb::Suspend, "g1"),
            (Verb::Suspend, "g2"),
            (Verb::Stop, "i-1"),
            (Verb::Stop, "i-2"),
            (Verb::Stop, "i-3"),
        ]
    );
    assert!(stop.iter().all(|c| !c.check_owner));
    let start = make_group_calls(ScheduleAction::Start, &groups, &members);
    let order: Vec<(Verb, &str)> = start.iter().map(|c| (c.verb, c.resource.as_str())).collect();
    assert_eq!(order, vec![(Verb::Start, "i-1"), (Verb::Start, "i-2"), (Verb::Start, "i-3")]);
    let member = make_member_calls(ScheduleAction::Stop, &members);
    assert!(member.iter().all(|c| c.family == ResourceFamily::ComputeInstance));
}
