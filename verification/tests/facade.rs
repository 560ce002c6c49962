use scheduler::apprunner::AppRunnerScheduler;
use scheduler::autoscaling::{AutoScalingScheduler, GroupDescription, GroupPage, Membership, Tag};
use scheduler::cloudwatch::CloudWatchScheduler;
use scheduler::config::ScheduleAction;
use scheduler::documentdb::DocumentDbScheduler;
use scheduler::ec2::Ec2Scheduler;
use scheduler::ecs::EcsScheduler;
use scheduler::executor::Outcome;
use scheduler::facade::{Event, Report, Run, Step};
use scheduler::family::{Facade, ResourceFamily, Verb};
use scheduler::filter_resources_by_tags::ResourcePage;
use scheduler::rds::RdsScheduler;
use scheduler::redshift::RedshiftScheduler;
use scheduler::transfer::TransferScheduler;
use scheduler::waiter::{Observation, WaitError};

fn words(step: &Step) -> String {
    match step {
        Step::ListResources(r) => format!(
            "list {} {}={} token={}",
            r.resource_type,
            r.tag_key,
            r.tag_value,
            r.pagination_token.clone().unwrap_or("-".to_string())
        ),
        Step::DescribeGroups(r) => format!(
            "groups [{}] token={}",
            r.group_names.join(","),
            r.next_token.clone().unwrap_or("-".to_string())
        ),
        Step::LookupOwner(id) => format!("owner? {id}"),
        Step::Invoke(call) => format!("{} {}", call.verb.name(), call.resource),
        Step::QueryStates(ids) => format!("states [{}]", ids.join(",")),
        Step::Sleep(secs) => format!("sleep {secs}"),
        Step::Finished => "finished".to_string(),
        Step::Failed(e) => format!("failed: {}", e.cause),
    }
}

/// Runs a facade against `cloud`, which answers each step, and returns the
/// steps in words with the report.
fn play(begin: (Run, Step), cloud: &mut dyn FnMut(&Step) -> Event) -> (Vec<String>, Report) {
    let (mut run, mut step) = begin;
    let mut log = Vec::new();
    loop {
        log.push(words(&step));
        assert!(log.len() < 10_000, "the run does not end");
        match step {
            Step::Finished | Step::Failed(_) => {
                assert!(run.is_over());
                return (log, run.into_report());
            }
            _ => {
                assert!(!run.is_over());
                let event = cloud(&step);
                (run, step) = run.advance(event);
            }
        }
    }
}

fn arn_page(arns: &[&str], token: Option<&str>) -> Event {
    Event::Resources(ResourcePage {
        arns: arns.iter().map(|a| Some(a.to_string())).collect(),
        pagination_token: token.map(|t| t.to_string()),
    })
}

fn tagged_group(name: &str, instances: &[&str]) -> GroupDescription {
    GroupDescription {
        name: Some(name.to_string()),
        tags: vec![Tag { key: Some("schedule".to_string()), value: Some("office".to_string()) }],
        instance_ids: instances.iter().map(|i| Some(i.to_string())).collect(),
    }
}

fn untagged_group(name: &str, instances: &[&str]) -> GroupDescription {
    GroupDescription { tags: Vec::new(), ..tagged_group(name, instances) }
}

fn group_page(groups: Vec<GroupDescription>, token: Option<&str>) -> Event {
    Event::Groups(GroupPage { groups, next_token: token.map(|t| t.to_string()) })
}

fn outcome_words(report: &Report) -> Vec<String> {
    assert_eq!(report.calls.len(), report.outcomes.len());
    report
        .calls
        .iter()
        .zip(report.outcomes.iter())
        .map(|(call, outcome)| match outcome {
            Outcome::Succeeded => format!("{} ok", call.resource),
            Outcome::Skipped(group) => format!("{} skipped, owned by {group}", call.resource),
            Outcome::Failed(e) => {
                assert_eq!(e.resource, call.resource);
                assert_eq!(e.verb, call.verb);
                format!("{} failed: {}", call.resource, e.cause)
            }
        })
        .collect()
}

#[test]
fn alarms_are_found_page_by_page_and_each_is_attempted() {
    let mut cloud = |step: &Step| match step {
        Step::ListResources(r) => match r.pagination_token.as_deref() {
            None => arn_page(
                &["arn:aws:cloudwatch:eu-west-1:1:alarm:cpu", "arn:aws:cloudwatch:eu-west-1:1:alarm:disk"],
                Some("page-2"),
            ),
            Some("page-2") => arn_page(&["arn:aws:cloudwatch:eu-west-1:1:alarm:mem"], None),
            Some(other) => panic!("unknown token {other}"),
        },
        Step::Invoke(call) => {
            assert_eq!(call.family, ResourceFamily::Alarm);
            if call.resource == "disk" {
                Event::Failed("alarm not found".to_string())
            } else {
                Event::Done
            }
        }
        other => panic!("unexpected step {}", words(other)),
    };
    let scheduler = CloudWatchScheduler::new("eu-west-1");
    assert_eq!(scheduler.region(), "eu-west-1");
    let (log, report) = play(scheduler.stop("schedule", "office"), &mut cloud);
    assert_eq!(
        log,
        vec![
            "list cloudwatch:alarm schedule=office token=-",
            "list cloudwatch:alarm schedule=office token=page-2",
            "disable cpu",
            "disable disk",
            "disable mem",
            "finished",
        ]
    );
    assert_eq!(outcome_words(&report), vec!["cpu ok", "disk failed: alarm not found", "mem ok"]);
    assert!(report.wait.is_none());
}

#[test]
fn attempted_calls_equal_discovered_resources() {
    for failing in 0..8u32 {
        let mut calls = 0;
        let mut cloud = |step: &Step| match step {
            Step::ListResources(_) => arn_page(&["arn:x:server/s-1", "arn:x:server/s-2", "arn:x:server/s-3"], None),
            Step::Invoke(_) => {
                calls += 1;
                if failing & (1 << (calls - 1)) != 0 {
                    Event::Failed("refused".to_string())
                } else {
                    Event::Done
                }
            }
            other => panic!("unexpected step {}", words(other)),
        };
        let (run, step) = TransferScheduler::new("eu-west-1").start("k", "v");
        let (_, report) = play((run, step), &mut cloud);
        assert_eq!(report.calls.len(), 3);
        assert_eq!(report.outcomes.len(), 3);
        let failed = report.outcomes.iter().filter(|o| matches!(o, Outcome::Failed(_))).count();
        assert_eq!(failed as u32, failing.count_ones());
        assert_eq!(calls, 3);
    }
}

#[test]
fn database_clusters_come_before_instances() {
    let mut cloud = |step: &Step| match step {
        Step::ListResources(r) if r.resource_type == "rds:cluster" => arn_page(
            &["arn:aws:rds:eu-west-1:1:cluster:aurora-1", "arn:aws:rds:eu-west-1:1:cluster:aurora-2"],
            None,
        ),
        Step::ListResources(r) if r.resource_type == "rds:db" => match r.pagination_token.as_deref() {
            None => arn_page(&["arn:aws:rds:eu-west-1:1:db:orders"], Some("t")),
            _ => arn_page(&["arn:aws:rds:eu-west-1:1:db:billing"], Some("")),
        },
        Step::Invoke(_) => Event::Done,
        other => panic!("unexpected step {}", words(other)),
    };
    let (log, report) = play(RdsScheduler::new("eu-west-1").start("env", "dev"), &mut cloud);
    assert_eq!(
        log,
        vec![
            "list rds:cluster env=dev token=-",
            "list rds:db env=dev token=-",
            "list rds:db env=dev token=t",
            "start aurora-1",
            "start aurora-2",
            "start orders",
            "start billing",
            "finished",
        ]
    );
    let families: Vec<ResourceFamily> = report.calls.iter().map(|c| c.family).collect();
    assert_eq!(
        families,
        vec![
            ResourceFamily::RelationalDbCluster,
            ResourceFamily::RelationalDbCluster,
            ResourceFamily::RelationalDbInstance,
            ResourceFamily::RelationalDbInstance,
        ]
    );
}

#[test]
fn instances_owned_by_a_group_are_skipped() {
    let mut cloud = |step: &Step| match step {
        Step::ListResources(_) => arn_page(
            &[
                "arn:aws:ec2:eu-west-1:1:instance/i1",
                "arn:aws:ec2:eu-west-1:1:instance/i2",
                "arn:aws:ec2:eu-west-1:1:instance/i3",
            ],
            None,
        ),
        Step::LookupOwner(id) if id == "i1" => Event::Owner(vec![Membership {
            instance_id: "i1".to_string(),
            group_name: "G1".to_string(),
        }]),
        Step::LookupOwner(id) if id == "i2" => Event::Failed("throttled".to_string()),
        Step::LookupOwner(_) => Event::Owner(Vec::new()),
        Step::Invoke(call) => {
            assert_eq!(call.resource, "i3");
            Event::Done
        }
        other => panic!("unexpected step {}", words(other)),
    };
    let (log, report) = play(Ec2Scheduler::new("eu-west-1").stop("schedule", "office"), &mut cloud);
    assert_eq!(
        log,
        vec![
            "list ec2:instance schedule=office token=-",
            "owner? i1",
            "owner? i2",
            "owner? i3",
            "stop i3",
            "finished",
        ]
    );
    assert_eq!(
        outcome_words(&report),
        vec!["i1 skipped, owned by G1", "i2 failed: throttled", "i3 ok"]
    );
}

#[test]
fn groups_are_suspended_then_members_stopped() {
    let mut cloud = |step: &Step| match step {
        Step::DescribeGroups(r) if r.group_names.is_empty() => match r.next_token.as_deref() {
            None => group_page(
                vec![tagged_group("web", &["i-1"]), untagged_group("other", &["i-9"])],
                Some("g2"),
            ),
            _ => group_page(vec![tagged_group("api", &["i-2"])], None),
        },
        Step::DescribeGroups(r) => {
            assert_eq!(r.group_names, vec!["web", "api"]);
            assert_eq!(r.next_token, None);
            group_page(vec![tagged_group("web", &["i-1", "i-3"]), tagged_group("api", &["i-2"])], None)
        }
        Step::Invoke(call) if call.resource == "web" => Event::Failed("denied".to_string()),
        Step::Invoke(_) => Event::Done,
        other => panic!("unexpected step {}", words(other)),
    };
    let (log, report) =
        play(AutoScalingScheduler::new("eu-west-1").stop("schedule", "office"), &mut cloud);
    assert_eq!(
        log,
        vec![
            "groups [] token=-",
            "groups [] token=g2",
            "groups [web,api] token=-",
            "suspend web",
            "suspend api",
            "stop i-1",
            "stop i-3",
            "stop i-2",
            "finished",
        ]
    );
    assert_eq!(
        outcome_words(&report),
        vec!["web failed: denied", "api ok", "i-1 ok", "i-3 ok", "i-2 ok"]
    );
    assert!(report.wait.is_none());
}

#[test]
fn members_are_started_and_awaited_before_groups_resume() {
    let mut ticks = 0;
    let mut cloud = |step: &Step| match step {
        Step::DescribeGroups(r) if r.group_names.is_empty() => {
            group_page(vec![tagged_group("web", &[])], None)
        }
        Step::DescribeGroups(_) => group_page(vec![tagged_group("web", &["i-1", "i-2", "i-3"])], None),
        Step::Invoke(call) if call.resource == "i-2" => Event::Failed("no capacity".to_string()),
        Step::Invoke(_) => Event::Done,
        Step::QueryStates(ids) => {
            ticks += 1;
            Event::States(
                ids.iter()
                    .map(|id| Observation {
                        resource: id.clone(),
                        state: if ticks >= 2 || id == "i-1" { "running" } else { "pending" }.to_string(),
                    })
                    .collect(),
            )
        }
        Step::Sleep(_) => Event::Rested,
        other => panic!("unexpected step {}", words(other)),
    };
    let (log, report) =
        play(AutoScalingScheduler::new("eu-west-1").start("schedule", "office"), &mut cloud);
    assert_eq!(
        log,
        vec![
            "groups [] token=-",
            "groups [web] token=-",
            "start i-1",
            "start i-2",
            "start i-3",
            "states [i-1,i-3]",
            "sleep 15",
            "states [i-3]",
            "resume web",
            "finished",
        ]
    );
    assert_eq!(
        outcome_words(&report),
        vec!["i-1 ok", "i-2 failed: no capacity", "i-3 ok", "web ok"]
    );
    assert!(matches!(report.wait, Some(Ok(()))));
}

#[test]
fn groups_resume_even_when_the_wait_times_out() {
    let mut queries = 0;
    let mut sleeps = 0;
    let mut cloud = |step: &Step| match step {
        Step::DescribeGroups(r) if r.group_names.is_empty() => {
            group_page(vec![tagged_group("web", &[])], None)
        }
        Step::DescribeGroups(_) => group_page(vec![tagged_group("web", &["i-1"])], None),
        Step::Invoke(_) => Event::Done,
        Step::QueryStates(_) => {
            queries += 1;
            Event::States(Vec::new())
        }
        Step::Sleep(secs) => {
            assert_eq!(*secs, 15);
            sleeps += 1;
            Event::Rested
        }
        other => panic!("unexpected step {}", words(other)),
    };
    let (log, report) =
        play(AutoScalingScheduler::new("eu-west-1").start("schedule", "office"), &mut cloud);
    assert_eq!(queries, 40);
    assert_eq!(sleeps, 39);
    assert_eq!(&log[log.len() - 2..], ["resume web", "finished"]);
    assert_eq!(outcome_words(&report), vec!["i-1 ok", "web ok"]);
    match report.wait {
        Some(Err(WaitError::Timeout(e))) => assert_eq!(e.remaining, vec!["i-1"]),
        _ => panic!("the wait timed out"),
    }
}

#[test]
fn groups_resume_when_the_state_query_fails() {
    let mut cloud = |step: &Step| match step {
        Step::DescribeGroups(r) if r.group_names.is_empty() => {
            group_page(vec![tagged_group("web", &[])], None)
        }
        Step::DescribeGroups(_) => group_page(vec![tagged_group("web", &["i-1"])], None),
        Step::Invoke(_) => Event::Done,
        Step::QueryStates(_) => Event::Failed("unauthorized".to_string()),
        other => panic!("unexpected step {}", words(other)),
    };
    let (log, report) =
        play(AutoScalingScheduler::new("eu-west-1").start("schedule", "office"), &mut cloud);
    assert_eq!(
        log,
        vec![
            "groups [] token=-",
            "groups [web] token=-",
            "start i-1",
            "states [i-1]",
            "resume web",
            "finished"
        ]
    );
    match report.wait {
        Some(Err(WaitError::Discovery(e))) => assert_eq!(e.cause, "unauthorized"),
        _ => panic!("the wait was aborted"),
    }
}

#[test]
fn nothing_started_means_no_wait() {
    let mut cloud = |step: &Step| match step {
        Step::DescribeGroups(r) if r.group_names.is_empty() => {
            group_page(vec![tagged_group("web", &[])], None)
        }
        Step::DescribeGroups(_) => group_page(vec![tagged_group("web", &["i-1"])], None),
        Step::Invoke(call) if call.verb == Verb::Start => Event::Failed("denied".to_string()),
        Step::Invoke(_) => Event::Done,
        other => panic!("unexpected step {}", words(other)),
    };
    let (log, report) =
        play(AutoScalingScheduler::new("eu-west-1").start("schedule", "office"), &mut cloud);
    assert_eq!(
        log,
        vec!["groups [] token=-", "groups [web] token=-", "start i-1", "resume web", "finished"]
    );
    assert!(report.wait.is_none());
}

#[test]
fn no_tagged_group_means_no_expansion_request() {
    for action in [ScheduleAction::Stop, ScheduleAction::Start] {
        let mut cloud = |step: &Step| match step {
            Step::DescribeGroups(r) => {
                assert!(r.group_names.is_empty(), "members were asked for though no group is tagged");
                group_page(vec![untagged_group("other", &["i-9"])], None)
            }
            other => panic!("unexpected step {}", words(other)),
        };
        let (log, report) =
            play(Run::begin(Facade::AutoScaling, action, "schedule", "office"), &mut cloud);
        assert_eq!(log, vec!["groups [] token=-", "finished"]);
        assert!(report.calls.is_empty());
        assert!(report.outcomes.is_empty());
    }
}

#[test]
fn a_failed_lookup_ends_the_run() {
    let mut cloud = |step: &Step| match step {
        Step::ListResources(r) if r.pagination_token.is_none() => {
            arn_page(&["arn:aws:redshift:eu-west-1:1:cluster:wh"], Some("more"))
        }
        Step::ListResources(_) => Event::Failed("expired token".to_string()),
        other => panic!("unexpected step {}", words(other)),
    };
    let (log, report) = play(RedshiftScheduler::new("eu-west-1").stop("k", "v"), &mut cloud);
    assert_eq!(
        log,
        vec!["list redshift:cluster k=v token=-", "list redshift:cluster k=v token=more", "failed: expired token"]
    );
    assert!(report.calls.is_empty());

    let mut cloud = |step: &Step| match step {
        Step::DescribeGroups(_) => Event::Failed("access denied".to_string()),
        other => panic!("unexpected step {}", words(other)),
    };
    let (log, _) = play(AutoScalingScheduler::new("eu-west-1").stop("k", "v"), &mut cloud);
    assert_eq!(log, vec!["groups [] token=-", "failed: access denied"]);
}

#[test]
fn a_run_that_is_over_stays_over() {
    let (run, _) = DocumentDbScheduler::new("eu-west-1").stop("k", "v");
    let (run, step) = run.advance(Event::Failed("down".to_string()));
    assert!(matches!(step, Step::Failed(_)));
    let (run, step) = run.advance(arn_page(&["arn:aws:rds:eu-west-1:1:cluster:docs"], None));
    assert_eq!(words(&step), "failed: down");
    let (run, step) = run.advance(Event::Done);
    assert_eq!(words(&step), "failed: down");
    assert!(run.is_over());

    let (run, _) = DocumentDbScheduler::new("eu-west-1").stop("k", "v");
    let (run, step) = run.advance(arn_page(&[], None));
    assert!(matches!(step, Step::Finished));
    let (run, step) = run.advance(Event::Failed("late".to_string()));
    assert!(matches!(step, Step::Finished));
    assert!(run.is_over());
    assert_eq!(run.found(), (0, 0, 0));
}

#[test]
fn an_event_out_of_turn_asks_for_the_same_step() {
    let (run, first) = AppRunnerScheduler::new("eu-west-1").stop("k", "v");
    let (run, again) = run.advance(Event::Done);
    assert_eq!(words(&first), words(&again));
    let (run, again) = run.advance(Event::Rested);
    assert_eq!(words(&first), words(&again));
    let (run, again) = run.advance(group_page(Vec::new(), None));
    assert_eq!(words(&first), words(&again));
    let web = "arn:aws:apprunner:eu-west-1:1:service/web/0123456789abcdef";
    let (run, step) = run.advance(arn_page(&[web], None));
    assert_eq!(words(&step), format!("pause {web}"));
    assert_eq!(run.found(), (1, 0, 0));
    let (run, again) = run.advance(arn_page(&["arn:other"], None));
    assert_eq!(words(&again), format!("pause {web}"));
    let (run, again) = run.advance(Event::Owner(Vec::new()));
    assert_eq!(words(&again), format!("pause {web}"));
    let (run, step) = run.advance(Event::Done);
    assert!(matches!(step, Step::Finished));
    let report = run.into_report();
    assert_eq!(report.calls.len(), 1);
    assert_eq!(report.calls[0].name, "web");
    assert_eq!(report.calls[0].verb, Verb::Pause);
}

#[test]
fn container_services_are_set_to_zero_or_one_task() {
    let arn = "arn:aws:ecs:us-east-1:123:service/my-cluster/my-service";
    for (action, count) in [(ScheduleAction::Stop, 0), (ScheduleAction::Start, 1)] {
        let scheduler = EcsScheduler::new("us-east-1");
        let (run, _) = match action {
            ScheduleAction::Stop => scheduler.stop("k", "v"),
            ScheduleAction::Start => scheduler.start("k", "v"),
        };
        let (_, step) = run.advance(arn_page(&[arn, "not-an-arn"], None));
        match step {
            Step::Invoke(call) => {
                assert_eq!(call.family, ResourceFamily::ContainerService);
                assert_eq!(call.cluster, "my-cluster");
                assert_eq!(call.resource, "my-service");
                assert_eq!(call.desired_count, Some(count));
            }
            other => panic!("unexpected step {}", words(&other)),
        }
    }
}

#[test]
fn an_empty_lookup_finishes_without_a_call() {
    let mut cloud = |step: &Step| match step {
        Step::ListResources(_) => arn_page(&[], None),
        other => panic!("unexpected step {}", words(other)),
    };
    let (log, report) = play(Ec2Scheduler::new("eu-west-1").start("k", "v"), &mut cloud);
    assert_eq!(log, vec!["list ec2:instance k=v token=-", "finished"]);
    assert!(report.calls.is_empty());
    let (log, _) = play(RdsScheduler::new("eu-west-1").stop("k", "v"), &mut cloud);
    assert_eq!(log, vec!["list rds:cluster k=v token=-", "list rds:db k=v token=-", "finished"]);
}

#[test]
fn a_resource_served_twice_is_called_once() {
    let mut cloud = |step: &Step| match step {
        Step::ListResources(r) => match r.pagination_token.as_deref() {
            None => arn_page(&["arn:x:server/s-1", "arn:x:server/s-2", "arn:x:server/s-1"], Some("2")),
            _ => arn_page(&["arn:x:server/s-2", "arn:x:server/s-3"], None),
        },
        Step::Invoke(_) => Event::Done,
        other => panic!("unexpected step {}", words(other)),
    };
    let (log, report) = play(TransferScheduler::new("eu-west-1").stop("k", "v"), &mut cloud);
    assert_eq!(
        log,
        vec!["list transfer:server k=v token=-", "list transfer:server k=v token=2", "stop s-1", "stop s-2", "stop s-3", "finished"]
    );
    assert_eq!(outcome_words(&report), vec!["s-1 ok", "s-2 ok", "s-3 ok"]);
}

#[test]
fn a_member_served_twice_is_stopped_once() {
    let mut cloud = |step: &Step| match step {
        Step::DescribeGroups(r) if r.group_names.is_empty() => match r.next_token.as_deref() {
            None => group_page(vec![tagged_group("web", &[])], Some("again")),
            _ => group_page(vec![tagged_group("web", &[])], None),
        },
        Step::DescribeGroups(r) => {
            assert_eq!(r.group_names, vec!["web"]);
            group_page(vec![tagged_group("web", &["i-1", "i-2", "i-1"])], None)
        }
        Step::Invoke(_) => Event::Done,
        other => panic!("unexpected step {}", words(other)),
    };
    let (log, _) = play(AutoScalingScheduler::new("eu-west-1").stop("schedule", "office"), &mut cloud);
    assert_eq!(
        log,
        vec![
            "groups [] token=-",
            "groups [] token=again",
            "groups [web] token=-",
            "suspend web",
            "stop i-1",
            "stop i-2",
            "finished"
        ]
    );
}
