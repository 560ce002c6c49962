use scheduler::config::{AppConfig, ScheduleAction};
use scheduler::facade::Step;
use scheduler::family::Facade;
use scheduler::orchestrator::{
    execute, facades_of, is_date_excluded, is_excluded_on, launch, plan, Orchestration, Task,
    TaskOutcome,
};

fn config_with(regions: &[&str], excluded: &[&str]) -> AppConfig {
    AppConfig {
        schedule_action: ScheduleAction::Stop,
        aws_regions: regions.iter().map(|r| r.to_string()).collect(),
        tag_key: "schedule".to_string(),
        tag_value: "office-hours".to_string(),
        ec2_schedule: true,
        apprunner_schedule: false,
        autoscaling_schedule: false,
        cloudwatch_alarm_schedule: false,
        documentdb_schedule: false,
        ecs_schedule: false,
        rds_schedule: true,
        redshift_schedule: false,
        transfer_schedule: false,
        excluded_dates: excluded.iter().map(|d| d.to_string()).collect(),
    }
}

fn every_date() -> Vec<String> {
    let mut all = Vec::new();
    for month in 1..=12 {
        for day in 1..=31 {
            all.push(format!("{month:02}-{day:02}"));
        }
    }
    all
}

fn pairs(tasks: &[Task]) -> Vec<(String, Facade)> {
    tasks.iter().map(|t| (t.region.clone(), t.facade)).collect()
}

#[test]
fn an_excluded_date_leaves_nothing_to_do() {
    let config = config_with(&["eu-west-1", "us-east-1"], &["07-04"]);
    for year in [1999, 2024, 2025, 2031] {
        let today = chrono::NaiveDate::from_ymd_opt(year, 7, 4).unwrap().format("%m-%d").to_string();
        assert!(is_excluded_on(&config.excluded_dates, &today));
        let tasks = plan(&config, &today);
        assert!(tasks.is_empty());
        let run = Orchestration::new(tasks);
        assert!(run.is_finished());
        assert!(run.current().is_none());
        assert_eq!(run.attempted(), 0);
    }
    let next_day = chrono::NaiveDate::from_ymd_opt(2025, 7, 5).unwrap().format("%m-%d").to_string();
    assert!(!is_excluded_on(&config.excluded_dates, &next_day));
    assert_eq!(plan(&config, &next_day).len(), 4);
}

#[test]
fn dates_are_compared_as_written() {
    let excluded = vec!["7-4".to_string(), "07-04 ".to_string(), "2025-07-04".to_string()];
    assert!(!is_excluded_on(&excluded, &"07-04".to_string()));
    assert!(is_excluded_on(&excluded, &"7-4".to_string()));
    assert!(!is_excluded_on(&Vec::new(), &"07-04".to_string()));
}

#[test]
fn today_is_excluded_when_every_date_is() {
    assert_eq!(is_date_excluded(&every_date()), Some(true));
    assert_eq!(is_date_excluded(&Vec::new()), Some(false));
    // no entry here is a date of the form MM-DD
    let odd = vec!["7-4".to_string(), "00-00".to_string(), "13-01".to_string(), "today".to_string()];
    assert_eq!(is_date_excluded(&odd), Some(false));
}

#[test]
fn today_is_the_utc_date() {
    let before = chrono::Utc::now().format("%m-%d").to_string();
    let mut all_but_today = every_date();
    all_but_today.retain(|d| *d != before);
    let excluded_without = is_date_excluded(&all_but_today);
    let excluded_with = is_date_excluded(&vec![before.clone()]);
    let after = chrono::Utc::now().format("%m-%d").to_string();
    if before == after {
        assert_eq!(excluded_without, Some(false));
        assert_eq!(excluded_with, Some(true));
    }
}

#[test]
fn execute_plans_nothing_on_an_excluded_date() {
    let mut config = config_with(&["eu-west-1"], &[]);
    assert_eq!(pairs(&execute(&config).expect("the clock gives a date")), vec![
        ("eu-west-1".to_string(), Facade::Ec2),
        ("eu-west-1".to_string(), Facade::Rds),
    ]);
    config.excluded_dates = every_date();
    assert_eq!(execute(&config).map(|tasks| tasks.len()), Some(0));
}

#[test]
fn tasks_go_region_by_region_in_the_fixed_order() {
    let mut config = config_with(&["eu-west-1", "us-east-1"], &["12-25"]);
    config.ec2_schedule = true;
    config.apprunner_schedule = true;
    config.autoscaling_schedule = true;
    config.cloudwatch_alarm_schedule = true;
    config.documentdb_schedule = true;
    config.ecs_schedule = true;
    config.rds_schedule = true;
    config.redshift_schedule = true;
    config.transfer_schedule = true;
    let order = vec![
        Facade::Ec2,
        Facade::AutoScaling,
        Facade::AppRunner,
        Facade::CloudWatch,
        Facade::DocumentDb,
        Facade::Ecs,
        Facade::Rds,
        Facade::Redshift,
        Facade::Transfer,
    ];
    assert_eq!(facades_of(&config), order);
    let tasks = plan(&config, &"07-04".to_string());
    assert_eq!(tasks.len(), 18);
    for (i, task) in tasks.iter().enumerate() {
        assert_eq!(task.region, if i < 9 { "eu-west-1" } else { "us-east-1" });
        assert_eq!(task.facade, order[i % 9]);
    }
    config.ec2_schedule = false;
    config.ecs_schedule = false;
    config.transfer_schedule = false;
    assert_eq!(
        facades_of(&config),
        vec![
            Facade::AutoScaling,
            Facade::AppRunner,
            Facade::CloudWatch,
            Facade::DocumentDb,
            Facade::Rds,
            Facade::Redshift
        ]
    );
}

#[test]
fn nothing_enabled_or_no_region_gives_no_task() {
    let mut config = config_with(&["eu-west-1"], &[]);
    config.ec2_schedule = false;
    config.rds_schedule = false;
    assert!(plan(&config, &"01-01".to_string()).is_empty());
    let config = config_with(&[], &[]);
    assert!(plan(&config, &"01-01".to_string()).is_empty());
}

#[test]
fn a_task_that_is_given_up_does_not_stop_the_run() {
    let config = config_with(&["eu-west-1", "us-east-1"], &[]);
    let mut run = Orchestration::new(plan(&config, &"03-03".to_string()));
    let mut seen = Vec::new();
    while let Some(task) = run.current() {
        let outcome = if seen.len() == 1 {
            TaskOutcome::GaveUp("no credentials".to_string())
        } else {
            TaskOutcome::Completed
        };
        seen.push((task.region, task.facade));
        run.record(outcome);
    }
    assert_eq!(
        seen,
        vec![
            ("eu-west-1".to_string(), Facade::Ec2),
            ("eu-west-1".to_string(), Facade::Rds),
            ("us-east-1".to_string(), Facade::Ec2),
            ("us-east-1".to_string(), Facade::Rds),
        ]
    );
    assert!(run.is_finished());
    assert_eq!(run.attempted(), 4);
    assert_eq!(run.given_up(), 1);
    run.record(TaskOutcome::GaveUp("late".to_string()));
    assert_eq!(run.attempted(), 4);
    assert_eq!(run.given_up(), 1);
}

#[test]
fn a_task_is_launched_with_the_configured_action_and_tag() {
    let mut config = config_with(&["eu-west-1"], &[]);
    let task = Task { region: "eu-west-1".to_string(), facade: Facade::Rds };
    let (run, step) = launch(&task, &config);
    assert_eq!(run.facade(), Facade::Rds);
    match step {
        Step::ListResources(request) => {
            assert_eq!(request.resource_type, "rds:cluster");
            assert_eq!(request.tag_key, "schedule");
            assert_eq!(request.tag_value, "office-hours");
            assert_eq!(request.pagination_token, None);
        }
        _ => panic!("a lookup by tag comes first"),
    }
    config.schedule_action = ScheduleAction::Start;
    let task = Task { region: "eu-west-1".to_string(), facade: Facade::AutoScaling };
    let (run, step) = launch(&task, &config);
    assert_eq!(run.facade(), Facade::AutoScaling);
    match step {
        Step::DescribeGroups(request) => {
            assert!(request.group_names.is_empty());
            assert_eq!(request.next_token, None);
        }
        _ => panic!("the groups are read first"),
    }
    for facade in [
        Facade::Ec2,
        Facade::AppRunner,
        Facade::CloudWatch,
        Facade::DocumentDb,
        Facade::Ecs,
        Facade::Redshift,
        Facade::Transfer,
    ] {
        let task = Task { region: "eu-west-1".to_string(), facade };
        let (run, step) = launch(&task, &config);
        assert_eq!(run.facade(), facade);
        assert!(matches!(step, Step::ListResources(_)));
        assert!(!run.is_over());
    }
}
