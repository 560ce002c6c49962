use scheduler::config::{
    action_of, env_bool, parse_list, switch_of, trim, AppConfig, ConfigError, Environment,
    ScheduleAction,
};

fn text(s: &str) -> Option<String> {
    Some(s.to_string())
}

fn minimal() -> Environment {
    Environment {
        schedule_action: text("stop"),
        aws_regions: text("eu-west-1"),
        tag_key: text("schedule"),
        tag_value: text("office-hours"),
        ec2_schedule: None,
        apprunner_schedule: None,
        autoscaling_schedule: None,
        cloudwatch_alarm_schedule: None,
        documentdb_schedule: None,
        ecs_schedule: None,
        rds_schedule: None,
        redshift_schedule: None,
        transfer_schedule: None,
        excluded_dates: None,
    }
}

#[test]
fn minimal_settings_give_the_defaults() {
    let config = AppConfig::from_env(&minimal()).unwrap();
    assert_eq!(config.schedule_action, ScheduleAction::Stop);
    assert_eq!(config.aws_regions, vec!["eu-west-1"]);
    assert_eq!(config.tag_key, "schedule");
    assert_eq!(config.tag_value, "office-hours");
    assert!(config.ec2_schedule);
    assert!(!config.apprunner_schedule);
    assert!(!config.autoscaling_schedule);
    assert!(!config.cloudwatch_alarm_schedule);
    assert!(!config.documentdb_schedule);
    assert!(!config.ecs_schedule);
    assert!(!config.rds_schedule);
    assert!(!config.redshift_schedule);
    assert!(!config.transfer_schedule);
    assert!(config.excluded_dates.is_empty());
}

#[test]
fn action_is_read_in_any_case() {
    let mut settings = minimal();
    settings.schedule_action = text("START");
    assert_eq!(AppConfig::from_env(&settings).unwrap().schedule_action, ScheduleAction::Start);
    settings.schedule_action = text("Stop");
    assert_eq!(AppConfig::from_env(&settings).unwrap().schedule_action, ScheduleAction::Stop);
    assert_eq!(ScheduleAction::Stop.as_str(), "stop");
    assert_eq!(ScheduleAction::Start.as_str(), "start");
}

#[test]
fn an_unknown_action_is_refused() {
    let mut settings = minimal();
    settings.schedule_action = text("Restart");
    match AppConfig::from_env(&settings) {
        Err(ConfigError::InvalidAction(a)) => assert_eq!(a, "restart"),
        other => panic!("expected an invalid action, got {other:?}"),
    }
    settings.schedule_action = text(" stop");
    assert!(matches!(AppConfig::from_env(&settings), Err(ConfigError::InvalidAction(_))));
}

#[test]
fn each_missing_setting_has_its_error() {
    let mut settings = minimal();
    settings.schedule_action = None;
    assert!(matches!(AppConfig::from_env(&settings), Err(ConfigError::MissingAction)));
    let mut settings = minimal();
    settings.aws_regions = None;
    assert!(matches!(AppConfig::from_env(&settings), Err(ConfigError::MissingRegions)));
    let mut settings = minimal();
    settings.aws_regions = text(" , ,");
    assert!(matches!(AppConfig::from_env(&settings), Err(ConfigError::NoRegions)));
    let mut settings = minimal();
    settings.tag_key = None;
    assert!(matches!(AppConfig::from_env(&settings), Err(ConfigError::MissingTagKey)));
    let mut settings = minimal();
    settings.tag_value = None;
    assert!(matches!(AppConfig::from_env(&settings), Err(ConfigError::MissingTagValue)));
}

#[test]
fn the_action_is_checked_before_the_rest() {
    let mut settings = minimal();
    settings.schedule_action = text("bogus");
    settings.aws_regions = None;
    settings.tag_key = None;
    assert!(matches!(AppConfig::from_env(&settings), Err(ConfigError::InvalidAction(_))));
    settings.schedule_action = text("start");
    assert!(matches!(AppConfig::from_env(&settings), Err(ConfigError::MissingRegions)));
}

#[test]
fn regions_and_dates_are_lists() {
    let mut settings = minimal();
    settings.aws_regions = text(" eu-west-1, us-east-1 ,,ap-south-1 ");
    settings.excluded_dates = text("12-25, 01-01,");
    let config = AppConfig::from_env(&settings).unwrap();
    assert_eq!(config.aws_regions, vec!["eu-west-1", "us-east-1", "ap-south-1"]);
    assert_eq!(config.excluded_dates, vec!["12-25", "01-01"]);
    settings.excluded_dates = text("");
    assert!(AppConfig::from_env(&settings).unwrap().excluded_dates.is_empty());
}

#[test]
fn switches_are_on_only_for_true() {
    assert!(env_bool(&text("true"), false));
    assert!(env_bool(&text("TRUE"), false));
    assert!(env_bool(&text("True"), false));
    assert!(!env_bool(&text("yes"), true));
    assert!(!env_bool(&text("1"), true));
    assert!(!env_bool(&text(" true"), true));
    assert!(!env_bool(&text(""), true));
    assert!(env_bool(&None, true));
    assert!(!env_bool(&None, false));
    let mut settings = minimal();
    settings.ec2_schedule = text("false");
    settings.rds_schedule = text("TRUE");
    settings.transfer_schedule = text("true");
    let config = AppConfig::from_env(&settings).unwrap();
    assert!(!config.ec2_schedule);
    assert!(config.rds_schedule);
    assert!(config.transfer_schedule);
    assert!(!config.ecs_schedule);
}

#[test]
fn trim_removes_white_space_at_both_ends() {
    assert_eq!(trim("  a b \t\n"), "a b");
    assert_eq!(trim("a"), "a");
    assert_eq!(trim(""), "");
    assert_eq!(trim(" \t "), "");
    assert_eq!(trim("\u{00a0}x\u{2003}"), "x");
    assert_eq!(trim("x y"), "x y");
    for s in ["  a b \t\n", "", " ", "abc", " é ", "\u{3000}z"] {
        assert_eq!(trim(s), s.trim());
    }
}

#[test]
fn lists_are_split_at_commas() {
    assert_eq!(parse_list("a,b"), vec!["a", "b"]);
    assert_eq!(parse_list(" a , b "), vec!["a", "b"]);
    assert_eq!(parse_list(""), Vec::<String>::new());
    assert_eq!(parse_list(",,"), Vec::<String>::new());
    assert_eq!(parse_list("one"), vec!["one"]);
    assert_eq!(parse_list("a b,c"), vec!["a b", "c"]);
}

#[test]
fn only_stop_and_start_name_an_action() {
    assert!(matches!(action_of("stop"), Ok(ScheduleAction::Stop)));
    assert!(matches!(action_of("start"), Ok(ScheduleAction::Start)));
    for other in ["", "Stop", "START", "stop ", "restart", "sto"] {
        match action_of(other) {
            Err(ConfigError::InvalidAction(text)) => assert_eq!(text, other),
            _ => panic!("{other:?} names no action"),
        }
    }
}

#[test]
fn only_true_switches_on() {
    assert!(switch_of("true"));
    for other in ["", "True", "TRUE", "yes", "1", " true", "true ", "false"] {
        assert!(!switch_of(other));
    }
}

#[test]
fn white_space_is_the_unicode_property() {
    let listed = |n: u32| {
        (0x09..=0x0D).contains(&n)
            || [0x20, 0x85, 0xA0, 0x1680, 0x2028, 0x2029, 0x202F, 0x205F, 0x3000].contains(&n)
            || (0x2000..=0x200A).contains(&n)
    };
    for n in 0..=0x10FFFFu32 {
        if let Some(c) = char::from_u32(n) {
            let text = format!("{c}x{c}");
            let expected = if listed(n) { "x".to_string() } else { text.clone() };
            assert_eq!(trim(&text), expected, "U+{n:04X}");
        }
    }
}
