//! Run configuration: the requested action, the regions, the tag filter, the
//! per-facade switches and the calendar of excluded dates.
//!
//! The environment arrives as texts, each variable set or not. `from_env`
//! checks them and builds the configuration, or says which one is wrong.

use vstd::prelude::*;
use vstd::string::*;
use crate::arn::{segments, split_segments};
use crate::text::{opt_view, views};

verus! {

/// Action to perform on the selected resources.
#[derive(Debug, Clone, Copy, PartialEq, Eq, Structural)]
pub enum ScheduleAction {
    /// Stop the resources.
    Stop,
    /// Start the resources.
    Start,
}

impl ScheduleAction {
    /// The action as the word that configures it.
    pub fn as_str(self) -> (r: &'static str)
        ensures
            r@ == match self {
                ScheduleAction::Stop => "stop"@,
                ScheduleAction::Start => "start"@,
            },
    {
        match self {
            ScheduleAction::Stop => "stop",
            ScheduleAction::Start => "start",
        }
    }
}

/// What is wrong with the environment.
#[derive(Debug)]
pub enum ConfigError {
    /// No action is set.
    MissingAction,
    /// The action, here in lower case, is neither `stop` nor `start`.
    InvalidAction(String),
    /// No regions are set.
    MissingRegions,
    /// The regions hold no name.
    NoRegions,
    /// No tag key is set.
    MissingTagKey,
    /// No tag value is set.
    MissingTagValue,
}

/// The model of a `ConfigError`.
pub enum ConfigErrorView {
    MissingAction,
    InvalidAction(Seq<char>),
    MissingRegions,
    NoRegions,
    MissingTagKey,
    MissingTagValue,
}

impl View for ConfigError {
    type V = ConfigErrorView;

    open spec fn view(&self) -> ConfigErrorView {
        match self {
            ConfigError::MissingAction => ConfigErrorView::MissingAction,
            ConfigError::InvalidAction(a) => ConfigErrorView::InvalidAction(a@),
            ConfigError::MissingRegions => ConfigErrorView::MissingRegions,
            ConfigError::NoRegions => ConfigErrorView::NoRegions,
            ConfigError::MissingTagKey => ConfigErrorView::MissingTagKey,
            ConfigError::MissingTagValue => ConfigErrorView::MissingTagValue,
        }
    }
}

/// The variables of the environment as they were found, each set or not.
pub struct Environment {
    pub schedule_action: Option<String>,
    pub aws_regions: Option<String>,
    pub tag_key: Option<String>,
    pub tag_value: Option<String>,
    pub ec2_schedule: Option<String>,
    pub apprunner_schedule: Option<String>,
    pub autoscaling_schedule: Option<String>,
    pub cloudwatch_alarm_schedule: Option<String>,
    pub documentdb_schedule: Option<String>,
    pub ecs_schedule: Option<String>,
    pub rds_schedule: Option<String>,
    pub redshift_schedule: Option<String>,
    pub transfer_schedule: Option<String>,
    pub excluded_dates: Option<String>,
}

/// The model of `Environment`.
pub struct EnvironmentView {
    pub schedule_action: Option<Seq<char>>,
    pub aws_regions: Option<Seq<char>>,
    pub tag_key: Option<Seq<char>>,
    pub tag_value: Option<Seq<char>>,
    pub ec2_schedule: Option<Seq<char>>,
    pub apprunner_schedule: Option<Seq<char>>,
    pub autoscaling_schedule: Option<Seq<char>>,
    pub cloudwatch_alarm_schedule: Option<Seq<char>>,
    pub documentdb_schedule: Option<Seq<char>>,
    pub ecs_schedule: Option<Seq<char>>,
    pub rds_schedule: Option<Seq<char>>,
    pub redshift_schedule: Option<Seq<char>>,
    pub transfer_schedule: Option<Seq<char>>,
    pub excluded_dates: Option<Seq<char>>,
}

impl View for Environment {
    type V = EnvironmentView;

    open spec fn view(&self) -> EnvironmentView {
        EnvironmentView {
            schedule_action: opt_view(self.schedule_action),
            aws_regions: opt_view(self.aws_regions),
            tag_key: opt_view(self.tag_key),
            tag_value: opt_view(self.tag_value),
            ec2_schedule: opt_view(self.ec2_schedule),
            apprunner_schedule: opt_view(self.apprunner_schedule),
            autoscaling_schedule: opt_view(self.autoscaling_schedule),
            cloudwatch_alarm_schedule: opt_view(self.cloudwatch_alarm_schedule),
            documentdb_schedule: opt_view(self.documentdb_schedule),
            ecs_schedule: opt_view(self.ecs_schedule),
            rds_schedule: opt_view(self.rds_schedule),
            redshift_schedule: opt_view(self.redshift_schedule),
            transfer_schedule: opt_view(self.transfer_schedule),
            excluded_dates: opt_view(self.excluded_dates),
        }
    }
}

/// What one run is to do.
#[derive(Debug, Clone)]
pub struct AppConfig {
    pub schedule_action: ScheduleAction,
    pub aws_regions: Vec<String>,
    pub tag_key: String,
    pub tag_value: String,
    pub ec2_schedule: bool,
    pub apprunner_schedule: bool,
    pub autoscaling_schedule: bool,
    pub cloudwatch_alarm_schedule: bool,
    pub documentdb_schedule: bool,
    pub ecs_schedule: bool,
    pub rds_schedule: bool,
    pub redshift_schedule: bool,
    pub transfer_schedule: bool,
    pub excluded_dates: Vec<String>,
}

/// The model of an `AppConfig`.
pub struct AppConfigView {
    pub schedule_action: ScheduleAction,
    pub aws_regions: Seq<Seq<char>>,
    pub tag_key: Seq<char>,
    pub tag_value: Seq<char>,
    pub ec2_schedule: bool,
    pub apprunner_schedule: bool,
    pub autoscaling_schedule: bool,
    pub cloudwatch_alarm_schedule: bool,
    pub documentdb_schedule: bool,
    pub ecs_schedule: bool,
    pub rds_schedule: bool,
    pub redshift_schedule: bool,
    pub transfer_schedule: bool,
    pub excluded_dates: Seq<Seq<char>>,
}

impl View for AppConfig {
    type V = AppConfigView;

    open spec fn view(&self) -> AppConfigView {
        AppConfigView {
            schedule_action: self.schedule_action,
            aws_regions: views(self.aws_regions@),
            tag_key: self.tag_key@,
            tag_value: self.tag_value@,
            ec2_schedule: self.ec2_schedule,
            apprunner_schedule: self.apprunner_schedule,
            autoscaling_schedule: self.autoscaling_schedule,
            cloudwatch_alarm_schedule: self.cloudwatch_alarm_schedule,
            documentdb_schedule: self.documentdb_schedule,
            ecs_schedule: self.ecs_schedule,
            rds_schedule: self.rds_schedule,
            redshift_schedule: self.redshift_schedule,
            transfer_schedule: self.transfer_schedule,
            excluded_dates: views(self.excluded_dates@),
        }
    }
}

/// The lower-case form of a text, as `str::to_lowercase` gives it.
pub uninterp spec fn lowercase(s: Seq<char>) -> Seq<char>;

/// Whether a character is white space: one of the code points that carry
/// Unicode's White_Space property.
pub open spec fn white_space(c: char) -> bool {
    let n = c as u32;
    ||| 0x09 <= n <= 0x0D
    ||| n == 0x20 || n == 0x85 || n == 0xA0 || n == 0x1680
    ||| 0x2000 <= n <= 0x200A
    ||| n == 0x2028 || n == 0x2029 || n == 0x202F || n == 0x205F || n == 0x3000
}

/// `str::to_lowercase`: the result is the lower-case form of the text. The
/// mapping is Unicode's and is not spelled out here; it is only named.
#[verifier::external_body]
fn lowercase_of(s: &str) -> (r: String)
    ensures
        r@ == lowercase(s@),
{
    s.to_lowercase()
}

/// `char::is_whitespace`: whether the character has Unicode's White_Space
/// property. The contract spells the property out as the code points that
/// carry it: the controls U+0009 to U+000D and U+0085, the spaces U+0020,
/// U+00A0, U+1680, U+2000 to U+200A, U+202F, U+205F and U+3000, and the
/// separators U+2028 and U+2029.
#[verifier::external_body]
fn is_white_space(c: char) -> (r: bool)
    ensures
        r == white_space(c),
{
    c.is_whitespace()
}

/// How many characters of white space a text begins with.
pub open spec fn leading_space(s: Seq<char>) -> nat
    decreases s.len(),
{
    if s.len() == 0 || !white_space(s.first()) {
        0
    } else {
        1 + leading_space(s.drop_first())
    }
}

/// How many characters of white space a text ends with.
pub open spec fn trailing_space(s: Seq<char>) -> nat
    decreases s.len(),
{
    if s.len() == 0 || !white_space(s.last()) {
        0
    } else {
        1 + trailing_space(s.drop_last())
    }
}

/// A text without the white space that it begins and ends with.
pub open spec fn trimmed(s: Seq<char>) -> Seq<char> {
    if leading_space(s) >= s.len() {
        Seq::empty()
    } else {
        s.subrange(leading_space(s) as int, s.len() - trailing_space(s))
    }
}

/// The texts of `parts`, trimmed, without those that are then empty.
pub open spec fn cleaned(parts: Seq<Seq<char>>) -> Seq<Seq<char>>
    decreases parts.len(),
{
    if parts.len() == 0 {
        Seq::empty()
    } else if trimmed(parts.last()).len() == 0 {
        cleaned(parts.drop_last())
    } else {
        cleaned(parts.drop_last()).push(trimmed(parts.last()))
    }
}

/// The entries of a comma-separated list: trimmed, the empty ones left out.
pub open spec fn list_entries(s: Seq<char>) -> Seq<Seq<char>> {
    cleaned(segments(s, ','))
}

/// The action that a text in lower case names, or the error that holds
/// the text: `stop` and `start` are the only names.
pub open spec fn action_named(lowered: Seq<char>) -> Result<ScheduleAction, ConfigErrorView> {
    if lowered == "stop"@ {
        Ok(ScheduleAction::Stop)
    } else if lowered == "start"@ {
        Ok(ScheduleAction::Start)
    } else {
        Err(ConfigErrorView::InvalidAction(lowered))
    }
}

/// Whether a text in lower case switches on: only `true` does.
pub open spec fn switch_named(lowered: Seq<char>) -> bool {
    lowered == "true"@
}

/// The value of a switch: on exactly when it is set to `true`, in any
/// case of letters; `default` when it is not set.
pub open spec fn switch_value(setting: Option<Seq<char>>, default: bool) -> bool {
    match setting {
        Some(v) => switch_named(lowercase(v)),
        None => default,
    }
}

/// The configuration that the environment gives, or what is wrong with it.
/// The action is checked first, then the regions, the tag key and the tag value.
pub open spec fn configuration_of(s: EnvironmentView) -> Result<AppConfigView, ConfigErrorView> {
    if s.schedule_action is None {
        Err(ConfigErrorView::MissingAction)
    } else if action_named(lowercase(s.schedule_action->0)) is Err {
        Err(action_named(lowercase(s.schedule_action->0))->Err_0)
    } else if s.aws_regions is None {
        Err(ConfigErrorView::MissingRegions)
    } else if list_entries(s.aws_regions->0).len() == 0 {
        Err(ConfigErrorView::NoRegions)
    } else if s.tag_key is None {
        Err(ConfigErrorView::MissingTagKey)
    } else if s.tag_value is None {
        Err(ConfigErrorView::MissingTagValue)
    } else {
        Ok(
            AppConfigView {
                schedule_action: action_named(lowercase(s.schedule_action->0))->Ok_0,
                aws_regions: list_entries(s.aws_regions->0),
                tag_key: s.tag_key->0,
                tag_value: s.tag_value->0,
                ec2_schedule: switch_value(s.ec2_schedule, true),
                apprunner_schedule: switch_value(s.apprunner_schedule, false),
                autoscaling_schedule: switch_value(s.autoscaling_schedule, false),
                cloudwatch_alarm_schedule: switch_value(s.cloudwatch_alarm_schedule, false),
                documentdb_schedule: switch_value(s.documentdb_schedule, false),
                ecs_schedule: switch_value(s.ecs_schedule, false),
                rds_schedule: switch_value(s.rds_schedule, false),
                redshift_schedule: switch_value(s.redshift_schedule, false),
                transfer_schedule: switch_value(s.transfer_schedule, false),
                excluded_dates: match s.excluded_dates {
                    Some(d) => list_entries(d),
                    None => Seq::empty(),
                },
            },
        )
    }
}

/// A text whose first `n` characters are white space, and whose next one,
/// if there is one, is not, begins with exactly `n` of them.
pub proof fn lemma_leading_space(s: Seq<char>, n: int)
    requires
        0 <= n <= s.len(),
        forall|k: int| 0 <= k < n ==> white_space(#[trigger] s[k]),
        n < s.len() ==> !white_space(s[n]),
    ensures
        leading_space(s) == n,
    decreases n,
{
    if n > 0 {
        let rest = s.drop_first();
        assert(white_space(s[0]));
        assert forall|k: int| 0 <= k < n - 1 implies white_space(#[trigger] rest[k]) by {
            assert(rest[k] == s[k + 1]);
        }
        if n - 1 < rest.len() {
            assert(rest[n - 1] == s[n]);
        }
        lemma_leading_space(rest, n - 1);
    }
}

/// A text whose last `n` characters are white space, and whose one before
/// them, if there is one, is not, ends with exactly `n` of them.
pub proof fn lemma_trailing_space(s: Seq<char>, n: int)
    requires
        0 <= n <= s.len(),
        forall|k: int| s.len() - n <= k < s.len() ==> white_space(#[trigger] s[k]),
        n < s.len() ==> !white_space(s[s.len() - n - 1]),
    ensures
        trailing_space(s) == n,
    decreases n,
{
    if n > 0 {
        let rest = s.drop_last();
        assert(white_space(s[s.len() - 1]));
        assert forall|k: int| rest.len() - (n - 1) <= k < rest.len() implies white_space(
            #[trigger] rest[k],
        ) by {
            assert(rest[k] == s[k]);
        }
        if n - 1 < rest.len() {
            assert(rest[rest.len() - (n - 1) - 1] == s[s.len() - n - 1]);
        }
        lemma_trailing_space(rest, n - 1);
    }
}

/// `s` without the white space that it begins and ends with.
pub fn trim(s: &str) -> (r: String)
    ensures
        r@ == trimmed(s@),
{
    let n = s.unicode_len();
    let mut from: usize = 0;
    while from < n && is_white_space(s.get_char(from))
        invariant
            n == s@.len(),
            from <= n,
            forall|k: int| 0 <= k < from ==> white_space(#[trigger] s@[k]),
        decreases n - from,
    {
        from = from + 1;
    }
    proof {
        lemma_leading_space(s@, from as int);
    }
    if from >= n {
        return String::new();
    }
    let mut to: usize = n;
    while to > from && is_white_space(s.get_char(to - 1))
        invariant
            n == s@.len(),
            from < n,
            !white_space(s@[from as int]),
            from <= to <= n,
            forall|k: int| to <= k < n ==> white_space(#[trigger] s@[k]),
        decreases to,
    {
        to = to - 1;
    }
    proof {
        assert(to > from);
        lemma_trailing_space(s@, n - to);
    }
    String::from_str(s.substring_char(from, to))
}

/// The entries of a comma-separated list.
pub fn parse_list(s: &str) -> (r: Vec<String>)
    ensures
        views(r@) == list_entries(s@),
{
    let parts = split_segments(s, ',');
    let ghost ps = views(parts@);
    let mut r: Vec<String> = Vec::new();
    let mut i: usize = 0;
    assert(ps.take(0) =~= Seq::empty());
    assert(views(r@) =~= Seq::empty());
    while i < parts.len()
        invariant
            i <= parts@.len(),
            ps == views(parts@),
            views(r@) == cleaned(ps.take(i as int)),
        decreases parts@.len() - i,
    {
        proof {
            assert(ps.take(i + 1).drop_last() =~= ps.take(i as int));
            assert(ps.take(i + 1).last() == parts@[i as int]@);
        }
        let entry = trim(parts[i].as_str());
        if !entry.as_str().is_empty() {
            let ghost before = r@;
            r.push(entry);
            assert(views(r@) =~= views(before).push(entry@));
        }
        i = i + 1;
    }
    assert(ps.take(parts@.len() as int) =~= ps);
    r
}

/// The action that `lowered`, a text in lower case, names.
pub fn action_of(lowered: &str) -> (r: Result<ScheduleAction, ConfigError>)
    ensures
        match r {
            Ok(action) => action_named(lowered@) == Ok::<ScheduleAction, ConfigErrorView>(action),
            Err(e) => action_named(lowered@) == Err::<ScheduleAction, ConfigErrorView>(e@),
        },
{
    let text = String::from_str(lowered);
    if text == String::from_str("stop") {
        Ok(ScheduleAction::Stop)
    } else if text == String::from_str("start") {
        Ok(ScheduleAction::Start)
    } else {
        Err(ConfigError::InvalidAction(text))
    }
}

/// Whether `lowered`, a text in lower case, switches on.
pub fn switch_of(lowered: &str) -> (r: bool)
    ensures
        r == switch_named(lowered@),
{
    String::from_str(lowered) == String::from_str("true")
}

/// The value of a switch.
pub fn env_bool(setting: &Option<String>, default: bool) -> (r: bool)
    ensures
        r == switch_value(opt_view(*setting), default),
{
    match setting {
        Some(v) => switch_of(lowercase_of(v.as_str()).as_str()),
        None => default,
    }
}

impl AppConfig {
    /// Builds the configuration from the environment, or says what is wrong
    /// with it.
    pub fn from_env(environment: &Environment) -> (r: Result<AppConfig, ConfigError>)
        ensures
            match r {
                Ok(config) => configuration_of(environment@) == Ok::<AppConfigView, ConfigErrorView>(
                    config@,
                ),
                Err(e) => configuration_of(environment@) == Err::<AppConfigView, ConfigErrorView>(e@),
            },
    {
        let action_text = match &environment.schedule_action {
            Some(a) => lowercase_of(a.as_str()),
            None => {
                return Err(ConfigError::MissingAction);
            },
        };
        let schedule_action = match action_of(action_text.as_str()) {
            Ok(action) => action,
            Err(e) => {
                return Err(e);
            },
        };
        let aws_regions = match &environment.aws_regions {
            Some(r) => parse_list(r.as_str()),
            None => {
                return Err(ConfigError::MissingRegions);
            },
        };
        if aws_regions.len() == 0 {
            return Err(ConfigError::NoRegions);
        }
        let tag_key = match &environment.tag_key {
            Some(k) => k.clone(),
            None => {
                return Err(ConfigError::MissingTagKey);
            },
        };
        let tag_value = match &environment.tag_value {
            Some(v) => v.clone(),
            None => {
                return Err(ConfigError::MissingTagValue);
            },
        };
        let excluded_dates = match &environment.excluded_dates {
            Some(d) => parse_list(d.as_str()),
            None => {
                let none: Vec<String> = Vec::new();
                assert(views(none@) =~= Seq::empty());
                none
            },
        };
        Ok(
            AppConfig {
                schedule_action,
                aws_regions,
                tag_key,
                tag_value,
                ec2_schedule: env_bool(&environment.ec2_schedule, true),
                apprunner_schedule: env_bool(&environment.apprunner_schedule, false),
                autoscaling_schedule: env_bool(&environment.autoscaling_schedule, false),
                cloudwatch_alarm_schedule: env_bool(
                    &environment.cloudwatch_alarm_schedule,
                    false,
                ),
                documentdb_schedule: env_bool(&environment.documentdb_schedule, false),
                ecs_schedule: env_bool(&environment.ecs_schedule, false),
                rds_schedule: env_bool(&environment.rds_schedule, false),
                redshift_schedule: env_bool(&environment.redshift_schedule, false),
                transfer_schedule: env_bool(&environment.transfer_schedule, false),
                excluded_dates,
            },
        )
    }
}

} // verus!
