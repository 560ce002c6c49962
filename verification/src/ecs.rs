//! Container services.

use vstd::prelude::*;
use vstd::string::*;
use crate::config::ScheduleAction;
use crate::facade::{Run, RunView, Step};
use crate::family::Facade;
use crate::arn::{lemma_segments_without_separator, segments, split_segments};
use crate::text::views;

verus! {

/// The cluster name and the service name in a container service ARN
/// (`arn:aws:ecs:region:account:service/cluster-name/service-name`): the
/// last two segments when the ARN is cut at `/` into three or more. A text
/// with fewer segments is taken as a service name, whole, with no cluster.
pub open spec fn ecs_names(arn: Seq<char>) -> (Seq<char>, Seq<char>) {
    let parts = segments(arn, '/');
    if parts.len() >= 3 {
        (parts[parts.len() - 2], parts[parts.len() - 1])
    } else {
        (Seq::empty(), arn)
    }
}

/// The cluster name and the service name of a container service ARN.
pub fn extract_ecs_names(arn: &str) -> (names: (String, String))
    ensures
        (names.0@, names.1@) == ecs_names(arn@),
        !arn@.contains('/') ==> names.0@.len() == 0 && names.1@ == arn@,
{
    let parts = split_segments(arn, '/');
    proof {
        if !arn@.contains('/') {
            lemma_segments_without_separator(arn@, '/');
            assert(seq![arn@].len() == 1);
            assert(views(parts@).len() == parts@.len());
        }
    }
    if parts.len() >= 3 {
        assert(views(parts@)[parts@.len() - 2] == parts@[parts@.len() - 2]@);
        assert(views(parts@)[parts@.len() - 1] == parts@[parts@.len() - 1]@);
        (parts[parts.len() - 2].clone(), parts[parts.len() - 1].clone())
    } else {
        (String::new(), String::from_str(arn))
    }
}

/// The number of tasks a container service is set to: none when stopped,
/// one when started.
pub open spec fn spec_desired_count(start: bool) -> i32 {
    if start {
        1
    } else {
        0
    }
}

/// The number of tasks a container service is set to.
pub fn desired_count(start: bool) -> (n: i32)
    ensures
        n == spec_desired_count(start),
{
    if start {
        1
    } else {
        0
    }
}

/// Stops and starts the container services of one region.
///
/// Finds the services by tag, then sets the task count of each one to none
/// (stop) or to one (start).
pub struct EcsScheduler {
    region: String,
}

impl EcsScheduler {
    /// The region that the scheduler works in.
    pub closed spec fn spec_region(&self) -> Seq<char> {
        self.region@
    }

    /// A scheduler for `region`.
    pub fn new(region: &str) -> (s: Self)
        ensures
            s.spec_region() == region@,
    {
        EcsScheduler { region: String::from_str(region) }
    }

    /// The region that the scheduler works in.
    pub fn region(&self) -> (r: &String)
        ensures
            r@ == self.spec_region(),
    {
        &self.region
    }

    /// Begins to stop what carries the tag, and says what to do first.
    pub fn stop(&self, tag_key: &str, tag_value: &str) -> (r: (Run, Step))
        ensures
            (r.0@, r.1@) == RunView::begin(
                Facade::Ecs,
                ScheduleAction::Stop,
                tag_key@,
                tag_value@,
            ),
    {
        Run::begin(Facade::Ecs, ScheduleAction::Stop, tag_key, tag_value)
    }

    /// Begins to start what carries the tag, and says what to do first.
    pub fn start(&self, tag_key: &str, tag_value: &str) -> (r: (Run, Step))
        ensures
            (r.0@, r.1@) == RunView::begin(
                Facade::Ecs,
                ScheduleAction::Start,
                tag_key@,
                tag_value@,
            ),
    {
        Run::begin(Facade::Ecs, ScheduleAction::Start, tag_key, tag_value)
    }
}

} // verus!
