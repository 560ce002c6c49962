//! App Runner services.

use vstd::prelude::*;
use vstd::string::*;
use crate::config::ScheduleAction;
use crate::facade::{Run, RunView, Step};
use crate::family::Facade;
use crate::arn::{lemma_segments_without_separator, segments, split_segments};
use crate::text::views;

verus! {

/// The service name in an App Runner service ARN
/// (`arn:aws:apprunner:region:account:service/name/id`): the segment before
/// the last when the ARN is cut at `/`, or the whole text when there is only
/// one segment.
pub open spec fn service_name(arn: Seq<char>) -> Seq<char> {
    let parts = segments(arn, '/');
    if parts.len() >= 2 {
        parts[parts.len() - 2]
    } else {
        arn
    }
}

/// The service name of an App Runner service ARN.
pub fn extract_service_name(arn: &str) -> (name: String)
    ensures
        name@ == service_name(arn@),
        !arn@.contains('/') ==> name@ == arn@,
{
    let parts = split_segments(arn, '/');
    proof {
        if !arn@.contains('/') {
            lemma_segments_without_separator(arn@, '/');
            assert(seq![arn@].len() == 1);
            assert(views(parts@).len() == parts@.len());
        }
    }
    if parts.len() >= 2 {
        assert(views(parts@)[parts@.len() - 2] == parts@[parts@.len() - 2]@);
        parts[parts.len() - 2].clone()
    } else {
        String::from_str(arn)
    }
}

/// Stops and starts the App Runner services of one region.
///
/// Finds the services by tag, then pauses (stop) or resumes (start) each one,
/// by its ARN.
pub struct AppRunnerScheduler {
    region: String,
}

impl AppRunnerScheduler {
    /// The region that the scheduler works in.
    pub closed spec fn spec_region(&self) -> Seq<char> {
        self.region@
    }

    /// A scheduler for `region`.
    pub fn new(region: &str) -> (s: Self)
        ensures
            s.spec_region() == region@,
    {
        AppRunnerScheduler { region: String::from_str(region) }
    }

    /// The region that the scheduler works in.
    pub fn region(&self) -> (r: &String)
        ensures
            r@ == self.spec_region(),
    {
        &self.region
    }

    /// Begins to stop what carries the tag, and says what to do first.
    pub fn stop(&self, tag_key: &str, tag_value: &str) -> (r: (Run, Step))
        ensures
            (r.0@, r.1@) == RunView::begin(
                Facade::AppRunner,
                ScheduleAction::Stop,
                tag_key@,
                tag_value@,
            ),
    {
        Run::begin(Facade::AppRunner, ScheduleAction::Stop, tag_key, tag_value)
    }

    /// Begins to start what carries the tag, and says what to do first.
    pub fn start(&self, tag_key: &str, tag_value: &str) -> (r: (Run, Step))
        ensures
            (r.0@, r.1@) == RunView::begin(
                Facade::AppRunner,
                ScheduleAction::Start,
                tag_key@,
                tag_value@,
            ),
    {
        Run::begin(Facade::AppRunner, ScheduleAction::Start, tag_key, tag_value)
    }
}

} // verus!
