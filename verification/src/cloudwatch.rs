//! Alarms.

use vstd::prelude::*;
use vstd::string::*;
use crate::config::ScheduleAction;
use crate::facade::{Run, RunView, Step};
use crate::family::Facade;
use crate::arn::{last_segment, last_segment_of};

verus! {

/// The alarm name of an alarm ARN
/// (`arn:aws:cloudwatch:region:account:alarm:name`): what follows its last
/// `:`, or the whole text when it holds none.
pub fn extract_alarm_name(arn: &str) -> (name: String)
    ensures
        name@ == last_segment(arn@, ':'),
        !arn@.contains(':') ==> name@ == arn@,
{
    last_segment_of(arn, ':')
}

/// Stops and starts the alarms of one region.
///
/// Finds the alarms by tag, then disables (stop) or enables (start) the
/// actions of each one.
pub struct CloudWatchScheduler {
    region: String,
}

impl CloudWatchScheduler {
    /// The region that the scheduler works in.
    pub closed spec fn spec_region(&self) -> Seq<char> {
        self.region@
    }

    /// A scheduler for `region`.
    pub fn new(region: &str) -> (s: Self)
        ensures
            s.spec_region() == region@,
    {
        CloudWatchScheduler { region: String::from_str(region) }
    }

    /// The region that the scheduler works in.
    pub fn region(&self) -> (r: &String)
        ensures
            r@ == self.spec_region(),
    {
        &self.region
    }

    /// Begins to stop what carries the tag, and says what to do first.
    pub fn stop(&self, tag_key: &str, tag_value: &str) -> (r: (Run, Step))
        ensures
            (r.0@, r.1@) == RunView::begin(
                Facade::CloudWatch,
                ScheduleAction::Stop,
                tag_key@,
                tag_value@,
            ),
    {
        Run::begin(Facade::CloudWatch, ScheduleAction::Stop, tag_key, tag_value)
    }

    /// Begins to start what carries the tag, and says what to do first.
    pub fn start(&self, tag_key: &str, tag_value: &str) -> (r: (Run, Step))
        ensures
            (r.0@, r.1@) == RunView::begin(
                Facade::CloudWatch,
                ScheduleAction::Start,
                tag_key@,
                tag_value@,
            ),
    {
        Run::begin(Facade::CloudWatch, ScheduleAction::Start, tag_key, tag_value)
    }
}

} // verus!
