//! Compute instances.

use vstd::prelude::*;
use vstd::string::*;
use crate::config::ScheduleAction;
use crate::facade::{Run, RunView, Step};
use crate::family::Facade;
use crate::arn::{last_segment, last_segment_of};

verus! {

/// The instance id of a compute instance ARN
/// (`arn:aws:ec2:region:account:instance/i-xxxxx`): what follows its last
/// `/`, or the whole text when it holds none.
pub fn extract_instance_id(arn: &str) -> (id: String)
    ensures
        id@ == last_segment(arn@, '/'),
        !arn@.contains('/') ==> id@ == arn@,
{
    last_segment_of(arn, '/')
}

/// Stops and starts the compute instances of one region.
///
/// Finds the instances by tag. Each one is looked up for a compute group
/// that owns it: an owned instance is skipped, any other is stopped or started.
pub struct Ec2Scheduler {
    region: String,
}

impl Ec2Scheduler {
    /// The region that the scheduler works in.
    pub closed spec fn spec_region(&self) -> Seq<char> {
        self.region@
    }

    /// A scheduler for `region`.
    pub fn new(region: &str) -> (s: Self)
        ensures
            s.spec_region() == region@,
    {
        Ec2Scheduler { region: String::from_str(region) }
    }

    /// The region that the scheduler works in.
    pub fn region(&self) -> (r: &String)
        ensures
            r@ == self.spec_region(),
    {
        &self.region
    }

    /// Begins to stop what carries the tag, and says what to do first.
    pub fn stop(&self, tag_key: &str, tag_value: &str) -> (r: (Run, Step))
        ensures
            (r.0@, r.1@) == RunView::begin(
                Facade::Ec2,
                ScheduleAction::Stop,
                tag_key@,
                tag_value@,
            ),
    {
        Run::begin(Facade::Ec2, ScheduleAction::Stop, tag_key, tag_value)
    }

    /// Begins to start what carries the tag, and says what to do first.
    pub fn start(&self, tag_key: &str, tag_value: &str) -> (r: (Run, Step))
        ensures
            (r.0@, r.1@) == RunView::begin(
                Facade::Ec2,
                ScheduleAction::Start,
                tag_key@,
                tag_value@,
            ),
    {
        Run::begin(Facade::Ec2, ScheduleAction::Start, tag_key, tag_value)
    }
}

} // verus!
