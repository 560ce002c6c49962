//! Analytics clusters.

use vstd::prelude::*;
use vstd::string::*;
use crate::config::ScheduleAction;
use crate::facade::{Run, RunView, Step};
use crate::family::Facade;
use crate::arn::{last_segment, last_segment_of};

verus! {

/// The cluster identifier of an analytics cluster ARN
/// (`arn:aws:redshift:region:account:cluster:cluster-id`): what follows its
/// last `:`, or the whole text when it holds none.
pub fn extract_cluster_id(arn: &str) -> (id: String)
    ensures
        id@ == last_segment(arn@, ':'),
        !arn@.contains(':') ==> id@ == arn@,
{
    last_segment_of(arn, ':')
}

/// Stops and starts the analytics clusters of one region.
///
/// Finds the clusters by tag, then pauses (stop) or resumes (start) each one.
pub struct RedshiftScheduler {
    region: String,
}

impl RedshiftScheduler {
    /// The region that the scheduler works in.
    pub closed spec fn spec_region(&self) -> Seq<char> {
        self.region@
    }

    /// A scheduler for `region`.
    pub fn new(region: &str) -> (s: Self)
        ensures
            s.spec_region() == region@,
    {
        RedshiftScheduler { region: String::from_str(region) }
    }

    /// The region that the scheduler works in.
    pub fn region(&self) -> (r: &String)
        ensures
            r@ == self.spec_region(),
    {
        &self.region
    }

    /// Begins to stop what carries the tag, and says what to do first.
    pub fn stop(&self, tag_key: &str, tag_value: &str) -> (r: (Run, Step))
        ensures
            (r.0@, r.1@) == RunView::begin(
                Facade::Redshift,
                ScheduleAction::Stop,
                tag_key@,
                tag_value@,
            ),
    {
        Run::begin(Facade::Redshift, ScheduleAction::Stop, tag_key, tag_value)
    }

    /// Begins to start what carries the tag, and says what to do first.
    pub fn start(&self, tag_key: &str, tag_value: &str) -> (r: (Run, Step))
        ensures
            (r.0@, r.1@) == RunView::begin(
                Facade::Redshift,
                ScheduleAction::Start,
                tag_key@,
                tag_value@,
            ),
    {
        Run::begin(Facade::Redshift, ScheduleAction::Start, tag_key, tag_value)
    }
}

} // verus!
