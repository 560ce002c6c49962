//! The resource families and what each declares: the resource type under
//! which its members are found by tag, the verbs that stop and start them,
//! and whether it owns member resources.

use vstd::prelude::*;
use vstd::string::*;
use crate::config::ScheduleAction;

verus! {

/// A category of resource with a uniform way to find and to act on it.
#[derive(Debug, Clone, Copy, PartialEq, Eq, Structural)]
pub enum ResourceFamily {
    ComputeInstance,
    ComputeGroup,
    AppRunnerService,
    Alarm,
    DocumentStoreCluster,
    ContainerService,
    RelationalDbCluster,
    RelationalDbInstance,
    AnalyticsCluster,
    TransferEndpoint,
}

/// What is done to a resource.
#[derive(Debug, Clone, Copy, PartialEq, Eq, Structural)]
pub enum Verb {
    Stop,
    Start,
    Pause,
    Resume,
    Suspend,
    Enable,
    Disable,
}

impl ResourceFamily {
    /// The resource type for the lookup by tag. A compute group has none:
    /// groups are found by reading all of them.
    pub open spec fn spec_resource_type(self) -> Option<Seq<char>> {
        match self {
            ResourceFamily::ComputeInstance => Some("ec2:instance"@),
            ResourceFamily::ComputeGroup => None,
            ResourceFamily::AppRunnerService => Some("apprunner:service"@),
            ResourceFamily::Alarm => Some("cloudwatch:alarm"@),
            ResourceFamily::DocumentStoreCluster => Some("rds:cluster"@),
            ResourceFamily::ContainerService => Some("ecs:service"@),
            ResourceFamily::RelationalDbCluster => Some("rds:cluster"@),
            ResourceFamily::RelationalDbInstance => Some("rds:db"@),
            ResourceFamily::AnalyticsCluster => Some("redshift:cluster"@),
            ResourceFamily::TransferEndpoint => Some("transfer:server"@),
        }
    }

    /// The verb by which the family carries out `action`.
    pub open spec fn spec_verb(self, action: ScheduleAction) -> Verb {
        match (self, action) {
            (ResourceFamily::ComputeGroup, ScheduleAction::Stop) => Verb::Suspend,
            (ResourceFamily::ComputeGroup, ScheduleAction::Start) => Verb::Resume,
            (ResourceFamily::AppRunnerService, ScheduleAction::Stop) => Verb::Pause,
            (ResourceFamily::AppRunnerService, ScheduleAction::Start) => Verb::Resume,
            (ResourceFamily::AnalyticsCluster, ScheduleAction::Stop) => Verb::Pause,
            (ResourceFamily::AnalyticsCluster, ScheduleAction::Start) => Verb::Resume,
            (ResourceFamily::Alarm, ScheduleAction::Stop) => Verb::Disable,
            (ResourceFamily::Alarm, ScheduleAction::Start) => Verb::Enable,
            (_, ScheduleAction::Stop) => Verb::Stop,
            (_, ScheduleAction::Start) => Verb::Start,
        }
    }

    /// Whether the family owns member resources that are acted on with it.
    pub open spec fn spec_has_members(self) -> bool {
        self == ResourceFamily::ComputeGroup
    }

    /// Whether a member of the family may belong to a group that controls
    /// it, so that it is looked up before it is acted on.
    pub open spec fn spec_may_be_owned(self) -> bool {
        self == ResourceFamily::ComputeInstance
    }

    /// The resource type for the lookup by tag, if the family has one.
    pub fn resource_type(self) -> (r: Option<&'static str>)
        ensures
            match r {
                Some(t) => self.spec_resource_type() == Some(t@),
                None => self.spec_resource_type() is None,
            },
    {
        match self {
            ResourceFamily::ComputeInstance => Some("ec2:instance"),
            ResourceFamily::ComputeGroup => None,
            ResourceFamily::AppRunnerService => Some("apprunner:service"),
            ResourceFamily::Alarm => Some("cloudwatch:alarm"),
            ResourceFamily::DocumentStoreCluster => Some("rds:cluster"),
            ResourceFamily::ContainerService => Some("ecs:service"),
            ResourceFamily::RelationalDbCluster => Some("rds:cluster"),
            ResourceFamily::RelationalDbInstance => Some("rds:db"),
            ResourceFamily::AnalyticsCluster => Some("redshift:cluster"),
            ResourceFamily::TransferEndpoint => Some("transfer:server"),
        }
    }

    /// The verb by which the family carries out `action`.
    pub fn verb(self, action: ScheduleAction) -> (v: Verb)
        ensures
            v == self.spec_verb(action),
    {
        match self {
            ResourceFamily::ComputeGroup => match action {
                ScheduleAction::Stop => Verb::Suspend,
                ScheduleAction::Start => Verb::Resume,
            },
            ResourceFamily::AppRunnerService | ResourceFamily::AnalyticsCluster => match action {
                ScheduleAction::Stop => Verb::Pause,
                ScheduleAction::Start => Verb::Resume,
            },
            ResourceFamily::Alarm => match action {
                ScheduleAction::Stop => Verb::Disable,
                ScheduleAction::Start => Verb::Enable,
            },
            _ => match action {
                ScheduleAction::Stop => Verb::Stop,
                ScheduleAction::Start => Verb::Start,
            },
        }
    }

    /// Whether the family owns member resources.
    pub fn has_members(self) -> (r: bool)
        ensures
            r == self.spec_has_members(),
    {
        match self {
            ResourceFamily::ComputeGroup => true,
            _ => false,
        }
    }

    /// Whether a member is looked up for an owning group before it is acted on.
    pub fn may_be_owned(self) -> (r: bool)
        ensures
            r == self.spec_may_be_owned(),
    {
        match self {
            ResourceFamily::ComputeInstance => true,
            _ => false,
        }
    }
}

impl Verb {
    /// Whether the verb brings a resource up (`Start`, `Resume`, `Enable`).
    pub open spec fn spec_brings_up(self) -> bool {
        self == Verb::Start || self == Verb::Resume || self == Verb::Enable
    }

    /// Whether the verb brings a resource up.
    pub fn brings_up(self) -> (r: bool)
        ensures
            r == self.spec_brings_up(),
    {
        match self {
            Verb::Start | Verb::Resume | Verb::Enable => true,
            _ => false,
        }
    }

    /// The verb as a lower-case word.
    pub fn name(self) -> (r: &'static str)
        ensures
            r@ == match self {
                Verb::Stop => "stop"@,
                Verb::Start => "start"@,
                Verb::Pause => "pause"@,
                Verb::Resume => "resume"@,
                Verb::Suspend => "suspend"@,
                Verb::Enable => "enable"@,
                Verb::Disable => "disable"@,
            },
    {
        match self {
            Verb::Stop => "stop",
            Verb::Start => "start",
            Verb::Pause => "pause",
            Verb::Resume => "resume",
            Verb::Suspend => "suspend",
            Verb::Enable => "enable",
            Verb::Disable => "disable",
        }
    }
}

/// Every family's verb for `Start` brings up and its verb for `Stop` does not.
pub proof fn lemma_verbs_match_action(family: ResourceFamily)
    ensures
        family.spec_verb(ScheduleAction::Start).spec_brings_up(),
        !family.spec_verb(ScheduleAction::Stop).spec_brings_up(),
{
}

/// One scheduler: a family, or two that are handled together, with its own
/// order of finding and acting.
#[derive(Debug, Clone, Copy, PartialEq, Eq, Structural)]
pub enum Facade {
    Ec2,
    AutoScaling,
    AppRunner,
    CloudWatch,
    DocumentDb,
    Ecs,
    Rds,
    Redshift,
    Transfer,
}

impl Facade {
    /// The families of the facade, in the order in which they are handled.
    pub open spec fn spec_families(self) -> Seq<ResourceFamily> {
        match self {
            Facade::Ec2 => seq![ResourceFamily::ComputeInstance],
            Facade::AutoScaling => seq![ResourceFamily::ComputeGroup],
            Facade::AppRunner => seq![ResourceFamily::AppRunnerService],
            Facade::CloudWatch => seq![ResourceFamily::Alarm],
            Facade::DocumentDb => seq![ResourceFamily::DocumentStoreCluster],
            Facade::Ecs => seq![ResourceFamily::ContainerService],
            Facade::Rds => seq![
                ResourceFamily::RelationalDbCluster,
                ResourceFamily::RelationalDbInstance,
            ],
            Facade::Redshift => seq![ResourceFamily::AnalyticsCluster],
            Facade::Transfer => seq![ResourceFamily::TransferEndpoint],
        }
    }

    /// The family that the facade handles first.
    pub fn first_family(self) -> (f: ResourceFamily)
        ensures
            self.spec_families().len() >= 1,
            f == self.spec_families()[0],
    {
        match self {
            Facade::Ec2 => ResourceFamily::ComputeInstance,
            Facade::AutoScaling => ResourceFamily::ComputeGroup,
            Facade::AppRunner => ResourceFamily::AppRunnerService,
            Facade::CloudWatch => ResourceFamily::Alarm,
            Facade::DocumentDb => ResourceFamily::DocumentStoreCluster,
            Facade::Ecs => ResourceFamily::ContainerService,
            Facade::Rds => ResourceFamily::RelationalDbCluster,
            Facade::Redshift => ResourceFamily::AnalyticsCluster,
            Facade::Transfer => ResourceFamily::TransferEndpoint,
        }
    }

    /// The family at `index`, if the facade has that many.
    pub fn family_at(self, index: usize) -> (r: Option<ResourceFamily>)
        ensures
            match r {
                Some(f) => index < self.spec_families().len() && f == self.spec_families()[
                    index as int
                ],
                None => index >= self.spec_families().len(),
            },
    {
        if index == 0 {
            Some(self.first_family())
        } else if index == 1 {
            match self {
                Facade::Rds => Some(ResourceFamily::RelationalDbInstance),
                _ => None,
            }
        } else {
            None
        }
    }

    /// Whether the facade finds its resources by reading compute groups
    /// instead of by the lookup by tag.
    pub open spec fn spec_is_hierarchical(self) -> bool {
        self == Facade::AutoScaling
    }

    /// Whether the facade finds its resources by reading compute groups.
    pub fn is_hierarchical(self) -> (r: bool)
        ensures
            r == self.spec_is_hierarchical(),
    {
        match self {
            Facade::AutoScaling => true,
            _ => false,
        }
    }
}

/// Every family but the compute group belongs to a facade that finds it by
/// tag, and has a resource type for that.
pub proof fn lemma_tagged_families_have_a_type(facade: Facade, index: int)
    requires
        !facade.spec_is_hierarchical(),
        0 <= index < facade.spec_families().len(),
    ensures
        facade.spec_families()[index].spec_resource_type() is Some,
{
}

} // verus!
