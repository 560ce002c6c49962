//! Compute groups: finding the tagged groups, expanding them into their
//! member instances, and telling which group owns an instance.

use vstd::prelude::*;
use vstd::string::*;
use crate::config::ScheduleAction;
use crate::facade::{Run, RunView, Step};
use crate::family::Facade;
use crate::paging::{DiscoveryError, PageView, Pager, PagerView};
use crate::filter_resources_by_tags::present_strings;
use crate::text::{append_copies, copy_strings, opt_view, opt_views, or_empty, present, same_text, views};

verus! {

/// A tag as a group description carries it.
pub struct Tag {
    pub key: Option<String>,
    pub value: Option<String>,
}

/// The model of a `Tag`.
pub struct TagView {
    pub key: Option<Seq<char>>,
    pub value: Option<Seq<char>>,
}

impl View for Tag {
    type V = TagView;

    open spec fn view(&self) -> TagView {
        TagView { key: opt_view(self.key), value: opt_view(self.value) }
    }
}

/// What a description of one compute group holds.
pub struct GroupDescription {
    pub name: Option<String>,
    pub tags: Vec<Tag>,
    /// The id of each member instance, where it has one.
    pub instance_ids: Vec<Option<String>>,
}

/// The model of a `GroupDescription`.
pub struct GroupView {
    pub name: Option<Seq<char>>,
    pub tags: Seq<TagView>,
    pub instance_ids: Seq<Option<Seq<char>>>,
}

impl View for GroupDescription {
    type V = GroupView;

    open spec fn view(&self) -> GroupView {
        GroupView {
            name: opt_view(self.name),
            tags: Seq::new(self.tags@.len(), |i: int| self.tags@[i]@),
            instance_ids: opt_views(self.instance_ids@),
        }
    }
}

/// The models of a sequence of group descriptions.
pub open spec fn group_views(v: Seq<GroupDescription>) -> Seq<GroupView> {
    Seq::new(v.len(), |i: int| v[i]@)
}

/// One page of group descriptions.
pub struct GroupPage {
    pub groups: Vec<GroupDescription>,
    pub next_token: Option<String>,
}

/// One request for group descriptions.
pub struct GroupRequest {
    /// The groups asked for; none asks for all.
    pub group_names: Vec<String>,
    pub next_token: Option<String>,
}

/// The model of a `GroupRequest`.
pub struct GroupRequestView {
    pub group_names: Seq<Seq<char>>,
    pub next_token: Option<Seq<char>>,
}

impl View for GroupRequest {
    type V = GroupRequestView;

    open spec fn view(&self) -> GroupRequestView {
        GroupRequestView {
            group_names: views(self.group_names@),
            next_token: opt_view(self.next_token),
        }
    }
}

/// That an instance is a member of a group.
pub struct Membership {
    pub instance_id: String,
    pub group_name: String,
}

/// The model of a `Membership`.
pub struct MembershipView {
    pub instance_id: Seq<char>,
    pub group_name: Seq<char>,
}

impl View for Membership {
    type V = MembershipView;

    open spec fn view(&self) -> MembershipView {
        MembershipView { instance_id: self.instance_id@, group_name: self.group_name@ }
    }
}

/// The models of a sequence of memberships.
pub open spec fn membership_views(v: Seq<Membership>) -> Seq<MembershipView> {
    Seq::new(v.len(), |i: int| v[i]@)
}

/// Whether the tag has this key and this value, exactly. An absent key or
/// value counts as the empty text.
pub open spec fn tag_matches(tag: TagView, key: Seq<char>, value: Seq<char>) -> bool {
    or_empty(tag.key) == key && or_empty(tag.value) == value
}

/// Whether the group carries the tag.
pub open spec fn group_is_tagged(group: GroupView, key: Seq<char>, value: Seq<char>) -> bool {
    exists|i: int| 0 <= i < group.tags.len() && tag_matches(#[trigger] group.tags[i], key, value)
}

/// The names of the groups that carry the tag, in order. A tagged group
/// without a name gives none.
pub open spec fn tagged_group_names(groups: Seq<GroupView>, key: Seq<char>, value: Seq<char>) -> Seq<Seq<char>>
    decreases groups.len(),
{
    if groups.len() == 0 {
        Seq::empty()
    } else {
        let before = tagged_group_names(groups.drop_last(), key, value);
        if group_is_tagged(groups.last(), key, value) && groups.last().name is Some {
            before.push(groups.last().name->0)
        } else {
            before
        }
    }
}

/// The ids of all member instances of the groups, group by group.
pub open spec fn member_ids(groups: Seq<GroupView>) -> Seq<Seq<char>>
    decreases groups.len(),
{
    if groups.len() == 0 {
        Seq::empty()
    } else {
        member_ids(groups.drop_last()) + present(groups.last().instance_ids)
    }
}

/// The group that owns the instance: that of the first membership that
/// names the instance, `None` when no membership names it.
pub open spec fn owner_of(memberships: Seq<MembershipView>, instance_id: Seq<char>) -> Option<Seq<char>>
    decreases memberships.len(),
{
    if memberships.len() == 0 {
        None
    } else {
        match owner_of(memberships.drop_last(), instance_id) {
            Some(g) => Some(g),
            None => if memberships.last().instance_id == instance_id {
                Some(memberships.last().group_name)
            } else {
                None
            },
        }
    }
}

/// An instance has an owner exactly when a membership names it, and the
/// owner reported is a group it is a member of. Where every instance is a
/// member of at most one group, the owner is `g` exactly when the instance
/// is a member of `g`.
pub proof fn lemma_owner_iff_member(memberships: Seq<MembershipView>, instance_id: Seq<char>)
    ensures
        owner_of(memberships, instance_id) is None <==> forall|i: int|
            0 <= i < memberships.len() ==> (#[trigger] memberships[i]).instance_id != instance_id,
        owner_of(memberships, instance_id) matches Some(g) ==> exists|i: int|
            0 <= i < memberships.len() && (#[trigger] memberships[i]).instance_id == instance_id
                && memberships[i].group_name == g,
        (forall|i: int, j: int|
            0 <= i < memberships.len() && 0 <= j < memberships.len() && (
            #[trigger] memberships[i]).instance_id == (#[trigger] memberships[j]).instance_id
                ==> memberships[i].group_name == memberships[j].group_name) ==> forall|g: Seq<char>|
            (owner_of(memberships, instance_id) == Some(g) <==> exists|i: int|
                0 <= i < memberships.len() && (#[trigger] memberships[i]).instance_id
                    == instance_id && memberships[i].group_name == g),
    decreases memberships.len(),
{
    if memberships.len() > 0 {
        let front = memberships.drop_last();
        lemma_owner_iff_member(front, instance_id);
        assert forall|i: int| 0 <= i < front.len() implies front[i] == memberships[i] by {}
        let last = memberships.len() - 1;
        match owner_of(front, instance_id) {
            Some(g) => {
                let i = choose|i: int|
                    0 <= i < front.len() && (#[trigger] front[i]).instance_id == instance_id
                        && front[i].group_name == g;
                assert(memberships[i].instance_id == instance_id && memberships[i].group_name == g);
            },
            None => {
                if memberships[last].instance_id != instance_id {
                    assert forall|i: int| 0 <= i < memberships.len() implies (
                    #[trigger] memberships[i]).instance_id != instance_id by {
                        if i < front.len() {
                            assert(front[i].instance_id != instance_id);
                        }
                    }
                }
            },
        }
        if forall|i: int, j: int|
            0 <= i < memberships.len() && 0 <= j < memberships.len() && (
            #[trigger] memberships[i]).instance_id == (#[trigger] memberships[j]).instance_id
                ==> memberships[i].group_name == memberships[j].group_name {
            assert forall|g: Seq<char>|
                (owner_of(memberships, instance_id) == Some(g) <==> exists|i: int|
                    0 <= i < memberships.len() && (#[trigger] memberships[i]).instance_id
                        == instance_id && memberships[i].group_name == g) by {
                if exists|i: int|
                    0 <= i < memberships.len() && (#[trigger] memberships[i]).instance_id
                        == instance_id && memberships[i].group_name == g {
                    let i = choose|i: int|
                        0 <= i < memberships.len() && (#[trigger] memberships[i]).instance_id
                            == instance_id && memberships[i].group_name == g;
                    let found = owner_of(memberships, instance_id);
                    assert(found is Some);
                    let j = choose|j: int|
                        0 <= j < memberships.len() && (#[trigger] memberships[j]).instance_id
                            == instance_id && memberships[j].group_name == found->0;
                    assert(memberships[i].group_name == memberships[j].group_name);
                }
            }
        }
    }
}

/// An owner found among the first memberships is the owner.
pub proof fn lemma_owner_in_prefix(memberships: Seq<MembershipView>, instance_id: Seq<char>, n: int)
    requires
        0 <= n <= memberships.len(),
        owner_of(memberships.take(n), instance_id) is Some,
    ensures
        owner_of(memberships, instance_id) == owner_of(memberships.take(n), instance_id),
    decreases memberships.len() - n,
{
    if n < memberships.len() {
        assert(memberships.take(n + 1).drop_last() =~= memberships.take(n));
        lemma_owner_in_prefix(memberships, instance_id, n + 1);
    } else {
        assert(memberships.take(n) =~= memberships);
    }
}

/// The group that owns `instance_id` according to `memberships`; `None`
/// means that the instance is managed on its own.
pub fn find_owner(memberships: &Vec<Membership>, instance_id: &String) -> (owner: Option<String>)
    ensures
        opt_view(owner) == owner_of(membership_views(memberships@), instance_id@),
        owner is None <==> forall|i: int|
            0 <= i < memberships@.len() ==> (#[trigger] memberships@[i]).instance_id@
                != instance_id@,
{
    let ghost ms = membership_views(memberships@);
    let mut i: usize = 0;
    assert(ms.take(0) =~= Seq::empty());
    while i < memberships.len()
        invariant
            i <= memberships@.len(),
            ms == membership_views(memberships@),
            owner_of(ms.take(i as int), instance_id@) is None,
            forall|k: int| 0 <= k < i ==> (#[trigger] memberships@[k]).instance_id@ != instance_id@,
        decreases memberships@.len() - i,
    {
        proof {
            assert(ms.take(i + 1).drop_last() =~= ms.take(i as int));
            assert(ms.take(i + 1).last() == memberships@[i as int]@);
        }
        if same_text(&memberships[i].instance_id, instance_id) {
            proof {
                lemma_owner_in_prefix(ms, instance_id@, i + 1);
            }
            return Some(memberships[i].group_name.clone());
        }
        i = i + 1;
    }
    assert(ms.take(memberships@.len() as int) =~= ms);
    None
}

/// Whether the tag has this key and this value.
pub fn tag_has(tag: &Tag, key: &String, value: &String) -> (r: bool)
    ensures
        r == tag_matches(tag@, key@, value@),
{
    let key_ok = match &tag.key {
        Some(k) => same_text(k, key),
        None => key.as_str().is_empty(),
    };
    let value_ok = match &tag.value {
        Some(v) => same_text(v, value),
        None => value.as_str().is_empty(),
    };
    proof {
        if tag.key is None {
            assert(or_empty(tag@.key) =~= Seq::empty());
            assert((key@.len() == 0) == (key@ =~= Seq::empty()));
        }
        if tag.value is None {
            assert(or_empty(tag@.value) =~= Seq::empty());
            assert((value@.len() == 0) == (value@ =~= Seq::empty()));
        }
    }
    key_ok && value_ok
}

/// Whether the group carries the tag.
pub fn is_tagged(group: &GroupDescription, key: &String, value: &String) -> (r: bool)
    ensures
        r == group_is_tagged(group@, key@, value@),
{
    let mut i: usize = 0;
    while i < group.tags.len()
        invariant
            i <= group.tags@.len(),
            forall|k: int| 0 <= k < i ==> !tag_matches(#[trigger] group@.tags[k], key@, value@),
        decreases group.tags@.len() - i,
    {
        if tag_has(&group.tags[i], key, value) {
            assert(tag_matches(group@.tags[i as int], key@, value@));
            return true;
        }
        i = i + 1;
    }
    false
}

/// The names of the groups of one page that carry the tag.
pub fn names_of_tagged(groups: &Vec<GroupDescription>, key: &String, value: &String) -> (r: Vec<String>)
    ensures
        views(r@) == tagged_group_names(group_views(groups@), key@, value@),
{
    let ghost gs = group_views(groups@);
    let mut r: Vec<String> = Vec::new();
    let mut i: usize = 0;
    assert(gs.take(0) =~= Seq::empty());
    assert(views(r@) =~= Seq::empty());
    while i < groups.len()
        invariant
            i <= groups@.len(),
            gs == group_views(groups@),
            views(r@) == tagged_group_names(gs.take(i as int), key@, value@),
        decreases groups@.len() - i,
    {
        proof {
            assert(gs.take(i + 1).drop_last() =~= gs.take(i as int));
            assert(gs.take(i + 1).last() == groups@[i as int]@);
        }
        if is_tagged(&groups[i], key, value) {
            match &groups[i].name {
                Some(name) => {
                    let ghost before = r@;
                    r.push(name.clone());
                    assert(views(r@) =~= views(before).push(name@));
                },
                None => {},
            }
        }
        i = i + 1;
    }
    assert(gs.take(groups@.len() as int) =~= gs);
    r
}

/// The ids of the member instances of the groups of one page.
pub fn ids_of_members(groups: &Vec<GroupDescription>) -> (r: Vec<String>)
    ensures
        views(r@) == member_ids(group_views(groups@)),
{
    let ghost gs = group_views(groups@);
    let mut r: Vec<String> = Vec::new();
    let mut i: usize = 0;
    assert(gs.take(0) =~= Seq::empty());
    assert(views(r@) =~= Seq::empty());
    while i < groups.len()
        invariant
            i <= groups@.len(),
            gs == group_views(groups@),
            views(r@) == member_ids(gs.take(i as int)),
        decreases groups@.len() - i,
    {
        proof {
            assert(gs.take(i + 1).drop_last() =~= gs.take(i as int));
            assert(gs.take(i + 1).last() == groups@[i as int]@);
        }
        let ids = present_strings(&groups[i].instance_ids);
        append_copies(&mut r, &ids);
        i = i + 1;
    }
    assert(gs.take(groups@.len() as int) =~= gs);
    r
}

/// The model of a `GroupScan`.
pub struct GroupScanView {
    pub tag_key: Seq<char>,
    pub tag_value: Seq<char>,
    pub pager: PagerView,
}

impl GroupScanView {
    /// The request to send next, if one is due: for all groups.
    pub open spec fn request(self) -> Option<GroupRequestView> {
        match self.pager.next_token() {
            Some(token) => Some(GroupRequestView { group_names: Seq::empty(), next_token: token }),
            None => None,
        }
    }

    /// The scan after one more page: the tagged groups of the page are kept.
    pub open spec fn take_page(self, groups: Seq<GroupView>, token: Option<Seq<char>>) -> GroupScanView {
        GroupScanView {
            pager: self.pager.take_page(
                PageView {
                    items: tagged_group_names(groups, self.tag_key, self.tag_value),
                    token,
                },
            ),
            ..self
        }
    }

    /// The scan after a request that failed.
    pub open spec fn fail(self, cause: Seq<char>) -> GroupScanView {
        GroupScanView { pager: self.pager.fail(cause), ..self }
    }
}

/// The search, through all compute groups, for those that carry a tag.
pub struct GroupScan {
    tag_key: String,
    tag_value: String,
    pager: Pager,
}

impl View for GroupScan {
    type V = GroupScanView;

    closed spec fn view(&self) -> GroupScanView {
        GroupScanView { tag_key: self.tag_key@, tag_value: self.tag_value@, pager: self.pager@ }
    }
}

impl GroupScan {
    /// Begins the search for the groups that carry the tag.
    pub fn new(tag_key: &str, tag_value: &str) -> (scan: GroupScan)
        ensures
            scan@ == (GroupScanView {
                tag_key: tag_key@,
                tag_value: tag_value@,
                pager: PagerView::start(),
            }),
    {
        GroupScan {
            tag_key: String::from_str(tag_key),
            tag_value: String::from_str(tag_value),
            pager: Pager::new(),
        }
    }

    /// The request to send next; `None` when the last page was read.
    pub fn request(&self) -> (r: Option<GroupRequest>)
        ensures
            match r {
                Some(req) => self@.request() == Some(req@),
                None => self@.request() is None,
            },
    {
        match self.pager.next_token() {
            Some(token) => {
                let req = GroupRequest { group_names: Vec::new(), next_token: token };
                assert(views(req.group_names@) =~= Seq::empty());
                Some(req)
            },
            None => None,
        }
    }

    /// Whether the last page was read.
    pub fn is_finished(&self) -> (r: bool)
        ensures
            r == self@.pager.is_finished(),
    {
        self.pager.is_finished()
    }

    /// Takes the page that answers the last request.
    pub fn take_page(&mut self, page: &GroupPage)
        ensures
            final(self)@ == old(self)@.take_page(
                group_views(page.groups@),
                opt_view(page.next_token),
            ),
    {
        let names = names_of_tagged(&page.groups, &self.tag_key, &self.tag_value);
        let token = match &page.next_token {
            Some(t) => Some(t.clone()),
            None => None,
        };
        self.pager.take_page(&names, token);
    }

    /// Gives the search up because the request that was due failed.
    pub fn fail(&mut self, cause: String)
        ensures
            final(self)@ == old(self)@.fail(cause@),
    {
        self.pager.fail(cause);
    }

    /// Ends the search: the names of the tagged groups, or the error for
    /// which the search was given up.
    pub fn into_result(self) -> (r: Result<Vec<String>, DiscoveryError>)
        ensures
            match r {
                Ok(names) => self@.pager.outcome() == Ok::<Seq<Seq<char>>, Seq<char>>(
                    views(names@),
                ) && views(names@).no_duplicates(),
                Err(e) => self@.pager.outcome() == Err::<Seq<Seq<char>>, Seq<char>>(e.cause@),
            },
    {
        self.pager.into_result()
    }

    /// Ends the search and hands out the names of the tagged groups.
    pub fn into_names(self) -> (r: Vec<String>)
        ensures
            views(r@) == self@.pager.found,
            views(r@).no_duplicates(),
    {
        self.pager.into_found()
    }
}

/// The model of a `MemberExpansion`.
pub struct MemberExpansionView {
    pub group_names: Seq<Seq<char>>,
    pub pager: PagerView,
}

impl MemberExpansionView {
    /// The expansion as it begins. Without a group there is nothing to ask.
    pub open spec fn begin(group_names: Seq<Seq<char>>) -> MemberExpansionView {
        MemberExpansionView {
            group_names,
            pager: if group_names.len() == 0 {
                PagerView::nothing_to_read()
            } else {
                PagerView::start()
            },
        }
    }

    /// The request to send next, if one is due: for the groups by name.
    pub open spec fn request(self) -> Option<GroupRequestView> {
        match self.pager.next_token() {
            Some(token) => Some(
                GroupRequestView { group_names: self.group_names, next_token: token },
            ),
            None => None,
        }
    }

    /// The expansion after one more page: the members of its groups are kept.
    pub open spec fn take_page(self, groups: Seq<GroupView>, token: Option<Seq<char>>) -> MemberExpansionView {
        MemberExpansionView {
            pager: self.pager.take_page(PageView { items: member_ids(groups), token }),
            ..self
        }
    }

    /// The expansion after a request that failed.
    pub open spec fn fail(self, cause: Seq<char>) -> MemberExpansionView {
        MemberExpansionView { pager: self.pager.fail(cause), ..self }
    }
}

/// For no group, the expansion is complete and empty before any request.
pub proof fn lemma_no_groups_no_request(group_names: Seq<Seq<char>>)
    requires
        group_names.len() == 0,
    ensures
        MemberExpansionView::begin(group_names).request() is None,
        MemberExpansionView::begin(group_names).pager.is_finished(),
        MemberExpansionView::begin(group_names).pager.found.len() == 0,
        MemberExpansionView::begin(group_names).pager.outcome() == Ok::<
            Seq<Seq<char>>,
            Seq<char>,
        >(Seq::empty()),
{
}

/// The expansion of a set of compute groups into their member instances.
pub struct MemberExpansion {
    group_names: Vec<String>,
    pager: Pager,
}

impl View for MemberExpansion {
    type V = MemberExpansionView;

    closed spec fn view(&self) -> MemberExpansionView {
        MemberExpansionView { group_names: views(self.group_names@), pager: self.pager@ }
    }
}

impl MemberExpansion {
    /// Begins the expansion of the groups named.
    pub fn new(group_names: Vec<String>) -> (e: MemberExpansion)
        ensures
            e@ == MemberExpansionView::begin(views(group_names@)),
            group_names@.len() == 0 ==> e@.request() is None && e@.pager.found.len() == 0,
    {
        let pager = if group_names.len() == 0 {
            Pager::nothing_to_read()
        } else {
            Pager::new()
        };
        MemberExpansion { group_names, pager }
    }

    /// The request to send next; `None` when there is nothing more to ask.
    pub fn request(&self) -> (r: Option<GroupRequest>)
        ensures
            match r {
                Some(req) => self@.request() == Some(req@),
                None => self@.request() is None,
            },
    {
        match self.pager.next_token() {
            Some(token) => Some(
                GroupRequest { group_names: copy_strings(&self.group_names), next_token: token },
            ),
            None => None,
        }
    }

    /// Whether there is nothing more to ask.
    pub fn is_finished(&self) -> (r: bool)
        ensures
            r == self@.pager.is_finished(),
    {
        self.pager.is_finished()
    }

    /// Takes the page that answers the last request.
    pub fn take_page(&mut self, page: &GroupPage)
        ensures
            final(self)@ == old(self)@.take_page(
                group_views(page.groups@),
                opt_view(page.next_token),
            ),
    {
        let ids = ids_of_members(&page.groups);
        let token = match &page.next_token {
            Some(t) => Some(t.clone()),
            None => None,
        };
        self.pager.take_page(&ids, token);
    }

    /// Gives the expansion up because the request that was due failed.
    pub fn fail(&mut self, cause: String)
        ensures
            final(self)@ == old(self)@.fail(cause@),
    {
        self.pager.fail(cause);
    }

    /// Ends the expansion: the ids of all member instances, or the error
    /// for which the expansion was given up.
    pub fn into_result(self) -> (r: Result<Vec<String>, DiscoveryError>)
        ensures
            match r {
                Ok(ids) => self@.pager.outcome() == Ok::<Seq<Seq<char>>, Seq<char>>(views(ids@)) && views(ids@).no_duplicates(),
                Err(e) => self@.pager.outcome() == Err::<Seq<Seq<char>>, Seq<char>>(e.cause@),
            },
    {
        self.pager.into_result()
    }

    /// Ends the expansion and hands out the ids of the members found.
    pub fn into_members(self) -> (r: Vec<String>)
        ensures
            views(r@) == self@.pager.found,
            views(r@).no_duplicates(),
    {
        self.pager.into_found()
    }
}

/// Stops and starts the compute groups of one region.
///
/// Finds the groups by reading all of them and keeping the tagged ones, and
/// reads their member instances. To stop, every group is suspended first and
/// its members are stopped after that, so that no group replaces a member
/// that was stopped. To start, the members are started and awaited in the
/// running state, and only then are the groups resumed.
pub struct AutoScalingScheduler {
    region: String,
}

impl AutoScalingScheduler {
    /// The region that the scheduler works in.
    pub closed spec fn spec_region(&self) -> Seq<char> {
        self.region@
    }

    /// A scheduler for `region`.
    pub fn new(region: &str) -> (s: Self)
        ensures
            s.spec_region() == region@,
    {
        AutoScalingScheduler { region: String::from_str(region) }
    }

    /// The region that the scheduler works in.
    pub fn region(&self) -> (r: &String)
        ensures
            r@ == self.spec_region(),
    {
        &self.region
    }

    /// Begins to stop what carries the tag, and says what to do first.
    pub fn stop(&self, tag_key: &str, tag_value: &str) -> (r: (Run, Step))
        ensures
            (r.0@, r.1@) == RunView::begin(
                Facade::AutoScaling,
                ScheduleAction::Stop,
                tag_key@,
                tag_value@,
            ),
    {
        Run::begin(Facade::AutoScaling, ScheduleAction::Stop, tag_key, tag_value)
    }

    /// Begins to start what carries the tag, and says what to do first.
    pub fn start(&self, tag_key: &str, tag_value: &str) -> (r: (Run, Step))
        ensures
            (r.0@, r.1@) == RunView::begin(
                Facade::AutoScaling,
                ScheduleAction::Start,
                tag_key@,
                tag_value@,
            ),
    {
        Run::begin(Facade::AutoScaling, ScheduleAction::Start, tag_key, tag_value)
    }
}

} // verus!
