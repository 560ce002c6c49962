//! Finding resources by type and tag.
//!
//! The lookup is paginated: a `Listing` says which request to send next and
//! takes the page that came back, until a page announces no successor.

use vstd::prelude::*;
use vstd::string::*;
use crate::paging::{DiscoveryError, PageView, Pager, PagerView};
use crate::text::{opt_view, opt_views, present, views};

verus! {

/// One request of a lookup by tag.
pub struct ListRequest {
    pub resource_type: String,
    pub tag_key: String,
    pub tag_value: String,
    /// The token of the page asked for; `None` asks for the first.
    pub pagination_token: Option<String>,
}

/// The model of a `ListRequest`.
pub struct ListRequestView {
    pub resource_type: Seq<char>,
    pub tag_key: Seq<char>,
    pub tag_value: Seq<char>,
    pub pagination_token: Option<Seq<char>>,
}

impl View for ListRequest {
    type V = ListRequestView;

    open spec fn view(&self) -> ListRequestView {
        ListRequestView {
            resource_type: self.resource_type@,
            tag_key: self.tag_key@,
            tag_value: self.tag_value@,
            pagination_token: opt_view(self.pagination_token),
        }
    }
}

/// One page of answers: the ARN of each resource, where it has one, and
/// the token of the page after this one.
pub struct ResourcePage {
    pub arns: Vec<Option<String>>,
    pub pagination_token: Option<String>,
}

impl ResourcePage {
    /// The page as the pager takes it: the ARNs that are present.
    pub open spec fn spec_page(&self) -> PageView {
        PageView {
            items: present(opt_views(self.arns@)),
            token: opt_view(self.pagination_token),
        }
    }
}

/// The strings of `items` that are present, in order.
pub fn present_strings(items: &Vec<Option<String>>) -> (r: Vec<String>)
    ensures
        views(r@) == present(opt_views(items@)),
{
    let mut r: Vec<String> = Vec::new();
    let mut i: usize = 0;
    assert(opt_views(items@).take(0) =~= Seq::empty());
    assert(views(r@) =~= Seq::empty());
    while i < items.len()
        invariant
            i <= items@.len(),
            views(r@) == present(opt_views(items@).take(i as int)),
        decreases items@.len() - i,
    {
        proof {
            let now = opt_views(items@).take(i + 1);
            assert(now.drop_last() =~= opt_views(items@).take(i as int));
            assert(now.last() == opt_view(items@[i as int]));
        }
        match &items[i] {
            Some(s) => {
                let ghost before = r@;
                r.push(s.clone());
                assert(views(r@) =~= views(before).push(s@));
            },
            None => {},
        }
        i = i + 1;
    }
    assert(opt_views(items@).take(items@.len() as int) =~= opt_views(items@));
    r
}

/// The model of a `Listing`.
pub struct ListingView {
    pub resource_type: Seq<char>,
    pub tag_key: Seq<char>,
    pub tag_value: Seq<char>,
    pub pager: PagerView,
}

impl ListingView {
    /// The request to send next, if one is due.
    pub open spec fn request(self) -> Option<ListRequestView> {
        match self.pager.next_token() {
            Some(token) => Some(
                ListRequestView {
                    resource_type: self.resource_type,
                    tag_key: self.tag_key,
                    tag_value: self.tag_value,
                    pagination_token: token,
                },
            ),
            None => None,
        }
    }

    /// The listing after one more page.
    pub open spec fn take_page(self, page: PageView) -> ListingView {
        ListingView { pager: self.pager.take_page(page), ..self }
    }

    /// The listing after a request that failed.
    pub open spec fn fail(self, cause: Seq<char>) -> ListingView {
        ListingView { pager: self.pager.fail(cause), ..self }
    }
}

/// A lookup of all resources of one type that carry one tag.
pub struct Listing {
    resource_type: String,
    tag_key: String,
    tag_value: String,
    pager: Pager,
}

impl View for Listing {
    type V = ListingView;

    closed spec fn view(&self) -> ListingView {
        ListingView {
            resource_type: self.resource_type@,
            tag_key: self.tag_key@,
            tag_value: self.tag_value@,
            pager: self.pager@,
        }
    }
}

/// Begins the lookup of the resources of type `resource_type` that carry
/// the tag `tag_key` with the value `tag_value`.
pub fn get_resources(resource_type: &str, tag_key: &str, tag_value: &str) -> (listing: Listing)
    ensures
        listing@ == (ListingView {
            resource_type: resource_type@,
            tag_key: tag_key@,
            tag_value: tag_value@,
            pager: PagerView::start(),
        }),
{
    Listing {
        resource_type: String::from_str(resource_type),
        tag_key: String::from_str(tag_key),
        tag_value: String::from_str(tag_value),
        pager: Pager::new(),
    }
}

impl Listing {
    /// The request to send next; `None` when the last page was read.
    pub fn request(&self) -> (r: Option<ListRequest>)
        ensures
            match r {
                Some(req) => self@.request() == Some(req@),
                None => self@.request() is None,
            },
    {
        match self.pager.next_token() {
            Some(token) => Some(
                ListRequest {
                    resource_type: self.resource_type.clone(),
                    tag_key: self.tag_key.clone(),
                    tag_value: self.tag_value.clone(),
                    pagination_token: token,
                },
            ),
            None => None,
        }
    }

    /// Whether the last page was read.
    pub fn is_finished(&self) -> (r: bool)
        ensures
            r == self@.pager.is_finished(),
    {
        self.pager.is_finished()
    }

    /// Takes the page that answers the last request.
    pub fn take_page(&mut self, page: &ResourcePage)
        ensures
            final(self)@ == old(self)@.take_page(page.spec_page()),
    {
        let items = present_strings(&page.arns);
        let token = match &page.pagination_token {
            Some(t) => Some(t.clone()),
            None => None,
        };
        self.pager.take_page(&items, token);
    }

    /// Gives the lookup up because the request that was due failed.
    pub fn fail(&mut self, cause: String)
        ensures
            final(self)@ == old(self)@.fail(cause@),
    {
        self.pager.fail(cause);
    }

    /// Ends the lookup: the ARNs of all matching resources, or the error
    /// for which the lookup was given up.
    pub fn into_result(self) -> (r: Result<Vec<String>, DiscoveryError>)
        ensures
            match r {
                Ok(arns) => self@.pager.outcome() == Ok::<Seq<Seq<char>>, Seq<char>>(
                    views(arns@),
                ) && views(arns@).no_duplicates(),
                Err(e) => self@.pager.outcome() == Err::<Seq<Seq<char>>, Seq<char>>(e.cause@),
            },
    {
        self.pager.into_result()
    }

    /// The ARNs found so far.
    pub fn arns(&self) -> (r: Vec<String>)
        ensures
            views(r@) == self@.pager.found,
            views(r@).no_duplicates(),
    {
        self.pager.found()
    }

    /// Ends the lookup and hands out the ARNs found.
    pub fn into_arns(self) -> (r: Vec<String>)
        ensures
            views(r@) == self@.pager.found,
            views(r@).no_duplicates(),
    {
        self.pager.into_found()
    }
}

} // verus!
