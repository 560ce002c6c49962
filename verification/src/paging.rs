//! Following a paginated listing to its end.
//!
//! A listing is read page by page. Each page carries items and, possibly, a
//! continuation token for the page after it. A page without a token, or with
//! an empty one, is the last. The pager keeps what has been found so far and
//! says which page to ask for next.

use vstd::prelude::*;
use vstd::string::*;
use crate::text::{
    with_new,
    copy_strings,
    distinct,
    lemma_merged,
    lemma_merged_add,
    merged,
    opt_view,
    views,
};

verus! {

/// Where a listing stands.
pub enum Cursor {
    /// Nothing was asked for yet.
    Start,
    /// The page behind this token comes next.
    After(String),
    /// The last page was read.
    End,
}

/// The model of a `Cursor`.
pub enum CursorView {
    Start,
    After(Seq<char>),
    End,
}

impl View for Cursor {
    type V = CursorView;

    open spec fn view(&self) -> CursorView {
        match self {
            Cursor::Start => CursorView::Start,
            Cursor::After(t) => CursorView::After(t@),
            Cursor::End => CursorView::End,
        }
    }
}

/// A lookup could not be made or answered.
#[derive(Debug)]
pub struct DiscoveryError {
    pub cause: String,
}

/// One page of a listing, as the model sees it.
pub struct PageView {
    pub items: Seq<Seq<char>>,
    pub token: Option<Seq<char>>,
}

/// Whether a page with this token has a page after it. An empty token ends
/// the listing as an absent one does.
pub open spec fn continues(token: Option<Seq<char>>) -> bool {
    token matches Some(t) && t.len() > 0
}

/// The model of a `Pager`.
pub struct PagerView {
    pub found: Seq<Seq<char>>,
    pub cursor: CursorView,
    /// Why the listing was given up, if it was.
    pub failure: Option<Seq<char>>,
}

impl PagerView {
    /// A listing of which nothing was read.
    pub open spec fn start() -> PagerView {
        PagerView { found: Seq::empty(), cursor: CursorView::Start, failure: None }
    }

    /// A listing that needs no page at all.
    pub open spec fn nothing_to_read() -> PagerView {
        PagerView { found: Seq::empty(), cursor: CursorView::End, failure: None }
    }

    pub open spec fn is_finished(self) -> bool {
        self.cursor is End
    }

    /// The token to send with the next request: `None` when no request is
    /// due, `Some(None)` for the first page.
    pub open spec fn next_token(self) -> Option<Option<Seq<char>>> {
        match self.cursor {
            CursorView::Start => Some(None),
            CursorView::After(t) => Some(Some(t)),
            CursorView::End => None,
        }
    }

    /// The listing after one more page: the items of the page that were not
    /// found before are added, each once. A finished listing takes no page.
    pub open spec fn take_page(self, page: PageView) -> PagerView {
        if self.cursor is End {
            self
        } else {
            PagerView {
                found: merged(self.found, page.items),
                cursor: if continues(page.token) {
                    CursorView::After(page.token->0)
                } else {
                    CursorView::End
                },
                failure: self.failure,
            }
        }
    }

    /// The listing after a request that failed: it is given up, and what
    /// was found stays. A finished listing stays as it is.
    pub open spec fn fail(self, cause: Seq<char>) -> PagerView {
        if self.cursor is End {
            self
        } else {
            PagerView { found: self.found, cursor: CursorView::End, failure: Some(cause) }
        }
    }

    /// What the listing comes to: all that was found, or the cause for
    /// which it was given up.
    pub open spec fn outcome(self) -> Result<Seq<Seq<char>>, Seq<char>> {
        match self.failure {
            Some(cause) => Err(cause),
            None => Ok(self.found),
        }
    }

    /// The listing after these pages, taken in order.
    pub open spec fn take_pages(self, pages: Seq<PageView>) -> PagerView
        decreases pages.len(),
    {
        if pages.len() == 0 {
            self
        } else {
            self.take_pages(pages.drop_last()).take_page(pages.last())
        }
    }
}

/// All items of `pages`, in order.
pub open spec fn all_items(pages: Seq<PageView>) -> Seq<Seq<char>>
    decreases pages.len(),
{
    if pages.len() == 0 {
        Seq::empty()
    } else {
        all_items(pages.drop_last()) + pages.last().items
    }
}

/// `pages` is what a backend serves for one listing: every page but the last
/// announces a successor, and the last announces none.
pub open spec fn one_listing(pages: Seq<PageView>) -> bool {
    &&& pages.len() >= 1
    &&& forall|i: int| 0 <= i < pages.len() - 1 ==> continues(#[trigger] pages[i].token)
    &&& !continues(pages.last().token)
}

/// While every page announces a successor, the pager has kept every item,
/// once, and still asks for more.
pub proof fn lemma_unfinished_listing(start: PagerView, pages: Seq<PageView>)
    requires
        !start.is_finished(),
        forall|i: int| 0 <= i < pages.len() ==> continues(#[trigger] pages[i].token),
    ensures
        start.take_pages(pages).found == merged(start.found, all_items(pages)),
        start.take_pages(pages).failure == start.failure,
        !start.take_pages(pages).is_finished(),
        pages.len() > 0 ==> start.take_pages(pages).cursor == CursorView::After(
            pages.last().token->0,
        ),
    decreases pages.len(),
{
    if pages.len() > 0 {
        let front = pages.drop_last();
        assert forall|i: int| 0 <= i < front.len() implies continues(#[trigger] front[i].token) by {
            assert(front[i] == pages[i]);
        }
        lemma_unfinished_listing(start, front);
        assert(continues(pages[pages.len() - 1].token));
        lemma_merged_add(start.found, all_items(front), pages.last().items);
    }
}

/// The result of a listing is the union of its pages, as a set: every item
/// of every page, each once, in the order in which it first came, and the
/// pager then asks for nothing more.
pub proof fn lemma_listing_is_union_of_pages(start: PagerView, pages: Seq<PageView>)
    requires
        !start.is_finished(),
        one_listing(pages),
    ensures
        start.take_pages(pages).found == merged(start.found, all_items(pages)),
        start.take_pages(pages).found.to_set() == start.found.to_set().union(
            all_items(pages).to_set(),
        ),
        start.found.no_duplicates() ==> start.take_pages(pages).found.no_duplicates(),
        start.take_pages(pages).is_finished(),
        start.take_pages(pages).failure == start.failure,
{
    let front = pages.drop_last();
    assert forall|i: int| 0 <= i < front.len() implies continues(#[trigger] front[i].token) by {
        assert(front[i] == pages[i]);
    }
    lemma_unfinished_listing(start, front);
    lemma_merged_add(start.found, all_items(front), pages.last().items);
    lemma_merged(start.found, all_items(pages));
}

/// What a listing begun afresh returns: the set of all items served, with
/// no duplicates, whatever the pages hold and wherever their boundaries fall.
/// Two ways of serving the same items in the same order give the same
/// result; two ways of serving the same set of items give the same set.
pub proof fn lemma_page_boundaries_do_not_matter(a: Seq<PageView>, b: Seq<PageView>)
    requires
        one_listing(a),
        one_listing(b),
    ensures
        PagerView::start().take_pages(a).found == distinct(all_items(a)),
        PagerView::start().take_pages(a).outcome() == Ok::<Seq<Seq<char>>, Seq<char>>(
            distinct(all_items(a)),
        ),
        PagerView::start().take_pages(a).found.no_duplicates(),
        PagerView::start().take_pages(a).found.to_set() == all_items(a).to_set(),
        all_items(a) == all_items(b) ==> PagerView::start().take_pages(a).found
            == PagerView::start().take_pages(b).found,
        all_items(a).to_set() == all_items(b).to_set() ==> PagerView::start().take_pages(
            a,
        ).found.to_set() == PagerView::start().take_pages(b).found.to_set(),
{
    lemma_listing_is_union_of_pages(PagerView::start(), a);
    lemma_listing_is_union_of_pages(PagerView::start(), b);
    let none = Seq::<Seq<char>>::empty();
    assert(none.to_set().union(all_items(a).to_set()) =~= all_items(a).to_set());
    assert(none.to_set().union(all_items(b).to_set()) =~= all_items(b).to_set());
}

/// A finished listing ignores whatever is handed to it.
pub proof fn lemma_finished_listing_stays(p: PagerView, pages: Seq<PageView>)
    requires
        p.is_finished(),
    ensures
        p.take_pages(pages) == p,
    decreases pages.len(),
{
    if pages.len() > 0 {
        lemma_finished_listing_stays(p, pages.drop_last());
    }
}

/// What has been found of a listing so far, and where to go on.
pub struct Pager {
    found: Vec<String>,
    cursor: Cursor,
    failure: Option<String>,
}

impl View for Pager {
    type V = PagerView;

    closed spec fn view(&self) -> PagerView {
        PagerView {
            found: views(self.found@),
            cursor: self.cursor@,
            failure: opt_view(self.failure),
        }
    }
}

impl Pager {
    /// Nothing is held twice.
    #[verifier::type_invariant]
    closed spec fn each_once(&self) -> bool {
        views(self.found@).no_duplicates()
    }

    /// A listing of which nothing was read.
    pub fn new() -> (p: Pager)
        ensures
            p@ == PagerView::start(),
    {
        let p = Pager { found: Vec::new(), cursor: Cursor::Start, failure: None };
        assert(views(p.found@) =~= Seq::empty());
        p
    }

    /// A listing that is complete without a request.
    pub fn nothing_to_read() -> (p: Pager)
        ensures
            p@ == PagerView::nothing_to_read(),
    {
        let p = Pager { found: Vec::new(), cursor: Cursor::End, failure: None };
        assert(views(p.found@) =~= Seq::empty());
        p
    }

    /// Whether the last page was read.
    pub fn is_finished(&self) -> (r: bool)
        ensures
            r == self@.is_finished(),
    {
        match self.cursor {
            Cursor::End => true,
            _ => false,
        }
    }

    /// The token for the next request; `None` when no request is due.
    pub fn next_token(&self) -> (r: Option<Option<String>>)
        ensures
            match r {
                Some(t) => self@.next_token() == Some(opt_view(t)),
                None => self@.next_token() is None,
            },
    {
        match &self.cursor {
            Cursor::Start => Some(None),
            Cursor::After(t) => Some(Some(t.clone())),
            Cursor::End => None,
        }
    }

    /// Takes the next page: keeps those of its items that were not found
    /// before, each once, and follows its token.
    pub fn take_page(&mut self, items: &Vec<String>, token: Option<String>)
        ensures
            final(self)@ == old(self)@.take_page(
                PageView { items: views(items@), token: opt_view(token) },
            ),
    {
        if self.is_finished() {
            return ;
        }
        proof {
            use_type_invariant(&*self);
        }
        let found = with_new(&self.found, items);
        self.found = found;
        let next = match token {
            Some(t) => {
                if t.as_str().is_empty() {
                    Cursor::End
                } else {
                    Cursor::After(t)
                }
            },
            None => Cursor::End,
        };
        self.cursor = next;
    }

    /// Gives the listing up because the request that was due failed.
    pub fn fail(&mut self, cause: String)
        ensures
            final(self)@ == old(self)@.fail(cause@),
    {
        if self.is_finished() {
            return ;
        }
        proof {
            use_type_invariant(&*self);
        }
        self.cursor = Cursor::End;
        self.failure = Some(cause);
    }

    /// How many items were found so far.
    pub fn count(&self) -> (n: usize)
        ensures
            n == self@.found.len(),
    {
        self.found.len()
    }

    /// What was found so far.
    pub fn found(&self) -> (r: Vec<String>)
        ensures
            views(r@) == self@.found,
            views(r@).no_duplicates(),
    {
        proof {
            use_type_invariant(self);
        }
        copy_strings(&self.found)
    }

    /// Ends the listing: all that was found, or the error for which it was
    /// given up.
    pub fn into_result(self) -> (r: Result<Vec<String>, DiscoveryError>)
        ensures
            match r {
                Ok(found) => self@.outcome() == Ok::<Seq<Seq<char>>, Seq<char>>(views(found@))
                    && views(found@).no_duplicates(),
                Err(e) => self@.outcome() == Err::<Seq<Seq<char>>, Seq<char>>(e.cause@),
            },
    {
        proof {
            use_type_invariant(&self);
        }
        match self.failure {
            Some(cause) => Err(DiscoveryError { cause }),
            None => Ok(self.found),
        }
    }

    /// Ends the listing and hands out what was found.
    pub fn into_found(self) -> (r: Vec<String>)
        ensures
            views(r@) == self@.found,
            views(r@).no_duplicates(),
    {
        proof {
            use_type_invariant(&self);
        }
        self.found
    }
}

} // verus!
