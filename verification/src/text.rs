//! Views of strings held in vectors and options, and the few string
//! operations the rest of the crate shares.

use vstd::prelude::*;
use vstd::string::*;

verus! {

/// The views of a sequence of strings.
pub open spec fn views(v: Seq<String>) -> Seq<Seq<char>> {
    Seq::new(v.len(), |i: int| v[i]@)
}

/// The view of an optional string.
pub open spec fn opt_view(o: Option<String>) -> Option<Seq<char>> {
    match o {
        Some(s) => Some(s@),
        None => None,
    }
}

/// The views of a sequence of optional strings.
pub open spec fn opt_views(v: Seq<Option<String>>) -> Seq<Option<Seq<char>>> {
    Seq::new(v.len(), |i: int| opt_view(v[i]))
}

/// The entries of `items` that are present, in order.
pub open spec fn present(items: Seq<Option<Seq<char>>>) -> Seq<Seq<char>>
    decreases items.len(),
{
    if items.len() == 0 {
        Seq::empty()
    } else {
        match items.last() {
            Some(s) => present(items.drop_last()).push(s),
            None => present(items.drop_last()),
        }
    }
}

/// The text of an optional string, the empty text when it is absent.
pub open spec fn or_empty(o: Option<Seq<char>>) -> Seq<char> {
    match o {
        Some(s) => s,
        None => Seq::empty(),
    }
}

/// Appending one string to a vector appends its view to the views.
pub proof fn lemma_views_push(v: Seq<String>, s: String)
    ensures
        views(v.push(s)) == views(v).push(s@),
{
    assert(views(v.push(s)) =~= views(v).push(s@));
}

/// `found`, followed by each text of `items` that it does not hold yet, in
/// order: a text that comes again is left out.
pub open spec fn merged(found: Seq<Seq<char>>, items: Seq<Seq<char>>) -> Seq<Seq<char>>
    decreases items.len(),
{
    if items.len() == 0 {
        found
    } else {
        let before = merged(found, items.drop_last());
        if before.contains(items.last()) {
            before
        } else {
            before.push(items.last())
        }
    }
}

/// The texts of `items`, each once, in the order in which they first come.
pub open spec fn distinct(items: Seq<Seq<char>>) -> Seq<Seq<char>> {
    merged(Seq::empty(), items)
}

/// Merging keeps what was found, in place, adds nothing that was not
/// served, loses nothing that was, and doubles nothing.
pub proof fn lemma_merged(found: Seq<Seq<char>>, items: Seq<Seq<char>>)
    ensures
        found.is_prefix_of(merged(found, items)),
        merged(found, items).len() <= found.len() + items.len(),
        forall|x: Seq<char>| #[trigger]
            merged(found, items).contains(x) <==> found.contains(x) || items.contains(x),
        merged(found, items).to_set() == found.to_set().union(items.to_set()),
        found.no_duplicates() ==> merged(found, items).no_duplicates(),
    decreases items.len(),
{
    let all = merged(found, items);
    if items.len() == 0 {
        assert forall|x: Seq<char>| #[trigger] all.contains(x) <==> found.contains(x)
            || items.contains(x) by {}
    } else {
        let front = items.drop_last();
        let before = merged(found, front);
        lemma_merged(found, front);
        assert forall|x: Seq<char>| #[trigger] all.contains(x) <==> found.contains(x)
            || items.contains(x) by {
            if all.contains(x) {
                let k = choose|k: int| 0 <= k < all.len() && all[k] == x;
                if k < before.len() {
                    assert(before[k] == x);
                    assert(before.contains(x));
                    if !found.contains(x) {
                        assert(front.contains(x));
                        let j = choose|j: int| 0 <= j < front.len() && front[j] == x;
                        assert(items[j] == x);
                    }
                } else {
                    assert(items[items.len() - 1] == x);
                }
            }
            if found.contains(x) {
                assert(before.contains(x));
                let k = choose|k: int| 0 <= k < before.len() && before[k] == x;
                assert(all[k] == x);
            }
            if items.contains(x) {
                let j = choose|j: int| 0 <= j < items.len() && items[j] == x;
                if j < front.len() {
                    assert(front[j] == x);
                    assert(front.contains(x));
                    assert(before.contains(x));
                    let k = choose|k: int| 0 <= k < before.len() && before[k] == x;
                    assert(all[k] == x);
                } else if before.contains(x) {
                } else {
                    assert(all[all.len() - 1] == x);
                }
            }
        }
        if found.no_duplicates() && !before.contains(items.last()) {
            assert forall|i: int, j: int| 0 <= i < all.len() && 0 <= j < all.len() && i != j implies all[i]
                != all[j] by {
                if i < before.len() && j < before.len() {
                    assert(before[i] != before[j]);
                } else if i < before.len() {
                    assert(before[i] == all[i]);
                    assert(before.contains(all[i]));
                } else {
                    assert(before[j] == all[j]);
                    assert(before.contains(all[j]));
                }
            }
        }
    }
    assert(all.to_set() =~= found.to_set().union(items.to_set())) by {
        assert forall|x: Seq<char>| all.to_set().contains(x) <==> found.to_set().union(
            items.to_set(),
        ).contains(x) by {
            assert(all.contains(x) <==> found.contains(x) || items.contains(x));
        }
    }
}

/// Merging in two steps is merging in one: where the items are cut in two
/// does not matter.
pub proof fn lemma_merged_add(found: Seq<Seq<char>>, a: Seq<Seq<char>>, b: Seq<Seq<char>>)
    ensures
        merged(merged(found, a), b) == merged(found, a + b),
    decreases b.len(),
{
    if b.len() == 0 {
        assert(a + b =~= a);
    } else {
        lemma_merged_add(found, a, b.drop_last());
        assert((a + b).drop_last() =~= a + b.drop_last());
        assert((a + b).last() == b.last());
    }
}

/// A copy of `s`.
pub fn copy_string(s: &String) -> (r: String)
    ensures
        r@ == s@,
{
    s.clone()
}

/// A copy of each string of `v`, in order.
pub fn copy_strings(v: &Vec<String>) -> (r: Vec<String>)
    ensures
        views(r@) == views(v@),
        r@.len() == v@.len(),
{
    let mut r: Vec<String> = Vec::new();
    let mut i: usize = 0;
    while i < v.len()
        invariant
            i <= v@.len(),
            r@.len() == i,
            forall|k: int| 0 <= k < i ==> r@[k]@ == v@[k]@,
        decreases v@.len() - i,
    {
        r.push(v[i].clone());
        i = i + 1;
    }
    assert(views(r@) =~= views(v@));
    r
}

/// Appends a copy of each string of `more` to `v`.
pub fn append_copies(v: &mut Vec<String>, more: &Vec<String>)
    ensures
        views(final(v)@) == views(old(v)@) + views(more@),
        final(v)@.len() == old(v)@.len() + more@.len(),
{
    let mut i: usize = 0;
    while i < more.len()
        invariant
            i <= more@.len(),
            v@.len() == old(v)@.len() + i,
            views(v@) == views(old(v)@) + views(more@).take(i as int),
        decreases more@.len() - i,
    {
        let ghost before = v@;
        v.push(more[i].clone());
        proof {
            lemma_views_push(before, v@.last());
            assert(views(more@).take(i + 1) =~= views(more@).take(i as int).push(more@[i as int]@));
            assert(views(v@) =~= views(old(v)@) + views(more@).take(i + 1));
        }
        i = i + 1;
    }
    assert(views(more@).take(more@.len() as int) =~= views(more@));
}

/// Appends a copy of each string of `more` that `v` does not hold yet.
pub fn append_new(v: &mut Vec<String>, more: &Vec<String>)
    ensures
        views(final(v)@) == merged(views(old(v)@), views(more@)),
        views(old(v)@).no_duplicates() ==> views(final(v)@).no_duplicates(),
{
    proof {
        lemma_merged(views(v@), views(more@));
    }
    let mut i: usize = 0;
    assert(views(more@).take(0) =~= Seq::empty());
    while i < more.len()
        invariant
            i <= more@.len(),
            views(v@) == merged(views(old(v)@), views(more@).take(i as int)),
        decreases more@.len() - i,
    {
        proof {
            assert(views(more@).take(i + 1).drop_last() =~= views(more@).take(i as int));
            assert(views(more@).take(i + 1).last() == more@[i as int]@);
        }
        if !holds_text(v, &more[i]) {
            let ghost before = v@;
            v.push(more[i].clone());
            proof {
                lemma_views_push(before, v@.last());
            }
        }
        i = i + 1;
    }
    assert(views(more@).take(more@.len() as int) =~= views(more@));
}

/// The strings of `v`, followed by a copy of each string of `more` that is
/// not yet among them.
pub fn with_new(v: &Vec<String>, more: &Vec<String>) -> (r: Vec<String>)
    ensures
        views(r@) == merged(views(v@), views(more@)),
        views(v@).no_duplicates() ==> views(r@).no_duplicates(),
{
    let mut r = copy_strings(v);
    append_new(&mut r, more);
    r
}

/// Whether two strings hold the same text.
pub fn same_text(a: &String, b: &String) -> (r: bool)
    ensures
        r == (a@ == b@),
{
    *a == *b
}

/// Whether `list` holds a string with the text of `wanted`.
pub fn holds_text(list: &Vec<String>, wanted: &String) -> (r: bool)
    ensures
        r == views(list@).contains(wanted@),
{
    let mut i: usize = 0;
    while i < list.len()
        invariant
            i <= list@.len(),
            forall|k: int| 0 <= k < i ==> list@[k]@ != wanted@,
        decreases list@.len() - i,
    {
        if same_text(&list[i], wanted) {
            assert(views(list@)[i as int] == wanted@);
            return true;
        }
        i = i + 1;
    }
    assert(!views(list@).contains(wanted@)) by {
        if views(list@).contains(wanted@) {
            let k = choose|k: int| 0 <= k < views(list@).len() && views(list@)[k] == wanted@;
            assert(list@[k]@ == wanted@);
        }
    }
    false
}

} // verus!
