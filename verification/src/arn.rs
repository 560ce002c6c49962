//! Positional segment extraction from ARN-shaped resource names.
//!
//! A name is cut at every occurrence of a separator character; the pieces
//! between the cuts are its segments. A name without the separator is one
//! segment: itself.

use vstd::prelude::*;
use vstd::string::*;
use crate::text::views;

verus! {

/// The segments of `s` when cut at every `sep`, in order.
/// There is always at least one; a trailing separator gives an empty last segment.
pub open spec fn segments(s: Seq<char>, sep: char) -> Seq<Seq<char>>
    decreases s.len(),
{
    if s.len() == 0 {
        seq![Seq::<char>::empty()]
    } else {
        let init = segments(s.drop_last(), sep);
        if s.last() == sep {
            init.push(Seq::<char>::empty())
        } else {
            init.drop_last().push(init.last().push(s.last()))
        }
    }
}

/// The segment after the last `sep` of `s` (all of `s` when it holds none).
pub open spec fn last_segment(s: Seq<char>, sep: char) -> Seq<char> {
    segments(s, sep).last()
}

/// There is always a segment.
pub proof fn lemma_segments_nonempty(s: Seq<char>, sep: char)
    ensures
        segments(s, sep).len() >= 1,
    decreases s.len(),
{
    if s.len() > 0 {
        lemma_segments_nonempty(s.drop_last(), sep);
    }
}

/// No segment holds the separator.
pub proof fn lemma_segments_hold_no_separator(s: Seq<char>, sep: char)
    ensures
        forall|i: int| 0 <= i < segments(s, sep).len() ==> !(#[trigger] segments(s, sep)[i]).contains(sep),
    decreases s.len(),
{
    let segs = segments(s, sep);
    if s.len() == 0 {
        assert forall|i: int| 0 <= i < segs.len() implies !(#[trigger] segs[i]).contains(sep) by {
            assert(segs[i] =~= Seq::<char>::empty());
        }
    } else {
        let init = segments(s.drop_last(), sep);
        lemma_segments_hold_no_separator(s.drop_last(), sep);
        lemma_segments_nonempty(s.drop_last(), sep);
        assert forall|i: int| 0 <= i < segs.len() implies !(#[trigger] segs[i]).contains(sep) by {
            if i < segs.len() - 1 {
                assert(segs[i] == init[i]);
            } else if s.last() == sep {
                assert(segs[i] =~= Seq::<char>::empty());
            } else {
                let piece = init.last().push(s.last());
                assert(segs[i] == piece);
                assert(!init[init.len() - 1].contains(sep));
                if piece.contains(sep) {
                    let k = choose|k: int| 0 <= k < piece.len() && piece[k] == sep;
                    if k < init.last().len() {
                        assert(init.last()[k] == sep);
                        assert(init.last().contains(sep));
                    }
                }
            }
        }
    }
}

/// A name that holds no separator is its own single segment.
pub proof fn lemma_segments_without_separator(s: Seq<char>, sep: char)
    requires
        !s.contains(sep),
    ensures
        segments(s, sep) == seq![s],
    decreases s.len(),
{
    if s.len() == 0 {
        assert(s =~= Seq::<char>::empty());
    } else {
        let front = s.drop_last();
        assert(!front.contains(sep)) by {
            if front.contains(sep) {
                let k = choose|k: int| 0 <= k < front.len() && front[k] == sep;
                assert(s[k] == sep);
            }
        }
        lemma_segments_without_separator(front, sep);
        assert(s.last() != sep) by {
            assert(s[s.len() - 1] == s.last());
        }
        assert(front.push(s.last()) =~= s);
        assert(segments(s, sep) =~= seq![s]);
    }
}

/// The last segment is the part of the name behind its last separator.
pub proof fn lemma_last_segment_is_suffix(s: Seq<char>, sep: char)
    ensures
        last_segment(s, sep).len() <= s.len(),
        last_segment(s, sep) == s.subrange(s.len() - last_segment(s, sep).len(), s.len() as int),
        !last_segment(s, sep).contains(sep),
        last_segment(s, sep).len() < s.len() ==> s[s.len() - last_segment(s, sep).len() - 1] == sep,
        !s.contains(sep) ==> last_segment(s, sep) == s,
    decreases s.len(),
{
    lemma_segments_nonempty(s, sep);
    lemma_segments_hold_no_separator(s, sep);
    if !s.contains(sep) {
        lemma_segments_without_separator(s, sep);
    }
    if s.len() == 0 {
        assert(last_segment(s, sep) =~= s.subrange(0, 0));
    } else {
        let front = s.drop_last();
        lemma_segments_nonempty(front, sep);
        lemma_last_segment_is_suffix(front, sep);
        if s.last() == sep {
            assert(last_segment(s, sep) =~= s.subrange(s.len() as int, s.len() as int));
        } else {
            let tail = last_segment(front, sep);
            assert(last_segment(s, sep) == tail.push(s.last()));
            assert(tail.push(s.last()) =~= s.subrange(s.len() - tail.len() - 1, s.len() as int));
        }
    }
}

/// Cuts `s` at every `sep`.
pub fn split_segments(s: &str, sep: char) -> (parts: Vec<String>)
    ensures
        views(parts@) == segments(s@, sep),
        parts@.len() >= 1,
{
    let n = s.unicode_len();
    let mut parts: Vec<String> = Vec::new();
    let mut start: usize = 0;
    let mut i: usize = 0;
    proof {
        assert(s@.take(0) =~= Seq::<char>::empty());
        assert(s@.subrange(0, 0) =~= Seq::<char>::empty());
        assert(views(parts@).push(s@.subrange(0, 0)) =~= segments(s@.take(0), sep));
    }
    while i < n
        invariant
            n == s@.len(),
            start <= i <= n,
            segments(s@.take(i as int), sep) == views(parts@).push(
                s@.subrange(start as int, i as int),
            ),
        decreases n - i,
    {
        let c = s.get_char(i);
        proof {
            let before = s@.take(i as int);
            let now = s@.take(i + 1);
            assert(now.drop_last() =~= before);
            assert(now.last() == c);
            let init = segments(before, sep);
            assert(init.drop_last() =~= views(parts@));
            assert(init.last() == s@.subrange(start as int, i as int));
        }
        if c == sep {
            let piece = s.substring_char(start, i);
            let ghost old_parts = parts@;
            let ghost old_start = start;
            parts.push(String::from_str(piece));
            start = i + 1;
            proof {
                assert(views(parts@) =~= views(old_parts).push(
                    s@.subrange(old_start as int, i as int),
                ));
                assert(s@.subrange(i + 1, i + 1) =~= Seq::<char>::empty());
            }
        } else {
            proof {
                assert(s@.subrange(start as int, i as int).push(c) =~= s@.subrange(
                    start as int,
                    i + 1,
                ));
            }
        }
        i = i + 1;
    }
    let piece = s.substring_char(start, n);
    let ghost old_parts = parts@;
    parts.push(String::from_str(piece));
    proof {
        assert(s@.take(n as int) =~= s@);
        assert(views(parts@) =~= views(old_parts).push(s@.subrange(start as int, n as int)));
    }
    parts
}

/// The part of `s` behind its last `sep`; all of `s` when it holds none.
pub fn last_segment_of(s: &str, sep: char) -> (r: String)
    ensures
        r@ == last_segment(s@, sep),
        !s@.contains(sep) ==> r@ == s@,
{
    let parts = split_segments(s, sep);
    proof {
        lemma_last_segment_is_suffix(s@, sep);
        assert(views(parts@).last() == parts@[parts@.len() - 1]@);
    }
    parts[parts.len() - 1].clone()
}

} // verus!
