//! Facts about filtered sequences that the grid's proofs rest on.

use vstd::prelude::*;

verus! {

/// Filtering sees a sequence as its front and its last item.
proof fn lemma_filter_step<A>(s: Seq<A>, keep: spec_fn(A) -> bool)
    requires
        s.len() > 0,
    ensures
        s.filter(keep) == if keep(s.last()) {
            s.drop_last().filter(keep).push(s.last())
        } else {
            s.drop_last().filter(keep)
        },
{
    assert(s.drop_last().push(s.last()) =~= s);
    s.drop_last().lemma_filter_push(s.last(), keep);
}

/// Two predicates that agree on every item of a sequence filter it alike.
pub proof fn lemma_filter_agree<A>(s: Seq<A>, keep: spec_fn(A) -> bool, other: spec_fn(A) -> bool)
    requires
        forall|i: int| 0 <= i < s.len() ==> keep(#[trigger] s[i]) == other(s[i]),
    ensures
        s.filter(keep) == s.filter(other),
    decreases s.len(),
{
    if s.len() == 0 {
        reveal(Seq::filter);
    } else {
        lemma_filter_step(s, keep);
        lemma_filter_step(s, other);
        lemma_filter_agree(s.drop_last(), keep, other);
    }
}

/// A predicate that every item meets filters nothing out.
pub proof fn lemma_filter_keeps_all<A>(s: Seq<A>, keep: spec_fn(A) -> bool)
    requires
        forall|i: int| 0 <= i < s.len() ==> keep(#[trigger] s[i]),
    ensures
        s.filter(keep) == s,
    decreases s.len(),
{
    if s.len() == 0 {
        reveal(Seq::filter);
    } else {
        lemma_filter_step(s, keep);
        lemma_filter_keeps_all(s.drop_last(), keep);
        assert(s.drop_last().push(s.last()) =~= s);
    }
}

/// Filtering twice is filtering once by both predicates.
pub proof fn lemma_filter_twice<A>(s: Seq<A>, first: spec_fn(A) -> bool, second: spec_fn(A) -> bool)
    ensures
        s.filter(first).filter(second) == s.filter(|a: A| first(a) && second(a)),
    decreases s.len(),
{
    let both = |a: A| first(a) && second(a);
    if s.len() == 0 {
        reveal(Seq::filter);
    } else {
        lemma_filter_step(s, first);
        lemma_filter_step(s, both);
        lemma_filter_twice(s.drop_last(), first, second);
        if first(s.last()) {
            s.drop_last().filter(first).lemma_filter_push(s.last(), second);
        }
    }
}

/// What a filter keeps was in the sequence, and meets the predicate.
pub proof fn lemma_filter_members<A>(s: Seq<A>, keep: spec_fn(A) -> bool, a: A)
    ensures
        s.filter(keep).contains(a) <==> s.contains(a) && keep(a),
    decreases s.len(),
{
    if s.len() == 0 {
        reveal(Seq::filter);
    } else {
        let front = s.drop_last();
        lemma_filter_step(s, keep);
        lemma_filter_members(front, keep, a);
        assert(front.push(s.last()) =~= s);
        let kept = front.filter(keep);
        if s.contains(a) {
            let i = choose|i: int| 0 <= i < s.len() && s[i] == a;
            if i < front.len() {
                assert(front[i] == a);
            }
        }
        if front.contains(a) {
            let i = choose|i: int| 0 <= i < front.len() && front[i] == a;
            assert(s[i] == a);
        }
        if keep(s.last()) {
            if kept.push(s.last()).contains(a) {
                let i = choose|i: int| 0 <= i < kept.push(s.last()).len() && kept.push(s.last())[i] == a;
                if i < kept.len() {
                    assert(kept[i] == a);
                }
            }
            if kept.contains(a) {
                let i = choose|i: int| 0 <= i < kept.len() && kept[i] == a;
                assert(kept.push(s.last())[i] == a);
            }
            if a == s.last() {
                assert(kept.push(s.last())[kept.len() as int] == a);
                assert(s[s.len() - 1] == a);
            }
        }
    }
}

/// A filter of a sequence without repeats has none.
pub proof fn lemma_filter_no_duplicates<A>(s: Seq<A>, keep: spec_fn(A) -> bool)
    requires
        s.no_duplicates(),
    ensures
        s.filter(keep).no_duplicates(),
    decreases s.len(),
{
    if s.len() == 0 {
        reveal(Seq::filter);
    } else {
        let front = s.drop_last();
        lemma_filter_step(s, keep);
        lemma_filter_no_duplicates(front, keep);
        lemma_filter_members(front, keep, s.last());
        if front.contains(s.last()) {
            let i = choose|i: int| 0 <= i < front.len() && front[i] == s.last();
            assert(s[i] == s[s.len() - 1]);
        }
    }
}

/// In a sequence without repeats, taking one item out is filtering by
/// inequality to it.
pub proof fn lemma_remove_is_filter<A>(s: Seq<A>, at: int)
    requires
        s.no_duplicates(),
        0 <= at < s.len(),
    ensures
        s.remove(at) == s.filter(|a: A| a != s[at]),
    decreases s.len(),
{
    let gone = s[at];
    let keep = |a: A| a != gone;
    let front = s.drop_last();
    lemma_filter_step(s, keep);
    if at == s.len() - 1 {
        lemma_filter_keeps_all(front, keep);
        assert(s.remove(at) =~= front);
    } else {
        lemma_remove_is_filter(front, at);
        assert(front[at] == gone);
        lemma_filter_agree(front, keep, |a: A| a != front[at]);
        assert(s.remove(at) =~= front.remove(at).push(s.last()));
    }
}

/// Two predicates of which each item meets exactly one part a sequence
/// between them.
pub proof fn lemma_filter_split<A>(s: Seq<A>, keep: spec_fn(A) -> bool, drop: spec_fn(A) -> bool)
    requires
        forall|i: int| 0 <= i < s.len() ==> keep(#[trigger] s[i]) != drop(s[i]),
    ensures
        s.filter(keep).len() + s.filter(drop).len() == s.len(),
    decreases s.len(),
{
    if s.len() == 0 {
        reveal(Seq::filter);
    } else {
        lemma_filter_step(s, keep);
        lemma_filter_step(s, drop);
        lemma_filter_split(s.drop_last(), keep, drop);
    }
}

} // verus!
