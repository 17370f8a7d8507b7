//! What a filtered sequence holds.
use vstd::prelude::*;

verus! {

/// A filter keeps exactly the elements that it is for.
pub proof fn lemma_filter_members<A>(s: Seq<A>, f: spec_fn(A) -> bool, x: A)
    ensures
        s.filter(f).contains(x) <==> s.contains(x) && f(x),
    decreases s.len(),
{
    reveal(Seq::filter);
    if s.len() == 0 {
        assert(!s.filter(f).contains(x));
    } else {
        let front = s.drop_last();
        lemma_filter_members(front, f, x);
        let kept = front.filter(f);
        assert(s.contains(x) <==> front.contains(x) || s.last() == x) by {
            if front.contains(x) {
                let i = choose|i: int| 0 <= i < front.len() && front[i] == x;
                assert(s[i] == x);
            }
            if s.contains(x) {
                let i = choose|i: int| 0 <= i < s.len() && s[i] == x;
                if i < front.len() {
                    assert(front[i] == x);
                }
            }
            if s.last() == x {
                assert(s[s.len() - 1] == x);
            }
        }
        if f(s.last()) {
            let all = kept.push(s.last());
            assert(all[kept.len() as int] == s.last());
            if kept.contains(x) {
                let i = choose|i: int| 0 <= i < kept.len() && kept[i] == x;
                assert(all[i] == x);
            }
            if all.contains(x) {
                let i = choose|i: int| 0 <= i < all.len() && all[i] == x;
                if i < kept.len() {
                    assert(kept[i] == x);
                }
            }
        }
    }
}

/// The first element that a filter keeps is the first that it is for.
pub proof fn lemma_filter_first<A>(s: Seq<A>, f: spec_fn(A) -> bool, k: int)
    requires
        0 <= k < s.len(),
        f(s[k]),
        forall|m: int| 0 <= m < k ==> !f(#[trigger] s[m]),
    ensures
        s.filter(f).len() > 0,
        s.filter(f)[0] == s[k],
    decreases s.len(),
{
    reveal(Seq::filter);
    let front = s.drop_last();
    if k < s.len() - 1 {
        assert forall|m: int| 0 <= m < k implies !f(#[trigger] front[m]) by {
            assert(front[m] == s[m]);
        }
        lemma_filter_first(front, f, k);
    } else {
        lemma_filter_none(front, f);
    }
}

/// A filter that is for none of the elements keeps none.
pub proof fn lemma_filter_none<A>(s: Seq<A>, f: spec_fn(A) -> bool)
    requires
        forall|m: int| 0 <= m < s.len() ==> !f(#[trigger] s[m]),
    ensures
        s.filter(f).len() == 0,
    decreases s.len(),
{
    reveal(Seq::filter);
    if s.len() > 0 {
        let front = s.drop_last();
        assert forall|m: int| 0 <= m < front.len() implies !f(#[trigger] front[m]) by {
            assert(front[m] == s[m]);
        }
        lemma_filter_none(front, f);
    }
}

/// Two filters of which exactly one is for each element keep all of them between them.
pub proof fn lemma_filter_split<A>(s: Seq<A>, f: spec_fn(A) -> bool, g: spec_fn(A) -> bool)
    requires
        forall|x: A| #[trigger] f(x) != g(x),
    ensures
        s.filter(f).len() + s.filter(g).len() == s.len(),
    decreases s.len(),
{
    reveal(Seq::filter);
    if s.len() > 0 {
        lemma_filter_split(s.drop_last(), f, g);
        assert(f(s.last()) != g(s.last()));
    }
}

} // verus!
