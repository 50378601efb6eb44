//! First-occurrence deduplication, the rule by which the summary's two
//! set-valued collections are built: walk a sequence left to right and keep
//! each value the first time it appears.

use vstd::prelude::*;

verus! {

/// `d` extended by `x` unless `x` is already present.
pub open spec fn dedup_push<A>(d: Seq<A>, x: A) -> Seq<A> {
    if d.contains(x) {
        d
    } else {
        d.push(x)
    }
}

/// `d` extended by every element of `s` in order, each kept only on its first
/// appearance.
pub open spec fn dedup_extend<A>(d: Seq<A>, s: Seq<A>) -> Seq<A>
    decreases s.len(),
{
    if s.len() == 0 {
        d
    } else {
        dedup_push(dedup_extend(d, s.drop_last()), s.last())
    }
}

/// The deduplication of `s` from scratch.
pub open spec fn dedup_first<A>(s: Seq<A>) -> Seq<A> {
    dedup_extend(Seq::empty(), s)
}

/// Deduplicating a concatenation is deduplicating one part after the other.
pub proof fn lemma_dedup_extend_concat<A>(d: Seq<A>, s1: Seq<A>, s2: Seq<A>)
    ensures
        dedup_extend(d, s1 + s2) == dedup_extend(dedup_extend(d, s1), s2),
    decreases s2.len(),
{
    if s2.len() == 0 {
        assert(s1 + s2 =~= s1);
    } else {
        lemma_dedup_extend_concat(d, s1, s2.drop_last());
        assert((s1 + s2).drop_last() =~= s1 + s2.drop_last());
        assert((s1 + s2).last() == s2.last());
    }
}

/// Deduplication never introduces a duplicate.
pub proof fn lemma_dedup_extend_no_duplicates<A>(d: Seq<A>, s: Seq<A>)
    requires
        d.no_duplicates(),
    ensures
        dedup_extend(d, s).no_duplicates(),
    decreases s.len(),
{
    if s.len() > 0 {
        lemma_dedup_extend_no_duplicates(d, s.drop_last());
    }
}

/// Deduplication changes no membership: the result holds exactly the values
/// of `d` and of `s`.
pub proof fn lemma_dedup_extend_to_set<A>(d: Seq<A>, s: Seq<A>)
    ensures
        dedup_extend(d, s).to_set() == d.to_set() + s.to_set(),
    decreases s.len(),
{
    if s.len() == 0 {
        assert(forall|x: A| !s.contains(x));
        assert(dedup_extend(d, s).to_set() =~= d.to_set() + s.to_set());
    } else {
        lemma_dedup_extend_to_set(d, s.drop_last());
        assert(s =~= s.drop_last().push(s.last()));
        assert(forall|x: A|
            s.contains(x) <==> s.drop_last().contains(x) || x == s.last()) by {
            assert forall|x: A| s.contains(x) implies s.drop_last().contains(x) || x
                == s.last() by {
                let i = choose|i: int| 0 <= i < s.len() && s[i] == x;
                if i < s.len() - 1 {
                    assert(s.drop_last()[i] == x);
                }
            }
            assert forall|x: A| s.drop_last().contains(x) implies s.contains(x) by {
                let i = choose|i: int| 0 <= i < s.drop_last().len() && s.drop_last()[i] == x;
                assert(s[i] == x);
            }
        }
        let prev = dedup_extend(d, s.drop_last());
        assert(forall|x: A|
            dedup_push(prev, s.last()).contains(x) <==> prev.contains(x) || x == s.last()) by {
            assert(prev.push(s.last())[prev.len() as int] == s.last());
            assert forall|x: A| prev.contains(x) implies prev.push(s.last()).contains(x) by {
                let i = choose|i: int| 0 <= i < prev.len() && prev[i] == x;
                assert(prev.push(s.last())[i] == x);
            }
            assert forall|x: A| prev.push(s.last()).contains(x) implies prev.contains(x) || x
                == s.last() by {
                let i = choose|i: int| 0 <= i < prev.push(s.last()).len() && prev.push(
                    s.last(),
                )[i] == x;
                if i < prev.len() {
                    assert(prev[i] == x);
                }
            }
        }
        assert forall|x: A|
            dedup_extend(d, s).contains(x) <==> d.contains(x) || s.contains(x) by {
            assert(dedup_extend(d, s) == dedup_push(prev, s.last()));
            assert(prev.to_set().contains(x) <==> prev.contains(x));
            assert((d.to_set() + s.drop_last().to_set()).contains(x) <==> d.to_set().contains(x)
                || s.drop_last().to_set().contains(x));
        }
        assert(dedup_extend(d, s).to_set() =~= d.to_set() + s.to_set());
    }
}

} // verus!
