//! The list of scores: each score once, the highest first.

use vstd::prelude::*;

verus! {

/// Each score is higher than all that follow it.
pub open spec fn descending(s: Seq<u64>) -> bool {
    forall|i: int, j: int| 0 <= i < j < s.len() ==> s[i] > s[j]
}

/// Whether `after` is `before` with the score `v` recorded: unchanged when
/// `before` holds `v`, and with `v` put in at some place otherwise. Of two
/// descending lists this leaves no choice of the place.
pub open spec fn records(before: Seq<u64>, v: u64, after: Seq<u64>) -> bool {
    if before.contains(v) {
        after == before
    } else {
        exists|k: int| 0 <= k <= before.len() && after == #[trigger] before.insert(k, v)
    }
}

/// Records the score `v`, keeping the list descending and free of repeats.
pub fn record_score(scores: &mut Vec<u64>, v: u64)
    requires
        descending(old(scores)@),
    ensures
        descending(final(scores)@),
        records(old(scores)@, v, final(scores)@),
{
    let mut i: usize = 0;
    while i < scores.len() && scores[i] > v
        invariant
            *scores == *old(scores),
            i <= scores.len(),
            forall|j: int| 0 <= j < i ==> scores@[j] > v,
        decreases scores.len() - i,
    {
        i += 1;
    }
    if i < scores.len() && scores[i] == v {
        assert(scores@.contains(v));
    } else {
        assert(!scores@.contains(v)) by {
            assert forall|j: int| 0 <= j < scores@.len() implies scores@[j] != v by {
                if j >= i {
                    assert(i < scores@.len());
                    assert(scores@[i as int] < v);
                }
            }
        }
        scores.insert(i, v);
        assert(scores@ == old(scores)@.insert(i as int, v));
    }
}

/// Recording a score adds it to what the list holds and changes nothing else.
pub proof fn lemma_records_holds(before: Seq<u64>, v: u64, after: Seq<u64>)
    requires
        records(before, v, after),
    ensures
        forall|x: u64| after.contains(x) <==> (before.contains(x) || x == v),
{
    if !before.contains(v) {
        let k = choose|k: int| 0 <= k <= before.len() && after == #[trigger] before.insert(k, v);
        assert forall|x: u64| after.contains(x) <==> (before.contains(x) || x == v) by {
            if after.contains(x) {
                let j = choose|j: int| 0 <= j < after.len() && after[j] == x;
                if j < k {
                    assert(before[j] == x);
                } else if j > k {
                    assert(before[j - 1] == x);
                }
            }
            if before.contains(x) {
                let j = choose|j: int| 0 <= j < before.len() && before[j] == x;
                if j < k {
                    assert(after[j] == x);
                } else {
                    assert(after[j + 1] == x);
                }
            }
            if x == v {
                assert(after[k] == x);
            }
        }
    }
}

} // verus!
