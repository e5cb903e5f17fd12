use vstd::prelude::*;

use crate::plan::{ChunkStatus, span, span_sum};
use crate::record::{complete_count, downloaded_sum, is_pending};

verus! {

/// Replacing one chunk changes the downloaded sum by the difference of their counters.
pub proof fn lemma_downloaded_sum_update(v: Seq<ChunkStatus>, i: int, c: ChunkStatus)
    requires
        0 <= i < v.len(),
    ensures
        downloaded_sum(v.update(i, c)) == downloaded_sum(v) - v[i].downloaded + c.downloaded,
    decreases v.len(),
{
    let w = v.update(i, c);
    if i == v.len() - 1 {
        assert(w.drop_last() =~= v.drop_last());
    } else {
        lemma_downloaded_sum_update(v.drop_last(), i, c);
        assert(w.drop_last() =~= v.drop_last().update(i, c));
    }
}

/// Replacing one chunk changes the complete count by the difference of their flags.
pub proof fn lemma_complete_count_update(v: Seq<ChunkStatus>, i: int, c: ChunkStatus)
    requires
        0 <= i < v.len(),
    ensures
        complete_count(v.update(i, c)) == complete_count(v) - (if v[i].complete {
            1int
        } else {
            0int
        }) + (if c.complete {
            1int
        } else {
            0int
        }),
    decreases v.len(),
{
    let w = v.update(i, c);
    if i == v.len() - 1 {
        assert(w.drop_last() =~= v.drop_last());
    } else {
        lemma_complete_count_update(v.drop_last(), i, c);
        assert(w.drop_last() =~= v.drop_last().update(i, c));
    }
}

/// The complete count lies between zero and the length, and reaches the length
/// only when every chunk is complete.
pub proof fn lemma_complete_count_bounds(v: Seq<ChunkStatus>)
    ensures
        0 <= complete_count(v) <= v.len(),
        complete_count(v) == v.len() ==> forall|i: int| 0 <= i < v.len() ==> (#[trigger] v[i]).complete,
    decreases v.len(),
{
    if v.len() > 0 {
        lemma_complete_count_bounds(v.drop_last());
        if complete_count(v) == v.len() {
            assert forall|i: int| 0 <= i < v.len() implies (#[trigger] v[i]).complete by {
                if i < v.len() - 1 {
                    assert(v.drop_last()[i] == v[i]);
                }
            }
        }
    }
}

/// When every chunk is complete with all its bytes, the downloaded sum is the span sum.
pub proof fn lemma_full_sum(v: Seq<ChunkStatus>)
    requires
        forall|i: int| 0 <= i < v.len() ==> (#[trigger] v[i]).downloaded == span(v[i]),
    ensures
        downloaded_sum(v) == span_sum(v),
    decreases v.len(),
{
    if v.len() > 0 {
        let u = v.drop_last();
        assert forall|i: int| 0 <= i < u.len() implies (#[trigger] u[i]).downloaded == span(u[i]) by {
            assert(u[i] == v[i]);
        }
        lemma_full_sum(u);
    }
}

/// The pending chunks and the complete ones together are all the chunks.
pub proof fn lemma_pending_plus_complete(v: Seq<ChunkStatus>)
    ensures
        v.filter(|c: ChunkStatus| is_pending(c)).len() + complete_count(v) == v.len(),
    decreases v.len(),
{
    reveal(Seq::filter);
    if v.len() > 0 {
        lemma_pending_plus_complete(v.drop_last());
    }
}

} // verus!
