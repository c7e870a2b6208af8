//! What holds of every timeline.
//!
//! The identifiers tell the elements of a group apart exactly as their keys
//! do; the transitions come in the order of their times; and the
//! transitions lead from the initial frame to the final frame, and back.
use crate::graphic::{
    assign_uids,
    engine_run,
    engine_step,
    insert_by_time,
    lemma_insert_at,
    lemma_ordinal_key,
    opened,
    sort_by_time,
    timeline,
    PatchView,
    TransitionView,
};
use vstd::prelude::*;

verus! {

// ---------------------------------------------------------------------
// Identifiers
// ---------------------------------------------------------------------
/// Within a group, two patches get the same identifier exactly when they
/// have the same shape and name, and no identifier is left unset.
pub proof fn law_uid_stability(patches: Seq<PatchView>, i: int, j: int)
    requires
        patches.len() <= u32::MAX,
        0 <= i < patches.len(),
        0 <= j < patches.len(),
    ensures
        assign_uids(patches)[i].elem.unique_id == assign_uids(patches)[j].elem.unique_id
            <==> patches[i].elem.key() == patches[j].elem.key(),
        assign_uids(patches)[i].elem.unique_id.value != 0,
        assign_uids(patches)[i].elem.key() == patches[i].elem.key(),
{
    lemma_ordinal_key(patches, i, j);
    lemma_ordinal_key(patches, j, i);
}

// ---------------------------------------------------------------------
// Order
// ---------------------------------------------------------------------
/// No patch is earlier than one before it.
pub open spec fn time_sorted(s: Seq<PatchView>) -> bool {
    forall|i: int, j: int| 0 <= i < j < s.len() ==> s[i].time.rank() <= s[j].time.rank()
}

/// The place at which a patch is put into an ordered sequence.
pub open spec fn insert_index(sorted: Seq<PatchView>, p: PatchView) -> int
    decreases sorted.len(),
{
    if sorted.len() == 0 {
        0
    } else if sorted.last().time.rank() <= p.time.rank() {
        sorted.len() as int
    } else {
        insert_index(sorted.drop_last(), p)
    }
}

/// `insert_index` is the place at which `insert_by_time` puts the patch.
pub proof fn lemma_insert_index(sorted: Seq<PatchView>, p: PatchView)
    ensures
        0 <= insert_index(sorted, p) <= sorted.len(),
        forall|j: int|
            insert_index(sorted, p) <= j < sorted.len() ==> (#[trigger] sorted[j]).time.rank()
                > p.time.rank(),
        insert_index(sorted, p) > 0 ==> sorted[insert_index(sorted, p) - 1].time.rank()
            <= p.time.rank(),
        insert_by_time(sorted, p) == sorted.insert(insert_index(sorted, p), p),
    decreases sorted.len(),
{
    if sorted.len() > 0 && sorted.last().time.rank() > p.time.rank() {
        let rest = sorted.drop_last();
        lemma_insert_index(rest, p);
        let k = insert_index(rest, p);
        assert forall|j: int| k <= j < sorted.len() implies (#[trigger] sorted[j]).time.rank()
            > p.time.rank() by {
            if j < rest.len() {
                assert(rest[j] == sorted[j]);
            }
        }
        if k > 0 {
            assert(rest[k - 1] == sorted[k - 1]);
        }
    }
    lemma_insert_at(sorted, p, insert_index(sorted, p));
}

/// Ordering by time gives a sequence that is ordered by time and holds the
/// same patches.
pub proof fn lemma_sort_by_time(patches: Seq<PatchView>)
    ensures
        time_sorted(sort_by_time(patches)),
        sort_by_time(patches).len() == patches.len(),
        forall|a: PatchView| #[trigger] sort_by_time(patches).contains(a) <==> patches.contains(a),
    decreases patches.len(),
{
    if patches.len() > 0 {
        let rest = patches.drop_last();
        let p = patches.last();
        lemma_sort_by_time(rest);
        let sorted = sort_by_time(rest);
        lemma_insert_index(sorted, p);
        let k = insert_index(sorted, p);
        let out = sorted.insert(k, p);
        assert(sort_by_time(patches) == out);
        assert forall|i: int, j: int| 0 <= i < j < out.len() implies out[i].time.rank()
            <= out[j].time.rank() by {
            if i < k && j > k {
                assert(out[i] == sorted[i]);
                assert(out[j] == sorted[j - 1]);
                assert(sorted[j - 1].time.rank() > p.time.rank());
                if i < k - 1 {
                    assert(sorted[i].time.rank() <= sorted[k - 1].time.rank());
                }
            } else if i < k && j == k {
                if i < k - 1 {
                    assert(sorted[i].time.rank() <= sorted[k - 1].time.rank());
                }
            } else if i < k && j < k {
                assert(sorted[i].time.rank() <= sorted[j].time.rank());
            } else if i == k {
                assert(out[j] == sorted[j - 1]);
                assert(sorted[j - 1].time.rank() > p.time.rank());
            } else {
                assert(out[i] == sorted[i - 1]);
                assert(out[j] == sorted[j - 1]);
                assert(sorted[i - 1].time.rank() <= sorted[j - 1].time.rank());
            }
        }
        assert forall|a: PatchView| #[trigger] out.contains(a) <==> patches.contains(a) by {
            if out.contains(a) {
                let i = choose|i: int| 0 <= i < out.len() && out[i] == a;
                if i == k {
                    assert(patches[patches.len() - 1] == a);
                } else {
                    let m = if i < k {
                        i
                    } else {
                        i - 1
                    };
                    assert(sorted[m] == a);
                    assert(sorted.contains(a));
                    assert(rest.contains(a));
                    let n = choose|n: int| 0 <= n < rest.len() && rest[n] == a;
                    assert(patches[n] == a);
                }
            }
            if patches.contains(a) {
                let n = choose|n: int| 0 <= n < patches.len() && patches[n] == a;
                if n == patches.len() - 1 {
                    assert(out[k] == a);
                } else {
                    assert(rest[n] == a);
                    assert(rest.contains(a));
                    assert(sorted.contains(a));
                    let i = choose|i: int| 0 <= i < sorted.len() && sorted[i] == a;
                    if i < k {
                        assert(out[i] == a);
                    } else {
                        assert(out[i + 1] == a);
                    }
                }
            }
        }
    }
}

/// The times of the transitions never step back.
pub open spec fn transitions_ordered(ts: Seq<TransitionView>) -> bool {
    forall|i: int, j: int| 0 <= i < j < ts.len() ==> ts[i].time.rank() <= ts[j].time.rank()
}

proof fn lemma_run_ordered(s: Seq<PatchView>)
    requires
        time_sorted(s),
    ensures
        transitions_ordered(engine_run(s).transitions),
        (s.len() == 0) == (engine_run(s).transitions.len() == 0),
        s.len() > 0 ==> engine_run(s).transitions.last().time == engine_run(s).time
            && engine_run(s).time.rank() <= s.last().time.rank(),
    decreases s.len(),
{
    if s.len() > 0 {
        let rest = s.drop_last();
        let p = s.last();
        assert forall|i: int, j: int| 0 <= i < j < rest.len() implies rest[i].time.rank()
            <= rest[j].time.rank() by {
            assert(rest[i] == s[i] && rest[j] == s[j]);
        }
        lemma_run_ordered(rest);
        let st = engine_run(rest);
        if rest.len() > 0 {
            assert(rest.last() == s[s.len() - 2]);
            assert(st.time.rank() <= p.time.rank());
        }
        let ts = opened(st, p);
        assert(transitions_ordered(ts));
        let out = engine_step(st, p).transitions;
        assert(out.len() == ts.len());
        assert forall|i: int| 0 <= i < out.len() implies (#[trigger] out[i]).time == ts[i].time by {}
        assert forall|i: int, j: int| 0 <= i < j < out.len() implies out[i].time.rank()
            <= out[j].time.rank() by {
            assert(out[i].time == ts[i].time);
            assert(out[j].time == ts[j].time);
        }
    }
}

/// The transitions of a timeline come in the order of their times: none is
/// earlier than the one before it.
pub proof fn law_transitions_ordered(patches: Seq<PatchView>, i: int)
    requires
        0 <= i,
        i + 1 < timeline(patches).transitions.len(),
    ensures
        timeline(patches).transitions[i].time.rank() <= timeline(patches).transitions[i + 1].time.rank(),
        !timeline(patches).transitions[i + 1].time.precedes(timeline(patches).transitions[i].time),
{
    let sorted = sort_by_time(assign_uids(patches));
    lemma_sort_by_time(assign_uids(patches));
    lemma_run_ordered(sorted);
}

} // verus!
