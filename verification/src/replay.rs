//! Playing a timeline: the transitions lead from the initial frame to the
//! final frame, and back.
use crate::graphic::{
    fold_timeline,
    assign_uids,
    engine_run,
    engine_step,
    frame_with,
    lemma_ordinal_key,
    lemma_position,
    next_diff,
    opened,
    opens,
    position,
    prev_diff,
    sort_by_time,
    timeline,
    DiffView,
    Engine,
    PatchView,
    TransitionView,
};
use crate::graphic_elems::view::{
    lemma_patched_by_diff,
    lemma_unchanged_diff_is_blank,
    ElemKind,
    ElemView,
};
use crate::graphic_laws::lemma_sort_by_time;
use crate::unique_id_generator::UID;
use vstd::prelude::*;

verus! {

/// The place of the element with the given identifier in a frame.
pub open spec fn place_of(frame: Seq<ElemView>, uid: UID) -> Option<int>
    decreases frame.len(),
{
    if frame.len() == 0 {
        None
    } else if frame[0].unique_id == uid {
        Some(0)
    } else {
        match place_of(frame.drop_first(), uid) {
            Some(i) => Some(i + 1),
            None => None,
        }
    }
}

/// The frame after one step: a created element comes last, an update
/// changes the fields that it carries, a deletion takes the element out. A
/// step that names no element of the frame changes nothing.
pub open spec fn apply_diff(frame: Seq<ElemView>, d: DiffView) -> Seq<ElemView> {
    match d {
        DiffView::Create(e) => frame.push(e),
        DiffView::Update(e) => match place_of(frame, e.unique_id) {
            Some(i) => frame.update(i, frame[i].patched(e)),
            None => frame,
        },
        DiffView::Delete(uid) => match place_of(frame, uid) {
            Some(i) => frame.remove(i),
            None => frame,
        },
    }
}

/// The frame after the steps, taken from the first to the last.
pub open spec fn apply_forward(frame: Seq<ElemView>, diffs: Seq<DiffView>) -> Seq<ElemView>
    decreases diffs.len(),
{
    if diffs.len() == 0 {
        frame
    } else {
        apply_diff(apply_forward(frame, diffs.drop_last()), diffs.last())
    }
}

/// The frame after the steps, taken from the last to the first.
pub open spec fn apply_backward(frame: Seq<ElemView>, diffs: Seq<DiffView>) -> Seq<ElemView>
    decreases diffs.len(),
{
    if diffs.len() == 0 {
        frame
    } else {
        apply_backward(apply_diff(frame, diffs.last()), diffs.drop_last())
    }
}

/// The frame after the lists of steps, each list and each step in order.
pub open spec fn replay_forward(frame: Seq<ElemView>, lists: Seq<Seq<DiffView>>) -> Seq<ElemView>
    decreases lists.len(),
{
    if lists.len() == 0 {
        frame
    } else {
        apply_forward(replay_forward(frame, lists.drop_last()), lists.last())
    }
}

/// The frame after the lists of steps, from the last list to the first and
/// within each list from the last step to the first.
pub open spec fn replay_backward(frame: Seq<ElemView>, lists: Seq<Seq<DiffView>>) -> Seq<ElemView>
    decreases lists.len(),
{
    if lists.len() == 0 {
        frame
    } else {
        replay_backward(apply_backward(frame, lists.last()), lists.drop_last())
    }
}

/// The `next` lists of the transitions.
pub open spec fn nexts(ts: Seq<TransitionView>) -> Seq<Seq<DiffView>> {
    Seq::new(ts.len(), |i: int| ts[i].next)
}

/// The `prev` lists of the transitions.
pub open spec fn prevs(ts: Seq<TransitionView>) -> Seq<Seq<DiffView>> {
    Seq::new(ts.len(), |i: int| ts[i].prev)
}

/// Two frames hold, place by place, elements that describe the same thing.
pub open spec fn same_frames(a: Seq<ElemView>, b: Seq<ElemView>) -> bool {
    &&& a.len() == b.len()
    &&& forall|i: int| 0 <= i < a.len() ==> (#[trigger] a[i]).same(b[i])
}

/// The groups of two elements can be told from a difference: they are the
/// same, or neither is the empty text, which in a difference stands for
/// "unchanged".
pub open spec fn groups_agree(a: ElemView, b: ElemView) -> bool {
    a.group_id == b.group_id || (a.group_id.len() > 0 && b.group_id.len() > 0)
}

/// The patches that a timeline is made for: every element is a full
/// description, the groups of any two agree, and two elements have the
/// same identifier exactly when they have the same key.
pub open spec fn coherent(s: Seq<PatchView>) -> bool {
    forall|m: int, n: int|
        0 <= m < s.len() && 0 <= n < s.len() ==> {
            &&& (#[trigger] s[m]).elem.is_snapshot()
            &&& groups_agree(s[m].elem, (#[trigger] s[n]).elem)
            &&& (s[m].elem.unique_id == s[n].elem.unique_id <==> s[m].elem.key() == s[n].elem.key())
        }
}

/// The patches as they are recorded: every element is a full description,
/// and the groups of any two agree.
pub open spec fn recorded(patches: Seq<PatchView>) -> bool {
    forall|m: int, n: int|
        0 <= m < patches.len() && 0 <= n < patches.len() ==> (#[trigger] patches[m]).elem.is_snapshot()
            && groups_agree(patches[m].elem, (#[trigger] patches[n]).elem)
}

proof fn lemma_place_of(frame: Seq<ElemView>, uid: UID)
    ensures
        match place_of(frame, uid) {
            Some(i) => 0 <= i < frame.len() && frame[i].unique_id == uid && forall|j: int|
                0 <= j < i ==> (#[trigger] frame[j]).unique_id != uid,
            None => forall|j: int| 0 <= j < frame.len() ==> (#[trigger] frame[j]).unique_id != uid,
        },
    decreases frame.len(),
{
    if frame.len() > 0 && frame[0].unique_id != uid {
        let rest = frame.drop_first();
        lemma_place_of(rest, uid);
        match place_of(rest, uid) {
            Some(i) => {
                assert forall|j: int| 0 <= j < i + 1 implies (#[trigger] frame[j]).unique_id
                    != uid by {
                    if j > 0 {
                        assert(rest[j - 1].unique_id != uid);
                    }
                }
            },
            None => {
                assert forall|j: int| 0 <= j < frame.len() implies (#[trigger] frame[j]).unique_id
                    != uid by {
                    if j > 0 {
                        assert(rest[j - 1].unique_id != uid);
                    }
                }
            },
        }
    }
}

/// The place that holds an identifier which no other place holds.
proof fn lemma_place_is(frame: Seq<ElemView>, uid: UID, i: int)
    requires
        0 <= i < frame.len(),
        frame[i].unique_id == uid,
        forall|j: int| 0 <= j < i ==> (#[trigger] frame[j]).unique_id != uid,
    ensures
        place_of(frame, uid) == Some(i),
{
    lemma_place_of(frame, uid);
    match place_of(frame, uid) {
        Some(k) => {
            if k < i {
                assert(frame[k].unique_id != uid);
            }
        },
        None => {
            assert(frame[i].unique_id != uid);
        },
    }
}

proof fn lemma_place_none(frame: Seq<ElemView>, uid: UID)
    requires
        forall|j: int| 0 <= j < frame.len() ==> (#[trigger] frame[j]).unique_id != uid,
    ensures
        place_of(frame, uid) is None,
{
    lemma_place_of(frame, uid);
    match place_of(frame, uid) {
        Some(k) => {
            assert(frame[k].unique_id != uid);
        },
        None => {},
    }
}

/// Frames that hold the same things hold an identifier at the same place.
proof fn lemma_place_same(a: Seq<ElemView>, b: Seq<ElemView>, uid: UID)
    requires
        same_frames(a, b),
    ensures
        place_of(a, uid) == place_of(b, uid),
{
    lemma_place_of(a, uid);
    match place_of(a, uid) {
        Some(i) => {
            assert(a[i].same(b[i]));
            assert forall|j: int| 0 <= j < i implies (#[trigger] b[j]).unique_id != uid by {
                assert(a[j].same(b[j]));
            }
            lemma_place_is(b, uid, i);
        },
        None => {
            assert forall|j: int| 0 <= j < b.len() implies (#[trigger] b[j]).unique_id != uid by {
                assert(a[j].same(b[j]));
            }
            lemma_place_none(b, uid);
        },
    }
}

/// `same` is symmetric and transitive.
proof fn lemma_same_elems(a: ElemView, b: ElemView, c: ElemView)
    ensures
        a.same(a),
        a.same(b) ==> b.same(a),
        a.same(b) && b.same(c) ==> a.same(c),
{
    if a.same(b) {
        if a.points is Some {
            let p = a.points->0;
            let q = b.points->0;
            assert forall|i: int| 0 <= i < q.len() implies (#[trigger] q[i]).x.canonical()
                == p[i].x.canonical() && q[i].y.canonical() == p[i].y.canonical() by {
                assert(p[i].x.canonical() == q[i].x.canonical());
            }
        }
        if b.same(c) && a.points is Some {
            let p = a.points->0;
            let q = b.points->0;
            let r = c.points->0;
            assert forall|i: int| 0 <= i < p.len() implies (#[trigger] p[i]).x.canonical()
                == r[i].x.canonical() && p[i].y.canonical() == r[i].y.canonical() by {
                assert(p[i].x.canonical() == q[i].x.canonical());
                assert(q[i].x.canonical() == r[i].x.canonical());
            }
        }
    }
    if a.points is Some {
        let p = a.points->0;
        assert forall|i: int| 0 <= i < p.len() implies (#[trigger] p[i]).x.canonical()
            == p[i].x.canonical() && p[i].y.canonical() == p[i].y.canonical() by {}
    }
}

proof fn lemma_same_frames(a: Seq<ElemView>, b: Seq<ElemView>, c: Seq<ElemView>)
    ensures
        same_frames(a, a),
        same_frames(a, b) ==> same_frames(b, a),
        same_frames(a, b) && same_frames(b, c) ==> same_frames(a, c),
{
    assert forall|i: int| 0 <= i < a.len() implies (#[trigger] a[i]).same(a[i]) by {
        lemma_same_elems(a[i], a[i], a[i]);
    }
    if same_frames(a, b) {
        assert forall|i: int| 0 <= i < b.len() implies (#[trigger] b[i]).same(a[i]) by {
            assert(a[i].same(b[i]));
            lemma_same_elems(a[i], b[i], b[i]);
        }
        if same_frames(b, c) {
            assert forall|i: int| 0 <= i < a.len() implies (#[trigger] a[i]).same(c[i]) by {
                assert(a[i].same(b[i]));
                assert(b[i].same(c[i]));
                lemma_same_elems(a[i], b[i], c[i]);
            }
        }
    }
}

/// A difference makes the same of elements that describe the same thing.
proof fn lemma_patched_same(a: ElemView, b: ElemView, d: ElemView)
    requires
        a.same(b),
    ensures
        a.patched(d).same(b.patched(d)),
{
    lemma_same_elems(d, d, d);
    if d.points is Some {
        let p = d.points->0;
        assert forall|i: int| 0 <= i < p.len() implies (#[trigger] p[i]).x.canonical()
            == p[i].x.canonical() && p[i].y.canonical() == p[i].y.canonical() by {}
    }
}

/// A step makes the same of frames that hold the same things.
proof fn lemma_apply_diff_same(a: Seq<ElemView>, b: Seq<ElemView>, d: DiffView)
    requires
        same_frames(a, b),
    ensures
        same_frames(apply_diff(a, d), apply_diff(b, d)),
{
    match d {
        DiffView::Create(e) => {
            lemma_same_elems(e, e, e);
            let x = a.push(e);
            let y = b.push(e);
            assert forall|i: int| 0 <= i < x.len() implies (#[trigger] x[i]).same(y[i]) by {
                if i < a.len() {
                    assert(a[i].same(b[i]));
                }
            }
        },
        DiffView::Update(e) => {
            lemma_place_same(a, b, e.unique_id);
            lemma_place_of(a, e.unique_id);
            match place_of(a, e.unique_id) {
                Some(k) => {
                    assert(a[k].same(b[k]));
                    lemma_patched_same(a[k], b[k], e);
                    let x = a.update(k, a[k].patched(e));
                    let y = b.update(k, b[k].patched(e));
                    assert forall|i: int| 0 <= i < x.len() implies (#[trigger] x[i]).same(y[i]) by {
                        if i != k {
                            assert(a[i].same(b[i]));
                        }
                    }
                },
                None => {},
            }
        },
        DiffView::Delete(uid) => {
            lemma_place_same(a, b, uid);
            lemma_place_of(a, uid);
            match place_of(a, uid) {
                Some(k) => {
                    let x = a.remove(k);
                    let y = b.remove(k);
                    assert forall|i: int| 0 <= i < x.len() implies (#[trigger] x[i]).same(y[i]) by {
                        if i < k {
                            assert(a[i].same(b[i]));
                        } else {
                            assert(a[i + 1].same(b[i + 1]));
                        }
                    }
                },
                None => {},
            }
        },
    }
}

proof fn lemma_apply_backward_same(a: Seq<ElemView>, b: Seq<ElemView>, diffs: Seq<DiffView>)
    requires
        same_frames(a, b),
    ensures
        same_frames(apply_backward(a, diffs), apply_backward(b, diffs)),
    decreases diffs.len(),
{
    if diffs.len() > 0 {
        lemma_apply_diff_same(a, b, diffs.last());
        lemma_apply_backward_same(
            apply_diff(a, diffs.last()),
            apply_diff(b, diffs.last()),
            diffs.drop_last(),
        );
    }
}

proof fn lemma_replay_backward_same(a: Seq<ElemView>, b: Seq<ElemView>, lists: Seq<Seq<DiffView>>)
    requires
        same_frames(a, b),
    ensures
        same_frames(replay_backward(a, lists), replay_backward(b, lists)),
    decreases lists.len(),
{
    if lists.len() > 0 {
        lemma_apply_backward_same(a, b, lists.last());
        lemma_replay_backward_same(
            apply_backward(a, lists.last()),
            apply_backward(b, lists.last()),
            lists.drop_last(),
        );
    }
}

/// A new, empty list of steps changes nothing.
proof fn lemma_replay_push_empty(frame: Seq<ElemView>, lists: Seq<Seq<DiffView>>)
    ensures
        replay_forward(frame, lists.push(Seq::empty())) == replay_forward(frame, lists),
        replay_backward(frame, lists.push(Seq::empty())) == replay_backward(frame, lists),
{
    assert(lists.push(Seq::empty()).drop_last() =~= lists);
}

/// One more step at the end of the list before the last, where the last is
/// empty, is one more step at the end of the play.
proof fn lemma_replay_forward_append(frame: Seq<ElemView>, lists: Seq<Seq<DiffView>>, d: DiffView)
    requires
        lists.len() >= 2,
        lists.last().len() == 0,
    ensures
        replay_forward(frame, lists.update(lists.len() - 2, lists[lists.len() - 2].push(d)))
            == apply_diff(replay_forward(frame, lists), d),
{
    let k = lists.len() as int;
    let changed = lists.update(k - 2, lists[k - 2].push(d));
    let a = changed.drop_last();
    let b = lists.drop_last();
    assert(changed.last() == lists.last());
    assert(a.last() == lists[k - 2].push(d));
    assert(b.last() == lists[k - 2]);
    assert(a.drop_last() =~= b.drop_last());
    assert(lists[k - 2].push(d).drop_last() =~= lists[k - 2]);
    let base = replay_forward(frame, b.drop_last());
    assert(replay_forward(frame, a) == apply_forward(base, lists[k - 2].push(d)));
    assert(apply_forward(base, lists[k - 2].push(d)) == apply_diff(
        apply_forward(base, lists[k - 2]),
        d,
    ));
    assert(replay_forward(frame, b) == apply_forward(base, lists[k - 2]));
    assert(replay_forward(frame, changed) == replay_forward(frame, a));
    assert(replay_forward(frame, lists) == replay_forward(frame, b));
}

/// One more step at the end of the last list is played first on the way
/// back.
proof fn lemma_replay_backward_append(frame: Seq<ElemView>, lists: Seq<Seq<DiffView>>, d: DiffView)
    requires
        lists.len() >= 1,
    ensures
        replay_backward(frame, lists.update(lists.len() - 1, lists.last().push(d)))
            == replay_backward(apply_diff(frame, d), lists),
{
    let k = lists.len() as int;
    let changed = lists.update(k - 1, lists.last().push(d));
    assert(changed.drop_last() =~= lists.drop_last());
    assert(changed.last() == lists.last().push(d));
    assert(lists.last().push(d).drop_last() =~= lists.last());
    assert(apply_backward(frame, lists.last().push(d)) == apply_backward(
        apply_diff(frame, d),
        lists.last(),
    ));
}

/// What the fold needs of a frame and the next element: the frame holds
/// full descriptions with distinct identifiers, whose groups agree with
/// that of the element, and an element of the frame has the identifier of
/// the next element exactly when it has its key.
pub open spec fn frame_agrees(frame: Seq<ElemView>, e: ElemView) -> bool {
    &&& e.is_snapshot()
    &&& forall|i: int|
        0 <= i < frame.len() ==> {
            &&& (#[trigger] frame[i]).is_snapshot()
            &&& groups_agree(frame[i], e)
            &&& (frame[i].unique_id == e.unique_id <==> frame[i].key() == e.key())
        }
    &&& forall|i: int, j: int|
        0 <= i < j < frame.len() ==> (#[trigger] frame[i]).unique_id != (#[trigger] frame[j]).unique_id
}

/// The step forward of a patch, applied to a frame that holds the same as
/// the frame before the patch, gives the same as the frame after it.
proof fn lemma_step_forward(played: Seq<ElemView>, frame: Seq<ElemView>, e: ElemView)
    requires
        same_frames(played, frame),
        frame_agrees(frame, e),
    ensures
        same_frames(apply_diff(played, next_diff(frame, e)), frame_with(frame, e)),
{
    lemma_position(frame, e.key());
    match position(frame, e.key()) {
        Some(i) => {
            assert(frame[i].unique_id == e.unique_id);
            assert forall|j: int| 0 <= j < i implies (#[trigger] frame[j]).unique_id
                != e.unique_id by {}
            lemma_place_is(frame, e.unique_id, i);
            lemma_place_same(played, frame, e.unique_id);
            assert(played[i].same(frame[i]));
            lemma_patched_by_diff(e, frame[i], played[i]);
            let x = played.update(i, played[i].patched(e.diff_against(frame[i])));
            let y = frame.update(i, e);
            assert forall|j: int| 0 <= j < x.len() implies (#[trigger] x[j]).same(y[j]) by {
                if j != i {
                    assert(played[j].same(frame[j]));
                }
            }
        },
        None => {
            lemma_same_elems(e, e, e);
            let x = played.push(e);
            let y = frame.push(e);
            assert forall|j: int| 0 <= j < x.len() implies (#[trigger] x[j]).same(y[j]) by {
                if j < played.len() {
                    assert(played[j].same(frame[j]));
                }
            }
        },
    }
}

/// The step back of a patch, applied to the frame after the patch, gives
/// the same as the frame before it.
proof fn lemma_step_backward(frame: Seq<ElemView>, e: ElemView)
    requires
        frame_agrees(frame, e),
    ensures
        same_frames(apply_diff(frame_with(frame, e), prev_diff(frame, e)), frame),
{
    lemma_position(frame, e.key());
    lemma_same_frames(frame, frame, frame);
    match position(frame, e.key()) {
        Some(i) => {
            let after = frame.update(i, e);
            assert(frame[i].unique_id == e.unique_id);
            assert forall|j: int| 0 <= j < i implies (#[trigger] after[j]).unique_id
                != e.unique_id by {
                assert(after[j] == frame[j]);
            }
            lemma_place_is(after, frame[i].unique_id, i);
            lemma_same_elems(e, e, e);
            lemma_patched_by_diff(frame[i], e, e);
            let x = after.update(i, e.patched(frame[i].diff_against(e)));
            assert forall|j: int| 0 <= j < x.len() implies (#[trigger] x[j]).same(frame[j]) by {
                if j != i {
                    assert(frame[j].same(frame[j]));
                }
            }
        },
        None => {
            let after = frame.push(e);
            assert forall|j: int| 0 <= j < frame.len() implies (#[trigger] after[j]).unique_id
                != e.unique_id by {
                assert(after[j] == frame[j]);
                assert(frame[j].key() != e.key());
            }
            lemma_place_is(after, e.unique_id, frame.len() as int);
            assert(after.remove(frame.len() as int) =~= frame);
        },
    }
}

/// What the fold keeps true of its state.
pub open spec fn engine_ok(st: Engine, s: Seq<PatchView>) -> bool {
    &&& forall|i: int|
        0 <= i < st.frame.len() ==> exists|m: int| 0 <= m < s.len() && s[m].elem == #[trigger] st.frame[i]
    &&& forall|i: int, j: int|
        0 <= i < j < st.frame.len() ==> (#[trigger] st.frame[i]).key() != (#[trigger] st.frame[j]).key()
    &&& (s.len() == 0) == (st.transitions.len() == 0)
    &&& st.transitions.len() > 0 ==> st.transitions.last().next.len() == 0
    &&& st.transitions.len() > 0 ==> st.transitions[0].prev.len() == 0
    &&& same_frames(replay_forward(st.initial.elems, nexts(st.transitions)), st.frame)
    &&& same_frames(replay_backward(st.frame, prevs(st.transitions)), st.initial.elems)
}

proof fn lemma_frame_agrees(st: Engine, rest: Seq<PatchView>, s: Seq<PatchView>)
    requires
        s.len() > 0,
        rest == s.drop_last(),
        coherent(s),
        engine_ok(st, rest),
    ensures
        frame_agrees(st.frame, s.last().elem),
{
    let e = s.last().elem;
    let frame = st.frame;
    assert(s[s.len() - 1].elem.is_snapshot());
    assert forall|i: int| 0 <= i < frame.len() implies {
        &&& (#[trigger] frame[i]).is_snapshot()
        &&& groups_agree(frame[i], e)
        &&& (frame[i].unique_id == e.unique_id <==> frame[i].key() == e.key())
    } by {
        let m = choose|m: int| 0 <= m < rest.len() && rest[m].elem == frame[i];
        assert(rest[m] == s[m]);
        assert(s[m].elem.is_snapshot());
        assert(groups_agree(s[m].elem, s[s.len() - 1].elem));
    }
    assert forall|i: int, j: int| 0 <= i < j < frame.len() implies (#[trigger] frame[i]).unique_id
        != (#[trigger] frame[j]).unique_id by {
        let m = choose|m: int| 0 <= m < rest.len() && rest[m].elem == frame[i];
        let n = choose|n: int| 0 <= n < rest.len() && rest[n].elem == frame[j];
        assert(rest[m] == s[m]);
        assert(rest[n] == s[n]);
        assert(s[m].elem.unique_id == s[n].elem.unique_id <==> s[m].elem.key() == s[n].elem.key());
    }
}

proof fn lemma_engine_ok(s: Seq<PatchView>)
    requires
        coherent(s),
    ensures
        engine_ok(engine_run(s), s),
    decreases s.len(),
{
    if s.len() == 0 {
        let st = engine_run(s);
        assert(nexts(st.transitions) =~= Seq::<Seq<DiffView>>::empty());
        assert(prevs(st.transitions) =~= Seq::<Seq<DiffView>>::empty());
    } else {
        let rest = s.drop_last();
        let p = s.last();
        assert forall|m: int, n: int| 0 <= m < rest.len() && 0 <= n < rest.len() implies {
            &&& (#[trigger] rest[m]).elem.is_snapshot()
            &&& groups_agree(rest[m].elem, (#[trigger] rest[n]).elem)
            &&& (rest[m].elem.unique_id == rest[n].elem.unique_id <==> rest[m].elem.key()
                == rest[n].elem.key())
        } by {
            assert(rest[m] == s[m] && rest[n] == s[n]);
        }
        lemma_engine_ok(rest);
        let st = engine_run(rest);
        let out = engine_step(st, p);
        assert(engine_run(s) == out);
        lemma_frame_agrees(st, rest, s);
        lemma_position(st.frame, p.elem.key());
        // The frame holds elements of the patches, with distinct keys.
        assert forall|i: int| 0 <= i < out.frame.len() implies exists|m: int|
            0 <= m < s.len() && s[m].elem == #[trigger] out.frame[i] by {
            if out.frame[i] == p.elem {
                assert(s[s.len() - 1].elem == out.frame[i]);
            } else {
                assert(out.frame[i] == st.frame[i]);
                let m = choose|m: int| 0 <= m < rest.len() && rest[m].elem == st.frame[i];
                assert(s[m].elem == out.frame[i]);
            }
        }
        assert forall|i: int, j: int| 0 <= i < j < out.frame.len() implies (
        #[trigger] out.frame[i]).key() != (#[trigger] out.frame[j]).key() by {
            match position(st.frame, p.elem.key()) {
                Some(k) => {
                    assert(out.frame[i].key() == st.frame[i].key());
                    assert(out.frame[j].key() == st.frame[j].key());
                },
                None => {
                    if j < st.frame.len() {
                        assert(out.frame[i] == st.frame[i] && out.frame[j] == st.frame[j]);
                    } else {
                        assert(out.frame[i] == st.frame[i]);
                    }
                },
            }
        }
        let ts = opened(st, p);
        let k = ts.len() as int;
        let on = nexts(st.transitions);
        let op = prevs(st.transitions);
        if opens(st, p) {
            assert(nexts(ts) =~= on.push(Seq::empty()));
            assert(prevs(ts) =~= op.push(Seq::empty()));
            lemma_replay_push_empty(st.initial.elems, on);
        } else {
            assert(nexts(ts) =~= on);
            assert(prevs(ts) =~= op);
        }
        assert(replay_forward(st.initial.elems, nexts(ts)) == replay_forward(st.initial.elems, on));
        if k == 1 {
            assert(out.transitions == ts);
            assert(ts[0].next.len() == 0);
            assert(ts[0].prev.len() == 0);
            assert(ts[0].next =~= Seq::<DiffView>::empty());
            assert(ts[0].prev =~= Seq::<DiffView>::empty());
            assert(nexts(out.transitions) =~= seq![Seq::<DiffView>::empty()]);
            assert(prevs(out.transitions) =~= seq![Seq::<DiffView>::empty()]);
            assert(nexts(out.transitions).drop_last() =~= Seq::<Seq<DiffView>>::empty());
            assert(prevs(out.transitions).drop_last() =~= Seq::<Seq<DiffView>>::empty());
            lemma_same_frames(out.frame, out.frame, out.frame);
            let none = Seq::<Seq<DiffView>>::empty();
            lemma_replay_push_empty(out.frame, none);
            assert(nexts(out.transitions) =~= none.push(Seq::empty()));
            assert(prevs(out.transitions) =~= none.push(Seq::empty()));
            assert(replay_forward(out.frame, none) == out.frame);
            assert(replay_backward(out.frame, none) == out.frame);
            assert(replay_forward(out.frame, nexts(out.transitions)) == out.frame);
            assert(replay_backward(out.frame, prevs(out.transitions)) == out.frame);
        } else {
            let d = next_diff(st.frame, p.elem);
            let q = prev_diff(st.frame, p.elem);
            assert(nexts(out.transitions) =~= nexts(ts).update(k - 2, nexts(ts)[k - 2].push(d)));
            assert(prevs(out.transitions) =~= prevs(ts).update(k - 1, prevs(ts)[k - 1].push(q)));
            assert(nexts(ts).last().len() == 0);
            // Forward.
            lemma_replay_forward_append(st.initial.elems, nexts(ts), d);
            lemma_step_forward(replay_forward(st.initial.elems, on), st.frame, p.elem);
            // Backward.
            lemma_replay_backward_append(out.frame, prevs(ts), q);
            lemma_step_backward(st.frame, p.elem);
            let undone = apply_diff(out.frame, q);
            lemma_replay_backward_same(undone, st.frame, prevs(ts));
            if opens(st, p) {
                lemma_replay_push_empty(st.frame, op);
            }
            assert(replay_backward(st.frame, prevs(ts)) == replay_backward(st.frame, op));
            lemma_same_frames(
                replay_backward(undone, prevs(ts)),
                replay_backward(st.frame, op),
                st.initial.elems,
            );
        }
    }
}

/// The patches of a group, with their identifiers and ordered by time, are
/// what a timeline is made for.
pub proof fn lemma_sorted_coherent(patches: Seq<PatchView>)
    requires
        patches.len() <= u32::MAX,
        recorded(patches),
    ensures
        coherent(sort_by_time(assign_uids(patches))),
{
    let assigned = assign_uids(patches);
    let s = sort_by_time(assigned);
    lemma_sort_by_time(assigned);
    assert forall|m: int, n: int| 0 <= m < s.len() && 0 <= n < s.len() implies {
        &&& (#[trigger] s[m]).elem.is_snapshot()
        &&& groups_agree(s[m].elem, (#[trigger] s[n]).elem)
        &&& (s[m].elem.unique_id == s[n].elem.unique_id <==> s[m].elem.key() == s[n].elem.key())
    } by {
        assert(s.contains(s[m]));
        assert(s.contains(s[n]));
        assert(assigned.contains(s[m]));
        assert(assigned.contains(s[n]));
        let i = choose|i: int| 0 <= i < assigned.len() && assigned[i] == s[m];
        let j = choose|j: int| 0 <= j < assigned.len() && assigned[j] == s[n];
        lemma_ordinal_key(patches, i, j);
        lemma_ordinal_key(patches, j, i);
        assert(patches[i].elem.is_snapshot());
        assert(groups_agree(patches[i].elem, patches[j].elem));
    }
}

/// The transitions lead from the initial frame to the final frame, and
/// back: playing every `next` in order on the elements of the initial
/// frame gives the elements of the final frame, and playing every `prev`
/// from the last to the first on the elements of the final frame gives the
/// elements of the initial frame. The frames agree place by place, up to
/// the sign of a zero.
pub proof fn law_frame_reconstruction(patches: Seq<PatchView>)
    requires
        patches.len() <= u32::MAX,
        recorded(patches),
    ensures
        same_frames(
            replay_forward(
                timeline(patches).initial_frame.elems,
                nexts(timeline(patches).transitions),
            ),
            timeline(patches).final_frame.elems,
        ),
        same_frames(
            replay_backward(
                timeline(patches).final_frame.elems,
                prevs(timeline(patches).transitions),
            ),
            timeline(patches).initial_frame.elems,
        ),
{
    lemma_sorted_coherent(patches);
    lemma_engine_ok(sort_by_time(assign_uids(patches)));
}

/// Within each frame of a timeline no two elements share an identifier or
/// a key.
pub proof fn law_frame_identities(patches: Seq<PatchView>, i: int, j: int)
    requires
        patches.len() <= u32::MAX,
        recorded(patches),
        0 <= i < j < timeline(patches).final_frame.elems.len(),
    ensures
        timeline(patches).final_frame.elems[i].key() != timeline(patches).final_frame.elems[j].key(),
        timeline(patches).final_frame.elems[i].unique_id
            != timeline(patches).final_frame.elems[j].unique_id,
{
    let s = sort_by_time(assign_uids(patches));
    lemma_sorted_coherent(patches);
    lemma_engine_ok(s);
    let frame = engine_run(s).frame;
    let m = choose|m: int| 0 <= m < s.len() && s[m].elem == frame[i];
    let n = choose|n: int| 0 <= n < s.len() && s[n].elem == frame[j];
    assert(s[m].elem.unique_id == s[n].elem.unique_id <==> s[m].elem.key() == s[n].elem.key());
}

/// An element that is committed again unchanged, at a later time, leaves
/// in the transition an update that carries nothing but the identifier.
pub proof fn law_identity_round_trip(st: Engine, p: PatchView)
    requires
        position(st.frame, p.elem.key()) is Some,
        p.elem.unchanged_from(st.frame[position(st.frame, p.elem.key())->0]),
        opened(st, p).len() >= 2,
    ensures
        next_diff(st.frame, p.elem) matches DiffView::Update(d) && d.is_blank() && d.unique_id
            == p.elem.unique_id,
        ({
            let ts = engine_step(st, p).transitions;
            ts.len() >= 2 && ts[ts.len() - 2].next.len() > 0 && ts[ts.len() - 2].next.last()
                == next_diff(st.frame, p.elem)
        }),
{
    lemma_position(st.frame, p.elem.key());
    lemma_unchanged_diff_is_blank(p.elem, st.frame[position(st.frame, p.elem.key())->0]);
}


// ---------------------------------------------------------------------
// Elements that are committed again unchanged
// ---------------------------------------------------------------------
/// Every step is an update that carries nothing but an identifier.
pub open spec fn blank_updates(diffs: Seq<DiffView>) -> bool {
    forall|j: int| 0 <= j < diffs.len() ==> (#[trigger] diffs[j] matches DiffView::Update(d) && d.is_blank())
}

/// The place in the frame of the element that the `m`-th patch names.
pub open spec fn slot(frame: Seq<ElemView>, b: Seq<PatchView>, m: int) -> int {
    position(frame, b[m].elem.key())->0
}

/// The patches of `b` are of one time, name each element once, and
/// restate elements of the frame: each is equal, field by field, to the
/// element of its key in the frame.
pub open spec fn restated(frame: Seq<ElemView>, b: Seq<PatchView>) -> bool {
    &&& forall|j: int| 0 <= j < b.len() ==> (#[trigger] b[j]).time.equals(b[0].time)
    &&& forall|j: int|
        0 <= j < b.len() ==> {
            &&& position(frame, (#[trigger] b[j]).elem.key()) is Some
            &&& b[j].elem.unchanged_from(frame[slot(frame, b, j)])
            &&& frame[slot(frame, b, j)].unchanged_from(b[j].elem)
        }
    &&& forall|i: int, j: int|
        0 <= i < j < b.len() ==> (#[trigger] b[i]).elem.key() != (#[trigger] b[j]).elem.key()
}

/// What every run looks like: it has transitions exactly when it has
/// patches; the last transition has the time of the run and no `next` yet;
/// and the time of the run is that of the last patch, as a value.
pub proof fn lemma_run_shape(s: Seq<PatchView>)
    ensures
        (s.len() == 0) == (engine_run(s).transitions.len() == 0),
        s.len() > 0 ==> engine_run(s).transitions.last().next.len() == 0,
        s.len() > 0 ==> engine_run(s).transitions.last().time == engine_run(s).time,
        s.len() > 0 ==> (engine_run(s).time == s.last().time || engine_run(s).time.equals(
            s.last().time,
        )),
    decreases s.len(),
{
    if s.len() > 0 {
        lemma_run_shape(s.drop_last());
    }
}

/// Frames with the same keys, place by place, hold a key at the same
/// place.
proof fn lemma_position_keys(a: Seq<ElemView>, b: Seq<ElemView>, key: (ElemKind, Seq<char>))
    requires
        a.len() == b.len(),
        forall|i: int| 0 <= i < a.len() ==> (#[trigger] a[i]).key() == b[i].key(),
    ensures
        position(a, key) == position(b, key),
{
    lemma_position(a, key);
    lemma_position(b, key);
    match (position(a, key), position(b, key)) {
        (Some(i), Some(j)) => {
            assert(a[i].key() == b[i].key());
            assert(a[j].key() == b[j].key());
            if i < j {
                assert(b[i].key() != key);
            }
            if j < i {
                assert(a[j].key() != key);
            }
        },
        (Some(i), None) => {
            assert(a[i].key() == b[i].key());
            assert(b[i].key() != key);
        },
        (None, Some(j)) => {
            assert(a[j].key() == b[j].key());
            assert(a[j].key() != key);
        },
        (None, None) => {},
    }
}

/// No patch before the `n`-th names the element at the place `i`.
pub open spec fn untouched(frame: Seq<ElemView>, b: Seq<PatchView>, n: int, i: int) -> bool {
    forall|m: int| 0 <= m < n ==> #[trigger] slot(frame, b, m) != i
}

/// After `a`, the first `n` patches of `b` restate elements: the run has
/// one more transition, and the steps that these patches leave, forward
/// and back, carry nothing but identifiers.
proof fn lemma_restate(a: Seq<PatchView>, b: Seq<PatchView>, n: int)
    requires
        a.len() > 0,
        !a.last().time.equals(b[0].time),
        restated(engine_run(a).frame, b),
        1 <= n <= b.len(),
    ensures
        ({
            let st0 = engine_run(a);
            let st = engine_run(a + b.take(n));
            let k = st0.transitions.len() as int;
            &&& k >= 1
            &&& st.transitions.len() == k + 1
            &&& st.time == b[0].time
            &&& st.transitions[k].time == b[0].time
            &&& st.transitions[k - 1].time == st0.time
            &&& st.transitions[k - 1].next.len() == n
            &&& st.transitions[k].prev.len() == n
            &&& st.transitions[k].next.len() == 0
            &&& blank_updates(st.transitions[k - 1].next)
            &&& blank_updates(st.transitions[k].prev)
            &&& forall|j: int|
                0 <= j < n ==> (#[trigger] st.transitions[k - 1].next[j] matches DiffView::Update(d)
                    && d.unique_id == b[j].elem.unique_id)
            &&& st.frame.len() == st0.frame.len()
            &&& forall|i: int| 0 <= i < st.frame.len() ==> (#[trigger] st.frame[i]).key() == st0.frame[i].key()
            &&& forall|i: int|
                0 <= i < st.frame.len() && untouched(st0.frame, b, n, i) ==> #[trigger] st.frame[i]
                    == st0.frame[i]
        }),
    decreases n,
{
    let st0 = engine_run(a);
    let k = st0.transitions.len() as int;
    let frame0 = st0.frame;
    lemma_run_shape(a);
    let s = a + b.take(n);
    let rest = a + b.take(n - 1);
    let p = b[n - 1];
    assert(s.drop_last() =~= rest);
    assert(s.last() == p);
    if n == 1 {
        assert(rest =~= a);
    } else {
        lemma_restate(a, b, n - 1);
    }
    let st = engine_run(rest);
    let out = engine_step(st, p);
    assert(engine_run(s) == out);
    assert(p.time.equals(b[0].time));
    // The slot of the patch is as it was after `a`.
    lemma_position_keys(st.frame, frame0, p.elem.key());
    lemma_position(frame0, p.elem.key());
    let i = slot(frame0, b, n - 1);
    assert(position(st.frame, p.elem.key()) == Some(i));
    assert(untouched(frame0, b, n - 1, i)) by {
        assert forall|m: int| 0 <= m < n - 1 implies #[trigger] slot(frame0, b, m) != i by {
            lemma_position(frame0, b[m].elem.key());
            assert(b[m].elem.key() != b[n - 1].elem.key());
        }
    }
    assert(st.frame[i] == frame0[i]);
    lemma_unchanged_diff_is_blank(p.elem, frame0[i]);
    lemma_unchanged_diff_is_blank(frame0[i], p.elem);
    let ts = opened(st, p);
    if n == 1 {
        assert(opens(st, p));
        assert(ts.len() == k + 1);
        assert(ts[k - 1] == st0.transitions[k - 1]);
    } else {
        assert(!opens(st, p));
    }
    let next = out.transitions[k - 1].next;
    let prev = out.transitions[k].prev;
    assert(next == ts[k - 1].next.push(next_diff(st.frame, p.elem)));
    assert(prev == ts[k].prev.push(prev_diff(st.frame, p.elem)));
    assert forall|j: int| 0 <= j < next.len() implies (#[trigger] next[j] matches DiffView::Update(d)
        && d.is_blank()) by {
        if j < n - 1 {
            assert(next[j] == ts[k - 1].next[j]);
        }
    }
    assert forall|j: int| 0 <= j < prev.len() implies (#[trigger] prev[j] matches DiffView::Update(d)
        && d.is_blank()) by {
        if j < n - 1 {
            assert(prev[j] == ts[k].prev[j]);
        }
    }
    assert forall|j: int| 0 <= j < n implies (#[trigger] next[j] matches DiffView::Update(d)
        && d.unique_id == b[j].elem.unique_id) by {
        if j < n - 1 {
            assert(next[j] == ts[k - 1].next[j]);
        }
    }
    assert forall|m: int| 0 <= m < out.frame.len() implies (#[trigger] out.frame[m]).key()
        == frame0[m].key() by {
        if m != i {
            assert(out.frame[m] == st.frame[m]);
        }
    }
    assert forall|m: int| 0 <= m < out.frame.len() && untouched(frame0, b, n, m) implies #[trigger] out.frame[m]
        == frame0[m] by {
        assert(slot(frame0, b, n - 1) != m);
        assert(untouched(frame0, b, n - 1, m)) by {
            assert forall|q: int| 0 <= q < n - 1 implies #[trigger] slot(frame0, b, q) != m by {
                assert(slot(frame0, b, q) != m);
            }
        }
        assert(out.frame[m] == st.frame[m]);
    }
}

/// A patch changes the `next` of no transition before the last but one,
/// and the `prev` of no transition before the last.
proof fn lemma_step_keeps(st: Engine, p: PatchView, i: int)
    requires
        0 <= i < st.transitions.len(),
    ensures
        i < engine_step(st, p).transitions.len(),
        engine_step(st, p).transitions[i].time == st.transitions[i].time,
        i < opened(st, p).len() - 2 ==> engine_step(st, p).transitions[i].next == st.transitions[i].next,
        i < opened(st, p).len() - 1 ==> engine_step(st, p).transitions[i].prev == st.transitions[i].prev,
{
}

/// Patches that open a new time keep what the transitions before held:
/// the `next` of the transition before the last, and the `prev` of the last.
proof fn lemma_later_keeps(s: Seq<PatchView>, c: Seq<PatchView>, n: int)
    requires
        engine_run(s).transitions.len() >= 2,
        c.len() > 0,
        opens(engine_run(s), c[0]),
        1 <= n <= c.len(),
    ensures
        ({
            let k = engine_run(s).transitions.len() as int;
            let st = engine_run(s + c.take(n));
            &&& st.transitions.len() > k
            &&& st.transitions[k - 2].next == engine_run(s).transitions[k - 2].next
            &&& st.transitions[k - 1].prev == engine_run(s).transitions[k - 1].prev
            &&& st.transitions[k - 2].time == engine_run(s).transitions[k - 2].time
            &&& st.transitions[k - 1].time == engine_run(s).transitions[k - 1].time
        }),
    decreases n,
{
    let k = engine_run(s).transitions.len() as int;
    let whole = s + c.take(n);
    let rest = s + c.take(n - 1);
    assert(whole.drop_last() =~= rest);
    assert(whole.last() == c[n - 1]);
    if n == 1 {
        assert(rest =~= s);
    } else {
        lemma_later_keeps(s, c, n - 1);
    }
    let st = engine_run(rest);
    lemma_step_keeps(st, c[n - 1], k - 2);
    lemma_step_keeps(st, c[n - 1], k - 1);
}

/// Elements that are committed again unchanged leave empty steps. Let the
/// patches, ordered by time, be those of `a`, then those of `b`, then
/// those of `c`, where `b` holds the patches of one time and restates
/// elements of the frame after `a`. Then the `next` of the transition
/// before that time, which leads to it, and the `prev` of the transition
/// of that time, which leads back, hold one update for each patch of `b`,
/// and each carries nothing but the identifier.
pub proof fn law_unchanged_timeline(a: Seq<PatchView>, b: Seq<PatchView>, c: Seq<PatchView>)
    requires
        a.len() > 0,
        b.len() > 0,
        !a.last().time.equals(b[0].time),
        restated(engine_run(a).frame, b),
        c.len() > 0 ==> !b[0].time.equals(c[0].time),
    ensures
        ({
            let k = engine_run(a).transitions.len() as int;
            let ts = fold_timeline(a + b + c).transitions;
            &&& 1 <= k < ts.len()
            &&& ts[k].time == b[0].time
            &&& ts[k - 1].next.len() == b.len()
            &&& ts[k].prev.len() == b.len()
            &&& blank_updates(ts[k - 1].next)
            &&& blank_updates(ts[k].prev)
            &&& forall|j: int|
                0 <= j < b.len() ==> (#[trigger] ts[k - 1].next[j] matches DiffView::Update(d)
                    && d.unique_id == b[j].elem.unique_id)
        }),
{
    lemma_restate(a, b, b.len() as int);
    assert(b.take(b.len() as int) =~= b);
    let s = a + b;
    if c.len() == 0 {
        assert(s + c =~= s);
    } else {
        lemma_later_keeps(s, c, c.len() as int);
        assert(c.take(c.len() as int) =~= c);
    }
}

} // verus!
