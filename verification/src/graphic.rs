//! The timeline of a group: patches in, frames and transitions out.
//!
//! A patch is an element stamped with the time at which it was committed.
//! The patches of a group are given identifiers, ordered by time, and folded
//! into an initial frame, a final frame, and one transition for each
//! distinct time. The `prev` of a transition leads back from the frame at
//! its time to the frame before; its `next` leads forward to the frame of
//! the following transition.
use crate::context::Context;
use crate::graphic_elems::deleter::ElemDeleter;
use crate::graphic_elems::elems::{Elem, ElementTrait};
use crate::graphic_elems::view::{ElemKind, ElemView};
use crate::number::Number;
use crate::replay::{
    law_frame_reconstruction,
    nexts,
    prevs,
    recorded,
    replay_backward,
    replay_forward,
    same_frames,
};
use crate::text::str_eq;
use crate::unique_id_generator::UID;
use vstd::prelude::*;

verus! {

/// An element and the time at which it was committed.
#[derive(Clone, Debug)]
pub struct Patch {
    pub time: Number,
    pub elem: Elem,
}

/// One step of a transition.
#[derive(Clone, Debug)]
pub enum Diff {
    /// The element appears.
    Create(Elem),
    /// The fields that the payload carries change.
    Update(Elem),
    /// The element disappears.
    Delete(ElemDeleter),
}

/// The change at one time: `prev` undoes it, `next` leads on to the
/// following time.
#[derive(Clone, Debug)]
pub struct Transition {
    pub time: Number,
    pub prev: Vec<Diff>,
    pub next: Vec<Diff>,
}

/// The elements of a group at one time, in the order in which they first
/// appeared.
#[derive(Clone, Debug)]
pub struct Frame {
    pub time: Number,
    pub elems: Vec<Elem>,
}

/// The timeline of a group.
#[derive(Clone, Debug)]
pub struct Graphic {
    pub initial_frame: Frame,
    pub final_frame: Frame,
    pub transitions: Vec<Transition>,
}

/// Collects the patches of a group, in the order of the stream.
#[derive(Clone, Debug)]
pub struct GraphicCreator {
    pub patches: Vec<Patch>,
}

/// A patch as a value.
pub struct PatchView {
    pub time: Number,
    pub elem: ElemView,
}

/// A step as a value.
pub enum DiffView {
    Create(ElemView),
    Update(ElemView),
    Delete(UID),
}

/// A transition as a value.
pub struct TransitionView {
    pub time: Number,
    pub prev: Seq<DiffView>,
    pub next: Seq<DiffView>,
}

/// A frame as a value.
pub struct FrameView {
    pub time: Number,
    pub elems: Seq<ElemView>,
}

/// A timeline as a value.
pub struct GraphicView {
    pub initial_frame: FrameView,
    pub final_frame: FrameView,
    pub transitions: Seq<TransitionView>,
}

impl View for Patch {
    type V = PatchView;

    open spec fn view(&self) -> PatchView {
        PatchView { time: self.time, elem: self.elem@ }
    }
}

impl View for Diff {
    type V = DiffView;

    open spec fn view(&self) -> DiffView {
        match self {
            Diff::Create(e) => DiffView::Create(e@),
            Diff::Update(e) => DiffView::Update(e@),
            Diff::Delete(d) => DiffView::Delete(d.unique_id),
        }
    }
}

/// The elements of a vector, as values.
pub open spec fn elem_views(v: Seq<Elem>) -> Seq<ElemView> {
    Seq::new(v.len(), |i: int| v[i]@)
}

/// The patches of a vector, as values.
pub open spec fn patch_views(v: Seq<Patch>) -> Seq<PatchView> {
    Seq::new(v.len(), |i: int| v[i]@)
}

/// The steps of a vector, as values.
pub open spec fn diff_views(v: Seq<Diff>) -> Seq<DiffView> {
    Seq::new(v.len(), |i: int| v[i]@)
}

impl View for Transition {
    type V = TransitionView;

    open spec fn view(&self) -> TransitionView {
        TransitionView { time: self.time, prev: diff_views(self.prev@), next: diff_views(self.next@) }
    }
}

/// The transitions of a vector, as values.
pub open spec fn transition_views(v: Seq<Transition>) -> Seq<TransitionView> {
    Seq::new(v.len(), |i: int| v[i]@)
}

impl View for Frame {
    type V = FrameView;

    open spec fn view(&self) -> FrameView {
        FrameView { time: self.time, elems: elem_views(self.elems@) }
    }
}

impl View for Graphic {
    type V = GraphicView;

    open spec fn view(&self) -> GraphicView {
        GraphicView {
            initial_frame: self.initial_frame@,
            final_frame: self.final_frame@,
            transitions: transition_views(self.transitions@),
        }
    }
}

// ---------------------------------------------------------------------
// Identifiers
// ---------------------------------------------------------------------
/// The first place, from `from` on, whose element has the given key; the
/// length of the sequence where there is none.
pub open spec fn origin_from(patches: Seq<PatchView>, key: (ElemKind, Seq<char>), from: int) -> int
    decreases patches.len() - from,
{
    if from < 0 || from >= patches.len() {
        patches.len() as int
    } else if patches[from].elem.key() == key {
        from
    } else {
        origin_from(patches, key, from + 1)
    }
}

/// The place at which the key of the `i`-th patch is first seen.
pub open spec fn origin(patches: Seq<PatchView>, i: int) -> int {
    origin_from(patches, patches[i].elem.key(), 0)
}

/// The key of the `i`-th patch was not seen before.
pub open spec fn first_sight(patches: Seq<PatchView>, i: int) -> bool {
    origin(patches, i) == i
}

/// How many of the first `n` patches show a key for the first time.
pub open spec fn sights(patches: Seq<PatchView>, n: int) -> nat
    decreases n,
{
    if n <= 0 {
        0
    } else {
        sights(patches, n - 1) + if first_sight(patches, n - 1) {
            1nat
        } else {
            0nat
        }
    }
}

/// The ordinal of the `i`-th patch: keys are counted from 1 in the order
/// in which the stream first shows them.
pub open spec fn ordinal(patches: Seq<PatchView>, i: int) -> nat {
    sights(patches, origin(patches, i)) + 1
}

/// The patches with their identifiers: each element gets the ordinal of its
/// key.
pub open spec fn assign_uids(patches: Seq<PatchView>) -> Seq<PatchView> {
    Seq::new(
        patches.len(),
        |i: int|
            PatchView {
                time: patches[i].time,
                elem: ElemView {
                    unique_id: UID { value: ordinal(patches, i) as u32 },
                    ..patches[i].elem
                },
            },
    )
}

/// `origin_from` gives the first place from `from` on that shows the key.
pub proof fn lemma_origin_from(patches: Seq<PatchView>, key: (ElemKind, Seq<char>), from: int)
    requires
        0 <= from <= patches.len(),
    ensures
        from <= origin_from(patches, key, from) <= patches.len(),
        origin_from(patches, key, from) < patches.len() ==> patches[origin_from(
            patches,
            key,
            from,
        )].elem.key() == key,
        forall|j: int|
            from <= j < origin_from(patches, key, from) ==> (#[trigger] patches[j]).elem.key() != key,
    decreases patches.len() - from,
{
    if from < patches.len() && patches[from].elem.key() != key {
        lemma_origin_from(patches, key, from + 1);
    }
}

/// The origin of a patch is the first place that shows its key.
pub proof fn lemma_origin(patches: Seq<PatchView>, i: int)
    requires
        0 <= i < patches.len(),
    ensures
        0 <= origin(patches, i) <= i,
        patches[origin(patches, i)].elem.key() == patches[i].elem.key(),
        forall|j: int|
            0 <= j < origin(patches, i) ==> (#[trigger] patches[j]).elem.key() != patches[i].elem.key(),
        first_sight(patches, origin(patches, i)),
{
    let key = patches[i].elem.key();
    lemma_origin_from(patches, key, 0);
    let o = origin(patches, i);
    if o > i {
        assert(patches[i].elem.key() != key);
    }
    lemma_origin_from(patches, patches[o].elem.key(), 0);
    let oo = origin(patches, o);
    if oo < o {
        assert(patches[oo].elem.key() != key);
    }
    if oo > o {
        assert(patches[o].elem.key() != key);
    }
}

/// A first sight of the key of a patch is the origin of the patch.
pub proof fn lemma_origin_is(patches: Seq<PatchView>, i: int, f: int)
    requires
        0 <= f <= i < patches.len(),
        first_sight(patches, f),
        patches[f].elem.key() == patches[i].elem.key(),
    ensures
        origin(patches, i) == f,
{
    lemma_origin(patches, i);
    lemma_origin(patches, f);
    let o = origin(patches, i);
    if o < f {
        assert(patches[o].elem.key() != patches[f].elem.key());
    }
    if f < o {
        assert(patches[f].elem.key() != patches[i].elem.key());
    }
}

/// More patches never show fewer keys, and never more keys than patches.
pub proof fn lemma_sights_monotone(patches: Seq<PatchView>, a: int, b: int)
    requires
        a <= b,
    ensures
        sights(patches, a) <= sights(patches, b),
        sights(patches, b) <= if b < 0 { 0 } else { b },
    decreases b - a, b,
{
    if b > 0 {
        lemma_sights_monotone(patches, b - 1, b - 1);
    }
    if a < b {
        lemma_sights_monotone(patches, a, b - 1);
    }
}

/// Two patches have the same ordinal exactly when they have the same key.
pub proof fn lemma_ordinal_key(patches: Seq<PatchView>, i: int, j: int)
    requires
        0 <= i < patches.len(),
        0 <= j < patches.len(),
    ensures
        ordinal(patches, i) == ordinal(patches, j) <==> patches[i].elem.key() == patches[j].elem.key(),
        1 <= ordinal(patches, i) <= patches.len(),
{
    lemma_origin(patches, i);
    lemma_origin(patches, j);
    let a = origin(patches, i);
    let b = origin(patches, j);
    lemma_sights_monotone(patches, a, a);
    if patches[i].elem.key() == patches[j].elem.key() {
        if a < b {
            assert(patches[a].elem.key() != patches[j].elem.key());
        }
        if b < a {
            assert(patches[b].elem.key() != patches[i].elem.key());
        }
    } else {
        if a < b {
            lemma_sights_monotone(patches, a + 1, b);
        } else if b < a {
            lemma_sights_monotone(patches, b + 1, a);
        }
    }
}

// ---------------------------------------------------------------------
// Order
// ---------------------------------------------------------------------
/// The patch put into a sequence that is ordered by time: behind every
/// patch that is not later than it.
pub open spec fn insert_by_time(sorted: Seq<PatchView>, p: PatchView) -> Seq<PatchView>
    decreases sorted.len(),
{
    if sorted.len() == 0 {
        seq![p]
    } else if sorted.last().time.rank() <= p.time.rank() {
        sorted.push(p)
    } else {
        insert_by_time(sorted.drop_last(), p).push(sorted.last())
    }
}

/// The patches ordered by time; patches of the same time keep the order of
/// the stream.
pub open spec fn sort_by_time(patches: Seq<PatchView>) -> Seq<PatchView>
    decreases patches.len(),
{
    if patches.len() == 0 {
        Seq::empty()
    } else {
        insert_by_time(sort_by_time(patches.drop_last()), patches.last())
    }
}

/// Putting a patch in is inserting it at the place behind which every patch
/// is later than it, and before which the nearest is not.
pub proof fn lemma_insert_at(sorted: Seq<PatchView>, p: PatchView, k: int)
    requires
        0 <= k <= sorted.len(),
        forall|j: int| k <= j < sorted.len() ==> (#[trigger] sorted[j]).time.rank() > p.time.rank(),
        k > 0 ==> sorted[k - 1].time.rank() <= p.time.rank(),
    ensures
        insert_by_time(sorted, p) == sorted.insert(k, p),
    decreases sorted.len(),
{
    if sorted.len() == 0 {
        assert(sorted.insert(k, p) =~= seq![p]);
    } else if k == sorted.len() {
        assert(sorted.insert(k, p) =~= sorted.push(p));
    } else {
        assert(sorted.last().time.rank() > p.time.rank());
        let rest = sorted.drop_last();
        assert forall|j: int| k <= j < rest.len() implies (#[trigger] rest[j]).time.rank()
            > p.time.rank() by {
            assert(rest[j] == sorted[j]);
        }
        if k > 0 {
            assert(rest[k - 1] == sorted[k - 1]);
        }
        lemma_insert_at(rest, p, k);
        assert(rest.insert(k, p).push(sorted.last()) =~= sorted.insert(k, p));
    }
}


/// Whether two elements have the same key.
pub fn same_key(a: &Elem, b: &Elem) -> (r: bool)
    ensures
        r == (a@.key() == b@.key()),
{
    let ka: ElemKind = a.kind();
    let kb: ElemKind = b.kind();
    let same_kind: bool = match (ka, kb) {
        (ElemKind::Camera, ElemKind::Camera) => true,
        (ElemKind::Circle, ElemKind::Circle) => true,
        (ElemKind::Path, ElemKind::Path) => true,
        (ElemKind::Rect, ElemKind::Rect) => true,
        _ => false,
    };
    same_kind && str_eq(a.name(), b.name())
}

/// The patches with their identifiers, ordered by time.
pub fn sorted_with_ids(patches: &Vec<Patch>) -> (out: Vec<Patch>)
    requires
        patches.len() <= u32::MAX,
    ensures
        patch_views(out@) == sort_by_time(assign_uids(patch_views(patches@))),
{
    let ghost pv = patch_views(patches@);
    let ghost assigned = assign_uids(pv);
    let mut out: Vec<Patch> = Vec::new();
    // The places of the patches that show a key for the first time.
    let mut firsts: Vec<usize> = Vec::new();
    let mut i: usize = 0;
    assert(assigned.take(0) =~= Seq::<PatchView>::empty());
    assert(patch_views(out@) =~= Seq::<PatchView>::empty());
    while i < patches.len()
        invariant
            i <= patches.len(),
            patches.len() <= u32::MAX,
            pv == patch_views(patches@),
            assigned == assign_uids(pv),
            firsts.len() == sights(pv, i as int),
            forall|k: int|
                0 <= k < firsts.len() ==> (#[trigger] firsts[k]) < i && first_sight(pv, firsts[k] as int)
                    && sights(pv, firsts[k] as int) == k,
            forall|f: int|
                0 <= f < i && #[trigger] first_sight(pv, f) ==> sights(pv, f) < firsts.len()
                    && firsts[sights(pv, f) as int] == f,
            patch_views(out@) == sort_by_time(assigned.take(i as int)),
        decreases patches.len() - i,
    {
        let p: &Patch = &patches[i];
        assert(pv[i as int] == p@);
        // Find the identifier of the key.
        let mut k: usize = 0;
        let mut found: bool = false;
        while k < firsts.len()
            invariant_except_break
                !found,
                forall|m: int|
                    0 <= m < k ==> pv[(#[trigger] firsts[m]) as int].elem.key() != p@.elem.key(),
            invariant
                k <= firsts.len(),
                i < patches.len(),
                pv == patch_views(patches@),
                p@ == pv[i as int],
                forall|m: int| 0 <= m < firsts.len() ==> (#[trigger] firsts[m]) < i,
            ensures
                k <= firsts.len(),
                !found ==> k == firsts.len(),
                found ==> k < firsts.len() && pv[firsts[k as int] as int].elem.key() == p@.elem.key(),
                !found ==> forall|m: int|
                    0 <= m < firsts.len() ==> pv[(#[trigger] firsts[m]) as int].elem.key()
                        != p@.elem.key(),
            decreases firsts.len() - k,
        {
            let f: usize = firsts[k];
            assert(pv[f as int] == patches[f as int]@);
            if same_key(&patches[f].elem, &p.elem) {
                found = true;
                break ;
            }
            k = k + 1;
        }
        proof {
            lemma_origin(pv, i as int);
            lemma_sights_monotone(pv, i as int, i as int);
            if found {
                lemma_origin_is(pv, i as int, firsts[k as int] as int);
            } else {
                let o = origin(pv, i as int);
                if o < i {
                    assert(first_sight(pv, o));
                    assert(firsts[sights(pv, o) as int] == o);
                    assert(pv[firsts[sights(pv, o) as int] as int].elem.key() != p@.elem.key());
                }
                assert(first_sight(pv, i as int));
            }
            assert(ordinal(pv, i as int) == k + 1);
        }
        let uid: UID = UID { value: (k + 1) as u32 };
        if !found {
            firsts.push(i);
        }
        let mut elem: Elem = p.elem.duplicate();
        elem.set_unique_id(uid);
        let q: Patch = Patch { time: p.time, elem };
        assert(q@ == assigned[i as int]);
        // Put the patch behind every patch that is not later.
        let rank: i128 = q.time.sort_rank();
        let mut at: usize = out.len();
        while at > 0 && out[at - 1].time.sort_rank() > rank
            invariant
                at <= out.len(),
                rank == q@.time.rank(),
                forall|j: int|
                    at <= j < out.len() ==> (#[trigger] patch_views(out@)[j]).time.rank() > rank,
            decreases at,
        {
            at = at - 1;
            assert(patch_views(out@)[at as int] == out[at as int]@);
        }
        proof {
            let sorted = patch_views(out@);
            if at > 0 {
                assert(sorted[at - 1] == out[at - 1]@);
            }
            lemma_insert_at(sorted, q@, at as int);
            assert(assigned.take(i + 1).drop_last() =~= assigned.take(i as int));
            assert(assigned.take(i + 1).last() == assigned[i as int]);
        }
        let ghost before = patch_views(out@);
        out.insert(at, q);
        assert(patch_views(out@) =~= before.insert(at as int, q@));
        i = i + 1;
    }
    assert(assigned.take(patches.len() as int) =~= assigned);
    out
}


// ---------------------------------------------------------------------
// Frames and transitions
// ---------------------------------------------------------------------
/// The place of the element with the given key in a frame.
pub open spec fn position(frame: Seq<ElemView>, key: (ElemKind, Seq<char>)) -> Option<int>
    decreases frame.len(),
{
    if frame.len() == 0 {
        None
    } else if frame[0].key() == key {
        Some(0)
    } else {
        match position(frame.drop_first(), key) {
            Some(i) => Some(i + 1),
            None => None,
        }
    }
}

/// `position` gives the first place that holds the key, and none only where
/// no place holds it.
pub proof fn lemma_position(frame: Seq<ElemView>, key: (ElemKind, Seq<char>))
    ensures
        match position(frame, key) {
            Some(i) => 0 <= i < frame.len() && frame[i].key() == key && forall|j: int|
                0 <= j < i ==> (#[trigger] frame[j]).key() != key,
            None => forall|j: int| 0 <= j < frame.len() ==> (#[trigger] frame[j]).key() != key,
        },
    decreases frame.len(),
{
    if frame.len() > 0 && frame[0].key() != key {
        let rest = frame.drop_first();
        lemma_position(rest, key);
        match position(rest, key) {
            Some(i) => {
                assert forall|j: int| 0 <= j < i + 1 implies (#[trigger] frame[j]).key() != key by {
                    if j > 0 {
                        assert(rest[j - 1].key() != key);
                    }
                }
            },
            None => {
                assert forall|j: int| 0 <= j < frame.len() implies (#[trigger] frame[j]).key()
                    != key by {
                    if j > 0 {
                        assert(rest[j - 1].key() != key);
                    }
                }
            },
        }
    }
}

/// The state of the fold: the rolling frame and its time, the initial
/// frame, and the transitions so far.
pub struct Engine {
    pub frame: Seq<ElemView>,
    pub time: Number,
    pub initial: FrameView,
    pub transitions: Seq<TransitionView>,
}

/// The state before any patch: nothing at time 0.
pub open spec fn engine_start() -> Engine {
    Engine {
        frame: Seq::empty(),
        time: Number { bits: 0 },
        initial: FrameView { time: Number { bits: 0 }, elems: Seq::empty() },
        transitions: Seq::empty(),
    }
}

/// The frame after a patch: the element replaces the one with its key, or
/// comes last.
pub open spec fn frame_with(frame: Seq<ElemView>, e: ElemView) -> Seq<ElemView> {
    match position(frame, e.key()) {
        Some(i) => frame.update(i, e),
        None => frame.push(e),
    }
}

/// The step forward that a patch makes.
pub open spec fn next_diff(frame: Seq<ElemView>, e: ElemView) -> DiffView {
    match position(frame, e.key()) {
        Some(i) => DiffView::Update(e.diff_against(frame[i])),
        None => DiffView::Create(e),
    }
}

/// The step back that undoes a patch.
pub open spec fn prev_diff(frame: Seq<ElemView>, e: ElemView) -> DiffView {
    match position(frame, e.key()) {
        Some(i) => DiffView::Update(frame[i].diff_against(e)),
        None => DiffView::Delete(e.unique_id),
    }
}

/// A patch opens a new transition where it is the first, or where its time
/// is not equal to the time of the last transition.
pub open spec fn opens(st: Engine, p: PatchView) -> bool {
    st.transitions.len() == 0 || !st.time.equals(p.time)
}

/// The transitions with the one that the patch opens, if it opens one.
pub open spec fn opened(st: Engine, p: PatchView) -> Seq<TransitionView> {
    if opens(st, p) {
        st.transitions.push(TransitionView { time: p.time, prev: Seq::empty(), next: Seq::empty() })
    } else {
        st.transitions
    }
}

/// The state after one more patch. Within the first time the initial frame
/// follows the rolling frame and the transition stays empty. Later, the
/// step forward is appended to the `next` of the transition before the
/// last, and the step back to the `prev` of the last.
pub open spec fn engine_step(st: Engine, p: PatchView) -> Engine {
    let time = if opens(st, p) {
        p.time
    } else {
        st.time
    };
    let frame = frame_with(st.frame, p.elem);
    let ts = opened(st, p);
    let k = ts.len() as int;
    if k == 1 {
        Engine { frame, time, initial: FrameView { time, elems: frame }, transitions: ts }
    } else {
        Engine {
            frame,
            time,
            initial: st.initial,
            transitions: ts.update(
                k - 2,
                TransitionView { next: ts[k - 2].next.push(next_diff(st.frame, p.elem)), ..ts[k - 2] },
            ).update(
                k - 1,
                TransitionView { prev: ts[k - 1].prev.push(prev_diff(st.frame, p.elem)), ..ts[k - 1] },
            ),
        }
    }
}

/// The state after all the patches, taken in order.
pub open spec fn engine_run(patches: Seq<PatchView>) -> Engine
    decreases patches.len(),
{
    if patches.len() == 0 {
        engine_start()
    } else {
        engine_step(engine_run(patches.drop_last()), patches.last())
    }
}

/// The timeline that patches ordered by time fold into.
pub open spec fn fold_timeline(sorted: Seq<PatchView>) -> GraphicView {
    let st = engine_run(sorted);
    GraphicView {
        initial_frame: st.initial,
        final_frame: FrameView { time: st.time, elems: st.frame },
        transitions: st.transitions,
    }
}

/// The timeline of the patches of a group, given in the order of the
/// stream.
pub open spec fn timeline(patches: Seq<PatchView>) -> GraphicView {
    fold_timeline(sort_by_time(assign_uids(patches)))
}

/// The place of the element with the key of `e` in a frame.
pub fn find_in_frame(frame: &Vec<Elem>, e: &Elem) -> (r: Option<usize>)
    ensures
        match position(elem_views(frame@), e@.key()) {
            Some(i) => r == Some(i as usize) && 0 <= i < frame.len(),
            None => r is None,
        },
{
    let mut i: usize = 0;
    while i < frame.len()
        invariant
            i <= frame.len(),
            forall|j: int| 0 <= j < i ==> (#[trigger] elem_views(frame@)[j]).key() != e@.key(),
        decreases frame.len() - i,
    {
        assert(elem_views(frame@)[i as int] == frame[i as int]@);
        if same_key(&frame[i], e) {
            proof {
                lemma_position(elem_views(frame@), e@.key());
            }
            return Some(i);
        }
        i = i + 1;
    }
    proof {
        lemma_position(elem_views(frame@), e@.key());
    }
    None
}

/// A copy of the elements of a frame.
pub fn copy_elems(elems: &Vec<Elem>) -> (r: Vec<Elem>)
    ensures
        elem_views(r@) == elem_views(elems@),
{
    let mut r: Vec<Elem> = Vec::new();
    let mut i: usize = 0;
    while i < elems.len()
        invariant
            i <= elems.len(),
            r.len() == i,
            forall|j: int| 0 <= j < i ==> (#[trigger] r[j])@ == elems[j]@,
        decreases elems.len() - i,
    {
        r.push(elems[i].duplicate());
        i = i + 1;
    }
    assert(elem_views(r@) =~= elem_views(elems@));
    r
}

/// Folds patches that are ordered by time into a timeline.
pub fn fold_patches(sorted: &Vec<Patch>) -> (g: Graphic)
    ensures
        g@ == fold_timeline(patch_views(sorted@)),
{
    let ghost all = patch_views(sorted@);
    let mut frame: Vec<Elem> = Vec::new();
    let mut time: Number = Number::zero();
    let mut initial: Option<Frame> = None;
    let mut transitions: Vec<Transition> = Vec::new();
    let mut i: usize = 0;
    assert(all.take(0) =~= Seq::<PatchView>::empty());
    assert(elem_views(frame@) =~= Seq::<ElemView>::empty());
    assert(transition_views(transitions@) =~= Seq::<TransitionView>::empty());
    while i < sorted.len()
        invariant
            i <= sorted.len(),
            all == patch_views(sorted@),
            elem_views(frame@) == engine_run(all.take(i as int)).frame,
            time == engine_run(all.take(i as int)).time,
            transition_views(transitions@) == engine_run(all.take(i as int)).transitions,
            match initial {
                Some(f) => f@ == engine_run(all.take(i as int)).initial && transitions.len() > 1,
                None => transitions.len() <= 1 && engine_run(all.take(i as int)).initial == (FrameView {
                    time,
                    elems: elem_views(frame@),
                }),
            },
        decreases sorted.len() - i,
    {
        let p: &Patch = &sorted[i];
        let ghost st = engine_run(all.take(i as int));
        proof {
            assert(all.take(i + 1).drop_last() =~= all.take(i as int));
            assert(all.take(i + 1).last() == p@);
            assert(engine_run(all.take(i + 1)) == engine_step(st, p@));
        }
        let fresh: bool = transitions.len() == 0 || !time.same_value(&p.time);
        assert(fresh == opens(st, p@));
        if fresh {
            if transitions.len() == 1 {
                initial = Some(Frame { time, elems: copy_elems(&frame) });
            }
            let ghost before = transition_views(transitions@);
            time = p.time;
            let t: Transition = Transition { time: p.time, prev: Vec::new(), next: Vec::new() };
            assert(diff_views(t.prev@) =~= Seq::<DiffView>::empty());
            assert(diff_views(t.next@) =~= Seq::<DiffView>::empty());
            transitions.push(t);
            assert(transition_views(transitions@) =~= before.push(
                TransitionView { time: p.time, prev: Seq::empty(), next: Seq::empty() },
            ));
        }
        assert(transition_views(transitions@) == opened(st, p@));
        let k: usize = transitions.len();
        let found: Option<usize> = find_in_frame(&frame, &p.elem);
        let ghost old_frame = elem_views(frame@);
        proof {
            lemma_position(old_frame, p@.elem.key());
        }
        match found {
            Some(j) => {
                assert(old_frame[j as int] == frame[j as int]@);
                if k > 1 {
                    let next: Diff = Diff::Update(p.elem.extract_diff_from(&frame[j]));
                    let prev: Diff = Diff::Update(frame[j].extract_diff_from(&p.elem));
                    assert(next@ == next_diff(st.frame, p@.elem));
                    assert(prev@ == prev_diff(st.frame, p@.elem));
                    let ghost ts = transition_views(transitions@);
                    let ghost n0 = diff_views(transitions[k - 2].next@);
                    let ghost p0 = diff_views(transitions[k - 1].prev@);
                    assert(ts[k - 2] == transitions[k - 2]@);
                    assert(ts[k - 1] == transitions[k - 1]@);
                    transitions[k - 2].next.push(next);
                    assert(diff_views(transitions[k - 2].next@) =~= n0.push(next@));
                    transitions[k - 1].prev.push(prev);
                    assert(diff_views(transitions[k - 1].prev@) =~= p0.push(prev@));
                    assert(transition_views(transitions@) =~= engine_step(st, p@).transitions);
                }
                frame[j] = p.elem.duplicate();
                assert(elem_views(frame@) =~= old_frame.update(j as int, p@.elem));
            },
            None => {
                if k > 1 {
                    let next: Diff = Diff::Create(p.elem.duplicate());
                    let prev: Diff = Diff::Delete(p.elem.get_this_elem_deleter());
                    assert(next@ == next_diff(st.frame, p@.elem));
                    assert(prev@ == prev_diff(st.frame, p@.elem));
                    let ghost ts = transition_views(transitions@);
                    let ghost n0 = diff_views(transitions[k - 2].next@);
                    let ghost p0 = diff_views(transitions[k - 1].prev@);
                    assert(ts[k - 2] == transitions[k - 2]@);
                    assert(ts[k - 1] == transitions[k - 1]@);
                    transitions[k - 2].next.push(next);
                    assert(diff_views(transitions[k - 2].next@) =~= n0.push(next@));
                    transitions[k - 1].prev.push(prev);
                    assert(diff_views(transitions[k - 1].prev@) =~= p0.push(prev@));
                    assert(transition_views(transitions@) =~= engine_step(st, p@).transitions);
                }
                frame.push(p.elem.duplicate());
                assert(elem_views(frame@) =~= old_frame.push(p@.elem));
            },
        }
        i = i + 1;
    }
    assert(all.take(sorted.len() as int) =~= all);
    let initial_frame: Frame = match initial {
        Some(f) => f,
        None => Frame { time, elems: copy_elems(&frame) },
    };
    Graphic { initial_frame, final_frame: Frame { time, elems: frame }, transitions }
}

impl Default for GraphicCreator {
    fn default() -> (c: GraphicCreator)
        ensures
            c.patches@.len() == 0,
            c.wf(),
    {
        GraphicCreator { patches: Vec::new() }
    }
}

impl GraphicCreator {
    /// The patches are what a timeline is made for: each records a full
    /// description of an element, and the groups of any two agree.
    pub open spec fn wf(&self) -> bool {
        recorded(patch_views(self.patches@))
    }

    /// Records an element at the current time. The creator stays well
    /// formed where the element is a full description whose group agrees
    /// with those recorded.
    pub fn add<T: ElementTrait>(&mut self, elem: T, ctx: &Context)
        ensures
            patch_views(final(self).patches@) == patch_views(old(self).patches@).push(
                PatchView { time: ctx.current_time, elem: elem.elem_view() },
            ),
            recorded(
                patch_views(old(self).patches@).push(
                    PatchView { time: ctx.current_time, elem: elem.elem_view() },
                ),
            ) ==> final(self).wf(),
    {
        let ghost before = patch_views(self.patches@);
        let patch: Patch = Patch { time: ctx.current_time, elem: elem.convert_to_elem() };
        self.patches.push(patch);
        assert(patch_views(self.patches@) =~= before.push(patch@));
    }

    /// The timeline of the patches recorded so far. Its transitions lead
    /// from the initial frame to the final frame, and back: playing every
    /// `next` in order on the initial frame gives the final frame, and
    /// playing every `prev` from the last to the first on the final frame
    /// gives the initial frame, place by place and up to the sign of a zero.
    pub fn create_graphic(&self) -> (g: Graphic)
        requires
            self.wf(),
            self.patches.len() <= u32::MAX,
        ensures
            g@ == timeline(patch_views(self.patches@)),
            same_frames(
                replay_forward(g@.initial_frame.elems, nexts(g@.transitions)),
                g@.final_frame.elems,
            ),
            same_frames(
                replay_backward(g@.final_frame.elems, prevs(g@.transitions)),
                g@.initial_frame.elems,
            ),
    {
        proof {
            law_frame_reconstruction(patch_views(self.patches@));
        }
        let sorted: Vec<Patch> = sorted_with_ids(&self.patches);
        fold_patches(&sorted)
    }
}

} // verus!
