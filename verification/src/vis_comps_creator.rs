//! The groups of a run: their charts, their graphics, and the elements that
//! wait to be computed.
use crate::chart::{
    chart_with,
    finished,
    lemma_chart_with_distinct,
    line_names,
    Chart,
    ChartCreator,
    LineDatum,
    LineView,
};
use crate::color::Color;
use crate::context::Context;
use crate::error::Error;
use crate::graphic::{patch_views, timeline, Graphic, GraphicCreator, GraphicView, PatchView};
use crate::graphic_elems::camera::{camera_of, Camera};
use crate::graphic_elems::circle::{circle_of, Circle, MultiParametricCircle};
use crate::graphic_elems::draft::{blend_of, Scalar};
use crate::graphic_elems::elems::{Draft, DraftView, Elem};
use crate::graphic_elems::path::{path_of, MultiParametricPath, Path};
use crate::graphic_elems::rect::{rect_draft_of, MultiParametricRect, Rect};
use crate::graphic_elems::view::ElemView;
use crate::number::Number;
use crate::setting::{GraphicPartsSetting, SettingView, ShapeKind};
use crate::replay::{
    groups_agree,
    law_frame_reconstruction,
    nexts,
    prevs,
    recorded,
    replay_backward,
    replay_forward,
    same_frames,
};
use crate::text::{
    distinct,
    lemma_distinct_push,
    lemma_name_place,
    lemma_name_place_is,
    name_place,
    str_eq,
};
use crate::traits::{build, from_words_and_setting, Params, Visualizable};
use crate::words::{word_views, Word, WordView};
use vstd::prelude::*;

verus! {

/// The patches of one group.
#[derive(Clone, Debug)]
pub struct GroupGraphic {
    pub group_id: String,
    pub creator: GraphicCreator,
}

/// The lines of one group.
#[derive(Clone, Debug)]
pub struct GroupChart {
    pub group_id: String,
    pub creator: ChartCreator,
}

/// An element that waits to be computed, with the clock of its command.
#[derive(Clone, Debug)]
pub struct Pending {
    pub ctx: Context,
    pub draft: Draft,
}

/// What a group shows: its graphic, its chart, or both.
#[derive(Clone, Debug)]
pub struct VisComps {
    pub group_id: String,
    pub graphic: Option<Graphic>,
    pub chart: Option<Chart>,
}

/// Collects what the commands of a run build, group by group. The groups
/// stand in the order in which they were first named.
#[derive(Clone, Debug)]
pub struct VisCompsCreator {
    pub group_id_to_graphic_creator: Vec<GroupGraphic>,
    pub group_id_to_chart_creator: Vec<GroupChart>,
    pub pending: Vec<Pending>,
}

/// The patches of a group, as a value.
pub struct GroupPatches {
    pub group_id: Seq<char>,
    pub patches: Seq<PatchView>,
}

/// The lines of a group, as a value.
pub struct GroupLines {
    pub group_id: Seq<char>,
    pub lines: Seq<LineView>,
}

/// A waiting element as a value.
pub struct PendingView {
    pub ctx: Context,
    pub draft: DraftView,
}

/// The output of a group as a value.
pub struct VisCompsView {
    pub group_id: Seq<char>,
    pub graphic: Option<GraphicView>,
    pub chart: Option<Seq<LineView>>,
}

/// The state of a creator as a value.
pub struct CreatorView {
    pub graphics: Seq<GroupPatches>,
    pub charts: Seq<GroupLines>,
    pub pending: Seq<PendingView>,
}

impl View for GroupGraphic {
    type V = GroupPatches;

    open spec fn view(&self) -> GroupPatches {
        GroupPatches { group_id: self.group_id@, patches: patch_views(self.creator.patches@) }
    }
}

impl View for GroupChart {
    type V = GroupLines;

    open spec fn view(&self) -> GroupLines {
        GroupLines { group_id: self.group_id@, lines: self.creator.chart@ }
    }
}

impl View for Pending {
    type V = PendingView;

    open spec fn view(&self) -> PendingView {
        PendingView { ctx: self.ctx, draft: self.draft@ }
    }
}

impl View for VisComps {
    type V = VisCompsView;

    open spec fn view(&self) -> VisCompsView {
        VisCompsView {
            group_id: self.group_id@,
            graphic: match self.graphic {
                Some(g) => Some(g@),
                None => None,
            },
            chart: match self.chart {
                Some(c) => Some(c@),
                None => None,
            },
        }
    }
}

impl View for VisCompsCreator {
    type V = CreatorView;

    open spec fn view(&self) -> CreatorView {
        CreatorView {
            graphics: Seq::new(
                self.group_id_to_graphic_creator@.len(),
                |i: int| self.group_id_to_graphic_creator@[i]@,
            ),
            charts: Seq::new(
                self.group_id_to_chart_creator@.len(),
                |i: int| self.group_id_to_chart_creator@[i]@,
            ),
            pending: Seq::new(self.pending@.len(), |i: int| self.pending@[i]@),
        }
    }
}

/// The outputs of a vector, as values.
pub open spec fn vis_comps_views(v: Seq<VisComps>) -> Seq<VisCompsView> {
    Seq::new(v.len(), |i: int| v[i]@)
}

/// The names of the groups that have patches.
pub open spec fn graphic_groups(graphics: Seq<GroupPatches>) -> Seq<Seq<char>> {
    Seq::new(graphics.len(), |i: int| graphics[i].group_id)
}

/// The names of the groups that have lines.
pub open spec fn chart_groups(charts: Seq<GroupLines>) -> Seq<Seq<char>> {
    Seq::new(charts.len(), |i: int| charts[i].group_id)
}

/// The names of the groups of an output.
pub open spec fn output_groups(out: Seq<VisCompsView>) -> Seq<Seq<char>> {
    Seq::new(out.len(), |i: int| out[i].group_id)
}

/// The groups after one more patch: the patch goes to the group of its
/// element, which is made if it is not there yet.
pub open spec fn with_patch(graphics: Seq<GroupPatches>, patch: PatchView) -> Seq<GroupPatches> {
    match name_place(graphic_groups(graphics), patch.elem.group_id) {
        Some(i) => graphics.update(
            i,
            GroupPatches { group_id: graphics[i].group_id, patches: graphics[i].patches.push(patch) },
        ),
        None => graphics.push(GroupPatches { group_id: patch.elem.group_id, patches: seq![patch] }),
    }
}

/// The groups after one more sample.
pub open spec fn with_datum(charts: Seq<GroupLines>, d: Params) -> Seq<GroupLines> {
    match name_place(chart_groups(charts), d.group_id) {
        Some(i) => charts.update(
            i,
            GroupLines { group_id: charts[i].group_id, lines: chart_with(charts[i].lines, d) },
        ),
        None => charts.push(
            GroupLines { group_id: d.group_id, lines: chart_with(Seq::empty(), d) },
        ),
    }
}

/// Every group holds full descriptions of elements, and only elements of
/// its own name.
pub open spec fn orderly(graphics: Seq<GroupPatches>) -> bool {
    forall|i: int, m: int|
        0 <= i < graphics.len() && 0 <= m < graphics[i].patches.len() ==> (
        #[trigger] graphics[i].patches[m]).elem.is_snapshot() && graphics[i].patches[m].elem.group_id
            == graphics[i].group_id
}

/// A full description of an element, recorded in its group, leaves the
/// groups orderly.
pub proof fn lemma_with_patch_orderly(graphics: Seq<GroupPatches>, patch: PatchView)
    requires
        orderly(graphics),
        patch.elem.is_snapshot(),
    ensures
        orderly(with_patch(graphics, patch)),
{
    let out = with_patch(graphics, patch);
    lemma_name_place(graphic_groups(graphics), patch.elem.group_id);
    assert forall|i: int, m: int| 0 <= i < out.len() && 0 <= m < out[i].patches.len() implies (
    #[trigger] out[i].patches[m]).elem.is_snapshot() && out[i].patches[m].elem.group_id
        == out[i].group_id by {
        match name_place(graphic_groups(graphics), patch.elem.group_id) {
            Some(k) => {
                assert(graphic_groups(graphics)[k] == graphics[k].group_id);
                if i == k {
                    if m < graphics[k].patches.len() {
                        assert(out[i].patches[m] == graphics[i].patches[m]);
                    }
                } else {
                    assert(out[i].patches[m] == graphics[i].patches[m]);
                }
            },
            None => {
                if i < graphics.len() {
                    assert(out[i].patches[m] == graphics[i].patches[m]);
                }
            },
        }
    }
}

/// The patches of a group of an orderly run are what a timeline is made
/// for.
pub proof fn lemma_orderly_recorded(graphics: Seq<GroupPatches>, i: int)
    requires
        orderly(graphics),
        0 <= i < graphics.len(),
    ensures
        recorded(graphics[i].patches),
{
    let patches = graphics[i].patches;
    assert forall|m: int, n: int| 0 <= m < patches.len() && 0 <= n < patches.len() implies (
    #[trigger] patches[m]).elem.is_snapshot() && groups_agree(
        patches[m].elem,
        (#[trigger] patches[n]).elem,
    ) by {
        assert(graphics[i].patches[m].elem.group_id == graphics[i].group_id);
        assert(graphics[i].patches[n].elem.group_id == graphics[i].group_id);
    }
}

/// One more patch leaves the names of the groups distinct: it goes to the
/// group of its name, or starts the one group of that name.
pub proof fn lemma_with_patch_distinct(graphics: Seq<GroupPatches>, patch: PatchView)
    requires
        distinct(graphic_groups(graphics)),
    ensures
        distinct(graphic_groups(with_patch(graphics, patch))),
{
    let names = graphic_groups(graphics);
    match name_place(names, patch.elem.group_id) {
        Some(k) => {
            lemma_name_place(names, patch.elem.group_id);
            assert(graphic_groups(with_patch(graphics, patch)) =~= names);
        },
        None => {
            lemma_distinct_push(names, patch.elem.group_id);
            assert(graphic_groups(with_patch(graphics, patch)) =~= names.push(patch.elem.group_id));
        },
    }
}

/// One more sample leaves the names of the groups and of the lines of each
/// group distinct.
pub proof fn lemma_with_datum_distinct(charts: Seq<GroupLines>, d: Params)
    requires
        distinct(chart_groups(charts)),
        forall|i: int| 0 <= i < charts.len() ==> distinct(line_names((#[trigger] charts[i]).lines)),
    ensures
        distinct(chart_groups(with_datum(charts, d))),
        forall|i: int|
            0 <= i < with_datum(charts, d).len() ==> distinct(
                line_names((#[trigger] with_datum(charts, d)[i]).lines),
            ),
{
    let names = chart_groups(charts);
    let out = with_datum(charts, d);
    match name_place(names, d.group_id) {
        Some(k) => {
            lemma_name_place(names, d.group_id);
            assert(chart_groups(out) =~= names);
            lemma_chart_with_distinct(charts[k].lines, d);
            assert forall|i: int| 0 <= i < out.len() implies distinct(
                line_names((#[trigger] out[i]).lines),
            ) by {
                if i != k {
                    assert(out[i] == charts[i]);
                }
            }
        },
        None => {
            lemma_distinct_push(names, d.group_id);
            assert(chart_groups(out) =~= names.push(d.group_id));
            assert(line_names(Seq::<LineView>::empty()) =~= Seq::<Seq<char>>::empty());
            lemma_chart_with_distinct(Seq::empty(), d);
            assert forall|i: int| 0 <= i < out.len() implies distinct(
                line_names((#[trigger] out[i]).lines),
            ) by {
                if i < charts.len() {
                    assert(out[i] == charts[i]);
                }
            }
        },
    }
}

/// The timeline of every group of an orderly run leads from its initial
/// frame to its final frame, and back.
pub proof fn law_group_reconstruction(graphics: Seq<GroupPatches>, i: int)
    requires
        orderly(graphics),
        0 <= i < graphics.len(),
        graphics[i].patches.len() <= u32::MAX,
    ensures
        recorded(graphics[i].patches),
        same_frames(
            replay_forward(
                timeline(graphics[i].patches).initial_frame.elems,
                nexts(timeline(graphics[i].patches).transitions),
            ),
            timeline(graphics[i].patches).final_frame.elems,
        ),
        same_frames(
            replay_backward(
                timeline(graphics[i].patches).final_frame.elems,
                prevs(timeline(graphics[i].patches).transitions),
            ),
            timeline(graphics[i].patches).initial_frame.elems,
        ),
{
    lemma_orderly_recorded(graphics, i);
    law_frame_reconstruction(graphics[i].patches);
}

impl CreatorView {
    /// The groups are in order: no group of patches and no group of lines is
    /// there twice, no line is twice in its group, and every group of
    /// patches holds full descriptions of elements of its own name.
    pub open spec fn sound(self) -> bool {
        &&& orderly(self.graphics)
        &&& distinct(graphic_groups(self.graphics))
        &&& distinct(chart_groups(self.charts))
        &&& forall|i: int|
            0 <= i < self.charts.len() ==> distinct(line_names((#[trigger] self.charts[i]).lines))
    }
}

/// What a command does with the parameters that it has read: a sample
/// goes to its line, a shape is put among the elements that wait to be
/// computed. A rectangle without a determined axis is refused.
pub open spec fn effect(kind: ShapeKind, p: Params, ctx: Context, cv: CreatorView) -> Result<
    CreatorView,
    Error,
> {
    match kind {
        ShapeKind::Chart => Ok(CreatorView { charts: with_datum(cv.charts, p), ..cv }),
        ShapeKind::Camera => Ok(
            CreatorView {
                pending: cv.pending.push(PendingView { ctx, draft: DraftView::Camera(camera_of(p)) }),
                ..cv
            },
        ),
        ShapeKind::Circle => Ok(
            CreatorView {
                pending: cv.pending.push(
                    PendingView { ctx, draft: DraftView::Circle(circle_of(p), blend_of(p)) },
                ),
                ..cv
            },
        ),
        ShapeKind::Path => Ok(
            CreatorView {
                pending: cv.pending.push(
                    PendingView { ctx, draft: DraftView::Path(path_of(p), blend_of(p)) },
                ),
                ..cv
            },
        ),
        ShapeKind::Rect => match rect_draft_of(p) {
            Ok(d) => Ok(
                CreatorView {
                    pending: cv.pending.push(PendingView { ctx, draft: DraftView::Rect(d) }),
                    ..cv
                },
            ),
            Err(e) => Err(e),
        },
    }
}

/// A command leaves the groups in order.
pub proof fn lemma_effect_sound(kind: ShapeKind, p: Params, ctx: Context, cv: CreatorView)
    requires
        cv.sound(),
    ensures
        effect(kind, p, ctx, cv) matches Ok(after) ==> after.sound(),
{
    if kind == ShapeKind::Chart {
        lemma_with_datum_distinct(cv.charts, p);
    }
}

/// What a command of the given kind does at `pos`: it reads its
/// parameters and takes effect. Gives the state after it and the place
/// behind the last word read.
pub open spec fn command_result(
    kind: ShapeKind,
    setting: SettingView,
    words: Seq<WordView>,
    pos: int,
    ctx: Context,
    cv: CreatorView,
) -> Result<(CreatorView, int), Error> {
    match build(kind, setting.default_values, setting.input_params, words, pos, ctx) {
        Ok((p, end)) => match effect(kind, p, ctx, cv) {
            Ok(after) => Ok((after, end)),
            Err(e) => Err(e),
        },
        Err(e) => Err(e),
    }
}

/// The patches after the first `n` of the elements that waited are
/// computed: each is recorded in its group, at the time of its command.
pub open spec fn commit_first(
    graphics: Seq<GroupPatches>,
    pending: Seq<PendingView>,
    elems: Seq<ElemView>,
    n: int,
) -> Seq<GroupPatches>
    decreases n,
{
    if n <= 0 || n > pending.len() || n > elems.len() {
        graphics
    } else {
        with_patch(
            commit_first(graphics, pending, elems, n - 1),
            PatchView { time: pending[n - 1].ctx.current_time, elem: elems[n - 1] },
        )
    }
}

/// The state after the elements that waited are computed to `elems`.
pub open spec fn committed(cv: CreatorView, elems: Seq<ElemView>) -> CreatorView {
    CreatorView {
        graphics: commit_first(cv.graphics, cv.pending, elems, cv.pending.len() as int),
        charts: cv.charts,
        pending: Seq::empty(),
    }
}

/// The elements that the drafts are computed to, one for each draft.
pub open spec fn resolved<E: Fn(Scalar) -> Number, B: Fn(Color, Color, Number) -> Color>(
    pending: Seq<PendingView>,
    elems: Seq<ElemView>,
    eval: &E,
    mix: &B,
) -> bool {
    &&& elems.len() == pending.len()
    &&& forall|i: int|
        0 <= i < pending.len() ==> (#[trigger] pending[i]).draft.resolves_to(elems[i], eval, mix)
            && elems[i].is_snapshot()
}

proof fn lemma_commit_first_extends(
    graphics: Seq<GroupPatches>,
    pending: Seq<PendingView>,
    elems: Seq<ElemView>,
    e: ElemView,
    n: int,
)
    requires
        n <= elems.len(),
    ensures
        commit_first(graphics, pending, elems.push(e), n) == commit_first(graphics, pending, elems, n),
    decreases n,
{
    if 0 < n <= pending.len() {
        lemma_commit_first_extends(graphics, pending, elems, e, n - 1);
        assert(elems.push(e)[n - 1] == elems[n - 1]);
    }
}

/// One output for each group that has lines, with its chart.
pub open spec fn chart_outputs(charts: Seq<GroupLines>) -> Seq<VisCompsView> {
    Seq::new(
        charts.len(),
        |i: int|
            VisCompsView {
                group_id: charts[i].group_id,
                graphic: None,
                chart: Some(finished(charts[i].lines)),
            },
    )
}

/// The outputs with the graphic of one more group: it joins the output of
/// its group, or makes a new one behind the others.
pub open spec fn with_graphic(out: Seq<VisCompsView>, g: GroupPatches) -> Seq<VisCompsView> {
    match name_place(output_groups(out), g.group_id) {
        Some(i) => out.update(i, VisCompsView { graphic: Some(timeline(g.patches)), ..out[i] }),
        None => out.push(
            VisCompsView { group_id: g.group_id, graphic: Some(timeline(g.patches)), chart: None },
        ),
    }
}

/// The outputs with the graphics of the first `n` groups.
pub open spec fn join_graphics(out: Seq<VisCompsView>, graphics: Seq<GroupPatches>, n: int) -> Seq<
    VisCompsView,
>
    decreases n,
{
    if n <= 0 || n > graphics.len() {
        out
    } else {
        with_graphic(join_graphics(out, graphics, n - 1), graphics[n - 1])
    }
}

/// The output of a run: one entry for each group that has a chart or a
/// graphic, with what it has. The groups with charts come first.
pub open spec fn vis_comps_of(cv: CreatorView) -> Seq<VisCompsView> {
    join_graphics(chart_outputs(cv.charts), cv.graphics, cv.graphics.len() as int)
}

/// The graphics of the first `n` groups join the outputs without naming a
/// group twice.
pub proof fn lemma_join_distinct(out: Seq<VisCompsView>, graphics: Seq<GroupPatches>, n: int)
    requires
        distinct(output_groups(out)),
    ensures
        distinct(output_groups(join_graphics(out, graphics, n))),
    decreases n,
{
    if 0 < n <= graphics.len() {
        lemma_join_distinct(out, graphics, n - 1);
        let before = join_graphics(out, graphics, n - 1);
        let g = graphics[n - 1];
        let names = output_groups(before);
        match name_place(names, g.group_id) {
            Some(k) => {
                lemma_name_place(names, g.group_id);
                assert(output_groups(with_graphic(before, g)) =~= names);
            },
            None => {
                lemma_distinct_push(names, g.group_id);
                assert(output_groups(with_graphic(before, g)) =~= names.push(g.group_id));
            },
        }
    }
}

/// In the output of a run each group occurs once.
pub proof fn law_output_groups_distinct(cv: CreatorView)
    requires
        distinct(chart_groups(cv.charts)),
    ensures
        distinct(output_groups(vis_comps_of(cv))),
{
    assert(output_groups(chart_outputs(cv.charts)) =~= chart_groups(cv.charts));
    lemma_join_distinct(chart_outputs(cv.charts), cv.graphics, cv.graphics.len() as int);
}

impl Default for VisCompsCreator {
    fn default() -> (c: VisCompsCreator)
        ensures
            c@.graphics.len() == 0,
            c@.charts.len() == 0,
            c@.pending.len() == 0,
            c@.sound(),
    {
        VisCompsCreator {
            group_id_to_graphic_creator: Vec::new(),
            group_id_to_chart_creator: Vec::new(),
            pending: Vec::new(),
        }
    }
}

impl VisCompsCreator {
    /// No group has more patches than identifiers can count.
    pub open spec fn within_limits(&self) -> bool {
        forall|i: int|
            0 <= i < self@.graphics.len() ==> (#[trigger] self@.graphics[i]).patches.len() <= u32::MAX
    }

    /// Every element that waits holds full descriptions where it holds
    /// elements.
    pub open spec fn pending_well_formed(&self) -> bool {
        forall|i: int| 0 <= i < self@.pending.len() ==> (#[trigger] self@.pending[i]).draft.well_formed()
    }

    /// Reads a sample from the words at `pos` on and gives it to its line.
    pub fn add_line_datum_from(
        &mut self,
        words: &Vec<Word>,
        pos: &mut usize,
        setting: &GraphicPartsSetting,
        ctx: &Context,
    ) -> (r: Result<(), Error>)
        requires
            *old(pos) <= words.len(),
        ensures
            match command_result(
                ShapeKind::Chart,
                setting@,
                word_views(words@),
                *old(pos) as int,
                *ctx,
                old(self)@,
            ) {
                Ok((cv, end)) => r is Ok && final(self)@ == cv && *final(pos) == end,
                Err(e) => r == Err::<(), Error>(e) && final(self)@ == old(self)@,
            },
            *final(pos) <= words.len(),
            old(self).pending_well_formed() ==> final(self).pending_well_formed(),
            old(self)@.sound() ==> final(self)@.sound(),
    {
        let datum: LineDatum = match from_words_and_setting::<LineDatum>(words, pos, setting, ctx) {
            Ok(d) => d,
            Err(e) => {
                return Err(e);
            },
        };
        let ghost before = self@;
        let ghost d = datum.params();
        proof {
            if before.sound() {
                lemma_effect_sound(ShapeKind::Chart, d, *ctx, before);
            }
        }
        let mut i: usize = 0;
        let n: usize = self.group_id_to_chart_creator.len();
        while i < n
            invariant
                i <= n,
                n == self.group_id_to_chart_creator.len(),
                before == self@,
                d == datum.params(),
                forall|j: int| 0 <= j < i ==> #[trigger] chart_groups(before.charts)[j] != d.group_id,
            ensures
                i <= n,
                i < n ==> chart_groups(before.charts)[i as int] == d.group_id,
                forall|j: int| 0 <= j < i ==> #[trigger] chart_groups(before.charts)[j] != d.group_id,
            decreases n - i,
        {
            assert(before.charts[i as int] == self.group_id_to_chart_creator[i as int]@);
            if str_eq(self.group_id_to_chart_creator[i].group_id.as_str(), datum.group_id.as_str()) {
                break ;
            }
            i = i + 1;
        }
        proof {
            lemma_name_place_is(chart_groups(before.charts), d.group_id, i as int);
        }
        if i == n {
            self.group_id_to_chart_creator.push(
                GroupChart { group_id: datum.group_id.clone(), creator: ChartCreator::default() },
            );
            assert(self.group_id_to_chart_creator[i as int].creator.chart@ =~= Seq::<LineView>::empty());
        }
        assert(self.group_id_to_chart_creator[i as int].group_id@ == d.group_id);
        let ghost lines = self.group_id_to_chart_creator[i as int].creator.chart@;
        self.group_id_to_chart_creator[i].creator.add_line_datum(datum);
        assert(self@.charts =~= with_datum(before.charts, d));
        assert(self@.graphics =~= before.graphics);
        assert(self@.pending =~= before.pending);
        Ok(())
    }

    /// Puts a draft among the elements that wait to be computed.
    pub fn add_draft(&mut self, draft: Draft, ctx: &Context)
        ensures
            final(self)@ == (CreatorView {
                pending: old(self)@.pending.push(PendingView { ctx: *ctx, draft: draft@ }),
                ..old(self)@
            }),
            old(self).pending_well_formed() && draft@.well_formed() ==> final(self).pending_well_formed(),
            old(self)@.sound() ==> final(self)@.sound(),
    {
        let ghost before = self@;
        self.pending.push(Pending { ctx: *ctx, draft });
        assert(self@.pending =~= before.pending.push(PendingView { ctx: *ctx, draft: draft@ }));
        assert(self@.graphics =~= before.graphics);
        assert(self@.charts =~= before.charts);
    }

    /// Reads a path from the words at `pos` on.
    pub fn add_path_from(
        &mut self,
        words: &Vec<Word>,
        pos: &mut usize,
        setting: &GraphicPartsSetting,
        ctx: &Context,
    ) -> (r: Result<(), Error>)
        requires
            *old(pos) <= words.len(),
        ensures
            match command_result(
                ShapeKind::Path,
                setting@,
                word_views(words@),
                *old(pos) as int,
                *ctx,
                old(self)@,
            ) {
                Ok((cv, end)) => r is Ok && final(self)@ == cv && *final(pos) == end,
                Err(e) => r == Err::<(), Error>(e) && final(self)@ == old(self)@,
            },
            *final(pos) <= words.len(),
            old(self).pending_well_formed() ==> final(self).pending_well_formed(),
            old(self)@.sound() ==> final(self)@.sound(),
    {
        let value: MultiParametricPath = match from_words_and_setting::<MultiParametricPath>(
            words,
            pos,
            setting,
            ctx,
        ) {
            Ok(v) => v,
            Err(e) => {
                return Err(e);
            },
        };
        let (path, blend) = Path::try_from(value);
        self.add_draft(Draft::Path(path, blend), ctx);
        Ok(())
    }

    /// Reads a rectangle from the words at `pos` on.
    pub fn add_rect_from(
        &mut self,
        words: &Vec<Word>,
        pos: &mut usize,
        setting: &GraphicPartsSetting,
        ctx: &Context,
    ) -> (r: Result<(), Error>)
        requires
            *old(pos) <= words.len(),
        ensures
            match command_result(
                ShapeKind::Rect,
                setting@,
                word_views(words@),
                *old(pos) as int,
                *ctx,
                old(self)@,
            ) {
                Ok((cv, end)) => r is Ok && final(self)@ == cv && *final(pos) == end,
                Err(e) => r == Err::<(), Error>(e) && final(self)@ == old(self)@,
            },
            *final(pos) <= words.len(),
            old(self).pending_well_formed() ==> final(self).pending_well_formed(),
            old(self)@.sound() ==> final(self)@.sound(),
    {
        let value: MultiParametricRect = match from_words_and_setting::<MultiParametricRect>(
            words,
            pos,
            setting,
            ctx,
        ) {
            Ok(v) => v,
            Err(e) => {
                return Err(e);
            },
        };
        let draft = match Rect::try_from(value) {
            Ok(d) => d,
            Err(e) => {
                return Err(e);
            },
        };
        self.add_draft(Draft::Rect(draft), ctx);
        Ok(())
    }

    /// Reads a circle from the words at `pos` on.
    pub fn add_circle_from(
        &mut self,
        words: &Vec<Word>,
        pos: &mut usize,
        setting: &GraphicPartsSetting,
        ctx: &Context,
    ) -> (r: Result<(), Error>)
        requires
            *old(pos) <= words.len(),
        ensures
            match command_result(
                ShapeKind::Circle,
                setting@,
                word_views(words@),
                *old(pos) as int,
                *ctx,
                old(self)@,
            ) {
                Ok((cv, end)) => r is Ok && final(self)@ == cv && *final(pos) == end,
                Err(e) => r == Err::<(), Error>(e) && final(self)@ == old(self)@,
            },
            *final(pos) <= words.len(),
            old(self).pending_well_formed() ==> final(self).pending_well_formed(),
            old(self)@.sound() ==> final(self)@.sound(),
    {
        let value: MultiParametricCircle = match from_words_and_setting::<MultiParametricCircle>(
            words,
            pos,
            setting,
            ctx,
        ) {
            Ok(v) => v,
            Err(e) => {
                return Err(e);
            },
        };
        let (circle, blend) = Circle::try_from(value);
        self.add_draft(Draft::Circle(circle, blend), ctx);
        Ok(())
    }

    /// Reads a camera from the words at `pos` on.
    pub fn add_camera_from(
        &mut self,
        words: &Vec<Word>,
        pos: &mut usize,
        setting: &GraphicPartsSetting,
        ctx: &Context,
    ) -> (r: Result<(), Error>)
        requires
            *old(pos) <= words.len(),
        ensures
            match command_result(
                ShapeKind::Camera,
                setting@,
                word_views(words@),
                *old(pos) as int,
                *ctx,
                old(self)@,
            ) {
                Ok((cv, end)) => r is Ok && final(self)@ == cv && *final(pos) == end,
                Err(e) => r == Err::<(), Error>(e) && final(self)@ == old(self)@,
            },
            *final(pos) <= words.len(),
            old(self).pending_well_formed() ==> final(self).pending_well_formed(),
            old(self)@.sound() ==> final(self)@.sound(),
    {
        let camera: Camera = match from_words_and_setting::<Camera>(words, pos, setting, ctx) {
            Ok(v) => v,
            Err(e) => {
                return Err(e);
            },
        };
        self.add_draft(Draft::Camera(camera.completed()), ctx);
        Ok(())
    }

    /// Records an element in its group, at the current time.
    pub fn add_elem(&mut self, elem: Elem, ctx: &Context)
        ensures
            final(self)@ == (CreatorView {
                graphics: with_patch(
                    old(self)@.graphics,
                    PatchView { time: ctx.current_time, elem: elem@ },
                ),
                ..old(self)@
            }),
            old(self)@.sound() && elem@.is_snapshot() ==> final(self)@.sound(),
    {
        let ghost before = self@;
        let ghost patch = PatchView { time: ctx.current_time, elem: elem@ };
        proof {
            if before.sound() && elem@.is_snapshot() {
                lemma_with_patch_orderly(before.graphics, patch);
                lemma_with_patch_distinct(before.graphics, patch);
            }
        }
        let mut i: usize = 0;
        let n: usize = self.group_id_to_graphic_creator.len();
        while i < n
            invariant
                i <= n,
                n == self.group_id_to_graphic_creator.len(),
                before == self@,
                forall|j: int|
                    0 <= j < i ==> #[trigger] graphic_groups(before.graphics)[j] != elem@.group_id,
            ensures
                i <= n,
                i < n ==> graphic_groups(before.graphics)[i as int] == elem@.group_id,
                forall|j: int|
                    0 <= j < i ==> #[trigger] graphic_groups(before.graphics)[j] != elem@.group_id,
            decreases n - i,
        {
            assert(before.graphics[i as int] == self.group_id_to_graphic_creator[i as int]@);
            if str_eq(self.group_id_to_graphic_creator[i].group_id.as_str(), elem.group_id()) {
                break ;
            }
            i = i + 1;
        }
        proof {
            lemma_name_place_is(graphic_groups(before.graphics), elem@.group_id, i as int);
        }
        if i == n {
            let name: String = String::from_str(elem.group_id());
            self.group_id_to_graphic_creator.push(
                GroupGraphic { group_id: name, creator: GraphicCreator::default() },
            );
            assert(patch_views(self.group_id_to_graphic_creator[i as int].creator.patches@)
                =~= Seq::<PatchView>::empty());
        }
        self.group_id_to_graphic_creator[i].creator.add(elem, ctx);
        assert(Seq::<PatchView>::empty().push(patch) =~= seq![patch]);
        assert(self@.graphics =~= with_patch(before.graphics, patch));
        assert(self@.charts =~= before.charts);
        assert(self@.pending =~= before.pending);
    }

    /// Computes the elements that wait, each formula by `eval` and each
    /// gradient by `mix`, and records them in their groups in the order
    /// of their commands.
    pub fn resolve<E: Fn(Scalar) -> Number, B: Fn(Color, Color, Number) -> Color>(
        &mut self,
        eval: &E,
        mix: &B,
    )
        requires
            old(self).pending_well_formed(),
            forall|s: Scalar| #[trigger] eval.requires((s,)),
            forall|a: Color, b: Color, r: Number| #[trigger] mix.requires((a, b, r)),
        ensures
            exists|elems: Seq<ElemView>|
                resolved(old(self)@.pending, elems, eval, mix) && final(self)@ == #[trigger] committed(
                    old(self)@,
                    elems,
                ),
            old(self)@.sound() ==> final(self)@.sound(),
    {
        let ghost before = self@;
        let mut waiting: Vec<Pending> = Vec::new();
        core::mem::swap(&mut self.pending, &mut waiting);
        assert(self@.pending =~= Seq::<PendingView>::empty());
        assert(self@.graphics =~= before.graphics);
        assert(self@.charts =~= before.charts);
        // The drafts are taken from the back, so they are turned round first.
        let n: usize = waiting.len();
        let mut turned: Vec<Pending> = Vec::new();
        while waiting.len() > 0
            invariant
                waiting.len() + turned.len() == n,
                n == before.pending.len(),
                forall|j: int| 0 <= j < waiting.len() ==> (#[trigger] waiting[j])@ == before.pending[j],
                forall|j: int|
                    0 <= j < turned.len() ==> (#[trigger] turned[j])@ == before.pending[n - 1 - j],
            decreases waiting.len(),
        {
            let p: Pending = waiting.pop().unwrap();
            turned.push(p);
        }
        let ghost elems: Seq<ElemView> = Seq::empty();
        let mut i: usize = 0;
        while i < n
            invariant
                i <= n,
                turned.len() == n - i,
                n == before.pending.len(),
                forall|j: int|
                    0 <= j < turned.len() ==> (#[trigger] turned[j])@ == before.pending[n - 1 - j],
                forall|j: int| 0 <= j < n ==> (#[trigger] before.pending[j]).draft.well_formed(),
                forall|s: Scalar| #[trigger] eval.requires((s,)),
                forall|a: Color, b: Color, r: Number| #[trigger] mix.requires((a, b, r)),
                elems.len() == i,
                forall|j: int|
                    0 <= j < i ==> (#[trigger] before.pending[j]).draft.resolves_to(elems[j], eval, mix)
                        && elems[j].is_snapshot(),
                self@.graphics == commit_first(before.graphics, before.pending, elems, i as int),
                before.sound() ==> self@.sound(),
                self@.charts == before.charts,
                self@.pending == Seq::<PendingView>::empty(),
            decreases n - i,
        {
            let p: Pending = turned.pop().unwrap();
            assert(p@ == before.pending[i as int]);
            let elem: Elem = p.draft.resolve(eval, mix);
            proof {
                lemma_commit_first_extends(before.graphics, before.pending, elems, elem@, i as int);
                elems = elems.push(elem@);
            }
            self.add_elem(elem, &p.ctx);
            i = i + 1;
        }
        assert(self@ == committed(before, elems));
    }

    /// The output of the run: for each group its chart, with the samples
    /// of each line in order, and its graphic. Each group occurs once.
    pub fn create_vis_comps(&self) -> (out: Vec<VisComps>)
        requires
            self@.sound(),
            self.within_limits(),
        ensures
            vis_comps_views(out@) == vis_comps_of(self@),
            distinct(output_groups(vis_comps_views(out@))),
    {
        proof {
            law_output_groups_distinct(self@);
        }
        let mut out: Vec<VisComps> = Vec::new();
        let mut i: usize = 0;
        while i < self.group_id_to_chart_creator.len()
            invariant
                i <= self.group_id_to_chart_creator.len(),
                out.len() == i,
                forall|j: int| 0 <= j < i ==> (#[trigger] out[j])@ == chart_outputs(self@.charts)[j],
            decreases self.group_id_to_chart_creator.len() - i,
        {
            let g: &GroupChart = &self.group_id_to_chart_creator[i];
            assert(self@.charts[i as int] == g@);
            out.push(
                VisComps {
                    group_id: g.group_id.clone(),
                    graphic: None,
                    chart: Some(g.creator.create_chart()),
                },
            );
            i = i + 1;
        }
        assert(vis_comps_views(out@) =~= chart_outputs(self@.charts));
        let mut k: usize = 0;
        while k < self.group_id_to_graphic_creator.len()
            invariant
                k <= self.group_id_to_graphic_creator.len(),
                self.within_limits(),
                self@.sound(),
                vis_comps_views(out@) == join_graphics(
                    chart_outputs(self@.charts),
                    self@.graphics,
                    k as int,
                ),
            decreases self.group_id_to_graphic_creator.len() - k,
        {
            let g: &GroupGraphic = &self.group_id_to_graphic_creator[k];
            assert(self@.graphics[k as int] == g@);
            let ghost before = vis_comps_views(out@);
            proof {
                lemma_orderly_recorded(self@.graphics, k as int);
            }
            let graphic: Graphic = g.creator.create_graphic();
            let mut at: usize = 0;
            let n: usize = out.len();
            while at < n
                invariant
                    at <= n,
                    n == out.len(),
                    before == vis_comps_views(out@),
                    forall|j: int| 0 <= j < at ==> #[trigger] output_groups(before)[j] != g.group_id@,
                ensures
                    at <= n,
                    at < n ==> output_groups(before)[at as int] == g.group_id@,
                    forall|j: int| 0 <= j < at ==> #[trigger] output_groups(before)[j] != g.group_id@,
                decreases n - at,
            {
                assert(before[at as int] == out[at as int]@);
                if str_eq(out[at].group_id.as_str(), g.group_id.as_str()) {
                    break ;
                }
                at = at + 1;
            }
            proof {
                lemma_name_place_is(output_groups(before), g.group_id@, at as int);
            }
            if at == n {
                out.push(VisComps { group_id: g.group_id.clone(), graphic: Some(graphic), chart: None });
            } else {
                assert(before[at as int] == out[at as int]@);
                out[at].graphic = Some(graphic);
            }
            assert(vis_comps_views(out@) =~= with_graphic(before, g@));
            k = k + 1;
        }
        out
    }
}

} // verus!
