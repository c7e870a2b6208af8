//! Line charts: the samples of each line of a group.
use crate::color::{Color, Palette};
use crate::context::Context;
use crate::error::Error;
use crate::number::Number;
use crate::point::Point;
use crate::setting::ShapeKind;
use crate::text::{distinct, str_eq};
use crate::traits::{blank_params, Params, Visualizable};
use crate::words::Word;
use vstd::prelude::*;

verus! {

/// One sample for a line, as a command gives it.
#[derive(Clone, Debug)]
pub struct LineDatum {
    pub group_id: String,
    pub line_id: String,
    pub color: Option<Color>,
    pub x: Option<Number>,
    pub y: Option<Number>,
}

/// A line: its name, its color and its samples.
#[derive(Clone, Debug)]
pub struct Line {
    pub line_id: String,
    pub color: Color,
    pub data: Vec<Point>,
}

/// The lines of a group, in the order in which they were first named. No
/// two lines have the same name.
#[derive(Clone, Debug)]
pub struct Chart {
    pub line_id_to_line: Vec<Line>,
}

/// Collects the samples of the lines of a group.
#[derive(Clone, Debug)]
pub struct ChartCreator {
    pub chart: Chart,
}

/// How the samples of a line are written out.
#[derive(Clone, Debug)]
pub enum LineData {
    /// The ordinates alone: the abscissas are 0, 1, 2, ...
    Values(Vec<Number>),
    /// The samples as pairs.
    Pairs(Vec<Point>),
}

/// A line as a value.
pub struct LineView {
    pub line_id: Seq<char>,
    pub color: Color,
    pub data: Seq<Point>,
}

impl View for Line {
    type V = LineView;

    open spec fn view(&self) -> LineView {
        LineView { line_id: self.line_id@, color: self.color, data: self.data@ }
    }
}

impl View for Chart {
    type V = Seq<LineView>;

    open spec fn view(&self) -> Seq<LineView> {
        Seq::new(self.line_id_to_line@.len(), |i: int| self.line_id_to_line@[i]@)
    }
}

/// The place of the line with the given name.
pub open spec fn line_place(lines: Seq<LineView>, line_id: Seq<char>) -> Option<int>
    decreases lines.len(),
{
    if lines.len() == 0 {
        None
    } else if lines[0].line_id == line_id {
        Some(0)
    } else {
        match line_place(lines.drop_first(), line_id) {
            Some(i) => Some(i + 1),
            None => None,
        }
    }
}

/// `line_place` gives the first place that holds the name, and none only
/// where no place holds it.
pub proof fn lemma_line_place(lines: Seq<LineView>, line_id: Seq<char>)
    ensures
        match line_place(lines, line_id) {
            Some(i) => 0 <= i < lines.len() && lines[i].line_id == line_id && forall|j: int|
                0 <= j < i ==> (#[trigger] lines[j]).line_id != line_id,
            None => forall|j: int| 0 <= j < lines.len() ==> (#[trigger] lines[j]).line_id != line_id,
        },
    decreases lines.len(),
{
    if lines.len() > 0 && lines[0].line_id != line_id {
        let rest = lines.drop_first();
        lemma_line_place(rest, line_id);
        match line_place(rest, line_id) {
            Some(i) => {
                assert forall|j: int| 0 <= j < i + 1 implies (#[trigger] lines[j]).line_id
                    != line_id by {
                    if j > 0 {
                        assert(rest[j - 1].line_id != line_id);
                    }
                }
            },
            None => {
                assert forall|j: int| 0 <= j < lines.len() implies (#[trigger] lines[j]).line_id
                    != line_id by {
                    if j > 0 {
                        assert(rest[j - 1].line_id != line_id);
                    }
                }
            },
        }
    }
}

/// The names of the lines.
pub open spec fn line_names(lines: Seq<LineView>) -> Seq<Seq<char>> {
    Seq::new(lines.len(), |i: int| lines[i].line_id)
}

/// A line after one more sample: a color that the sample carries becomes
/// the color of the line, and the sample is appended where it has both
/// coordinates.
pub open spec fn line_with(line: LineView, d: Params) -> LineView {
    LineView {
        line_id: line.line_id,
        color: match d.color {
            Some(c) => c,
            None => line.color,
        },
        data: match (d.x, d.y) {
            (Some(x), Some(y)) => line.data.push(Point { x, y }),
            _ => line.data,
        },
    }
}

/// The line that a name starts: green, without samples.
pub open spec fn new_line(line_id: Seq<char>) -> LineView {
    LineView { line_id, color: Color { r: 62, g: 179, b: 112 }, data: Seq::empty() }
}

/// The lines after one more sample: the line of the sample is made if it
/// is not there yet, and takes the sample.
pub open spec fn chart_with(lines: Seq<LineView>, d: Params) -> Seq<LineView> {
    match line_place(lines, d.name) {
        Some(i) => lines.update(i, line_with(lines[i], d)),
        None => lines.push(line_with(new_line(d.name), d)),
    }
}

/// One more sample leaves the names of the lines distinct: it goes to the
/// line of its name, or starts the one line of that name.
pub proof fn lemma_chart_with_distinct(lines: Seq<LineView>, d: Params)
    requires
        distinct(line_names(lines)),
    ensures
        distinct(line_names(chart_with(lines, d))),
{
    lemma_line_place(lines, d.name);
    let out = chart_with(lines, d);
    let names = line_names(lines);
    let after = line_names(out);
    assert forall|i: int, j: int| 0 <= i < j < after.len() implies after[i] != after[j] by {
        match line_place(lines, d.name) {
            Some(k) => {
                assert(after[i] == names[i] && after[j] == names[j]);
            },
            None => {
                if j < lines.len() {
                    assert(after[i] == names[i] && after[j] == names[j]);
                } else {
                    assert(after[i] == lines[i].line_id);
                }
            },
        }
    }
}

/// A sample put into samples that are ordered by abscissa: behind every
/// sample whose abscissa is not larger.
pub open spec fn insert_by_x(sorted: Seq<Point>, p: Point) -> Seq<Point>
    decreases sorted.len(),
{
    if sorted.len() == 0 {
        seq![p]
    } else if sorted.last().x.rank() <= p.x.rank() {
        sorted.push(p)
    } else {
        insert_by_x(sorted.drop_last(), p).push(sorted.last())
    }
}

/// The samples ordered by abscissa, ascending; samples of the same abscissa
/// keep their order, and samples without a number for an abscissa come
/// last.
pub open spec fn sort_by_x(data: Seq<Point>) -> Seq<Point>
    decreases data.len(),
{
    if data.len() == 0 {
        Seq::empty()
    } else {
        insert_by_x(sort_by_x(data.drop_last()), data.last())
    }
}

/// No sample has a smaller abscissa than one before it.
pub open spec fn x_sorted(data: Seq<Point>) -> bool {
    forall|i: int, j: int| 0 <= i < j < data.len() ==> data[i].x.rank() <= data[j].x.rank()
}

/// Putting a sample in is inserting it at the place behind which every
/// sample has a larger abscissa, and before which the nearest has not.
pub proof fn lemma_insert_by_x_at(sorted: Seq<Point>, p: Point, k: int)
    requires
        0 <= k <= sorted.len(),
        forall|j: int| k <= j < sorted.len() ==> (#[trigger] sorted[j]).x.rank() > p.x.rank(),
        k > 0 ==> sorted[k - 1].x.rank() <= p.x.rank(),
    ensures
        insert_by_x(sorted, p) == sorted.insert(k, p),
    decreases sorted.len(),
{
    if sorted.len() == 0 {
        assert(sorted.insert(k, p) =~= seq![p]);
    } else if k == sorted.len() {
        assert(sorted.insert(k, p) =~= sorted.push(p));
    } else {
        assert(sorted.last().x.rank() > p.x.rank());
        let rest = sorted.drop_last();
        assert forall|j: int| k <= j < rest.len() implies (#[trigger] rest[j]).x.rank()
            > p.x.rank() by {
            assert(rest[j] == sorted[j]);
        }
        if k > 0 {
            assert(rest[k - 1] == sorted[k - 1]);
        }
        lemma_insert_by_x_at(rest, p, k);
        assert(rest.insert(k, p).push(sorted.last()) =~= sorted.insert(k, p));
    }
}

/// Putting a sample into ordered samples leaves them ordered.
pub proof fn lemma_insert_by_x_sorted(sorted: Seq<Point>, p: Point)
    requires
        x_sorted(sorted),
    ensures
        x_sorted(insert_by_x(sorted, p)),
        insert_by_x(sorted, p).len() == sorted.len() + 1,
        forall|i: int|
            0 <= i < insert_by_x(sorted, p).len() ==> #[trigger] insert_by_x(sorted, p)[i] == p
                || sorted.contains(insert_by_x(sorted, p)[i]),
    decreases sorted.len(),
{
    if sorted.len() > 0 && sorted.last().x.rank() > p.x.rank() {
        let rest = sorted.drop_last();
        assert forall|i: int, j: int| 0 <= i < j < rest.len() implies rest[i].x.rank()
            <= rest[j].x.rank() by {
            assert(rest[i] == sorted[i] && rest[j] == sorted[j]);
        }
        lemma_insert_by_x_sorted(rest, p);
        let inner = insert_by_x(rest, p);
        let out = inner.push(sorted.last());
        assert forall|i: int| 0 <= i < out.len() implies #[trigger] out[i] == p || sorted.contains(
            out[i],
        ) by {
            if i < inner.len() {
                if inner[i] != p {
                    assert(rest.contains(inner[i]));
                    let m = choose|m: int| 0 <= m < rest.len() && rest[m] == inner[i];
                    assert(sorted[m] == inner[i]);
                }
            } else {
                assert(sorted[sorted.len() - 1] == out[i]);
            }
        }
        assert forall|i: int, j: int| 0 <= i < j < out.len() implies out[i].x.rank()
            <= out[j].x.rank() by {
            if j < inner.len() {
                assert(inner[i].x.rank() <= inner[j].x.rank());
            } else {
                if inner[i] != p {
                    assert(rest.contains(inner[i]));
                    let m = choose|m: int| 0 <= m < rest.len() && rest[m] == inner[i];
                    assert(sorted[m].x.rank() <= sorted[sorted.len() - 1].x.rank());
                }
            }
        }
    } else if sorted.len() > 0 {
        let out = sorted.push(p);
        assert forall|i: int| 0 <= i < out.len() implies #[trigger] out[i] == p || sorted.contains(
            out[i],
        ) by {
            if i < sorted.len() {
                assert(sorted[i] == out[i]);
            }
        }
        assert forall|i: int, j: int| 0 <= i < j < out.len() implies out[i].x.rank()
            <= out[j].x.rank() by {
            if j < sorted.len() {
                assert(sorted[i].x.rank() <= sorted[j].x.rank());
            } else if i < sorted.len() - 1 {
                assert(sorted[i].x.rank() <= sorted[sorted.len() - 1].x.rank());
            }
        }
    }
}

/// The samples of a finished line are ordered by abscissa, ascending: no
/// sample has a smaller abscissa than one before it.
pub proof fn law_chart_sorted(data: Seq<Point>)
    ensures
        x_sorted(sort_by_x(data)),
        sort_by_x(data).len() == data.len(),
        forall|i: int, j: int|
            0 <= i < j < data.len() ==> !sort_by_x(data)[j].x.precedes(sort_by_x(data)[i].x),
    decreases data.len(),
{
    if data.len() > 0 {
        law_chart_sorted(data.drop_last());
        lemma_insert_by_x_sorted(sort_by_x(data.drop_last()), data.last());
    }
    let s = sort_by_x(data);
    assert forall|i: int, j: int| 0 <= i < j < data.len() implies !s[j].x.precedes(s[i].x) by {
        assert(s[i].x.rank() <= s[j].x.rank());
    }
}

/// The lines with the samples of each ordered by abscissa.
pub open spec fn finished(lines: Seq<LineView>) -> Seq<LineView> {
    Seq::new(
        lines.len(),
        |i: int| LineView { line_id: lines[i].line_id, color: lines[i].color, data: sort_by_x(lines[i].data) },
    )
}

/// The abscissas are the whole numbers 0, 1, 2, ... in order.
pub open spec fn consecutive(data: Seq<Point>) -> bool {
    forall|i: int| 0 <= i < data.len() ==> (#[trigger] data[i]).x.is_whole(i as nat)
}

/// The ordinates of the samples.
pub open spec fn ordinates(data: Seq<Point>) -> Seq<Number> {
    Seq::new(data.len(), |i: int| data[i].y)
}

impl LineData {
    /// The ordinates of the samples, and nothing else.
    pub open spec fn is_values_of(self, data: Seq<Point>) -> bool {
        match self {
            LineData::Values(v) => v@ == ordinates(data),
            LineData::Pairs(_) => false,
        }
    }

    /// The samples as they are.
    pub open spec fn is_pairs_of(self, data: Seq<Point>) -> bool {
        match self {
            LineData::Values(_) => false,
            LineData::Pairs(v) => v@ == data,
        }
    }
}

impl Default for LineDatum {
    /// A sample for the line `line0` of `group0`, with nothing set.
    fn default() -> (d: LineDatum)
        ensures
            d.params() == crate::traits::initial_params(ShapeKind::Chart),
    {
        LineDatum {
            group_id: String::from_str("group0"),
            line_id: String::from_str("line0"),
            color: None,
            x: None,
            y: None,
        }
    }
}

impl Default for Line {
    /// The green line `line0` without samples.
    fn default() -> (l: Line)
        ensures
            l@ == new_line("line0"@),
    {
        Line { line_id: String::from_str("line0"), color: Palette::green(), data: Vec::new() }
    }
}

impl Default for ChartCreator {
    fn default() -> (c: ChartCreator)
        ensures
            c.chart@.len() == 0,
    {
        ChartCreator { chart: Chart { line_id_to_line: Vec::new() } }
    }
}

impl Visualizable for LineDatum {
    open spec fn shape() -> ShapeKind {
        ShapeKind::Chart
    }

    open spec fn params(&self) -> Params {
        Params {
            group_id: self.group_id@,
            name: self.line_id@,
            color: self.color,
            x: self.x,
            y: self.y,
            ..blank_params()
        }
    }

    fn kind() -> (k: ShapeKind) {
        ShapeKind::Chart
    }

    fn start() -> (r: LineDatum) {
        LineDatum::default()
    }

    fn set_by_param_name_and_word(&mut self, param_name: &str, word: &Word, ctx: &Context) -> (r:
        Result<(), Error>) {
        if str_eq(param_name, "groupID") {
            self.group_id = word.text.clone();
            Ok(())
        } else if str_eq(param_name, "lineID") {
            self.line_id = word.text.clone();
            Ok(())
        } else if str_eq(param_name, "color") {
            self.color = Some(Color::from_str_based_on(word.text.as_str())?);
            Ok(())
        } else if str_eq(param_name, "x") {
            self.x = Some(word.number_based_on(ctx)?);
            Ok(())
        } else if str_eq(param_name, "y") {
            self.y = Some(word.number_based_on(ctx)?);
            Ok(())
        } else {
            Err(Error::UnknownParam)
        }
    }

    fn set_points(&mut self, words: &Vec<Word>, pos: &mut usize, ctx: &Context) -> (r: Result<
        (),
        Error,
    >) {
        Err(Error::UnknownParam)
    }
}

/// The samples ordered by abscissa.
pub fn sorted_by_x(data: &Vec<Point>) -> (out: Vec<Point>)
    ensures
        out@ == sort_by_x(data@),
{
    let mut out: Vec<Point> = Vec::new();
    let mut i: usize = 0;
    assert(data@.take(0) =~= Seq::<Point>::empty());
    while i < data.len()
        invariant
            i <= data.len(),
            out@ == sort_by_x(data@.take(i as int)),
        decreases data.len() - i,
    {
        let p: Point = data[i];
        let rank: i128 = p.x.sort_rank();
        let mut at: usize = out.len();
        while at > 0 && out[at - 1].x.sort_rank() > rank
            invariant
                at <= out.len(),
                rank == p.x.rank(),
                forall|j: int| at <= j < out.len() ==> (#[trigger] out@[j]).x.rank() > rank,
            decreases at,
        {
            at = at - 1;
        }
        proof {
            lemma_insert_by_x_at(out@, p, at as int);
            assert(data@.take(i + 1).drop_last() =~= data@.take(i as int));
            assert(data@.take(i + 1).last() == p);
        }
        out.insert(at, p);
        i = i + 1;
    }
    assert(data@.take(data.len() as int) =~= data@);
    out
}

impl Line {
    /// How the samples are written out: the ordinates alone where the
    /// abscissas are 0, 1, 2, ... in order, and pairs otherwise.
    pub fn data_layout(&self) -> (r: LineData)
        ensures
            consecutive(self.data@) ==> r.is_values_of(self.data@),
            !consecutive(self.data@) ==> r.is_pairs_of(self.data@),
    {
        let mut values: Vec<Number> = Vec::new();
        let mut i: usize = 0;
        while i < self.data.len()
            invariant
                i <= self.data.len(),
                values.len() == i,
                forall|j: int| 0 <= j < i ==> (#[trigger] self.data@[j]).x.is_whole(j as nat),
                forall|j: int| 0 <= j < i ==> #[trigger] values[j] == self.data@[j].y,
            decreases self.data.len() - i,
        {
            if !self.data[i].x.is_whole_number(i as u64) {
                assert(!self.data@[i as int].x.is_whole(i as nat));
                return LineData::Pairs(crate::point::copy_points(&self.data));
            }
            values.push(self.data[i].y);
            i = i + 1;
        }
        assert(values@ =~= ordinates(self.data@));
        LineData::Values(values)
    }
}

impl ChartCreator {
    /// Takes one more sample.
    pub fn add_line_datum(&mut self, datum: LineDatum)
        ensures
            final(self).chart@ == chart_with(old(self).chart@, datum.params()),
            distinct(line_names(old(self).chart@)) ==> distinct(line_names(final(self).chart@)),
    {
        let ghost lines = self.chart@;
        let ghost d = datum.params();
        proof {
            if distinct(line_names(lines)) {
                lemma_chart_with_distinct(lines, d);
            }
        }
        let mut i: usize = 0;
        let n: usize = self.chart.line_id_to_line.len();
        let mut found: bool = false;
        while i < n
            invariant_except_break
                !found,
                forall|j: int| 0 <= j < i ==> (#[trigger] lines[j]).line_id != datum.line_id@,
            invariant
                i <= n,
                n == self.chart.line_id_to_line.len(),
                lines == self.chart@,
            ensures
                i <= n,
                found ==> i < n && lines[i as int].line_id == datum.line_id@,
                forall|j: int| 0 <= j < i ==> (#[trigger] lines[j]).line_id != datum.line_id@,
                !found ==> i == n,
            decreases n - i,
        {
            assert(lines[i as int] == self.chart.line_id_to_line[i as int]@);
            if str_eq(self.chart.line_id_to_line[i].line_id.as_str(), datum.line_id.as_str()) {
                found = true;
                break ;
            }
            i = i + 1;
        }
        proof {
            lemma_line_place(lines, d.name);
        }
        if !found {
            let line: Line = Line {
                line_id: datum.line_id.clone(),
                color: Palette::green(),
                data: Vec::new(),
            };
            self.chart.line_id_to_line.push(line);
            assert(self.chart@ =~= lines.push(new_line(d.name)));
        } else {
            assert(line_place(lines, d.name) == Some(i as int));
        }
        let ghost base = self.chart@;
        assert(base[i as int] == self.chart.line_id_to_line[i as int]@);
        match datum.color {
            Some(c) => {
                self.chart.line_id_to_line[i].color = c;
            },
            None => {},
        }
        match (datum.x, datum.y) {
            (Some(x), Some(y)) => {
                self.chart.line_id_to_line[i].data.push(Point { x, y });
            },
            _ => {},
        }
        assert(self.chart@ =~= base.update(i as int, line_with(base[i as int], d)));
        assert(self.chart@ =~= chart_with(lines, d));
    }

    /// The chart of the samples taken so far: each line with its samples
    /// ordered by abscissa.
    pub fn create_chart(&self) -> (c: Chart)
        ensures
            c@ == finished(self.chart@),
            line_names(c@) == line_names(self.chart@),
    {
        let mut lines: Vec<Line> = Vec::new();
        let mut i: usize = 0;
        while i < self.chart.line_id_to_line.len()
            invariant
                i <= self.chart.line_id_to_line.len(),
                lines.len() == i,
                forall|j: int| 0 <= j < i ==> (#[trigger] lines[j])@ == finished(self.chart@)[j],
            decreases self.chart.line_id_to_line.len() - i,
        {
            let line: &Line = &self.chart.line_id_to_line[i];
            assert(self.chart@[i as int] == line@);
            lines.push(
                Line { line_id: line.line_id.clone(), color: line.color, data: sorted_by_x(&line.data) },
            );
            i = i + 1;
        }
        let c: Chart = Chart { line_id_to_line: lines };
        assert(c@ =~= finished(self.chart@));
        assert(line_names(c@) =~= line_names(self.chart@));
        c
    }
}

} // verus!
