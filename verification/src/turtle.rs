use vstd::prelude::*;

verus! {

/// A colour of the palette.
#[derive(Clone, Copy, Debug, PartialEq, Eq, Structural)]
pub struct Rgb {
    pub r: u8,
    pub g: u8,
    pub b: u8,
}

/// What takes the turtle from one pose to the next. Every motion is relative
/// to the turtle's own frame at the pose it starts from.
#[derive(Clone, Copy, Debug, PartialEq, Eq, Structural)]
pub enum Motion {
    /// `F`: one step along the forward axis.
    Forward,
    /// `f`: half a step along the forward axis.
    HalfForward,
    /// `+`: a turn about the roll axis, clockwise.
    RollRight,
    /// `-`: a turn about the roll axis, counter-clockwise.
    RollLeft,
    /// `&`: a turn about the lateral axis, nose down.
    PitchDown,
    /// `^`: a turn about the lateral axis, nose up.
    PitchUp,
    /// `\`: a turn about the vertical axis, to the left.
    YawLeft,
    /// `/`: a turn about the vertical axis, to the right.
    YawRight,
}

/// Each taper scales the thickness by `TAPER_NUMERATOR / TAPER_DENOMINATOR`.
pub const TAPER_NUMERATOR: u32 = 9;

/// See `TAPER_NUMERATOR`.
pub const TAPER_DENOMINATOR: u32 = 10;

/// One position and orientation of the turtle. Poses are numbered in the
/// order in which the turtle reaches them; pose 0 is the origin.
#[derive(Clone, Copy, Debug, PartialEq, Eq, Structural)]
pub enum Pose {
    /// At the origin, with the identity orientation.
    Origin,
    /// Reached from the earlier pose `from` by the motion `by`.
    Moved { from: usize, by: Motion },
}

/// The cursor: where it stands, how often its thickness was tapered, and
/// how often its colour was advanced.
#[derive(Clone, Copy, Debug, PartialEq, Eq, Structural)]
pub struct Turtle {
    pub pose: usize,
    pub taper: usize,
    pub color_index: usize,
}

/// A drawn line from pose `start` to pose `end`. Its thickness is the base
/// thickness tapered `taper` times.
#[derive(Clone, Copy, Debug, PartialEq, Eq, Structural)]
pub struct Segment {
    pub start: usize,
    pub end: usize,
    pub taper: usize,
    pub color: Rgb,
}

/// A closed polygon through the positions of at least three poses.
#[derive(Clone, Debug, PartialEq, Eq)]
pub struct Folio {
    pub vertices: Vec<usize>,
    pub color: Rgb,
}

/// A folio as a mathematical value.
pub struct FolioView {
    pub vertices: Seq<usize>,
    pub color: Rgb,
}

impl View for Folio {
    type V = FolioView;

    open spec fn view(&self) -> FolioView {
        FolioView { vertices: self.vertices@, color: self.color }
    }
}

/// What an interpretation pass yields: the poses the turtle went through,
/// the segments and folios it drew, and the turtle as the pass left it.
#[derive(Clone, Debug, PartialEq, Eq)]
pub struct Scene {
    pub poses: Vec<Pose>,
    pub segments: Vec<Segment>,
    pub folios: Vec<Folio>,
    pub turtle: Turtle,
}

/// A scene as a mathematical value.
pub struct SceneView {
    pub poses: Seq<Pose>,
    pub segments: Seq<Segment>,
    pub folios: Seq<FolioView>,
    pub turtle: Turtle,
}

/// The folios of a list, each as a mathematical value.
pub open spec fn folio_views(folios: Seq<Folio>) -> Seq<FolioView> {
    Seq::new(folios.len(), |k: int| folios[k]@)
}

impl View for Scene {
    type V = SceneView;

    open spec fn view(&self) -> SceneView {
        SceneView {
            poses: self.poses@,
            segments: self.segments@,
            folios: folio_views(self.folios@),
            turtle: self.turtle,
        }
    }
}

/// Why an interpretation pass yields no scene.
#[derive(Clone, Copy, Debug, PartialEq, Eq, Structural)]
pub enum TurtleError {
    /// The palette holds no colour.
    EmptyPalette,
    /// The symbol at index `at` is a pop, and nothing is left to pop.
    StackUnderflow { at: usize },
}

/// The whole state of the interpreter between two symbols.
pub struct Machine {
    pub poses: Seq<Pose>,
    pub turtle: Turtle,
    pub stack: Seq<Turtle>,
    pub open_folio: Option<Seq<usize>>,
    pub segments: Seq<Segment>,
    pub folios: Seq<FolioView>,
}

/// The motion that a symbol stands for, if it stands for one.
pub open spec fn motion_of(c: char) -> Option<Motion> {
    if c == 'F' {
        Some(Motion::Forward)
    } else if c == 'f' {
        Some(Motion::HalfForward)
    } else if c == '+' {
        Some(Motion::RollRight)
    } else if c == '-' {
        Some(Motion::RollLeft)
    } else if c == '&' {
        Some(Motion::PitchDown)
    } else if c == '^' {
        Some(Motion::PitchUp)
    } else if c == '\\' {
        Some(Motion::YawLeft)
    } else if c == '/' {
        Some(Motion::YawRight)
    } else {
        None
    }
}

/// The palette's colour for a colour index: the palette is walked round.
pub open spec fn color_at(palette: Seq<Rgb>, color_index: usize) -> Rgb
    recommends
        palette.len() > 0,
{
    palette[color_index as int % palette.len() as int]
}

/// The state before the first symbol: the turtle at the origin, untapered,
/// with the first colour; nothing saved, nothing drawn, no folio open.
pub open spec fn start() -> Machine {
    Machine {
        poses: seq![Pose::Origin],
        turtle: Turtle { pose: 0, taper: 0, color_index: 0 },
        stack: Seq::empty(),
        open_folio: None,
        segments: Seq::empty(),
        folios: Seq::empty(),
    }
}

/// The state after a motion: a new pose, which becomes the turtle's. A full
/// step draws a segment unless the step has length zero; a half step adds
/// its end to the open folio, if one is open.
pub open spec fn moved(m: Machine, by: Motion, step_size: u32, palette: Seq<Rgb>) -> Machine {
    let id = m.poses.len() as usize;
    Machine {
        poses: m.poses.push(Pose::Moved { from: m.turtle.pose, by }),
        turtle: Turtle { pose: id, taper: m.turtle.taper, color_index: m.turtle.color_index },
        stack: m.stack,
        open_folio: if by == Motion::HalfForward && m.open_folio is Some {
            Some(m.open_folio->0.push(id))
        } else {
            m.open_folio
        },
        segments: if by == Motion::Forward && step_size > 0 {
            m.segments.push(
                Segment {
                    start: m.turtle.pose,
                    end: id,
                    taper: m.turtle.taper,
                    color: color_at(palette, m.turtle.color_index),
                },
            )
        } else {
            m.segments
        },
        folios: m.folios,
    }
}

/// The state after closing the folio: one that is open leaves; with three
/// vertices or more it joins the folios, in the turtle's current colour.
pub open spec fn closed(m: Machine, palette: Seq<Rgb>) -> Machine {
    match m.open_folio {
        Some(vertices) => Machine {
            poses: m.poses,
            turtle: m.turtle,
            stack: m.stack,
            open_folio: None,
            segments: m.segments,
            folios: if vertices.len() >= 3 {
                m.folios.push(
                    FolioView { vertices, color: color_at(palette, m.turtle.color_index) },
                )
            } else {
                m.folios
            },
        },
        None => m,
    }
}

/// The state after one symbol. A pop on an empty stack changes nothing
/// here; the interpreter stops before it.
pub open spec fn after(m: Machine, c: char, step_size: u32, palette: Seq<Rgb>) -> Machine {
    if motion_of(c) is Some {
        moved(m, motion_of(c)->0, step_size, palette)
    } else if c == '[' {
        Machine { stack: m.stack.push(m.turtle), ..m }
    } else if c == ']' {
        if m.stack.len() > 0 {
            Machine { turtle: m.stack.last(), stack: m.stack.drop_last(), ..m }
        } else {
            m
        }
    } else if c == '!' {
        Machine { turtle: Turtle { taper: (m.turtle.taper + 1) as usize, ..m.turtle }, ..m }
    } else if c == '\'' {
        Machine {
            turtle: Turtle { color_index: (m.turtle.color_index + 1) as usize, ..m.turtle },
            ..m
        }
    } else if c == '{' {
        Machine { open_folio: Some(seq![m.turtle.pose]), ..m }
    } else if c == '}' {
        closed(m, palette)
    } else {
        m
    }
}

/// The state after the first `n` symbols.
pub open spec fn run(symbols: Seq<char>, step_size: u32, palette: Seq<Rgb>, n: nat) -> Machine
    decreases n,
{
    if n == 0 {
        start()
    } else {
        after(
            run(symbols, step_size, palette, (n - 1) as nat),
            symbols[n - 1],
            step_size,
            palette,
        )
    }
}

/// What a symbol adds to the nesting depth.
pub open spec fn bracket_value(c: char) -> int {
    if c == '[' {
        1
    } else if c == ']' {
        -1
    } else {
        0
    }
}

/// Pushes less pops among the first `n` symbols.
pub open spec fn depth(symbols: Seq<char>, n: int) -> int
    decreases n,
{
    if n <= 0 {
        0
    } else {
        depth(symbols, n - 1) + bracket_value(symbols[n - 1])
    }
}

/// No prefix of the first `n` symbols pops more than it pushes.
pub open spec fn never_underflows(symbols: Seq<char>, n: int) -> bool {
    forall|j: int| 0 <= j <= n ==> depth(symbols, j) >= 0
}

/// How many of the first `n` symbols are `c`.
pub open spec fn count_symbol(symbols: Seq<char>, c: char, n: int) -> nat
    decreases n,
{
    if n <= 0 {
        0
    } else {
        count_symbol(symbols, c, n - 1) + if symbols[n - 1] == c {
            1nat
        } else {
            0nat
        }
    }
}

/// The scene that a state holds.
pub open spec fn scene_of(m: Machine) -> SceneView {
    SceneView { poses: m.poses, segments: m.segments, folios: m.folios, turtle: m.turtle }
}

/// Every vertex of the list is the number of one of the first `count` poses.
pub open spec fn vertices_exist(vertices: Seq<usize>, count: nat) -> bool {
    forall|j: int| 0 <= j < vertices.len() ==> #[trigger] vertices[j] < count
}

/// The segment joins one of the poses to the pose a full step further.
pub open spec fn segment_fits(s: Segment, poses: Seq<Pose>) -> bool {
    s.end < poses.len() && poses[s.end as int] == (Pose::Moved {
        from: s.start,
        by: Motion::Forward,
    })
}

/// The folio has three vertices or more, each of them one of the poses.
pub open spec fn folio_fits(f: FolioView, poses: Seq<Pose>) -> bool {
    f.vertices.len() >= 3 && vertices_exist(f.vertices, poses.len())
}

impl SceneView {
    /// Every pose but the origin comes from an earlier one, and every pose
    /// named by the turtle, a segment or a folio exists. A segment joins a
    /// pose to the one a full step further; a folio has three vertices or
    /// more.
    pub open spec fn well_formed(&self) -> bool {
        &&& self.poses.len() > 0
        &&& self.poses[0] == Pose::Origin
        &&& forall|k: int|
            0 < k < self.poses.len() ==> (#[trigger] self.poses[k]) is Moved
                && self.poses[k]->from < k
        &&& self.turtle.pose < self.poses.len()
        &&& forall|k: int|
            0 <= k < self.segments.len() ==> segment_fits(#[trigger] self.segments[k], self.poses)
        &&& forall|k: int|
            0 <= k < self.folios.len() ==> folio_fits(#[trigger] self.folios[k], self.poses)
    }
}

/// What holds of the state after `n` symbols, whatever the symbols were:
/// the scene is well formed, no counter exceeds `n`, and every saved turtle
/// and every vertex of the open folio names a pose.
pub open spec fn machine_wf(m: Machine, n: nat) -> bool {
    &&& scene_of(m).well_formed()
    &&& m.poses.len() <= n + 1
    &&& m.turtle.taper <= n
    &&& m.turtle.color_index <= n
    &&& forall|k: int|
        0 <= k < m.stack.len() ==> {
            let t = #[trigger] m.stack[k];
            t.pose < m.poses.len() && t.taper <= n && t.color_index <= n
        }
    &&& m.open_folio is Some ==> vertices_exist(m.open_folio->0, m.poses.len())
}

/// One symbol keeps a state well formed.
pub proof fn lemma_after_wf(m: Machine, c: char, step_size: u32, palette: Seq<Rgb>, n: nat)
    requires
        machine_wf(m, n),
        n < usize::MAX,
    ensures
        machine_wf(after(m, c, step_size, palette), n + 1),
{
    let next = after(m, c, step_size, palette);
    let before = scene_of(m);
    let then = scene_of(next);
    assert forall|k: int| 0 <= k < then.segments.len() implies segment_fits(
        #[trigger] then.segments[k],
        then.poses,
    ) by {
        if k < before.segments.len() {
            assert(segment_fits(before.segments[k], before.poses));
        }
    }
    assert forall|k: int| 0 <= k < then.folios.len() implies folio_fits(
        #[trigger] then.folios[k],
        then.poses,
    ) by {
        if k < before.folios.len() {
            assert(folio_fits(before.folios[k], before.poses));
        }
    }
    assert forall|k: int| 0 <= k < next.stack.len() implies {
        let t = #[trigger] next.stack[k];
        t.pose < next.poses.len() && t.taper <= n + 1 && t.color_index <= n + 1
    } by {
        if k < m.stack.len() {
            let t = m.stack[k];
            assert(t.pose < m.poses.len());
        }
    }
    if c == ']' && m.stack.len() > 0 {
        let t = m.stack[m.stack.len() - 1];
        assert(t.pose < m.poses.len());
    }
}

/// Every state that a run passes through is well formed.
pub proof fn lemma_run_wf(symbols: Seq<char>, step_size: u32, palette: Seq<Rgb>, n: nat)
    requires
        n <= usize::MAX,
    ensures
        machine_wf(run(symbols, step_size, palette, n), n),
    decreases n,
{
    if n > 0 {
        lemma_run_wf(symbols, step_size, palette, (n - 1) as nat);
        lemma_after_wf(
            run(symbols, step_size, palette, (n - 1) as nat),
            symbols[n - 1],
            step_size,
            palette,
            (n - 1) as nat,
        );
    }
}

} // verus!
