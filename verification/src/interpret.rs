use vstd::prelude::*;
use crate::turtle::{
    after, bracket_value, color_at, count_symbol, depth, folio_views, lemma_after_wf, machine_wf,
    motion_of, never_underflows, run, scene_of, start, Folio, Motion, Pose, Rgb, Scene, Segment,
    Turtle, TurtleError,
};

verus! {

/// The motion that a symbol stands for, if it stands for one.
pub fn motion_for(c: char) -> (motion: Option<Motion>)
    ensures
        motion == motion_of(c),
{
    if c == 'F' {
        Some(Motion::Forward)
    } else if c == 'f' {
        Some(Motion::HalfForward)
    } else if c == '+' {
        Some(Motion::RollRight)
    } else if c == '-' {
        Some(Motion::RollLeft)
    } else if c == '&' {
        Some(Motion::PitchDown)
    } else if c == '^' {
        Some(Motion::PitchUp)
    } else if c == '\\' {
        Some(Motion::YawLeft)
    } else if c == '/' {
        Some(Motion::YawRight)
    } else {
        None
    }
}

/// The palette's colour for a colour index.
pub fn pick_color(palette: &Vec<Rgb>, color_index: usize) -> (color: Rgb)
    requires
        palette@.len() > 0,
    ensures
        color == color_at(palette@, color_index),
{
    palette[color_index % palette.len()]
}

/// How many segments the symbols draw: one for each `F`, none at all where
/// a step has length zero.
pub open spec fn drawn_segments(symbols: Seq<char>, step_size: u32) -> nat {
    if step_size > 0 {
        count_symbol(symbols, 'F', symbols.len() as int)
    } else {
        0
    }
}

/// A run has drawn one segment for each `F` so far, or none where a step
/// has length zero.
pub proof fn lemma_segment_count(symbols: Seq<char>, step_size: u32, palette: Seq<Rgb>, n: nat)
    ensures
        run(symbols, step_size, palette, n).segments.len() == if step_size > 0 {
            count_symbol(symbols, 'F', n as int)
        } else {
            0
        },
    decreases n,
{
    if n > 0 {
        lemma_segment_count(symbols, step_size, palette, (n - 1) as nat);
    }
}

/// Interprets the symbols from left to right and returns the scene they
/// describe.
///
/// `step_size` is the length of a full step, in thousandths of a unit; here
/// it only decides whether a full step draws. Turning the poses into points
/// and rotations, and the taper counts into thicknesses, is arithmetic on
/// reals and is left to the caller.
///
/// An empty palette is refused before the first symbol is read. A pop that
/// finds the stack empty ends the pass: the error names the index of the
/// first such symbol, and no scene is returned. Otherwise the result is the
/// scene after the last symbol, which is well formed and holds one segment
/// for each `F`, or none where `step_size` is zero.
pub fn interpret_plant(symbols: &Vec<char>, step_size: u32, palette: &Vec<Rgb>) -> (outcome: Result<
    Scene,
    TurtleError,
>)
    ensures
        palette@.len() == 0 ==> outcome == Err::<Scene, TurtleError>(TurtleError::EmptyPalette),
        palette@.len() > 0 && never_underflows(symbols@, symbols@.len() as int) ==> outcome is Ok,
        palette@.len() > 0 ==> match outcome {
            Ok(scene) => {
                &&& never_underflows(symbols@, symbols@.len() as int)
                &&& scene@ == scene_of(run(symbols@, step_size, palette@, symbols@.len()))
                &&& scene@.well_formed()
                &&& scene@.segments.len() == drawn_segments(symbols@, step_size)
            },
            Err(TurtleError::StackUnderflow { at }) => {
                &&& at < symbols@.len()
                &&& never_underflows(symbols@, at as int)
                &&& depth(symbols@, at + 1) < 0
            },
            Err(TurtleError::EmptyPalette) => false,
        },
{
    if palette.len() == 0 {
        return Err(TurtleError::EmptyPalette);
    }
    let mut poses: Vec<Pose> = Vec::new();
    poses.push(Pose::Origin);
    let mut turtle = Turtle { pose: 0, taper: 0, color_index: 0 };
    let mut stack: Vec<Turtle> = Vec::new();
    let mut segments: Vec<Segment> = Vec::new();
    let mut folios: Vec<Folio> = Vec::new();
    let mut folio_open: bool = false;
    let mut vertices: Vec<usize> = Vec::new();
    let n: usize = symbols.len();
    let mut i: usize = 0;
    assert(poses@ =~= start().poses);
    assert(folio_views(folios@) =~= start().folios);
    while i < n
        invariant
            n == symbols@.len(),
            i <= n,
            palette@.len() > 0,
            never_underflows(symbols@, i as int),
            machine_wf(run(symbols@, step_size, palette@, i as nat), i as nat),
            poses@ == run(symbols@, step_size, palette@, i as nat).poses,
            turtle == run(symbols@, step_size, palette@, i as nat).turtle,
            stack@ == run(symbols@, step_size, palette@, i as nat).stack,
            segments@ == run(symbols@, step_size, palette@, i as nat).segments,
            folio_views(folios@) == run(symbols@, step_size, palette@, i as nat).folios,
            run(symbols@, step_size, palette@, i as nat).open_folio == if folio_open {
                Some(vertices@)
            } else {
                None::<Seq<usize>>
            },
            stack@.len() == depth(symbols@, i as int),
        decreases n - i,
    {
        let c: char = symbols[i];
        let ghost m = run(symbols@, step_size, palette@, i as nat);
        let ghost next = after(m, c, step_size, palette@);
        proof {
            assert(run(symbols@, step_size, palette@, (i + 1) as nat) == next);
            lemma_after_wf(m, c, step_size, palette@, i as nat);
            assert(depth(symbols@, i + 1) == depth(symbols@, i as int) + bracket_value(c));
        }
        match motion_for(c) {
            Some(by) => {
                let id: usize = poses.len();
                poses.push(Pose::Moved { from: turtle.pose, by });
                if by == Motion::Forward {
                    if step_size > 0 {
                        let color = pick_color(palette, turtle.color_index);
                        segments.push(
                            Segment { start: turtle.pose, end: id, taper: turtle.taper, color },
                        );
                    }
                } else if by == Motion::HalfForward {
                    if folio_open {
                        vertices.push(id);
                    }
                }
                turtle.pose = id;
            },
            None => {
                if c == '[' {
                    stack.push(turtle);
                } else if c == ']' {
                    match stack.pop() {
                        Some(saved) => {
                            turtle = saved;
                        },
                        None => {
                            return Err(TurtleError::StackUnderflow { at: i });
                        },
                    }
                } else if c == '!' {
                    turtle.taper = turtle.taper + 1;
                } else if c == '\'' {
                    turtle.color_index = turtle.color_index + 1;
                } else if c == '{' {
                    vertices = Vec::new();
                    vertices.push(turtle.pose);
                    folio_open = true;
                    assert(vertices@ =~= seq![turtle.pose]);
                } else if c == '}' {
                    if folio_open {
                        if vertices.len() >= 3 {
                            let color = pick_color(palette, turtle.color_index);
                            let ghost before = folios@;
                            let folio = Folio { vertices, color };
                            folios.push(folio);
                            assert(folio_views(folios@) =~= folio_views(before).push(folio@));
                        }
                        vertices = Vec::new();
                        folio_open = false;
                    }
                }
            },
        }
        proof {
            assert forall|j: int| 0 <= j <= i + 1 implies depth(symbols@, j) >= 0 by {
                if j <= i {
                } else {
                    assert(stack@.len() == depth(symbols@, i + 1));
                }
            }
        }
        i += 1;
    }
    proof {
        lemma_segment_count(symbols@, step_size, palette@, n as nat);
    }
    Ok(Scene { poses, segments, folios, turtle })
}

} // verus!
