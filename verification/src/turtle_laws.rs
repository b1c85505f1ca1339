use vstd::prelude::*;
use crate::turtle::{
    after, depth, lemma_run_wf, machine_wf, motion_of, never_underflows, run, start, Machine, Rgb,
    Turtle,
};

verus! {

/// The pushes and pops of the symbols pair up: no prefix pops more than it
/// pushes, and the whole string pops as often as it pushes.
pub open spec fn balanced(symbols: Seq<char>) -> bool {
    never_underflows(symbols, symbols.len() as int) && depth(symbols, symbols.len() as int) == 0
}

/// Every motion among the first `n` symbols stands between a push and its
/// pop.
pub open spec fn motions_bracketed(symbols: Seq<char>, n: int) -> bool {
    forall|i: int| 0 <= i < n && motion_of(#[trigger] symbols[i]) is Some ==> depth(symbols, i) > 0
}

/// The turtle outside all brackets: the one saved first, or the current one
/// where nothing is saved.
pub open spec fn ground(m: Machine) -> Turtle {
    if m.stack.len() > 0 {
        m.stack[0]
    } else {
        m.turtle
    }
}

/// While no prefix pops more than it pushes, the stack is as deep as the
/// symbols say, and the turtle outside all brackets still stands at the
/// origin exactly if every motion so far was bracketed.
pub proof fn lemma_ground_pose(symbols: Seq<char>, step_size: u32, palette: Seq<Rgb>, n: nat)
    requires
        never_underflows(symbols, n as int),
        n <= symbols.len() <= usize::MAX,
    ensures
        run(symbols, step_size, palette, n).stack.len() == depth(symbols, n as int),
        ground(run(symbols, step_size, palette, n)).pose == 0 <==> motions_bracketed(
            symbols,
            n as int,
        ),
    decreases n,
{
    if n == 0 {
    } else {
        let p = (n - 1) as nat;
        let m = run(symbols, step_size, palette, p);
        let c = symbols[n - 1];
        let next = after(m, c, step_size, palette);
        assert(never_underflows(symbols, p as int));
        lemma_ground_pose(symbols, step_size, palette, p);
        lemma_run_wf(symbols, step_size, palette, p);
        assert(machine_wf(m, p));
        assert(run(symbols, step_size, palette, n) == next);
        assert(depth(symbols, n as int) >= 0);
        assert(depth(symbols, p as int) >= 0);
        if motion_of(c) is Some {
            assert(m.poses.len() as usize == m.poses.len());
            if m.stack.len() == 0 {
                assert(ground(next).pose != 0);
                assert(!motions_bracketed(symbols, n as int));
            } else {
                assert(ground(next) == ground(m));
                assert(motions_bracketed(symbols, n as int) == motions_bracketed(
                    symbols,
                    p as int,
                ));
            }
        } else {
            assert(motions_bracketed(symbols, n as int) == motions_bracketed(symbols, p as int));
            assert(ground(next).pose == ground(m).pose);
        }
    }
}

/// Balanced symbols leave nothing saved at the end, and the turtle's last
/// pose is the origin pose itself exactly if every motion stands between a
/// push and its pop. A pose reached by a motion is a pose of its own, also
/// where motions cancel in space.
pub proof fn lemma_balanced_returns(symbols: Seq<char>, step_size: u32, palette: Seq<Rgb>)
    requires
        balanced(symbols),
        symbols.len() <= usize::MAX,
    ensures
        run(symbols, step_size, palette, symbols.len()).stack.len() == 0,
        run(symbols, step_size, palette, symbols.len()).turtle.pose == 0 <==> motions_bracketed(
            symbols,
            symbols.len() as int,
        ),
{
    lemma_ground_pose(symbols, step_size, palette, symbols.len());
}

/// The push at index `i` and the pop at index `j` belong together: between
/// them the nesting stays deeper than before the push, and the pop brings it
/// back.
pub open spec fn encloses(symbols: Seq<char>, i: int, j: int) -> bool {
    &&& 0 <= i < j < symbols.len()
    &&& symbols[i] == '['
    &&& symbols[j] == ']'
    &&& depth(symbols, j + 1) == depth(symbols, i)
    &&& forall|k: int| i < k <= j ==> #[trigger] depth(symbols, k) > depth(symbols, i)
}

proof fn lemma_saved_turtle(
    symbols: Seq<char>,
    step_size: u32,
    palette: Seq<Rgb>,
    i: int,
    k: int,
)
    requires
        0 <= i < k <= symbols.len() <= usize::MAX,
        symbols[i] == '[',
        never_underflows(symbols, k),
        forall|m: int| i < m <= k ==> #[trigger] depth(symbols, m) > depth(symbols, i),
    ensures
        run(symbols, step_size, palette, k as nat).stack.len() == depth(symbols, k),
        run(symbols, step_size, palette, k as nat).stack[depth(symbols, i)] == run(
            symbols,
            step_size,
            palette,
            i as nat,
        ).turtle,
    decreases k - i,
{
    let before = run(symbols, step_size, palette, (k - 1) as nat);
    let c = symbols[k - 1];
    assert(never_underflows(symbols, k - 1));
    lemma_ground_pose(symbols, step_size, palette, (k - 1) as nat);
    lemma_ground_pose(symbols, step_size, palette, k as nat);
    assert(run(symbols, step_size, palette, k as nat) == after(before, c, step_size, palette));
    assert(depth(symbols, k) > depth(symbols, i));
    assert(depth(symbols, i) >= 0);
    if k - 1 > i {
        lemma_saved_turtle(symbols, step_size, palette, i, k - 1);
        assert(depth(symbols, k - 1) > depth(symbols, i));
    }
}

/// A pop returns the turtle to what it was before the push it belongs to:
/// the same pose, taper and colour, whatever stands between the two.
pub proof fn lemma_pop_restores(
    symbols: Seq<char>,
    step_size: u32,
    palette: Seq<Rgb>,
    i: int,
    j: int,
)
    requires
        symbols.len() <= usize::MAX,
        never_underflows(symbols, j + 1),
        encloses(symbols, i, j),
    ensures
        run(symbols, step_size, palette, (j + 1) as nat).turtle == run(
            symbols,
            step_size,
            palette,
            i as nat,
        ).turtle,
{
    assert(never_underflows(symbols, j));
    lemma_saved_turtle(symbols, step_size, palette, i, j);
    let before = run(symbols, step_size, palette, j as nat);
    assert(run(symbols, step_size, palette, (j + 1) as nat) == after(
        before,
        symbols[j],
        step_size,
        palette,
    ));
    assert(depth(symbols, j + 1) == depth(symbols, j) - 1);
}

/// A string that is one push, its own pop at the end, and whatever stands
/// between the two never pops an empty stack and leaves the turtle exactly
/// as it started: at the origin, untapered, with the first colour.
pub proof fn lemma_wrapped_returns(symbols: Seq<char>, step_size: u32, palette: Seq<Rgb>)
    requires
        symbols.len() <= usize::MAX,
        encloses(symbols, 0, symbols.len() - 1),
    ensures
        never_underflows(symbols, symbols.len() as int),
        run(symbols, step_size, palette, symbols.len()).turtle == start().turtle,
{
    let n = symbols.len() as int;
    assert(depth(symbols, 0) == 0);
    assert forall|j: int| 0 <= j <= n implies depth(symbols, j) >= 0 by {
        if 0 < j && j < n {
            assert(depth(symbols, j) > depth(symbols, 0));
        }
    }
    lemma_pop_restores(symbols, step_size, palette, 0, n - 1);
}

} // verus!
