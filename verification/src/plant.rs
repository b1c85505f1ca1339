use vstd::prelude::*;
use rand::rngs::StdRng;
use crate::lsystem::LSystem;
use crate::rewrite::{is_rewrite, rewrite, seeded_from, thread_generator};
use crate::rewrite_laws::{certain_expansion, certain_on};
use crate::rule::copy_symbols;

verus! {

/// One plant: a grammar, the string grown from it so far, and the plant's
/// own drawing parameters. `step_size` and `thickness` are in thousandths of
/// a unit.
#[derive(Clone, Debug)]
pub struct Plant {
    pub lsystem: LSystem,
    pub current_string: Vec<char>,
    pub iteration: usize,
    pub max_iterations: usize,
    pub step_size: u32,
    pub thickness: u32,
}

impl Plant {
    /// A plant never grows past its limit.
    pub open spec fn wf(&self) -> bool {
        self.iteration <= self.max_iterations
    }

    /// Whether the plant has reached its limit.
    pub open spec fn is_finished(&self) -> bool {
        self.iteration >= self.max_iterations
    }

    /// `next` is this plant one generation on: its string is a next
    /// generation of this plant's, its count is one higher, and nothing else
    /// differs.
    pub open spec fn grows_into(&self, next: Plant) -> bool {
        &&& is_rewrite(self.lsystem.rules@, self.current_string@, next.current_string@)
        &&& next.iteration == self.iteration + 1
        &&& next.lsystem == self.lsystem
        &&& next.max_iterations == self.max_iterations
        &&& next.step_size == self.step_size
        &&& next.thickness == self.thickness
    }

    /// A plant at its initiator, before its first generation.
    pub fn new(lsystem: LSystem, step_size: u32, max_iterations: usize, thickness: u32) -> (plant:
        Plant)
        ensures
            plant.lsystem == lsystem,
            plant.current_string@ == lsystem.initiator@,
            plant.iteration == 0,
            plant.max_iterations == max_iterations,
            plant.step_size == step_size,
            plant.thickness == thickness,
            plant.wf(),
    {
        let start = copy_symbols(&lsystem.initiator);
        Plant { lsystem, current_string: start, iteration: 0, max_iterations, step_size, thickness }
    }

    /// Returns the plant to its initiator and to generation zero.
    pub fn reset(&mut self)
        ensures
            final(self).current_string@ == old(self).lsystem.initiator@,
            final(self).iteration == 0,
            final(self).lsystem == old(self).lsystem,
            final(self).max_iterations == old(self).max_iterations,
            final(self).step_size == old(self).step_size,
            final(self).thickness == old(self).thickness,
            final(self).wf(),
    {
        self.current_string = copy_symbols(&self.lsystem.initiator);
        self.iteration = 0;
    }

    /// Grows the plant by one generation, drawing from `rng`. A finished
    /// plant is left as it is. Where every candidate for a symbol of the
    /// current string fires always or never, the next string is the one that
    /// the rules give.
    pub fn step_with(&mut self, rng: &mut StdRng)
        ensures
            old(self).is_finished() ==> *final(self) == *old(self),
            !old(self).is_finished() ==> old(self).grows_into(*final(self)),
            old(self).wf() ==> final(self).wf(),
            !old(self).is_finished() && certain_on(
                old(self).lsystem.rules@,
                old(self).current_string@,
            ) ==> final(self).current_string@ == certain_expansion(
                old(self).lsystem.rules@,
                old(self).current_string@,
                old(self).current_string@.len() as int,
            ),
    {
        if !self.finished() {
            let next = rewrite(&self.current_string, &self.lsystem.rules, rng);
            self.current_string = next;
            self.iteration = self.iteration + 1;
        }
    }

    /// Grows the plant by one generation, drawing from a generator seeded
    /// from the thread's own. A finished plant is left as it is. Where every
    /// candidate for a symbol of the current string fires always or never,
    /// the next string is the one that the rules give.
    pub fn step(&mut self)
        ensures
            old(self).is_finished() ==> *final(self) == *old(self),
            !old(self).is_finished() ==> old(self).grows_into(*final(self)),
            old(self).wf() ==> final(self).wf(),
            !old(self).is_finished() && certain_on(
                old(self).lsystem.rules@,
                old(self).current_string@,
            ) ==> final(self).current_string@ == certain_expansion(
                old(self).lsystem.rules@,
                old(self).current_string@,
                old(self).current_string@.len() as int,
            ),
    {
        if !self.finished() {
            let mut source = thread_generator();
            let mut rng = seeded_from(&mut source);
            self.step_with(&mut rng);
        }
    }

    /// Whether the plant has reached its limit.
    pub fn finished(&self) -> (done: bool)
        ensures
            done == self.is_finished(),
    {
        self.iteration >= self.max_iterations
    }
}

} // verus!
