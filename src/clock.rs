use vstd::prelude::*;

verus! {

/// Counts the ticks of the current generation and says when it is over.
pub struct GenerationClock {
    age: usize,
    generation_length: usize,
}

impl GenerationClock {
    /// Ticks since the last generational replacement.
    pub closed spec fn age_view(&self) -> nat {
        self.age as nat
    }

    /// How many ticks a generation lasts before it is replaced.
    pub closed spec fn length_view(&self) -> nat {
        self.generation_length as nat
    }

    /// The age never exceeds the generation length: the tick that would
    /// take it past the length replaces the generation instead.
    pub open spec fn wf(&self) -> bool {
        self.age_view() <= self.length_view()
    }

    /// A clock at the start of a generation of `generation_length` ticks.
    pub fn new(generation_length: usize) -> (r: Self)
        ensures
            r.wf(),
            r.age_view() == 0,
            r.length_view() == generation_length,
    {
        GenerationClock { age: 0, generation_length }
    }

    pub fn age(&self) -> (r: usize)
        ensures
            r == self.age_view(),
    {
        self.age
    }

    pub fn generation_length(&self) -> (r: usize)
        ensures
            r == self.length_view(),
    {
        self.generation_length
    }

    /// Counts one tick. When the age goes past the generation length, the
    /// generation is over: the result is `true` and the age starts again
    /// from zero.
    pub fn tick(&mut self) -> (evolve: bool)
        requires
            old(self).wf(),
        ensures
            final(self).wf(),
            final(self).length_view() == old(self).length_view(),
            evolve == (old(self).age_view() + 1 > old(self).length_view()),
            final(self).age_view() == if evolve {
                0
            } else {
                old(self).age_view() + 1
            },
    {
        if self.age >= self.generation_length {
            self.age = 0;
            true
        } else {
            self.age = self.age + 1;
            false
        }
    }
}

} // verus!
