//! A row of steps that somebody else performs one after the other.

use vstd::prelude::*;

verus! {

/// The steps that are left to perform, the next one first.
pub struct Script<S> {
    steps: Vec<S>,
}

impl<S> View for Script<S> {
    type V = Seq<S>;

    closed spec fn view(&self) -> Seq<S> {
        self.steps@
    }
}

impl<S: Copy> Script<S> {
    /// A script of these steps.
    pub fn new(steps: Vec<S>) -> (script: Self)
        ensures
            script@ == steps@,
    {
        Script { steps }
    }

    /// The step to perform now.
    pub fn first(&self) -> (step: Option<S>)
        ensures
            step == (if self@.len() > 0 {
                Some(self@[0])
            } else {
                None
            }),
    {
        if self.steps.len() > 0 {
            Some(self.steps[0])
        } else {
            None
        }
    }

    /// Crosses out the first step and puts `inserted` in its place.
    pub fn advance(self, inserted: Vec<S>) -> (script: Self)
        requires
            self@.len() > 0,
        ensures
            script@ == inserted@ + self@.drop_first(),
    {
        let mut steps: Vec<S> = inserted;
        let count: usize = self.steps.len();
        let mut i: usize = 1;
        assert(steps@ =~= inserted@ + self@.subrange(1, 1));
        while i < count
            invariant
                1 <= i <= count == self.steps@.len(),
                steps@ == inserted@ + self.steps@.subrange(1, i as int),
            decreases count - i,
        {
            steps.push(self.steps[i]);
            assert(self.steps@.subrange(1, i as int).push(self.steps@[i as int])
                =~= self.steps@.subrange(1, i + 1));
            i = i + 1;
        }
        assert(self.steps@.subrange(1, count as int) =~= self@.drop_first());
        Script { steps }
    }
}

} // verus!
