//! Applying the overrides to the two kinds of properties of a game, at most once each.
//!
//! More than one thread may try. Each kind has a flag that all of them share, and each try names
//! one step at a time: whoever drives it performs the step and answers it, until the try is over.

use vstd::prelude::*;

use crate::mod_host::game::{Game, PropertySingleton};
use crate::mod_host::overrides::{Assignment, PropertyOverrides};

verus! {

/// One step of applying the overrides to the system properties.
#[derive(Clone, Copy, Debug, PartialEq, Eq, Structural)]
pub enum SystemStep {
    /// Read the flag. Answer: whether it is set.
    LoadFlag,
    /// Look for the singleton. Answer: whether it is there.
    ProbeSingleton { singleton: PropertySingleton },
    /// Set the flag unless it is set, as one operation. Answer: whether this set it.
    ClaimFlag,
    /// Get hold of the map of the singleton. Answer: whether it is there.
    OpenMap { singleton: PropertySingleton },
    /// Unset the flag. The answer does not matter.
    ReleaseFlag,
    /// Put what [`SystemRun::assignments`] gives into the map, in its order. The answer does not
    /// matter.
    InsertOverrides,
}

/// What follows a step.
#[derive(Clone, Copy, Debug, PartialEq, Eq, Structural)]
pub enum SystemNext {
    Step(SystemStep),
    /// The try is over: whether the properties count as applied.
    Finished(bool),
}

/// What follows the answer to a step. The map is only opened where the singleton was seen, and by
/// the try that claimed the flag; a map that is not there after all has the flag given back.
pub open spec fn next_system_step(game: Game, step: SystemStep, answer: bool) -> SystemNext {
    let singleton = crate::mod_host::game::property_singleton_of(game);
    match step {
        SystemStep::LoadFlag => if answer {
            SystemNext::Finished(true)
        } else {
            SystemNext::Step(SystemStep::ProbeSingleton { singleton })
        },
        SystemStep::ProbeSingleton { .. } => if answer {
            SystemNext::Step(SystemStep::ClaimFlag)
        } else {
            SystemNext::Finished(false)
        },
        SystemStep::ClaimFlag => if answer {
            SystemNext::Step(SystemStep::OpenMap { singleton })
        } else {
            SystemNext::Finished(true)
        },
        SystemStep::OpenMap { .. } => if answer {
            SystemNext::Step(SystemStep::InsertOverrides)
        } else {
            SystemNext::Step(SystemStep::ReleaseFlag)
        },
        SystemStep::ReleaseFlag => SystemNext::Finished(false),
        SystemStep::InsertOverrides => SystemNext::Finished(true),
    }
}

/// A try at the system properties.
pub struct SystemRun {
    game: Game,
    step: SystemStep,
}

/// A try at the system properties: of which game, and the step to perform now.
pub struct SystemRunView {
    pub game: Game,
    pub step: SystemStep,
}

impl View for SystemRun {
    type V = SystemRunView;

    closed spec fn view(&self) -> SystemRunView {
        SystemRunView { game: self.game, step: self.step }
    }
}

/// Where a try at the system properties stands after an answer.
pub enum SystemProgress {
    Continue(SystemRun),
    Finished(bool),
}

/// Begins a try at the system properties.
pub fn apply_system_properties(game: Game) -> (run: SystemRun)
    ensures
        run@ == (SystemRunView { game, step: SystemStep::LoadFlag }),
{
    SystemRun { game, step: SystemStep::LoadFlag }
}

impl SystemRun {
    /// The step to perform now.
    pub fn step(&self) -> (step: SystemStep)
        ensures
            step == self@.step,
    {
        self.step
    }

    /// What is put into the map, given the overrides as they are then: all of them, those of the
    /// user last.
    pub fn assignments(&self, overrides: &PropertyOverrides) -> (list: Vec<Assignment>)
        requires
            self@.step == SystemStep::InsertOverrides,
        ensures
            crate::mod_host::overrides::pairs(list@) == overrides@.in_order(),
            crate::mod_host::overrides::pairs(list@) == overrides@.internal + overrides@.user,
            crate::mod_host::overrides::all_nul_free(overrides@.in_order()),
    {
        overrides.in_order()
    }

    /// Takes the answer to the step and goes on.
    pub fn reply(self, answer: bool) -> (progress: SystemProgress)
        ensures
            match next_system_step(self@.game, self@.step, answer) {
                SystemNext::Step(step) => progress matches SystemProgress::Continue(run) && run@ == (
                SystemRunView { game: self@.game, step }),
                SystemNext::Finished(applied) => progress == SystemProgress::Finished(applied),
            },
    {
        let singleton: PropertySingleton = self.game.property_singleton();
        let step: SystemStep = match self.step {
            SystemStep::LoadFlag => if answer {
                return SystemProgress::Finished(true);
            } else {
                SystemStep::ProbeSingleton { singleton }
            },
            SystemStep::ProbeSingleton { .. } => if answer {
                SystemStep::ClaimFlag
            } else {
                return SystemProgress::Finished(false);
            },
            SystemStep::ClaimFlag => if answer {
                SystemStep::OpenMap { singleton }
            } else {
                return SystemProgress::Finished(true);
            },
            SystemStep::OpenMap { .. } => if answer {
                SystemStep::InsertOverrides
            } else {
                SystemStep::ReleaseFlag
            },
            SystemStep::ReleaseFlag => {
                return SystemProgress::Finished(false);
            },
            SystemStep::InsertOverrides => {
                return SystemProgress::Finished(true);
            },
        };
        SystemProgress::Continue(SystemRun { game: self.game, step })
    }
}

/// One step of applying the overrides to the debug properties.
#[derive(Clone, Copy, Debug, PartialEq, Eq, Structural)]
pub enum DebugStep {
    /// Set the flag and see what it was, as one operation. Answer: whether it was set before.
    SwapFlag,
    /// Set what [`DebugRun::assignments`] gives, in its order, with the method at this address. The
    /// answer does not matter.
    SetProperties { set_game_prop: usize },
}

/// The step that follows the answer to a step, where one does.
pub open spec fn next_debug_step(
    set_game_prop: usize,
    step: DebugStep,
    answer: bool,
) -> Option<DebugStep> {
    if step == DebugStep::SwapFlag && !answer {
        Some(DebugStep::SetProperties { set_game_prop })
    } else {
        None
    }
}

/// A try at the debug properties.
pub struct DebugRun {
    set_game_prop: usize,
    step: DebugStep,
}

/// A try at the debug properties: the address of the method that sets them, and the step to perform
/// now.
pub struct DebugRunView {
    pub set_game_prop: usize,
    pub step: DebugStep,
}

impl View for DebugRun {
    type V = DebugRunView;

    closed spec fn view(&self) -> DebugRunView {
        DebugRunView { set_game_prop: self.set_game_prop, step: self.step }
    }
}

/// Begins a try at the debug properties.
pub fn apply_debug_properties(set_game_prop: usize) -> (run: DebugRun)
    ensures
        run@ == (DebugRunView { set_game_prop, step: DebugStep::SwapFlag }),
{
    DebugRun { set_game_prop, step: DebugStep::SwapFlag }
}

impl DebugRun {
    /// The step to perform now.
    pub fn step(&self) -> (step: DebugStep)
        ensures
            step == self@.step,
    {
        self.step
    }

    /// What is set, given the overrides as they are then: all of them, those of the user last.
    pub fn assignments(&self, overrides: &PropertyOverrides) -> (list: Vec<Assignment>)
        requires
            self@.step is SetProperties,
        ensures
            crate::mod_host::overrides::pairs(list@) == overrides@.in_order(),
            crate::mod_host::overrides::pairs(list@) == overrides@.internal + overrides@.user,
            crate::mod_host::overrides::all_nul_free(overrides@.in_order()),
    {
        overrides.in_order()
    }

    /// Takes the answer to the step and goes on; without a result the try is over.
    pub fn reply(self, answer: bool) -> (progress: Option<DebugRun>)
        ensures
            match next_debug_step(self@.set_game_prop, self@.step, answer) {
                Some(step) => progress matches Some(run) && run@ == (DebugRunView {
                    set_game_prop: self@.set_game_prop,
                    step,
                }),
                None => progress is None,
            },
            progress matches Some(run) ==> run@ == (DebugRunView {
                set_game_prop: self@.set_game_prop,
                step: DebugStep::SetProperties { set_game_prop: self@.set_game_prop },
            }),
            progress is Some <==> self@.step is SwapFlag && !answer,
    {
        match self.step {
            DebugStep::SwapFlag => if answer {
                None
            } else {
                let set_game_prop: usize = self.set_game_prop;
                Some(DebugRun { set_game_prop, step: DebugStep::SetProperties { set_game_prop } })
            },
            DebugStep::SetProperties { .. } => None,
        }
    }
}

} // verus!
