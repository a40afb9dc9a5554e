//! Catching up on properties whose initialisation a late attach missed.
//!
//! The hooks on the initialisation come first. A [`CatchUp`] watches the flags that they set, and
//! steps in where they do not. It names one step at a time: whoever drives it performs the step and
//! answers it, until the catch-up is over.

use vstd::prelude::*;

use crate::mod_host::game::Game;

verus! {

/// The pause between two looks at a flag.
pub const POLL_INTERVAL_MS: u64 = 25;

/// How long the system properties are waited for.
pub const MAX_WAIT_MS: u64 = 10_000;

/// How often the system properties are looked at.
pub const SYSTEM_POLLS: u64 = MAX_WAIT_MS / POLL_INTERVAL_MS;

/// How often the debug properties are looked at, once the system properties are there.
pub const DEBUG_POLLS: u64 = 40;

/// One step of a catch-up.
#[derive(Clone, Copy, Debug, PartialEq, Eq, Structural)]
pub enum CatchUpStep {
    /// Read the flag of the system properties. Answer: whether it is set.
    LoadSystemFlag,
    /// Try to apply the system properties of the game. Answer: whether they count as applied.
    ApplySystem { game: Game },
    /// Read the flag of the debug properties. Answer: whether it is set.
    LoadDebugFlag,
    /// Try to apply the debug properties with the method at this address. The answer does not
    /// matter.
    ApplyDebug { set_game_prop: usize },
    /// Wait. The answer does not matter.
    Sleep { ms: u64 },
}

/// What a catch-up is about: the game, and the address of the method that sets a property.
#[derive(Clone, Copy, Debug, PartialEq, Eq, Structural)]
pub struct CatchUpTarget {
    pub game: Game,
    pub set_game_prop: usize,
}

/// How a catch-up ended.
#[derive(Clone, Copy, Debug, PartialEq, Eq, Structural)]
pub enum CatchUpOutcome {
    /// The system properties did not become ready.
    NotReady,
    /// Nothing is left to catch up on.
    Complete,
}

/// How far a catch-up is. `left` counts the looks that are left, this one included.
#[derive(Clone, Copy, Debug, PartialEq, Eq, Structural)]
pub enum CatchUpPhase {
    /// About to look whether the system properties are applied.
    PollSystem { left: u64 },
    /// About to try to apply them.
    TrySystem { left: u64 },
    /// About to wait for them.
    WaitSystem { left: u64 },
    /// About to see whether the wait for them was in vain.
    CheckSystem,
    /// About to look whether the debug properties are applied.
    PollDebug { left: u64 },
    /// About to wait for their hook.
    WaitDebug { left: u64 },
    /// About to see whether their hook was missed.
    CheckDebug,
    /// About to apply them in place of the hook.
    ForceDebug,
}

/// What follows an answer.
#[derive(Clone, Copy, Debug, PartialEq, Eq, Structural)]
pub enum CatchUpNext {
    Phase(CatchUpPhase),
    Finished(CatchUpOutcome),
}

/// Where a catch-up begins.
pub open spec fn first_phase() -> CatchUpPhase {
    CatchUpPhase::PollSystem { left: SYSTEM_POLLS }
}

/// The step of a phase.
pub open spec fn step_of(target: CatchUpTarget, phase: CatchUpPhase) -> CatchUpStep {
    match phase {
        CatchUpPhase::PollSystem { .. } | CatchUpPhase::CheckSystem => CatchUpStep::LoadSystemFlag,
        CatchUpPhase::TrySystem { .. } => CatchUpStep::ApplySystem { game: target.game },
        CatchUpPhase::WaitSystem { .. } | CatchUpPhase::WaitDebug { .. } => CatchUpStep::Sleep {
            ms: POLL_INTERVAL_MS,
        },
        CatchUpPhase::PollDebug { .. } | CatchUpPhase::CheckDebug => CatchUpStep::LoadDebugFlag,
        CatchUpPhase::ForceDebug => CatchUpStep::ApplyDebug {
            set_game_prop: target.set_game_prop,
        },
    }
}

/// What follows the answer to the step of a phase.
pub open spec fn next_phase(phase: CatchUpPhase, answer: bool) -> CatchUpNext {
    match phase {
        CatchUpPhase::PollSystem { left } => CatchUpNext::Phase(
            if answer {
                CatchUpPhase::CheckSystem
            } else {
                CatchUpPhase::TrySystem { left }
            },
        ),
        CatchUpPhase::TrySystem { left } => CatchUpNext::Phase(
            if answer {
                CatchUpPhase::CheckSystem
            } else {
                CatchUpPhase::WaitSystem { left }
            },
        ),
        CatchUpPhase::WaitSystem { left } => CatchUpNext::Phase(
            if left > 1 {
                CatchUpPhase::PollSystem { left: (left - 1) as u64 }
            } else {
                CatchUpPhase::CheckSystem
            },
        ),
        CatchUpPhase::CheckSystem => if answer {
            CatchUpNext::Phase(CatchUpPhase::PollDebug { left: DEBUG_POLLS })
        } else {
            CatchUpNext::Finished(CatchUpOutcome::NotReady)
        },
        CatchUpPhase::PollDebug { left } => CatchUpNext::Phase(
            if answer {
                CatchUpPhase::CheckDebug
            } else {
                CatchUpPhase::WaitDebug { left }
            },
        ),
        CatchUpPhase::WaitDebug { left } => CatchUpNext::Phase(
            if left > 1 {
                CatchUpPhase::PollDebug { left: (left - 1) as u64 }
            } else {
                CatchUpPhase::CheckDebug
            },
        ),
        CatchUpPhase::CheckDebug => if answer {
            CatchUpNext::Finished(CatchUpOutcome::Complete)
        } else {
            CatchUpNext::Phase(CatchUpPhase::ForceDebug)
        },
        CatchUpPhase::ForceDebug => CatchUpNext::Finished(CatchUpOutcome::Complete),
    }
}

/// A catch-up that is under way.
pub struct CatchUp {
    target: CatchUpTarget,
    phase: CatchUpPhase,
}

/// A catch-up that is under way: what it is about, and how far it is.
pub struct CatchUpView {
    pub target: CatchUpTarget,
    pub phase: CatchUpPhase,
}

impl View for CatchUp {
    type V = CatchUpView;

    closed spec fn view(&self) -> CatchUpView {
        CatchUpView { target: self.target, phase: self.phase }
    }
}

/// Where a catch-up stands after an answer.
pub enum CatchUpProgress {
    Continue(CatchUp),
    Finished(CatchUpOutcome),
}

impl CatchUp {
    /// Begins a catch-up.
    pub fn begin(target: CatchUpTarget) -> (run: CatchUp)
        ensures
            run@ == (CatchUpView { target, phase: first_phase() }),
    {
        CatchUp { target, phase: CatchUpPhase::PollSystem { left: SYSTEM_POLLS } }
    }

    /// The step to perform now.
    pub fn step(&self) -> (step: CatchUpStep)
        ensures
            step == step_of(self@.target, self@.phase),
    {
        match self.phase {
            CatchUpPhase::PollSystem { .. } => CatchUpStep::LoadSystemFlag,
            CatchUpPhase::CheckSystem => CatchUpStep::LoadSystemFlag,
            CatchUpPhase::TrySystem { .. } => CatchUpStep::ApplySystem { game: self.target.game },
            CatchUpPhase::WaitSystem { .. } => CatchUpStep::Sleep { ms: POLL_INTERVAL_MS },
            CatchUpPhase::WaitDebug { .. } => CatchUpStep::Sleep { ms: POLL_INTERVAL_MS },
            CatchUpPhase::PollDebug { .. } => CatchUpStep::LoadDebugFlag,
            CatchUpPhase::CheckDebug => CatchUpStep::LoadDebugFlag,
            CatchUpPhase::ForceDebug => CatchUpStep::ApplyDebug {
                set_game_prop: self.target.set_game_prop,
            },
        }
    }

    /// Takes the answer to the step and goes on.
    pub fn reply(self, answer: bool) -> (progress: CatchUpProgress)
        ensures
            match next_phase(self@.phase, answer) {
                CatchUpNext::Phase(phase) => progress matches CatchUpProgress::Continue(run)
                    && run@ == (CatchUpView { target: self@.target, phase }),
                CatchUpNext::Finished(outcome) => progress == CatchUpProgress::Finished(outcome),
            },
    {
        let phase: CatchUpPhase = match self.phase {
            CatchUpPhase::PollSystem { left } => if answer {
                CatchUpPhase::CheckSystem
            } else {
                CatchUpPhase::TrySystem { left }
            },
            CatchUpPhase::TrySystem { left } => if answer {
                CatchUpPhase::CheckSystem
            } else {
                CatchUpPhase::WaitSystem { left }
            },
            CatchUpPhase::WaitSystem { left } => if left > 1 {
                CatchUpPhase::PollSystem { left: left - 1 }
            } else {
                CatchUpPhase::CheckSystem
            },
            CatchUpPhase::CheckSystem => if answer {
                CatchUpPhase::PollDebug { left: DEBUG_POLLS }
            } else {
                return CatchUpProgress::Finished(CatchUpOutcome::NotReady);
            },
            CatchUpPhase::PollDebug { left } => if answer {
                CatchUpPhase::CheckDebug
            } else {
                CatchUpPhase::WaitDebug { left }
            },
            CatchUpPhase::WaitDebug { left } => if left > 1 {
                CatchUpPhase::PollDebug { left: left - 1 }
            } else {
                CatchUpPhase::CheckDebug
            },
            CatchUpPhase::CheckDebug => if answer {
                return CatchUpProgress::Finished(CatchUpOutcome::Complete);
            } else {
                CatchUpPhase::ForceDebug
            },
            CatchUpPhase::ForceDebug => {
                return CatchUpProgress::Finished(CatchUpOutcome::Complete);
            },
        };
        CatchUpProgress::Continue(CatchUp { target: self.target, phase })
    }
}

/// Whether `answers` are what a driver can have answered so far: none comes after the catch-up is
/// over.
pub open spec fn answered(phase: CatchUpPhase, answers: Seq<bool>) -> bool
    decreases answers.len(),
{
    answers.len() > 0 ==> match next_phase(phase, answers[0]) {
        CatchUpNext::Phase(next) => answered(next, answers.drop_first()),
        CatchUpNext::Finished(_) => answers.len() == 1,
    }
}

/// The steps that `answers` answer.
pub open spec fn performed(
    target: CatchUpTarget,
    phase: CatchUpPhase,
    answers: Seq<bool>,
) -> Seq<CatchUpStep>
    decreases answers.len(),
{
    if answers.len() == 0 {
        Seq::empty()
    } else {
        seq![step_of(target, phase)] + match next_phase(phase, answers[0]) {
            CatchUpNext::Phase(next) => performed(target, next, answers.drop_first()),
            CatchUpNext::Finished(_) => Seq::empty(),
        }
    }
}

/// Where a catch-up stands after `answers`.
pub open spec fn after(phase: CatchUpPhase, answers: Seq<bool>) -> CatchUpNext
    decreases answers.len(),
{
    if answers.len() == 0 {
        CatchUpNext::Phase(phase)
    } else {
        match next_phase(phase, answers[0]) {
            CatchUpNext::Phase(next) => after(next, answers.drop_first()),
            CatchUpNext::Finished(outcome) => CatchUpNext::Finished(outcome),
        }
    }
}

/// The milliseconds that a row of steps waits.
pub open spec fn waited(steps: Seq<CatchUpStep>) -> int
    decreases steps.len(),
{
    if steps.len() == 0 {
        0
    } else {
        let first: int = match steps[0] {
            CatchUpStep::Sleep { ms } => ms as int,
            _ => 0,
        };
        first + waited(steps.drop_first())
    }
}

/// The most steps that a catch-up takes from a phase on.
spec fn steps_left(phase: CatchUpPhase) -> int {
    let debug: int = 2 * DEBUG_POLLS + 2;
    match phase {
        CatchUpPhase::PollSystem { left } => 3 * left + 1 + debug,
        CatchUpPhase::TrySystem { left } => 3 * left + debug,
        CatchUpPhase::WaitSystem { left } => 3 * left - 1 + debug,
        CatchUpPhase::CheckSystem => 1 + debug,
        CatchUpPhase::PollDebug { left } => 2 * left + 2,
        CatchUpPhase::WaitDebug { left } => 2 * left + 1,
        CatchUpPhase::CheckDebug => 2,
        CatchUpPhase::ForceDebug => 1,
    }
}

/// Whether the count of a phase is not used up.
spec fn counting(phase: CatchUpPhase) -> bool {
    match phase {
        CatchUpPhase::PollSystem { left } => left > 0,
        CatchUpPhase::TrySystem { left } => left > 0,
        CatchUpPhase::WaitSystem { left } => left > 0,
        CatchUpPhase::PollDebug { left } => left > 0,
        CatchUpPhase::WaitDebug { left } => left > 0,
        _ => true,
    }
}

proof fn lemma_steps_left(target: CatchUpTarget, phase: CatchUpPhase, answers: Seq<bool>)
    requires
        counting(phase),
        answered(phase, answers),
    ensures
        performed(target, phase, answers).len() == answers.len(),
        answers.len() <= steps_left(phase),
    decreases answers.len(),
{
    if answers.len() > 0 {
        match next_phase(phase, answers[0]) {
            CatchUpNext::Phase(next) => {
                lemma_steps_left(target, next, answers.drop_first());
            },
            CatchUpNext::Finished(_) => {},
        }
    }
}

/// A catch-up ends, whatever the answers: it never takes more steps than three for each look at the
/// system properties, two for each look at the debug properties, and three checks and acts.
pub proof fn catch_up_ends(target: CatchUpTarget, answers: Seq<bool>)
    requires
        answered(first_phase(), answers),
    ensures
        performed(target, first_phase(), answers).len() == answers.len(),
        answers.len() <= 3 * SYSTEM_POLLS + 2 * DEBUG_POLLS + 3,
{
    lemma_steps_left(target, first_phase(), answers);
}

/// The most milliseconds that are waited from a phase on for the system properties.
spec fn system_wait_left(phase: CatchUpPhase) -> int {
    match phase {
        CatchUpPhase::PollSystem { left } => left * POLL_INTERVAL_MS,
        CatchUpPhase::TrySystem { left } => left * POLL_INTERVAL_MS,
        CatchUpPhase::WaitSystem { left } => left * POLL_INTERVAL_MS,
        _ => 0,
    }
}

/// The most milliseconds that are waited from a phase on for the debug properties.
spec fn debug_wait_left(phase: CatchUpPhase) -> int {
    match phase {
        CatchUpPhase::PollDebug { left } => left * POLL_INTERVAL_MS,
        CatchUpPhase::WaitDebug { left } => left * POLL_INTERVAL_MS,
        CatchUpPhase::CheckDebug | CatchUpPhase::ForceDebug => 0,
        _ => DEBUG_POLLS * POLL_INTERVAL_MS,
    }
}

/// Whether a phase is about the system properties.
spec fn about_system(phase: CatchUpPhase) -> bool {
    ||| phase is PollSystem
    ||| phase is TrySystem
    ||| phase is WaitSystem
    ||| phase is CheckSystem
}

proof fn lemma_wait_left(target: CatchUpTarget, phase: CatchUpPhase, answers: Seq<bool>)
    requires
        counting(phase),
        answered(phase, answers),
    ensures
        waited(performed(target, phase, answers)) <= system_wait_left(phase) + debug_wait_left(
            phase,
        ),
        about_system(phase) && !performed(target, phase, answers).contains(
            CatchUpStep::LoadDebugFlag,
        ) ==> waited(performed(target, phase, answers)) <= system_wait_left(phase),
    decreases answers.len(),
{
    let steps = performed(target, phase, answers);
    if answers.len() > 0 {
        match next_phase(phase, answers[0]) {
            CatchUpNext::Phase(next) => {
                let rest = performed(target, next, answers.drop_first());
                lemma_wait_left(target, next, answers.drop_first());
                assert(steps.drop_first() =~= rest);
                assert(steps[0] == step_of(target, phase));
                if rest.contains(CatchUpStep::LoadDebugFlag) {
                    let i = choose|i: int| 0 <= i < rest.len() && rest[i]
                        == CatchUpStep::LoadDebugFlag;
                    assert(steps[i + 1] == CatchUpStep::LoadDebugFlag);
                }
                if about_system(phase) && !about_system(next) {
                    if answers.drop_first().len() > 0 {
                        assert(rest[0] == CatchUpStep::LoadDebugFlag);
                        assert(steps[1] == CatchUpStep::LoadDebugFlag);
                    } else {
                        assert(waited(rest) == 0);
                    }
                }
            },
            CatchUpNext::Finished(_) => {
                assert(steps.drop_first() =~= Seq::empty());
                assert(waited(steps.drop_first()) == 0);
            },
        }
    }
}

/// The system properties are waited for no longer than [`MAX_WAIT_MS`], and the debug properties
/// after that for no longer than [`DEBUG_POLLS`] pauses.
pub proof fn waits_are_bounded(target: CatchUpTarget, answers: Seq<bool>)
    requires
        answered(first_phase(), answers),
    ensures
        waited(performed(target, first_phase(), answers)) <= MAX_WAIT_MS + DEBUG_POLLS
            * POLL_INTERVAL_MS,
        !performed(target, first_phase(), answers).contains(CatchUpStep::LoadDebugFlag) ==> waited(
            performed(target, first_phase(), answers),
        ) <= MAX_WAIT_MS,
{
    lemma_wait_left(target, first_phase(), answers);
}

proof fn lemma_system_first(target: CatchUpTarget, phase: CatchUpPhase, answers: Seq<bool>, at: int)
    requires
        about_system(phase),
        counting(phase),
        answered(phase, answers),
        0 <= at < answers.len(),
        performed(target, phase, answers)[at] == CatchUpStep::LoadDebugFlag || performed(
            target,
            phase,
            answers,
        )[at] is ApplyDebug,
    ensures
        exists|i: int|
            0 <= i < at && #[trigger] performed(target, phase, answers)[i]
                == CatchUpStep::LoadSystemFlag && answers[i],
    decreases answers.len(),
{
    lemma_steps_left(target, phase, answers);
    let steps = performed(target, phase, answers);
    assert(steps[0] == step_of(target, phase));
    match next_phase(phase, answers[0]) {
        CatchUpNext::Phase(next) => {
            let rest = performed(target, next, answers.drop_first());
            assert(steps.drop_first() =~= rest);
            assert(rest[at - 1] == steps[at]);
            if about_system(next) {
                lemma_system_first(target, next, answers.drop_first(), at - 1);
                let i = choose|i: int|
                    0 <= i < at - 1 && #[trigger] rest[i] == CatchUpStep::LoadSystemFlag
                        && answers.drop_first()[i];
                assert(steps[i + 1] == CatchUpStep::LoadSystemFlag && answers[i + 1]);
            } else {
                assert(steps[0] == CatchUpStep::LoadSystemFlag && answers[0]);
            }
        },
        CatchUpNext::Finished(_) => {},
    }
}

/// The debug properties are neither looked at nor applied before the flag of the system properties
/// was seen set.
pub proof fn system_properties_come_first(target: CatchUpTarget, answers: Seq<bool>, at: int)
    requires
        answered(first_phase(), answers),
        0 <= at < answers.len(),
        performed(target, first_phase(), answers)[at] == CatchUpStep::LoadDebugFlag || performed(
            target,
            first_phase(),
            answers,
        )[at] is ApplyDebug,
    ensures
        exists|i: int|
            0 <= i < at && #[trigger] performed(target, first_phase(), answers)[i]
                == CatchUpStep::LoadSystemFlag && answers[i],
{
    lemma_system_first(target, first_phase(), answers, at);
}

proof fn lemma_forced_last(target: CatchUpTarget, phase: CatchUpPhase, answers: Seq<bool>, at: int)
    requires
        counting(phase),
        answered(phase, answers),
        !(phase is ForceDebug),
        0 <= at < answers.len(),
        performed(target, phase, answers)[at] is ApplyDebug,
    ensures
        at == answers.len() - 1,
        at > 0,
        performed(target, phase, answers)[at - 1] == CatchUpStep::LoadDebugFlag,
        !answers[at - 1],
    decreases answers.len(),
{
    lemma_steps_left(target, phase, answers);
    let steps = performed(target, phase, answers);
    assert(steps[0] == step_of(target, phase));
    match next_phase(phase, answers[0]) {
        CatchUpNext::Phase(next) => {
            let rest = performed(target, next, answers.drop_first());
            assert(steps.drop_first() =~= rest);
            assert(rest[at - 1] == steps[at]);
            if next is ForceDebug {
                assert(answers.drop_first().len() == 1);
            } else {
                lemma_forced_last(target, next, answers.drop_first(), at - 1);
                assert(steps[at - 1] == rest[at - 2]);
            }
        },
        CatchUpNext::Finished(_) => {},
    }
}

/// The hook of the debug properties has the first opportunity: they are applied in its place only
/// right after its flag was seen unset, and then the catch-up is over.
pub proof fn debug_hook_goes_first(target: CatchUpTarget, answers: Seq<bool>, at: int)
    requires
        answered(first_phase(), answers),
        0 <= at < answers.len(),
        performed(target, first_phase(), answers)[at] is ApplyDebug,
    ensures
        at == answers.len() - 1,
        at > 0,
        performed(target, first_phase(), answers)[at - 1] == CatchUpStep::LoadDebugFlag,
        !answers[at - 1],
{
    lemma_forced_last(target, first_phase(), answers, at);
}

proof fn lemma_tried_after_look(
    target: CatchUpTarget,
    phase: CatchUpPhase,
    answers: Seq<bool>,
    at: int,
)
    requires
        counting(phase),
        answered(phase, answers),
        !(phase is TrySystem),
        0 <= at < answers.len(),
        performed(target, phase, answers)[at] is ApplySystem,
    ensures
        at > 0,
        performed(target, phase, answers)[at - 1] == CatchUpStep::LoadSystemFlag,
        !answers[at - 1],
    decreases answers.len(),
{
    lemma_steps_left(target, phase, answers);
    let steps = performed(target, phase, answers);
    assert(steps[0] == step_of(target, phase));
    match next_phase(phase, answers[0]) {
        CatchUpNext::Phase(next) => {
            let rest = performed(target, next, answers.drop_first());
            assert(steps.drop_first() =~= rest);
            assert(rest[at - 1] == steps[at]);
            if at > 1 {
                if next is TrySystem {
                    let later = answers.drop_first();
                    assert(answered(next, later));
                    let past = next_phase(next, later[0])->Phase_0;
                    assert(rest.drop_first() =~= performed(target, past, later.drop_first()));
                    assert(performed(target, past, later.drop_first())[at - 2] == steps[at]);
                    lemma_tried_after_look(target, past, later.drop_first(), at - 2);
                    assert(steps[at - 1] == performed(target, past, later.drop_first())[at - 3]);
                    assert(answers[at - 1] == later.drop_first()[at - 3]);
                } else {
                    lemma_tried_after_look(target, next, answers.drop_first(), at - 1);
                    assert(steps[at - 1] == rest[at - 2]);
                }
            } else {
                assert(rest[0] == step_of(target, next));
            }
        },
        CatchUpNext::Finished(_) => {},
    }
}

/// The hook of the system properties has the first opportunity: a try in its place is made only
/// right after its flag was seen unset.
pub proof fn system_hook_goes_first(target: CatchUpTarget, answers: Seq<bool>, at: int)
    requires
        answered(first_phase(), answers),
        0 <= at < answers.len(),
        performed(target, first_phase(), answers)[at] is ApplySystem,
    ensures
        at > 0,
        performed(target, first_phase(), answers)[at - 1] == CatchUpStep::LoadSystemFlag,
        !answers[at - 1],
{
    lemma_tried_after_look(target, first_phase(), answers, at);
}

proof fn lemma_complete(target: CatchUpTarget, phase: CatchUpPhase, answers: Seq<bool>)
    requires
        counting(phase),
        answered(phase, answers),
        answers.len() > 0,
        after(phase, answers) is Finished,
    ensures
        after(phase, answers) == CatchUpNext::Finished(CatchUpOutcome::NotReady)
            <==> performed(target, phase, answers).last() == CatchUpStep::LoadSystemFlag,
        after(phase, answers) == CatchUpNext::Finished(CatchUpOutcome::NotReady)
            ==> !answers.last(),
        after(phase, answers) == CatchUpNext::Finished(CatchUpOutcome::Complete) ==> performed(
            target,
            phase,
            answers,
        ).last() is ApplyDebug || (performed(target, phase, answers).last()
            == CatchUpStep::LoadDebugFlag && answers.last()),
    decreases answers.len(),
{
    lemma_steps_left(target, phase, answers);
    let steps = performed(target, phase, answers);
    match next_phase(phase, answers[0]) {
        CatchUpNext::Phase(next) => {
            let rest = answers.drop_first();
            if rest.len() > 0 {
                lemma_complete(target, next, rest);
                lemma_steps_left(target, next, rest);
                assert(steps.drop_first() =~= performed(target, next, rest));
                assert(steps.last() == performed(target, next, rest).last());
                assert(answers.last() == rest.last());
            }
        },
        CatchUpNext::Finished(_) => {
            assert(steps =~= seq![step_of(target, phase)]);
        },
    }
}

/// A catch-up gives up exactly where its last look finds the flag of the system properties unset,
/// and is complete where the debug properties were seen applied or were applied by itself.
pub proof fn outcome_is_what_was_seen(target: CatchUpTarget, answers: Seq<bool>)
    requires
        answered(first_phase(), answers),
        answers.len() > 0,
        after(first_phase(), answers) is Finished,
    ensures
        after(first_phase(), answers) == CatchUpNext::Finished(CatchUpOutcome::NotReady)
            <==> performed(target, first_phase(), answers).last() == CatchUpStep::LoadSystemFlag,
        after(first_phase(), answers) == CatchUpNext::Finished(CatchUpOutcome::NotReady)
            ==> !answers.last(),
        after(first_phase(), answers) == CatchUpNext::Finished(CatchUpOutcome::Complete)
            ==> performed(target, first_phase(), answers).last() is ApplyDebug || (performed(
            target,
            first_phase(),
            answers,
        ).last() == CatchUpStep::LoadDebugFlag && answers.last()),
{
    lemma_complete(target, first_phase(), answers);
}

/// How often a row of steps tries to apply the system properties.
pub open spec fn system_tries(steps: Seq<CatchUpStep>) -> int
    decreases steps.len(),
{
    if steps.len() == 0 {
        0
    } else {
        let first: int = if steps[0] is ApplySystem {
            1
        } else {
            0
        };
        first + system_tries(steps.drop_first())
    }
}

/// Whether no look and no try finds the system properties applied.
pub open spec fn system_never_ready(steps: Seq<CatchUpStep>, answers: Seq<bool>) -> bool {
    forall|i: int|
        0 <= i < steps.len() && (steps[i] == CatchUpStep::LoadSystemFlag
            || steps[i] is ApplySystem) ==> !#[trigger] answers[i]
}

/// Whether no look finds the debug properties applied.
pub open spec fn debug_never_seen(steps: Seq<CatchUpStep>, answers: Seq<bool>) -> bool {
    forall|i: int|
        0 <= i < steps.len() && steps[i] == CatchUpStep::LoadDebugFlag ==> !#[trigger] answers[i]
}

/// The tries that are left from a phase on while the system properties do not become ready.
spec fn system_tries_left(phase: CatchUpPhase) -> int {
    match phase {
        CatchUpPhase::PollSystem { left } => left as int,
        CatchUpPhase::TrySystem { left } => left as int,
        CatchUpPhase::WaitSystem { left } => left - 1,
        _ => 0,
    }
}

proof fn lemma_never_ready(target: CatchUpTarget, phase: CatchUpPhase, answers: Seq<bool>)
    requires
        about_system(phase),
        counting(phase),
        answered(phase, answers),
        after(phase, answers) is Finished,
        system_never_ready(performed(target, phase, answers), answers),
    ensures
        after(phase, answers) == CatchUpNext::Finished(CatchUpOutcome::NotReady),
        system_tries(performed(target, phase, answers)) == system_tries_left(phase),
        waited(performed(target, phase, answers)) == system_wait_left(phase),
    decreases answers.len(),
{
    lemma_steps_left(target, phase, answers);
    let steps = performed(target, phase, answers);
    assert(steps[0] == step_of(target, phase));
    match next_phase(phase, answers[0]) {
        CatchUpNext::Phase(next) => {
            let later = answers.drop_first();
            let rest = performed(target, next, later);
            lemma_steps_left(target, next, later);
            assert(steps.drop_first() =~= rest);
            assert forall|i: int|
                0 <= i < rest.len() && (rest[i] == CatchUpStep::LoadSystemFlag
                    || rest[i] is ApplySystem) implies !#[trigger] later[i] by {
                assert(steps[i + 1] == rest[i]);
                assert(!answers[i + 1]);
            }
            lemma_never_ready(target, next, later);
        },
        CatchUpNext::Finished(_) => {
            assert(steps.drop_first() =~= Seq::empty());
            assert(waited(steps.drop_first()) == 0);
            assert(system_tries(steps.drop_first()) == 0);
        },
    }
}

/// While the system properties do not become ready, every try is made and the whole wait is waited:
/// a catch-up that never finds them applied tries [`SYSTEM_POLLS`] times, waits [`MAX_WAIT_MS`] and
/// gives up.
pub proof fn never_ready_exhausts_the_tries(target: CatchUpTarget, answers: Seq<bool>)
    requires
        answered(first_phase(), answers),
        after(first_phase(), answers) is Finished,
        system_never_ready(performed(target, first_phase(), answers), answers),
    ensures
        after(first_phase(), answers) == CatchUpNext::Finished(CatchUpOutcome::NotReady),
        system_tries(performed(target, first_phase(), answers)) == SYSTEM_POLLS,
        waited(performed(target, first_phase(), answers)) == MAX_WAIT_MS,
{
    lemma_never_ready(target, first_phase(), answers);
}

proof fn lemma_debug_missed(target: CatchUpTarget, phase: CatchUpPhase, answers: Seq<bool>)
    requires
        !about_system(phase),
        counting(phase),
        answered(phase, answers),
        after(phase, answers) is Finished,
        debug_never_seen(performed(target, phase, answers), answers),
    ensures
        after(phase, answers) == CatchUpNext::Finished(CatchUpOutcome::Complete),
        waited(performed(target, phase, answers)) == debug_wait_left(phase),
        performed(target, phase, answers).last() == (CatchUpStep::ApplyDebug {
            set_game_prop: target.set_game_prop,
        }),
    decreases answers.len(),
{
    lemma_steps_left(target, phase, answers);
    let steps = performed(target, phase, answers);
    assert(steps[0] == step_of(target, phase));
    match next_phase(phase, answers[0]) {
        CatchUpNext::Phase(next) => {
            let later = answers.drop_first();
            let rest = performed(target, next, later);
            lemma_steps_left(target, next, later);
            assert(steps.drop_first() =~= rest);
            assert forall|i: int|
                0 <= i < rest.len() && rest[i] == CatchUpStep::LoadDebugFlag implies
                !#[trigger] later[i] by {
                assert(steps[i + 1] == rest[i]);
                assert(!answers[i + 1]);
            }
            lemma_debug_missed(target, next, later);
            assert(steps.last() == rest.last());
        },
        CatchUpNext::Finished(_) => {
            assert(steps.drop_first() =~= Seq::empty());
            assert(waited(steps.drop_first()) == 0);
        },
    }
}

proof fn lemma_missed_after_look(
    target: CatchUpTarget,
    phase: CatchUpPhase,
    answers: Seq<bool>,
    look: int,
)
    requires
        about_system(phase),
        counting(phase),
        answered(phase, answers),
        after(phase, answers) is Finished,
        debug_never_seen(performed(target, phase, answers), answers),
        0 <= look < answers.len(),
        performed(target, phase, answers)[look] == CatchUpStep::LoadDebugFlag,
        forall|i: int|
            0 <= i < look ==> #[trigger] performed(target, phase, answers)[i]
                != CatchUpStep::LoadDebugFlag,
    ensures
        after(phase, answers) == CatchUpNext::Finished(CatchUpOutcome::Complete),
        waited(performed(target, phase, answers).skip(look)) == DEBUG_POLLS * POLL_INTERVAL_MS,
        performed(target, phase, answers).last() == (CatchUpStep::ApplyDebug {
            set_game_prop: target.set_game_prop,
        }),
    decreases answers.len(),
{
    lemma_steps_left(target, phase, answers);
    let steps = performed(target, phase, answers);
    assert(steps[0] == step_of(target, phase));
    match next_phase(phase, answers[0]) {
        CatchUpNext::Phase(next) => {
            let later = answers.drop_first();
            let rest = performed(target, next, later);
            lemma_steps_left(target, next, later);
            assert(steps.drop_first() =~= rest);
            assert forall|i: int|
                0 <= i < rest.len() && rest[i] == CatchUpStep::LoadDebugFlag implies
                !#[trigger] later[i] by {
                assert(steps[i + 1] == rest[i]);
                assert(!answers[i + 1]);
            }
            assert(rest[look - 1] == steps[look]);
            if about_system(next) {
                assert forall|i: int| 0 <= i < look - 1 implies #[trigger] rest[i]
                    != CatchUpStep::LoadDebugFlag by {
                    assert(steps[i + 1] == rest[i]);
                }
                lemma_missed_after_look(target, next, later, look - 1);
                assert(steps.skip(look) =~= rest.skip(look - 1));
            } else {
                assert(steps[1] == rest[0]);
                assert(look == 1);
                lemma_debug_missed(target, next, later);
                assert(steps.skip(look) =~= rest);
            }
            assert(steps.last() == rest.last());
        },
        CatchUpNext::Finished(_) => {},
    }
}

/// A hook of the debug properties that was missed is waited for in full: from the first look on, a
/// catch-up that never finds them applied waits [`DEBUG_POLLS`] pauses, then applies them once, as
/// its last step, and is complete.
pub proof fn missed_debug_hook_is_made_up_for(
    target: CatchUpTarget,
    answers: Seq<bool>,
    look: int,
)
    requires
        answered(first_phase(), answers),
        after(first_phase(), answers) is Finished,
        debug_never_seen(performed(target, first_phase(), answers), answers),
        0 <= look < answers.len(),
        performed(target, first_phase(), answers)[look] == CatchUpStep::LoadDebugFlag,
        forall|i: int|
            0 <= i < look ==> #[trigger] performed(target, first_phase(), answers)[i]
                != CatchUpStep::LoadDebugFlag,
    ensures
        after(first_phase(), answers) == CatchUpNext::Finished(CatchUpOutcome::Complete),
        waited(performed(target, first_phase(), answers).skip(look)) == DEBUG_POLLS
            * POLL_INTERVAL_MS,
        performed(target, first_phase(), answers).last() == (CatchUpStep::ApplyDebug {
            set_game_prop: target.set_game_prop,
        }),
        forall|i: int|
            0 <= i < answers.len() - 1 ==> !(#[trigger] performed(target, first_phase(), answers)[i]
                is ApplyDebug),
{
    lemma_steps_left(target, first_phase(), answers);
    lemma_missed_after_look(target, first_phase(), answers, look);
    assert forall|i: int| 0 <= i < answers.len() - 1 implies !(
    #[trigger] performed(target, first_phase(), answers)[i] is ApplyDebug) by {
        if performed(target, first_phase(), answers)[i] is ApplyDebug {
            debug_hook_goes_first(target, answers, i);
        }
    }
}

proof fn lemma_no_more_tries(target: CatchUpTarget, phase: CatchUpPhase, answers: Seq<bool>)
    requires
        phase is CheckSystem || !about_system(phase),
        counting(phase),
        answered(phase, answers),
    ensures
        system_tries(performed(target, phase, answers)) == 0,
        forall|i: int|
            0 <= i < answers.len() ==> !(#[trigger] performed(target, phase, answers)[i]
                is ApplySystem),
    decreases answers.len(),
{
    lemma_steps_left(target, phase, answers);
    let steps = performed(target, phase, answers);
    if answers.len() > 0 {
        assert(steps[0] == step_of(target, phase));
        match next_phase(phase, answers[0]) {
            CatchUpNext::Phase(next) => {
                let rest = performed(target, next, answers.drop_first());
                lemma_steps_left(target, next, answers.drop_first());
                lemma_no_more_tries(target, next, answers.drop_first());
                assert(steps.drop_first() =~= rest);
                assert forall|i: int| 0 <= i < answers.len() implies !(
                #[trigger] steps[i] is ApplySystem) by {
                    if i > 0 {
                        assert(steps[i] == rest[i - 1]);
                    }
                }
            },
            CatchUpNext::Finished(_) => {
                assert(steps.drop_first() =~= Seq::empty());
                assert(system_tries(steps.drop_first()) == 0);
            },
        }
    }
}

proof fn lemma_pause_per_try(
    target: CatchUpTarget,
    phase: CatchUpPhase,
    answers: Seq<bool>,
    at: int,
)
    requires
        about_system(phase),
        counting(phase),
        answered(phase, answers),
        0 <= at < answers.len(),
        performed(target, phase, answers)[at] is ApplySystem,
    ensures
        ({
            let steps = performed(target, phase, answers);
            let owed: int = if phase is WaitSystem {
                1
            } else {
                0
            };
            &&& waited(steps.take(at)) == POLL_INTERVAL_MS * (system_tries(steps.take(at)) + owed)
            &&& answers[at] ==> system_tries(steps) == system_tries(steps.take(at)) + 1
            &&& answers[at] && at + 1 < answers.len() ==> steps[at + 1]
                == CatchUpStep::LoadSystemFlag
        }),
    decreases answers.len(),
{
    lemma_steps_left(target, phase, answers);
    let steps = performed(target, phase, answers);
    assert(steps[0] == step_of(target, phase));
    match next_phase(phase, answers[0]) {
        CatchUpNext::Phase(next) => {
            let later = answers.drop_first();
            let rest = performed(target, next, later);
            lemma_steps_left(target, next, later);
            assert(steps.drop_first() =~= rest);
            if at == 0 {
                assert(steps.take(at) =~= Seq::empty());
                if answers[0] {
                    lemma_no_more_tries(target, next, later);
                    if answers.len() > 1 {
                        assert(steps[1] == rest[0]);
                    }
                }
            } else {
                assert(rest[at - 1] == steps[at]);
                assert(answered(next, later));
                if next is CheckSystem || !about_system(next) {
                    lemma_no_more_tries(target, next, later);
                }
                lemma_pause_per_try(target, next, later, at - 1);
                assert(steps.take(at).drop_first() =~= rest.take(at - 1));
                assert(steps.take(at)[0] == steps[0]);
                if at + 1 < answers.len() {
                    assert(steps[at + 1] == rest[at]);
                }
            }
        },
        CatchUpNext::Finished(_) => {},
    }
}

/// Each try at the system properties that fails costs one pause, and nothing else does: as many
/// pauses were waited before a try as tries were made before it. A try that succeeds is the last
/// one, and the next step is the look that confirms it, without a pause.
pub proof fn one_pause_per_failed_try(target: CatchUpTarget, answers: Seq<bool>, at: int)
    requires
        answered(first_phase(), answers),
        0 <= at < answers.len(),
        performed(target, first_phase(), answers)[at] is ApplySystem,
    ensures
        ({
            let steps = performed(target, first_phase(), answers);
            &&& waited(steps.take(at)) == POLL_INTERVAL_MS * system_tries(steps.take(at))
            &&& answers[at] ==> waited(steps.take(at)) == POLL_INTERVAL_MS * (system_tries(steps)
                - 1)
            &&& answers[at] && at + 1 < answers.len() ==> steps[at + 1]
                == CatchUpStep::LoadSystemFlag
        }),
{
    lemma_pause_per_try(target, first_phase(), answers, at);
}

/// Every application is to the game, and with the method, that the catch-up was begun with.
pub proof fn catch_up_keeps_its_target(target: CatchUpTarget, answers: Seq<bool>, at: int)
    requires
        answered(first_phase(), answers),
        0 <= at < answers.len(),
    ensures
        match performed(target, first_phase(), answers)[at] {
            CatchUpStep::ApplySystem { game } => game == target.game,
            CatchUpStep::ApplyDebug { set_game_prop } => set_game_prop == target.set_game_prop,
            _ => true,
        },
{
    lemma_keeps_its_target(target, first_phase(), answers, at);
}

proof fn lemma_keeps_its_target(
    target: CatchUpTarget,
    phase: CatchUpPhase,
    answers: Seq<bool>,
    at: int,
)
    requires
        counting(phase),
        answered(phase, answers),
        0 <= at < answers.len(),
    ensures
        exists|p: CatchUpPhase| performed(target, phase, answers)[at] == #[trigger] step_of(
            target,
            p,
        ),
    decreases answers.len(),
{
    lemma_steps_left(target, phase, answers);
    let steps = performed(target, phase, answers);
    assert(steps[0] == step_of(target, phase));
    match next_phase(phase, answers[0]) {
        CatchUpNext::Phase(next) => {
            if at > 0 {
                lemma_keeps_its_target(target, next, answers.drop_first(), at - 1);
                assert(steps[at] == performed(target, next, answers.drop_first())[at - 1]);
            }
        },
        CatchUpNext::Finished(_) => {},
    }
}

} // verus!
