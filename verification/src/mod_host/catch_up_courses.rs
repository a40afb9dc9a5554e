//! The course of a catch-up, step by step, for every row of answers.

use vstd::prelude::*;

use crate::mod_host::catch_up::{
    CatchUpNext, CatchUpOutcome, CatchUpPhase, CatchUpStep, CatchUpTarget,
};

verus! {

/// Where a catch-up stands after `answers`.
pub open spec fn stands(answers: Seq<bool>) -> CatchUpNext {
    crate::mod_host::catch_up::after(crate::mod_host::catch_up::first_phase(), answers)
}

/// The step that a catch-up performs after `answers`, if it is not over.
pub open spec fn upcoming(target: CatchUpTarget, answers: Seq<bool>) -> Option<CatchUpStep> {
    match stands(answers) {
        CatchUpNext::Phase(phase) => Some(crate::mod_host::catch_up::step_of(target, phase)),
        CatchUpNext::Finished(_) => None,
    }
}

/// Whether `answers` are those of a wait for the system properties in which neither a look nor a
/// try has succeeded yet. Each round is a look, a try and a pause; only the pause may be answered
/// by anything.
pub open spec fn waits_for_system(answers: Seq<bool>) -> bool {
    &&& answers.len() <= 1200
    &&& forall|i: int| 0 <= i < answers.len() && i % 3 != 2 ==> !#[trigger] answers[i]
}

/// Whether `answers` end a wait for the system properties: a look or a try has just succeeded, or
/// four hundred rounds are over.
pub open spec fn ends_system_wait(answers: Seq<bool>) -> bool {
    ||| answers.len() == 1200 && waits_for_system(answers)
    ||| {
        &&& 0 < answers.len() <= 1200
        &&& waits_for_system(answers.drop_last())
        &&& (answers.len() - 1) % 3 != 2
        &&& answers.last()
    }
}

/// Whether `answers` are those of a wait for the debug properties in which no look has succeeded
/// yet. Each round is a look and a pause.
pub open spec fn waits_for_debug(answers: Seq<bool>) -> bool {
    &&& answers.len() <= 80
    &&& forall|i: int| 0 <= i < answers.len() && i % 2 != 1 ==> !#[trigger] answers[i]
}

/// Whether `answers` end a wait for the debug properties: a look has just succeeded, or forty
/// rounds are over.
pub open spec fn ends_debug_wait(answers: Seq<bool>) -> bool {
    ||| answers.len() == 80 && waits_for_debug(answers)
    ||| {
        &&& 0 < answers.len() <= 80
        &&& waits_for_debug(answers.drop_last())
        &&& (answers.len() - 1) % 2 != 1
        &&& answers.last()
    }
}

proof fn lemma_after_push(phase: CatchUpPhase, answers: Seq<bool>, answer: bool)
    ensures
        crate::mod_host::catch_up::after(phase, answers.push(answer)) == (
        match crate::mod_host::catch_up::after(phase, answers) {
            CatchUpNext::Phase(next) => crate::mod_host::catch_up::next_phase(next, answer),
            CatchUpNext::Finished(outcome) => CatchUpNext::Finished(outcome),
        }),
    decreases answers.len(),
{
    if answers.len() == 0 {
        assert(answers.push(answer).drop_first() =~= answers);
        match crate::mod_host::catch_up::next_phase(phase, answer) {
            CatchUpNext::Phase(next) => {
                assert(crate::mod_host::catch_up::after(next, answers) == CatchUpNext::Phase(next));
            },
            CatchUpNext::Finished(_) => {},
        }
    } else {
        let rest = answers.drop_first();
        assert(answers.push(answer).drop_first() =~= rest.push(answer));
        match crate::mod_host::catch_up::next_phase(phase, answers[0]) {
            CatchUpNext::Phase(next) => {
                lemma_after_push(next, rest, answer);
            },
            CatchUpNext::Finished(_) => {},
        }
    }
}

proof fn lemma_push(answers: Seq<bool>, answer: bool)
    ensures
        stands(answers.push(answer)) == (match stands(answers) {
            CatchUpNext::Phase(next) => crate::mod_host::catch_up::next_phase(next, answer),
            CatchUpNext::Finished(outcome) => CatchUpNext::Finished(outcome),
        }),
{
    lemma_after_push(crate::mod_host::catch_up::first_phase(), answers, answer);
}

proof fn lemma_system_wait(answers: Seq<bool>)
    requires
        waits_for_system(answers),
    ensures
        ({
            let n: int = answers.len() as int;
            let left: u64 = (400 - n / 3) as u64;
            stands(answers) == CatchUpNext::Phase(
                if n == 1200 {
                    CatchUpPhase::CheckSystem
                } else if n % 3 == 0 {
                    CatchUpPhase::PollSystem { left }
                } else if n % 3 == 1 {
                    CatchUpPhase::TrySystem { left }
                } else {
                    CatchUpPhase::WaitSystem { left }
                },
            )
        }),
    decreases answers.len(),
{
    if answers.len() > 0 {
        let earlier = answers.drop_last();
        let n: int = answers.len() as int;
        assert(waits_for_system(earlier)) by {
            assert forall|i: int| 0 <= i < earlier.len() && i % 3 != 2 implies
                !#[trigger] earlier[i] by {
                assert(!answers[i]);
            }
        }
        lemma_system_wait(earlier);
        lemma_push(earlier, answers.last());
        assert(earlier.push(answers.last()) =~= answers);
        if (n - 1) % 3 != 2 {
            assert(!answers[n - 1]);
        }
    }
}

proof fn lemma_system_end(answers: Seq<bool>)
    requires
        ends_system_wait(answers),
    ensures
        stands(answers) == CatchUpNext::Phase(CatchUpPhase::CheckSystem),
{
    if answers.len() == 1200 && waits_for_system(answers) {
        lemma_system_wait(answers);
    } else {
        lemma_system_wait(answers.drop_last());
        lemma_push(answers.drop_last(), answers.last());
        assert(answers.drop_last().push(answers.last()) =~= answers);
    }
}

proof fn lemma_debug_wait(system: Seq<bool>, debug: Seq<bool>)
    requires
        ends_system_wait(system),
        waits_for_debug(debug),
    ensures
        ({
            let n: int = debug.len() as int;
            let left: u64 = (40 - n / 2) as u64;
            stands(system.push(true) + debug) == CatchUpNext::Phase(
                if n == 80 {
                    CatchUpPhase::CheckDebug
                } else if n % 2 == 0 {
                    CatchUpPhase::PollDebug { left }
                } else {
                    CatchUpPhase::WaitDebug { left }
                },
            )
        }),
    decreases debug.len(),
{
    if debug.len() == 0 {
        lemma_system_end(system);
        lemma_push(system, true);
        assert(system.push(true) + debug =~= system.push(true));
    } else {
        let earlier = debug.drop_last();
        let n: int = debug.len() as int;
        assert(waits_for_debug(earlier)) by {
            assert forall|i: int| 0 <= i < earlier.len() && i % 2 != 1 implies
                !#[trigger] earlier[i] by {
                assert(!debug[i]);
            }
        }
        lemma_debug_wait(system, earlier);
        lemma_push(system.push(true) + earlier, debug.last());
        assert((system.push(true) + earlier).push(debug.last()) =~= system.push(true) + debug);
        if (n - 1) % 2 != 1 {
            assert(!debug[n - 1]);
        }
    }
}

proof fn lemma_debug_end(system: Seq<bool>, debug: Seq<bool>)
    requires
        ends_system_wait(system),
        ends_debug_wait(debug),
    ensures
        stands(system.push(true) + debug) == CatchUpNext::Phase(CatchUpPhase::CheckDebug),
{
    if debug.len() == 80 && waits_for_debug(debug) {
        lemma_debug_wait(system, debug);
    } else {
        let earlier = debug.drop_last();
        lemma_debug_wait(system, earlier);
        lemma_push(system.push(true) + earlier, debug.last());
        assert((system.push(true) + earlier).push(debug.last()) =~= system.push(true) + debug);
    }
}

/// While the system properties are not there, each round looks at their flag, tries to apply those
/// of the game, and pauses for 25 milliseconds. There are four hundred rounds, and one more look
/// behind them.
pub proof fn system_properties_are_tried_in_rounds(target: CatchUpTarget, answers: Seq<bool>)
    requires
        waits_for_system(answers),
    ensures
        upcoming(target, answers) == Some(
            if answers.len() == 1200 || answers.len() % 3 == 0 {
                CatchUpStep::LoadSystemFlag
            } else if answers.len() % 3 == 1 {
                CatchUpStep::ApplySystem { game: target.game }
            } else {
                CatchUpStep::Sleep { ms: 25 }
            },
        ),
{
    lemma_system_wait(answers);
}

/// A wait for the system properties that is over, whether or not in vain, is followed by one more
/// look at their flag. What that look finds decides: unset, the catch-up gives up; set, it turns to
/// the debug properties.
pub proof fn last_look_decides(target: CatchUpTarget, answers: Seq<bool>)
    requires
        ends_system_wait(answers),
    ensures
        upcoming(target, answers) == Some(CatchUpStep::LoadSystemFlag),
        stands(answers.push(false)) == CatchUpNext::Finished(CatchUpOutcome::NotReady),
        upcoming(target, answers.push(true)) == Some(CatchUpStep::LoadDebugFlag),
{
    lemma_system_end(answers);
    lemma_push(answers, false);
    lemma_push(answers, true);
}

/// While the hook of the debug properties has not fired, each round looks at their flag and pauses
/// for 25 milliseconds. There are forty rounds, and one more look behind them.
pub proof fn debug_hook_is_waited_for_in_rounds(
    target: CatchUpTarget,
    system: Seq<bool>,
    debug: Seq<bool>,
)
    requires
        ends_system_wait(system),
        waits_for_debug(debug),
    ensures
        upcoming(target, system.push(true) + debug) == Some(
            if debug.len() == 80 || debug.len() % 2 == 0 {
                CatchUpStep::LoadDebugFlag
            } else {
                CatchUpStep::Sleep { ms: 25 }
            },
        ),
{
    lemma_debug_wait(system, debug);
}

/// A wait for the debug properties that is over, whether or not in vain, is followed by one more
/// look at their flag. Set, the catch-up is complete; unset, it applies them with the method that
/// it was begun with, and is then complete.
pub proof fn missed_hook_is_made_up_for_once(
    target: CatchUpTarget,
    system: Seq<bool>,
    debug: Seq<bool>,
    answer: bool,
)
    requires
        ends_system_wait(system),
        ends_debug_wait(debug),
    ensures
        upcoming(target, system.push(true) + debug) == Some(CatchUpStep::LoadDebugFlag),
        stands((system.push(true) + debug).push(true)) == CatchUpNext::Finished(
            CatchUpOutcome::Complete,
        ),
        upcoming(target, (system.push(true) + debug).push(false)) == Some(
            CatchUpStep::ApplyDebug { set_game_prop: target.set_game_prop },
        ),
        stands((system.push(true) + debug).push(false).push(answer)) == CatchUpNext::Finished(
            CatchUpOutcome::Complete,
        ),
{
    lemma_debug_end(system, debug);
    lemma_push(system.push(true) + debug, true);
    lemma_push(system.push(true) + debug, false);
    lemma_push((system.push(true) + debug).push(false), answer);
}

/// How long things take, in milliseconds: a pause is 25, the system properties are waited for up to
/// 10 000, and the debug properties after that up to 1 000.
pub proof fn waits_are_of_fixed_length()
    ensures
        crate::mod_host::catch_up::POLL_INTERVAL_MS == 25,
        crate::mod_host::catch_up::MAX_WAIT_MS == 10_000,
        crate::mod_host::catch_up::SYSTEM_POLLS == 400,
        crate::mod_host::catch_up::DEBUG_POLLS == 40,
{
}

} // verus!
