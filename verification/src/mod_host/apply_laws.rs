//! What holds of the tries of all threads together, however their steps interleave.

use vstd::prelude::*;

use crate::mod_host::apply::{DebugStep, SystemNext, SystemStep};
use crate::mod_host::game::Game;
use crate::mod_host::overrides::PropertyOverridesView;

verus! {

/// Where one try at the system properties stands.
pub enum SystemTry {
    /// This step is to be performed.
    At(SystemStep),
    /// It is over, and put the overrides into the map.
    Applied,
    /// It is over, put nothing into the map, and returned whether the properties count as applied.
    Left { result: bool },
}

/// The flag that all tries share, and the tries so far.
pub struct SystemWorld {
    pub flag: bool,
    pub tries: Seq<SystemTry>,
}

/// What can happen next: a new try begins, or one of them performs its step.
pub enum Move {
    Begin,
    Perform { who: int, answer: bool },
}

/// Before anything has happened.
pub open spec fn quiet_system() -> SystemWorld {
    SystemWorld { flag: false, tries: Seq::empty() }
}

/// What a try returned, if it is over.
pub open spec fn returned(t: SystemTry) -> Option<bool> {
    match t {
        SystemTry::At(_) => None,
        SystemTry::Applied => Some(true),
        SystemTry::Left { result } => Some(result),
    }
}

/// Whether a move is possible. The flag answers for itself; the singleton and its map may be there
/// or not.
pub open spec fn system_move_possible(world: SystemWorld, m: Move) -> bool {
    match m {
        Move::Begin => true,
        Move::Perform { who, answer } => {
            &&& 0 <= who < world.tries.len()
            &&& world.tries[who] matches SystemTry::At(step) && match step {
                SystemStep::LoadFlag => answer == world.flag,
                SystemStep::ClaimFlag => answer == !world.flag,
                _ => true,
            }
        },
    }
}

/// The flag after a step.
pub open spec fn system_flag_after(flag: bool, step: SystemStep) -> bool {
    match step {
        SystemStep::ClaimFlag => true,
        SystemStep::ReleaseFlag => false,
        _ => flag,
    }
}

/// The world after a move.
pub open spec fn system_after(game: Game, world: SystemWorld, m: Move) -> SystemWorld {
    match m {
        Move::Begin => SystemWorld {
            tries: world.tries.push(SystemTry::At(SystemStep::LoadFlag)),
            ..world
        },
        Move::Perform { who, answer } => {
            let step = world.tries[who]->At_0;
            SystemWorld {
                flag: system_flag_after(world.flag, step),
                tries: world.tries.update(
                    who,
                    match crate::mod_host::apply::next_system_step(game, step, answer) {
                        SystemNext::Step(next) => SystemTry::At(next),
                        SystemNext::Finished(result) => if step == SystemStep::InsertOverrides {
                            SystemTry::Applied
                        } else {
                            SystemTry::Left { result }
                        },
                    },
                ),
            }
        },
    }
}

/// The world after a row of moves, from the quiet one.
pub open spec fn system_history(game: Game, moves: Seq<Move>) -> SystemWorld
    decreases moves.len(),
{
    if moves.len() == 0 {
        quiet_system()
    } else {
        system_after(game, system_history(game, moves.drop_last()), moves.last())
    }
}

/// Whether each move of a row is possible where it is made.
pub open spec fn system_possible(game: Game, moves: Seq<Move>) -> bool
    decreases moves.len(),
{
    moves.len() > 0 ==> {
        &&& system_possible(game, moves.drop_last())
        &&& system_move_possible(system_history(game, moves.drop_last()), moves.last())
    }
}

/// Whether a try puts the overrides into the map, or has done so.
pub open spec fn mutates(t: SystemTry) -> bool {
    t matches SystemTry::At(step) && step == SystemStep::InsertOverrides || t is Applied
}

/// Whether a try is the one that the flag is set for.
pub open spec fn holds(t: SystemTry) -> bool {
    ||| mutates(t)
    ||| t matches SystemTry::At(step) && (step is OpenMap || step == SystemStep::ReleaseFlag)
}

/// The flag is set exactly while some try holds it, and no two do.
spec fn system_invariant(world: SystemWorld) -> bool {
    &&& world.flag == exists|i: int| 0 <= i < world.tries.len() && holds(#[trigger] world.tries[i])
    &&& forall|i: int, j: int|
        0 <= i < j < world.tries.len() ==> !(holds(#[trigger] world.tries[i]) && holds(
            #[trigger] world.tries[j],
        ))
}

proof fn lemma_system_move(game: Game, world: SystemWorld, m: Move)
    requires
        system_invariant(world),
        system_move_possible(world, m),
    ensures
        system_invariant(system_after(game, world, m)),
{
    let after = system_after(game, world, m);
    match m {
        Move::Begin => {
            if world.flag {
                let i = choose|i: int| 0 <= i < world.tries.len() && holds(
                    #[trigger] world.tries[i],
                );
                assert(after.tries[i] == world.tries[i]);
            }
            assert forall|i: int| 0 <= i < after.tries.len() && holds(
                #[trigger] after.tries[i],
            ) implies world.flag by {
                assert(i < world.tries.len());
                assert(holds(world.tries[i]));
            }
            assert forall|i: int, j: int| 0 <= i < j < after.tries.len() implies !(holds(
                #[trigger] after.tries[i],
            ) && holds(#[trigger] after.tries[j])) by {
                if j < world.tries.len() {
                    assert(!(holds(world.tries[i]) && holds(world.tries[j])));
                }
            }
        },
        Move::Perform { who, answer } => {
            if after.flag && (!world.flag || holds(world.tries[who])) {
                assert(holds(after.tries[who]));
            }
            if holds(world.tries[who]) {
                assert forall|i: int| 0 <= i < world.tries.len() && i != who implies !holds(
                    #[trigger] after.tries[i],
                ) by {
                    if i < who {
                        assert(!(holds(world.tries[i]) && holds(world.tries[who])));
                    } else {
                        assert(!(holds(world.tries[who]) && holds(world.tries[i])));
                    }
                }
            } else if world.flag {
                let i = choose|i: int| 0 <= i < world.tries.len() && holds(
                    #[trigger] world.tries[i],
                );
                assert(after.tries[i] == world.tries[i]);
            } else {
                assert forall|i: int| 0 <= i < world.tries.len() implies !holds(
                    #[trigger] world.tries[i],
                ) by {}
            }
        },
    }
}

proof fn lemma_system_history(game: Game, moves: Seq<Move>)
    requires
        system_possible(game, moves),
    ensures
        system_invariant(system_history(game, moves)),
    decreases moves.len(),
{
    if moves.len() > 0 {
        lemma_system_history(game, moves.drop_last());
        lemma_system_move(game, system_history(game, moves.drop_last()), moves.last());
    }
}

/// However many tries there are and however their steps interleave, at most one of them ever puts
/// the overrides into the map of system properties.
pub proof fn one_try_mutates_system_properties(game: Game, moves: Seq<Move>, i: int, j: int)
    requires
        system_possible(game, moves),
        0 <= i < system_history(game, moves).tries.len(),
        0 <= j < system_history(game, moves).tries.len(),
        mutates(system_history(game, moves).tries[i]),
        mutates(system_history(game, moves).tries[j]),
    ensures
        i == j,
{
    lemma_system_history(game, moves);
    let tries = system_history(game, moves).tries;
    if i < j {
        assert(!(holds(tries[i]) && holds(tries[j])));
    } else if j < i {
        assert(!(holds(tries[j]) && holds(tries[i])));
    }
}

/// Once the overrides are in the map the flag is set, and no later move unsets it.
pub proof fn applied_system_properties_stay_applied(
    game: Game,
    moves: Seq<Move>,
    later: Seq<Move>,
    who: int,
)
    requires
        system_possible(game, moves + later),
        0 <= who < system_history(game, moves).tries.len(),
        system_history(game, moves).tries[who] is Applied,
    ensures
        system_history(game, moves + later).flag,
        who < system_history(game, moves + later).tries.len(),
        system_history(game, moves + later).tries[who] is Applied,
    decreases later.len(),
{
    let all = moves + later;
    if later.len() == 0 {
        assert(all =~= moves);
    } else {
        assert(all.drop_last() =~= moves + later.drop_last());
        applied_system_properties_stay_applied(game, moves, later.drop_last(), who);
    }
    lemma_system_history(game, all);
    assert(holds(system_history(game, all).tries[who]));
}

/// The flag is set exactly while one try holds it: a try that has put the overrides into the map,
/// or is on its way to, or is about to give the flag back. No other try leaves it set.
pub proof fn set_flag_has_a_holder(game: Game, moves: Seq<Move>)
    requires
        system_possible(game, moves),
    ensures
        system_history(game, moves).flag <==> exists|i: int|
            0 <= i < system_history(game, moves).tries.len() && holds(
                #[trigger] system_history(game, moves).tries[i],
            ),
{
    lemma_system_history(game, moves);
}

/// Whether `m` is a try that puts the overrides into the map.
pub open spec fn system_applies(world: SystemWorld, m: Move) -> bool {
    m matches Move::Perform { who, .. } && world.tries[who] == SystemTry::At(
        SystemStep::InsertOverrides,
    )
}

/// The system properties of the game after a row of moves, from `before`. The overrides may change
/// meanwhile: `held[k]` are those at the move `k`.
pub open spec fn system_properties(
    game: Game,
    moves: Seq<Move>,
    held: Seq<PropertyOverridesView>,
    before: Map<Seq<char>, Seq<char>>,
) -> Map<Seq<char>, Seq<char>>
    decreases moves.len(),
{
    if moves.len() == 0 {
        before
    } else {
        let earlier = system_properties(game, moves.drop_last(), held, before);
        if system_applies(system_history(game, moves.drop_last()), moves.last()) {
            crate::mod_host::overrides::applied(earlier, held[moves.len() - 1].in_order())
        } else {
            earlier
        }
    }
}

/// Whether some try is over and has put the overrides into the map.
pub open spec fn system_applied(world: SystemWorld) -> bool {
    exists|i: int| 0 <= i < world.tries.len() && #[trigger] world.tries[i] is Applied
}

/// The system properties are as they were until a try has put the overrides into the map. From then
/// on they are what the overrides, as they were at that very move, make of them, once.
pub proof fn system_properties_take_the_overrides(
    game: Game,
    moves: Seq<Move>,
    held: Seq<PropertyOverridesView>,
    before: Map<Seq<char>, Seq<char>>,
)
    requires
        system_possible(game, moves),
        held.len() == moves.len(),
    ensures
        !system_applied(system_history(game, moves)) ==> system_properties(
            game,
            moves,
            held,
            before,
        ) == before,
        system_applied(system_history(game, moves)) ==> exists|k: int|
            0 <= k < moves.len() && system_applies(
                system_history(game, moves.take(k)),
                moves[k],
            ) && system_properties(game, moves, held, before)
                == #[trigger] crate::mod_host::overrides::applied(before, held[k].in_order()),
    decreases moves.len(),
{
    if moves.len() > 0 {
        let earlier = moves.drop_last();
        let last: int = moves.len() - 1;
        let world = system_history(game, earlier);
        let after = system_history(game, moves);
        assert(moves.take(last) =~= earlier);
        lemma_system_held(game, earlier, held, held.drop_last(), before);
        system_properties_take_the_overrides(game, earlier, held.drop_last(), before);
        lemma_system_history(game, earlier);
        if system_applies(world, moves.last()) {
            let who = moves.last()->who;
            assert(after.tries[who] is Applied);
            assert(!system_applied(world)) by {
                if system_applied(world) {
                    let i = choose|i: int|
                        0 <= i < world.tries.len() && #[trigger] world.tries[i] is Applied;
                    assert(holds(world.tries[i]) && holds(world.tries[who]));
                    assert(i != who);
                }
            }
            assert(system_properties(game, moves, held, before)
                == crate::mod_host::overrides::applied(before, held[last].in_order()));
        } else {
            if system_applied(world) {
                let i = choose|i: int|
                    0 <= i < world.tries.len() && #[trigger] world.tries[i] is Applied;
                assert(after.tries[i] is Applied);
                let k = choose|k: int|
                    0 <= k < earlier.len() && system_applies(
                        system_history(game, earlier.take(k)),
                        earlier[k],
                    ) && system_properties(game, earlier, held.drop_last(), before)
                        == #[trigger] crate::mod_host::overrides::applied(
                        before,
                        held.drop_last()[k].in_order(),
                    );
                assert(earlier.take(k) =~= moves.take(k));
                assert(system_properties(game, moves, held, before)
                    == crate::mod_host::overrides::applied(before, held[k].in_order()));
            } else {
                assert forall|i: int| 0 <= i < after.tries.len() implies !(
                #[trigger] after.tries[i] is Applied) by {
                    if i < world.tries.len() {
                        assert(!(world.tries[i] is Applied));
                    }
                }
            }
        }
    } else {
        assert(!system_applied(system_history(game, moves)));
    }
}

/// Only the overrides up to the last move matter.
proof fn lemma_system_held(
    game: Game,
    moves: Seq<Move>,
    held: Seq<PropertyOverridesView>,
    shorter: Seq<PropertyOverridesView>,
    before: Map<Seq<char>, Seq<char>>,
)
    requires
        moves.len() <= shorter.len() <= held.len(),
        forall|i: int| 0 <= i < shorter.len() ==> #[trigger] shorter[i] == held[i],
    ensures
        system_properties(game, moves, held, before) == system_properties(
            game,
            moves,
            shorter,
            before,
        ),
    decreases moves.len(),
{
    if moves.len() > 0 {
        lemma_system_held(game, moves.drop_last(), held, shorter, before);
        assert(shorter[moves.len() - 1] == held[moves.len() - 1]);
    }
}

/// While the overrides do not change, the system properties are what the overrides make of them
/// where a try has put the overrides into the map, and as they were where none has.
pub proof fn system_properties_take_fixed_overrides(
    game: Game,
    moves: Seq<Move>,
    overrides: PropertyOverridesView,
    before: Map<Seq<char>, Seq<char>>,
)
    requires
        system_possible(game, moves),
    ensures
        system_properties(game, moves, Seq::new(moves.len(), |k: int| overrides), before) == (
        if system_applied(system_history(game, moves)) {
            crate::mod_host::overrides::applied(before, overrides.in_order())
        } else {
            before
        }),
{
    let held = Seq::new(moves.len(), |k: int| overrides);
    system_properties_take_the_overrides(game, moves, held, before);
}

/// A new try that performs its steps one after another, while no other try moves. It is the try
/// `who`, and its steps are answered by `answers`.
pub open spec fn alone(who: int, answers: Seq<bool>) -> Seq<Move> {
    seq![Move::Begin] + Seq::new(
        answers.len(),
        |i: int| Move::Perform { who, answer: answers[i] },
    )
}

/// What holds of the flag while the try `who` moves alone.
spec fn lone_invariant(world: SystemWorld, who: int) -> bool {
    &&& who == world.tries.len() - 1
    &&& match world.tries[who] {
        SystemTry::At(step) => match step {
            SystemStep::LoadFlag => true,
            SystemStep::ProbeSingleton { .. } | SystemStep::ClaimFlag => !world.flag,
            _ => world.flag,
        },
        SystemTry::Applied => world.flag,
        SystemTry::Left { result } => world.flag == result,
    }
}

proof fn lemma_lone_try(game: Game, moves: Seq<Move>, answers: Seq<bool>)
    requires
        system_possible(
            game,
            moves + alone(system_history(game, moves).tries.len() as int, answers),
        ),
    ensures
        lone_invariant(
            system_history(
                game,
                moves + alone(system_history(game, moves).tries.len() as int, answers),
            ),
            system_history(game, moves).tries.len() as int,
        ),
    decreases answers.len(),
{
    let who: int = system_history(game, moves).tries.len() as int;
    let all = moves + alone(who, answers);
    if answers.len() == 0 {
        assert(all.drop_last() =~= moves);
    } else {
        assert(all.drop_last() =~= moves + alone(who, answers.drop_last()));
        lemma_lone_try(game, moves, answers.drop_last());
        assert(all.last() == (Move::Perform { who, answer: answers.last() }));
    }
}

/// Whatever went before, a try during which no other moves returns the flag as it leaves it.
pub proof fn lone_try_returns_the_flag(game: Game, moves: Seq<Move>, answers: Seq<bool>)
    requires
        system_possible(
            game,
            moves + alone(system_history(game, moves).tries.len() as int, answers),
        ),
    ensures
        ({
            let who: int = system_history(game, moves).tries.len() as int;
            let world = system_history(game, moves + alone(who, answers));
            &&& who < world.tries.len()
            &&& returned(world.tries[who]) matches Some(result) ==> result == world.flag
        }),
{
    lemma_lone_try(game, moves, answers);
}

proof fn lemma_system_push(game: Game, moves: Seq<Move>, m: Move)
    ensures
        system_history(game, moves.push(m)) == system_after(game, system_history(game, moves), m),
        system_possible(game, moves.push(m)) == (system_possible(game, moves)
            && system_move_possible(system_history(game, moves), m)),
{
    assert(moves.push(m).drop_last() =~= moves);
    assert(moves.push(m).last() == m);
}

/// Wherever the flag is unset, the next try can succeed: alone, with the singleton and its map
/// there, it puts the overrides into the map.
pub proof fn unset_flag_lets_a_try_apply(game: Game, moves: Seq<Move>)
    requires
        system_possible(game, moves),
        !system_history(game, moves).flag,
    ensures
        ({
            let who: int = system_history(game, moves).tries.len() as int;
            let all = moves + alone(who, seq![false, true, true, true, true]);
            &&& system_possible(game, all)
            &&& system_history(game, all).tries[who] is Applied
            &&& system_history(game, all).flag
        }),
{
    let who: int = system_history(game, moves).tries.len() as int;
    let begun = moves.push(Move::Begin);
    let loaded = begun.push(Move::Perform { who, answer: false });
    let probed = loaded.push(Move::Perform { who, answer: true });
    let claimed = probed.push(Move::Perform { who, answer: true });
    let opened = claimed.push(Move::Perform { who, answer: true });
    lemma_system_push(game, moves, Move::Begin);
    lemma_system_push(game, begun, Move::Perform { who, answer: false });
    lemma_system_push(game, loaded, Move::Perform { who, answer: true });
    lemma_system_push(game, probed, Move::Perform { who, answer: true });
    lemma_system_push(game, claimed, Move::Perform { who, answer: true });
    lemma_system_push(game, opened, Move::Perform { who, answer: true });
    assert(opened.push(Move::Perform { who, answer: true }) =~= moves + alone(
        who,
        seq![false, true, true, true, true],
    ));
}

/// A try that found no map gives the flag back: it is over without the properties counting as
/// applied, the flag is unset, no try holds it, and the next one can succeed.
pub proof fn rolled_back_try_can_be_repeated(
    game: Game,
    moves: Seq<Move>,
    who: int,
    answer: bool,
)
    requires
        system_possible(game, moves),
        0 <= who < system_history(game, moves).tries.len(),
        system_history(game, moves).tries[who] == SystemTry::At(SystemStep::ReleaseFlag),
    ensures
        ({
            let released = moves.push(Move::Perform { who, answer });
            let world = system_history(game, released);
            let next: int = world.tries.len() as int;
            let again = released + alone(next, seq![false, true, true, true, true]);
            &&& system_possible(game, released)
            &&& returned(world.tries[who]) == Some(false)
            &&& !world.flag
            &&& forall|i: int| 0 <= i < next ==> !holds(#[trigger] world.tries[i])
            &&& system_possible(game, again)
            &&& system_history(game, again).tries[next] is Applied
        }),
{
    let released = moves.push(Move::Perform { who, answer });
    lemma_system_push(game, moves, Move::Perform { who, answer });
    lemma_system_history(game, released);
    unset_flag_lets_a_try_apply(game, released);
}

/// Where one try at the debug properties stands.
pub enum DebugTry {
    /// This step is to be performed.
    At(DebugStep),
    /// It is over, and set the properties.
    Applied,
    /// It is over, and set nothing.
    Left,
}

/// The flag that all tries share, and the tries so far.
pub struct DebugWorld {
    pub flag: bool,
    pub tries: Seq<DebugTry>,
}

/// Whether a move is possible. The flag answers for itself.
pub open spec fn debug_move_possible(world: DebugWorld, m: Move) -> bool {
    match m {
        Move::Begin => true,
        Move::Perform { who, answer } => {
            &&& 0 <= who < world.tries.len()
            &&& world.tries[who] matches DebugTry::At(step) && (step == DebugStep::SwapFlag
                ==> answer == world.flag)
        },
    }
}

/// The world after a move.
pub open spec fn debug_after(set_game_prop: usize, world: DebugWorld, m: Move) -> DebugWorld {
    match m {
        Move::Begin => DebugWorld {
            tries: world.tries.push(DebugTry::At(DebugStep::SwapFlag)),
            ..world
        },
        Move::Perform { who, answer } => {
            let step = world.tries[who]->At_0;
            DebugWorld {
                flag: world.flag || step == DebugStep::SwapFlag,
                tries: world.tries.update(
                    who,
                    match crate::mod_host::apply::next_debug_step(set_game_prop, step, answer) {
                        Some(next) => DebugTry::At(next),
                        None => if step is SetProperties {
                            DebugTry::Applied
                        } else {
                            DebugTry::Left
                        },
                    },
                ),
            }
        },
    }
}

/// The world after a row of moves, from one with an unset flag and no tries.
pub open spec fn debug_history(set_game_prop: usize, moves: Seq<Move>) -> DebugWorld
    decreases moves.len(),
{
    if moves.len() == 0 {
        DebugWorld { flag: false, tries: Seq::empty() }
    } else {
        debug_after(set_game_prop, debug_history(set_game_prop, moves.drop_last()), moves.last())
    }
}

/// Whether each move of a row is possible where it is made.
pub open spec fn debug_possible(set_game_prop: usize, moves: Seq<Move>) -> bool
    decreases moves.len(),
{
    moves.len() > 0 ==> {
        &&& debug_possible(set_game_prop, moves.drop_last())
        &&& debug_move_possible(debug_history(set_game_prop, moves.drop_last()), moves.last())
    }
}

/// Whether a try sets the properties, or has done so.
pub open spec fn sets_properties(t: DebugTry) -> bool {
    t matches DebugTry::At(step) && step is SetProperties || t is Applied
}

/// The flag is set exactly where some try sets the properties, and no two do.
spec fn debug_invariant(world: DebugWorld) -> bool {
    &&& world.flag == exists|i: int|
        0 <= i < world.tries.len() && sets_properties(#[trigger] world.tries[i])
    &&& forall|i: int, j: int|
        0 <= i < j < world.tries.len() ==> !(sets_properties(#[trigger] world.tries[i])
            && sets_properties(#[trigger] world.tries[j]))
}

proof fn lemma_debug_history(set_game_prop: usize, moves: Seq<Move>)
    requires
        debug_possible(set_game_prop, moves),
    ensures
        debug_invariant(debug_history(set_game_prop, moves)),
    decreases moves.len(),
{
    if moves.len() > 0 {
        lemma_debug_history(set_game_prop, moves.drop_last());
        let world = debug_history(set_game_prop, moves.drop_last());
        let after = debug_history(set_game_prop, moves);
        if world.flag {
            let i = choose|i: int| 0 <= i < world.tries.len() && sets_properties(
                #[trigger] world.tries[i],
            );
            assert(sets_properties(after.tries[i]));
        }
        match moves.last() {
            Move::Begin => {
                assert forall|i: int| 0 <= i < after.tries.len() && sets_properties(
                    #[trigger] after.tries[i],
                ) implies world.flag by {
                    assert(i < world.tries.len());
                    assert(sets_properties(world.tries[i]));
                }
                assert forall|i: int, j: int| 0 <= i < j < after.tries.len() implies !(
                sets_properties(#[trigger] after.tries[i]) && sets_properties(
                    #[trigger] after.tries[j],
                )) by {
                    if j < world.tries.len() {
                        assert(!(sets_properties(world.tries[i]) && sets_properties(
                            world.tries[j],
                        )));
                    }
                }
            },
            Move::Perform { who, answer } => {
                if after.flag && !world.flag {
                    assert(sets_properties(after.tries[who]));
                }
                assert forall|i: int, j: int| 0 <= i < j < after.tries.len() implies !(
                sets_properties(#[trigger] after.tries[i]) && sets_properties(
                    #[trigger] after.tries[j],
                )) by {
                    assert(!(sets_properties(world.tries[i]) && sets_properties(world.tries[j])));
                }
            },
        }
    }
}

/// However many tries there are and however their steps interleave, at most one of them ever sets
/// the debug properties, and the flag is set exactly when there is one.
pub proof fn one_try_sets_debug_properties(
    set_game_prop: usize,
    moves: Seq<Move>,
    i: int,
    j: int,
)
    requires
        debug_possible(set_game_prop, moves),
        0 <= i < debug_history(set_game_prop, moves).tries.len(),
        0 <= j < debug_history(set_game_prop, moves).tries.len(),
        sets_properties(debug_history(set_game_prop, moves).tries[i]),
        sets_properties(debug_history(set_game_prop, moves).tries[j]),
    ensures
        i == j,
        debug_history(set_game_prop, moves).flag,
{
    lemma_debug_history(set_game_prop, moves);
    let tries = debug_history(set_game_prop, moves).tries;
    if i < j {
        assert(!(sets_properties(tries[i]) && sets_properties(tries[j])));
    } else if j < i {
        assert(!(sets_properties(tries[j]) && sets_properties(tries[i])));
    }
}

/// Whether `m` is a try that sets the debug properties.
pub open spec fn debug_applies(world: DebugWorld, m: Move) -> bool {
    m matches Move::Perform { who, .. } && (world.tries[who] matches DebugTry::At(step)
        && step is SetProperties)
}

/// The debug properties of the game after a row of moves, from `before`. The overrides may change
/// meanwhile: `held[k]` are those at the move `k`.
pub open spec fn debug_properties(
    set_game_prop: usize,
    moves: Seq<Move>,
    held: Seq<PropertyOverridesView>,
    before: Map<Seq<char>, Seq<char>>,
) -> Map<Seq<char>, Seq<char>>
    decreases moves.len(),
{
    if moves.len() == 0 {
        before
    } else {
        let earlier = debug_properties(set_game_prop, moves.drop_last(), held, before);
        if debug_applies(debug_history(set_game_prop, moves.drop_last()), moves.last()) {
            crate::mod_host::overrides::applied(earlier, held[moves.len() - 1].in_order())
        } else {
            earlier
        }
    }
}

/// Whether some try is over and has set the properties.
pub open spec fn debug_applied(world: DebugWorld) -> bool {
    exists|i: int| 0 <= i < world.tries.len() && #[trigger] world.tries[i] is Applied
}

/// The debug properties are as they were until a try has set them. From then on they are what the
/// overrides, as they were at that very move, make of them, once.
pub proof fn debug_properties_take_the_overrides(
    set_game_prop: usize,
    moves: Seq<Move>,
    held: Seq<PropertyOverridesView>,
    before: Map<Seq<char>, Seq<char>>,
)
    requires
        debug_possible(set_game_prop, moves),
        held.len() == moves.len(),
    ensures
        !debug_applied(debug_history(set_game_prop, moves)) ==> debug_properties(
            set_game_prop,
            moves,
            held,
            before,
        ) == before,
        debug_applied(debug_history(set_game_prop, moves)) ==> exists|k: int|
            0 <= k < moves.len() && debug_applies(
                debug_history(set_game_prop, moves.take(k)),
                moves[k],
            ) && debug_properties(set_game_prop, moves, held, before)
                == #[trigger] crate::mod_host::overrides::applied(before, held[k].in_order()),
    decreases moves.len(),
{
    if moves.len() > 0 {
        let earlier = moves.drop_last();
        let last: int = moves.len() - 1;
        let world = debug_history(set_game_prop, earlier);
        let after = debug_history(set_game_prop, moves);
        assert(moves.take(last) =~= earlier);
        lemma_debug_held(set_game_prop, earlier, held, held.drop_last(), before);
        debug_properties_take_the_overrides(set_game_prop, earlier, held.drop_last(), before);
        lemma_debug_history(set_game_prop, earlier);
        if debug_applies(world, moves.last()) {
            let who = moves.last()->who;
            assert(after.tries[who] is Applied);
            assert(!debug_applied(world)) by {
                if debug_applied(world) {
                    let i = choose|i: int|
                        0 <= i < world.tries.len() && #[trigger] world.tries[i] is Applied;
                    assert(sets_properties(world.tries[i]) && sets_properties(world.tries[who]));
                    assert(i != who);
                }
            }
            assert(debug_properties(set_game_prop, moves, held, before)
                == crate::mod_host::overrides::applied(before, held[last].in_order()));
        } else {
            if debug_applied(world) {
                let i = choose|i: int|
                    0 <= i < world.tries.len() && #[trigger] world.tries[i] is Applied;
                assert(after.tries[i] is Applied);
                let k = choose|k: int|
                    0 <= k < earlier.len() && debug_applies(
                        debug_history(set_game_prop, earlier.take(k)),
                        earlier[k],
                    ) && debug_properties(set_game_prop, earlier, held.drop_last(), before)
                        == #[trigger] crate::mod_host::overrides::applied(
                        before,
                        held.drop_last()[k].in_order(),
                    );
                assert(earlier.take(k) =~= moves.take(k));
                assert(debug_properties(set_game_prop, moves, held, before)
                    == crate::mod_host::overrides::applied(before, held[k].in_order()));
            } else {
                assert forall|i: int| 0 <= i < after.tries.len() implies !(
                #[trigger] after.tries[i] is Applied) by {
                    if i < world.tries.len() {
                        assert(!(world.tries[i] is Applied));
                    }
                }
            }
        }
    } else {
        assert(!debug_applied(debug_history(set_game_prop, moves)));
    }
}

/// Only the overrides up to the last move matter.
proof fn lemma_debug_held(
    set_game_prop: usize,
    moves: Seq<Move>,
    held: Seq<PropertyOverridesView>,
    shorter: Seq<PropertyOverridesView>,
    before: Map<Seq<char>, Seq<char>>,
)
    requires
        moves.len() <= shorter.len() <= held.len(),
        forall|i: int| 0 <= i < shorter.len() ==> #[trigger] shorter[i] == held[i],
    ensures
        debug_properties(set_game_prop, moves, held, before) == debug_properties(
            set_game_prop,
            moves,
            shorter,
            before,
        ),
    decreases moves.len(),
{
    if moves.len() > 0 {
        lemma_debug_held(set_game_prop, moves.drop_last(), held, shorter, before);
        assert(shorter[moves.len() - 1] == held[moves.len() - 1]);
    }
}

/// While the overrides do not change, the debug properties are what the overrides make of them
/// where a try has set the properties, and as they were where none has.
pub proof fn debug_properties_take_fixed_overrides(
    set_game_prop: usize,
    moves: Seq<Move>,
    overrides: PropertyOverridesView,
    before: Map<Seq<char>, Seq<char>>,
)
    requires
        debug_possible(set_game_prop, moves),
    ensures
        debug_properties(
            set_game_prop,
            moves,
            Seq::new(moves.len(), |k: int| overrides),
            before,
        ) == (if debug_applied(debug_history(set_game_prop, moves)) {
            crate::mod_host::overrides::applied(before, overrides.in_order())
        } else {
            before
        }),
{
    let held = Seq::new(moves.len(), |k: int| overrides);
    debug_properties_take_the_overrides(set_game_prop, moves, held, before);
}

/// The flag of the debug properties is never unset: once set, no later move changes it.
pub proof fn debug_flag_stays_set(set_game_prop: usize, moves: Seq<Move>, later: Seq<Move>)
    requires
        debug_history(set_game_prop, moves).flag,
    ensures
        debug_history(set_game_prop, moves + later).flag,
    decreases later.len(),
{
    let all = moves + later;
    if later.len() == 0 {
        assert(all =~= moves);
    } else {
        assert(all.drop_last() =~= moves + later.drop_last());
        debug_flag_stays_set(set_game_prop, moves, later.drop_last());
    }
}

/// Every try at the debug properties that is over has left the flag set, whether it set the
/// properties or found that another had.
pub proof fn finished_try_leaves_debug_flag_set(
    set_game_prop: usize,
    moves: Seq<Move>,
    who: int,
)
    requires
        debug_possible(set_game_prop, moves),
        0 <= who < debug_history(set_game_prop, moves).tries.len(),
        !(debug_history(set_game_prop, moves).tries[who] is At),
    ensures
        debug_history(set_game_prop, moves).flag,
{
    lemma_begun_try_sets_debug_flag(set_game_prop, moves, who);
}

proof fn lemma_begun_try_sets_debug_flag(set_game_prop: usize, moves: Seq<Move>, who: int)
    requires
        debug_possible(set_game_prop, moves),
        0 <= who < debug_history(set_game_prop, moves).tries.len(),
        debug_history(set_game_prop, moves).tries[who] != DebugTry::At(DebugStep::SwapFlag),
    ensures
        debug_history(set_game_prop, moves).flag,
    decreases moves.len(),
{
    if moves.len() > 0 {
        let earlier = moves.drop_last();
        let world = debug_history(set_game_prop, earlier);
        if who < world.tries.len() && world.tries[who] != DebugTry::At(DebugStep::SwapFlag) {
            lemma_begun_try_sets_debug_flag(set_game_prop, earlier, who);
        }
    }
}

/// A try looks for the singleton of its own game and opens the map of that very one, however the
/// steps interleave: the older name in Dark Souls III and Sekiro and in no other game, and strings
/// with an allocator of their own in Nightreign and in no other game.
pub proof fn tries_go_for_the_singleton_of_their_game(game: Game, moves: Seq<Move>, who: int)
    requires
        system_possible(game, moves),
        0 <= who < system_history(game, moves).tries.len(),
    ensures
        match system_history(game, moves).tries[who] {
            SystemTry::At(SystemStep::ProbeSingleton { singleton }) => {
                &&& singleton.sprj <==> game is DarkSouls3 || game is Sekiro
                &&& singleton.text is Custom <==> game is Nightreign
            },
            SystemTry::At(SystemStep::OpenMap { singleton }) => {
                &&& singleton.sprj <==> game is DarkSouls3 || game is Sekiro
                &&& singleton.text is Custom <==> game is Nightreign
            },
            _ => true,
        },
    decreases moves.len(),
{
    if moves.len() > 0 {
        let earlier = moves.drop_last();
        let world = system_history(game, earlier);
        if who < world.tries.len() {
            tries_go_for_the_singleton_of_their_game(game, earlier, who);
        }
    }
}

/// The same of every try that any thread drives: whatever step it is at, the next step that names a
/// singleton names the one of its game.
pub proof fn next_step_names_the_singleton_of_the_game(game: Game, step: SystemStep, answer: bool)
    ensures
        match crate::mod_host::apply::next_system_step(game, step, answer) {
            SystemNext::Step(SystemStep::ProbeSingleton { singleton }) => {
                &&& singleton.sprj <==> game is DarkSouls3 || game is Sekiro
                &&& singleton.text is Custom <==> game is Nightreign
            },
            SystemNext::Step(SystemStep::OpenMap { singleton }) => {
                &&& singleton.sprj <==> game is DarkSouls3 || game is Sekiro
                &&& singleton.text is Custom <==> game is Nightreign
            },
            _ => true,
        },
{
}

/// What a try does about an answer, in any history. Where the flag was seen set it is over at once.
/// Otherwise it looks for the singleton; without one it is over and has changed nothing. With one
/// it claims the flag. Where another was faster it is over, and the properties count as applied.
/// Where the map is there it puts the overrides into it; where it is not, it gives the flag back,
/// and the properties do not count as applied.
pub proof fn try_goes_by_its_answers(game: Game, moves: Seq<Move>, who: int, answer: bool)
    requires
        system_possible(game, moves.push(Move::Perform { who, answer })),
    ensures
        ({
            let before = system_history(game, moves);
            let after = system_history(game, moves.push(Move::Perform { who, answer }));
            &&& 0 <= who < before.tries.len() == after.tries.len()
            &&& forall|i: int|
                0 <= i < before.tries.len() && i != who ==> #[trigger] after.tries[i]
                    == before.tries[i]
            &&& match before.tries[who]->At_0 {
                SystemStep::LoadFlag => {
                    &&& after.flag == before.flag
                    &&& if before.flag {
                        after.tries[who] == SystemTry::Left { result: true }
                    } else {
                        after.tries[who] matches SystemTry::At(step) && step is ProbeSingleton
                    }
                },
                SystemStep::ProbeSingleton { .. } => {
                    &&& after.flag == before.flag
                    &&& if answer {
                        after.tries[who] == SystemTry::At(SystemStep::ClaimFlag)
                    } else {
                        after.tries[who] == SystemTry::Left { result: false }
                    }
                },
                SystemStep::ClaimFlag => {
                    &&& after.flag
                    &&& if before.flag {
                        after.tries[who] == SystemTry::Left { result: true }
                    } else {
                        after.tries[who] matches SystemTry::At(step) && step is OpenMap
                    }
                },
                SystemStep::OpenMap { .. } => {
                    &&& after.flag
                    &&& if answer {
                        after.tries[who] == SystemTry::At(SystemStep::InsertOverrides)
                    } else {
                        after.tries[who] == SystemTry::At(SystemStep::ReleaseFlag)
                    }
                },
                SystemStep::ReleaseFlag => {
                    &&& !after.flag
                    &&& after.tries[who] == SystemTry::Left { result: false }
                },
                SystemStep::InsertOverrides => {
                    &&& after.flag
                    &&& after.tries[who] is Applied
                },
            }
        }),
{
    lemma_system_push(game, moves, Move::Perform { who, answer });
    lemma_system_history(game, moves);
    let before = system_history(game, moves);
    let step = before.tries[who]->At_0;
    if step is OpenMap || step is InsertOverrides {
        assert(holds(before.tries[who]));
    }
}

/// A try whose map is not there leaves the properties and the flag as if it had not been made: once
/// it has given the flag back it is over, the properties do not count as applied, and nothing was
/// put into any map meanwhile.
pub proof fn missing_map_changes_nothing(
    game: Game,
    moves: Seq<Move>,
    who: int,
    answer: bool,
    held: Seq<PropertyOverridesView>,
    before: Map<Seq<char>, Seq<char>>,
)
    requires
        system_possible(game, moves),
        0 <= who < system_history(game, moves).tries.len(),
        system_history(game, moves).tries[who] matches SystemTry::At(step) && step is OpenMap,
    ensures
        ({
            let all = moves.push(Move::Perform { who, answer: false }).push(
                Move::Perform { who, answer },
            );
            &&& system_possible(game, all)
            &&& !system_history(game, all).flag
            &&& returned(system_history(game, all).tries[who]) == Some(false)
            &&& system_properties(game, all, held, before) == system_properties(
                game,
                moves,
                held,
                before,
            )
        }),
{
    let opened = moves.push(Move::Perform { who, answer: false });
    let all = opened.push(Move::Perform { who, answer });
    lemma_system_push(game, moves, Move::Perform { who, answer: false });
    lemma_system_push(game, opened, Move::Perform { who, answer });
    assert(opened.drop_last() =~= moves);
    assert(all.drop_last() =~= opened);
    assert(system_properties(game, opened, held, before) == system_properties(
        game,
        moves,
        held,
        before,
    ));
}

/// The debug properties are set with the very method that the tries were begun with, whatever its
/// address and however the steps interleave.
pub proof fn debug_properties_are_set_with_their_method(
    set_game_prop: usize,
    moves: Seq<Move>,
    who: int,
)
    requires
        debug_possible(set_game_prop, moves),
        0 <= who < debug_history(set_game_prop, moves).tries.len(),
    ensures
        debug_history(set_game_prop, moves).tries[who] matches DebugTry::At(
            DebugStep::SetProperties { set_game_prop: address },
        ) ==> address == set_game_prop,
    decreases moves.len(),
{
    if moves.len() > 0 {
        let earlier = moves.drop_last();
        if who < debug_history(set_game_prop, earlier).tries.len() {
            debug_properties_are_set_with_their_method(set_game_prop, earlier, who);
        }
    }
}

/// What a try at the debug properties does about an answer, in any history: the one that finds the
/// flag unset sets the properties, with the method that it was begun with, and is then over; every
/// other is over at once.
pub proof fn debug_try_goes_by_its_answers(
    set_game_prop: usize,
    moves: Seq<Move>,
    who: int,
    answer: bool,
)
    requires
        debug_possible(set_game_prop, moves.push(Move::Perform { who, answer })),
    ensures
        ({
            let before = debug_history(set_game_prop, moves);
            let after = debug_history(set_game_prop, moves.push(Move::Perform { who, answer }));
            &&& 0 <= who < before.tries.len() == after.tries.len()
            &&& after.flag
            &&& match before.tries[who]->At_0 {
                DebugStep::SwapFlag => if before.flag {
                    after.tries[who] is Left
                } else {
                    after.tries[who] == DebugTry::At(DebugStep::SetProperties { set_game_prop })
                },
                DebugStep::SetProperties { .. } => after.tries[who] is Applied,
            }
        }),
{
    assert(moves.push(Move::Perform { who, answer }).drop_last() =~= moves);
    assert(moves.push(Move::Perform { who, answer }).last() == (Move::Perform { who, answer }));
    let before = debug_history(set_game_prop, moves);
    lemma_debug_history(set_game_prop, moves);
    if before.tries[who]->At_0 is SetProperties {
        assert(sets_properties(before.tries[who]));
    }
}

} // verus!
