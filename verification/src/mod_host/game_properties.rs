//! Overriding properties of a game: which of them, and what has to be set up for it.

use vstd::prelude::*;

use crate::mod_host::catch_up::CatchUpTarget;
use crate::mod_host::game::Game;
use crate::mod_host::overrides::{PropertyOverrides, PropertyOverridesView};
use crate::mod_host::runtime::{resolve_set_game_property, ResolveError, RuntimeClass};
use crate::script::Script;

verus! {

/// The property that allows online play.
pub const ONLINE_MODE_PROPERTY: &'static str = "Menu.IsEnableOnlineMode";

/// The overrides after online play was turned off.
pub open spec fn offline(overrides: PropertyOverridesView) -> PropertyOverridesView {
    PropertyOverridesView {
        internal: crate::mod_host::overrides::assigned(
            overrides.internal,
            ONLINE_MODE_PROPERTY@,
            "false"@,
        ),
        ..overrides
    }
}

/// Turns online play off.
pub fn start_offline(overrides: &mut PropertyOverrides)
    ensures
        final(overrides)@ == offline(old(overrides)@),
        final(overrides)@.user == old(overrides)@.user,
{
    proof {
        reveal_strlit("Menu.IsEnableOnlineMode");
        reveal_strlit("false");
    }
    let result = overrides.override_game_property(ONLINE_MODE_PROPERTY, "false");
    assert(result is Ok);
}

/// Once online play was turned off and the overrides are applied, the game is offline unless the
/// user overrides that very property.
pub proof fn offline_unless_user_insists(
    overrides: PropertyOverridesView,
    properties: Map<Seq<char>, Seq<char>>,
)
    requires
        overrides.well_formed(),
    ensures
        !crate::mod_host::overrides::sets(overrides.user, ONLINE_MODE_PROPERTY@) ==> {
            let after = crate::mod_host::overrides::applied(
                properties,
                offline(overrides).in_order(),
            );
            after.contains_key(ONLINE_MODE_PROPERTY@) && after[ONLINE_MODE_PROPERTY@] == "false"@
        },
{
    let quiet = offline(overrides);
    reveal_strlit("Menu.IsEnableOnlineMode");
    reveal_strlit("false");
    crate::mod_host::overrides::assignment_keeps_list_usable(
        overrides.internal,
        ONLINE_MODE_PROPERTY@,
        "false"@,
    );
    crate::mod_host::overrides::user_has_priority(quiet, properties, ONLINE_MODE_PROPERTY@);
    if crate::mod_host::overrides::sets(overrides.internal, ONLINE_MODE_PROPERTY@) {
        let i = choose|i: int|
            0 <= i < overrides.internal.len() && (#[trigger] overrides.internal[i]).0
                == ONLINE_MODE_PROPERTY@;
        assert(quiet.internal[i] == (ONLINE_MODE_PROPERTY@, "false"@));
    } else {
        assert(quiet.internal[quiet.internal.len() - 1] == (ONLINE_MODE_PROPERTY@, "false"@));
    }
}

/// A point in the initialisation of the game that something can be put off to.
#[derive(Clone, Copy, Debug, PartialEq, Eq, Structural)]
pub enum Deferred {
    /// The debug properties have been initialised.
    AfterDbgPropsInit,
    /// The system properties have been initialised.
    AfterSysPropsInit,
}

/// A kind of properties, and what it takes to apply them.
#[derive(Clone, Copy, Debug, PartialEq, Eq, Structural)]
pub enum Properties {
    /// The debug properties, set by the method at this address.
    Debug { set_game_prop: usize },
    /// The system properties of this game.
    System { game: Game },
}

/// One step of setting up the overrides.
#[derive(Clone, Copy, Debug, PartialEq, Eq, Structural)]
pub enum OverrideStep {
    /// Have a kind of properties applied at a point of the initialisation.
    Defer { until: Deferred, apply: Properties },
    /// Start the thread that catches up on an initialisation that was missed.
    StartCatchUp { target: CatchUpTarget },
}

/// The step that has the debug properties applied.
pub open spec fn defer_debug(set_game_prop: usize) -> OverrideStep {
    OverrideStep::Defer {
        until: Deferred::AfterDbgPropsInit,
        apply: Properties::Debug { set_game_prop },
    }
}

/// The step that has the system properties applied.
pub open spec fn defer_system(game: Game) -> OverrideStep {
    OverrideStep::Defer { until: Deferred::AfterSysPropsInit, apply: Properties::System { game } }
}

/// All steps of setting up the overrides. Only without Steam, where the attach comes late, is there
/// something to catch up on. The hook and the catch-up use the same method and the same game.
pub open spec fn override_steps(
    game: Game,
    set_game_prop: usize,
    no_steam: bool,
) -> Seq<OverrideStep> {
    let hooks = seq![defer_debug(set_game_prop), defer_system(game)];
    if no_steam {
        hooks.push(OverrideStep::StartCatchUp { target: CatchUpTarget { game, set_game_prop } })
    } else {
        hooks
    }
}

/// Setting up the overrides, while that is under way.
pub struct OverrideRun {
    script: Script<OverrideStep>,
}

impl View for OverrideRun {
    type V = Seq<OverrideStep>;

    /// The steps that are left.
    closed spec fn view(&self) -> Seq<OverrideStep> {
        self.script@
    }
}

/// Where the set-up stands after a reply.
pub enum OverrideProgress<E> {
    Continue(OverrideRun),
    Finished(Result<(), E>),
}

/// The step that has the debug properties applied, and the address of the method that sets them.
pub fn override_debug_properties(game: Game, runtime_classes: &Vec<RuntimeClass>) -> (result:
    Result<(usize, OverrideStep), ResolveError>)
    ensures
        match crate::mod_host::runtime::resolved(runtime_classes@, game) {
            Ok(address) => result == Ok::<(usize, OverrideStep), ResolveError>(
                (address, defer_debug(address)),
            ),
            Err(error) => result == Err::<(usize, OverrideStep), ResolveError>(error),
        },
{
    match resolve_set_game_property(game, runtime_classes) {
        Ok(set_game_prop) => Ok(
            (
                set_game_prop,
                OverrideStep::Defer {
                    until: Deferred::AfterDbgPropsInit,
                    apply: Properties::Debug { set_game_prop },
                },
            ),
        ),
        Err(error) => Err(error),
    }
}

/// The step that has the system properties applied.
pub fn override_system_properties(game: Game) -> (step: OverrideStep)
    ensures
        step == defer_system(game),
        step == (OverrideStep::Defer {
            until: Deferred::AfterSysPropsInit,
            apply: Properties::System { game },
        }),
{
    OverrideStep::Defer { until: Deferred::AfterSysPropsInit, apply: Properties::System { game } }
}

/// Begins to set up the overrides. Nothing is set up where the method that sets a property is not
/// found.
pub fn attach_override(
    game: Game,
    runtime_classes: &Vec<RuntimeClass>,
    no_steam: bool,
) -> (result: Result<OverrideRun, ResolveError>)
    ensures
        match crate::mod_host::runtime::resolved(runtime_classes@, game) {
            Ok(address) => result matches Ok(run) && run@ == override_steps(
                game,
                address,
                no_steam,
            ),
            Err(error) => result matches Err(e) && e == error,
        },
{
    match override_debug_properties(game, runtime_classes) {
        Err(error) => Err(error),
        Ok((set_game_prop, debug)) => {
            let mut steps: Vec<OverrideStep> = Vec::new();
            steps.push(debug);
            steps.push(override_system_properties(game));
            if no_steam {
                let target: CatchUpTarget = CatchUpTarget { game, set_game_prop };
                steps.push(OverrideStep::StartCatchUp { target });
            }
            assert(steps@ =~= override_steps(game, set_game_prop, no_steam));
            Ok(OverrideRun { script: Script::new(steps) })
        },
    }
}

impl OverrideRun {
    /// The step to perform now.
    pub fn step(&self) -> (step: Option<OverrideStep>)
        ensures
            step == (if self@.len() > 0 {
                Some(self@[0])
            } else {
                None
            }),
    {
        self.script.first()
    }

    /// Takes what came of the step and goes on. The set-up ends with the error of the first step
    /// that fails, and with success when no step is left.
    pub fn reply<E>(self, reply: Result<(), E>) -> (progress: OverrideProgress<E>)
        requires
            self@.len() > 0,
        ensures
            match reply {
                Err(error) => progress == OverrideProgress::<E>::Finished(Err(error)),
                Ok(_) => if self@.len() == 1 {
                    progress == OverrideProgress::<E>::Finished(Ok(()))
                } else {
                    progress matches OverrideProgress::Continue(run) && run@ == self@.drop_first()
                },
            },
    {
        match reply {
            Err(error) => OverrideProgress::Finished(Err(error)),
            Ok(_) => {
                let script: Script<OverrideStep> = self.script.advance(Vec::new());
                assert(script@ =~= self@.drop_first());
                match script.first() {
                    Some(_) => OverrideProgress::Continue(OverrideRun { script }),
                    None => OverrideProgress::Finished(Ok(())),
                }
            },
        }
    }
}

/// Turning online play off changes nothing else: every other property comes out as it would have,
/// and so does this one where the user overrides it.
pub proof fn going_offline_changes_one_property(
    overrides: PropertyOverridesView,
    properties: Map<Seq<char>, Seq<char>>,
    property: Seq<char>,
)
    requires
        overrides.well_formed(),
        property != "Menu.IsEnableOnlineMode"@ || crate::mod_host::overrides::sets(
            overrides.user,
            property,
        ),
    ensures
        ({
            let before = crate::mod_host::overrides::applied(properties, overrides.in_order());
            let after = crate::mod_host::overrides::applied(
                properties,
                offline(overrides).in_order(),
            );
            &&& after.contains_key(property) == before.contains_key(property)
            &&& after[property] == before[property]
        }),
        offline(overrides).user == overrides.user,
{
    let quiet = offline(overrides);
    reveal_strlit("Menu.IsEnableOnlineMode");
    reveal_strlit("false");
    crate::mod_host::overrides::assignment_keeps_list_usable(
        overrides.internal,
        ONLINE_MODE_PROPERTY@,
        "false"@,
    );
    crate::mod_host::overrides::user_has_priority(quiet, properties, property);
    crate::mod_host::overrides::user_has_priority(overrides, properties, property);
    if crate::mod_host::overrides::sets(overrides.user, property) {
        let i = choose|i: int|
            0 <= i < overrides.user.len() && (#[trigger] overrides.user[i]).0 == property;
        assert(quiet.user[i] == overrides.user[i]);
    } else if crate::mod_host::overrides::sets(overrides.internal, property) {
        let i = choose|i: int|
            0 <= i < overrides.internal.len() && (#[trigger] overrides.internal[i]).0 == property;
        assert(quiet.internal[i] == overrides.internal[i]);
    } else {
        assert(!crate::mod_host::overrides::sets(quiet.internal, property)) by {
            if crate::mod_host::overrides::sets(quiet.internal, property) {
                let i = choose|i: int|
                    0 <= i < quiet.internal.len() && (#[trigger] quiet.internal[i]).0 == property;
                assert(i < overrides.internal.len());
                assert(overrides.internal[i].0 == property);
            }
        }
    }
}

/// The property that turning online play off sets, and what to, by name.
pub proof fn offline_is_a_property_of_the_menu(overrides: PropertyOverridesView)
    ensures
        exists|i: int|
            0 <= i < offline(overrides).internal.len() && #[trigger] offline(overrides).internal[i]
                == ("Menu.IsEnableOnlineMode"@, "false"@),
{
    let quiet = offline(overrides);
    if crate::mod_host::overrides::sets(overrides.internal, ONLINE_MODE_PROPERTY@) {
        let i = choose|i: int|
            0 <= i < overrides.internal.len() && (#[trigger] overrides.internal[i]).0
                == ONLINE_MODE_PROPERTY@;
        assert(quiet.internal[i] == (ONLINE_MODE_PROPERTY@, "false"@));
    } else {
        assert(quiet.internal[quiet.internal.len() - 1] == (ONLINE_MODE_PROPERTY@, "false"@));
    }
}

/// Whatever step of setting up the overrides is taken, it is about the game that they are set up
/// for and uses the method that was found for it: a hook on the debug properties sets them with
/// that method, a hook on the system properties applies those of that game, and a catch-up is for
/// both.
pub proof fn every_step_is_for_the_game_at_hand(
    game: Game,
    set_game_prop: usize,
    no_steam: bool,
    at: int,
)
    requires
        0 <= at < override_steps(game, set_game_prop, no_steam).len(),
    ensures
        match override_steps(game, set_game_prop, no_steam)[at] {
            OverrideStep::Defer { until, apply: Properties::Debug { set_game_prop: address } } => {
                &&& until == Deferred::AfterDbgPropsInit
                &&& address == set_game_prop
            },
            OverrideStep::Defer { until, apply: Properties::System { game: of } } => {
                &&& until == Deferred::AfterSysPropsInit
                &&& of == game
            },
            OverrideStep::StartCatchUp { target } => {
                &&& no_steam
                &&& target.game == game
                &&& target.set_game_prop == set_game_prop
            },
        },
{
}

/// Both kinds of properties are hooked, the debug properties first, and a catch-up is started
/// behind the hooks exactly where Steam is left out.
pub proof fn both_kinds_are_hooked(game: Game, set_game_prop: usize, no_steam: bool)
    ensures
        override_steps(game, set_game_prop, no_steam).len() == (if no_steam {
            3nat
        } else {
            2nat
        }),
        override_steps(game, set_game_prop, no_steam)[0] matches OverrideStep::Defer { apply, .. }
            && apply is Debug,
        override_steps(game, set_game_prop, no_steam)[1] matches OverrideStep::Defer { apply, .. }
            && apply is System,
        no_steam ==> override_steps(game, set_game_prop, no_steam)[2] is StartCatchUp,
{
}

} // verus!
