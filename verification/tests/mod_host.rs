use std::collections::BTreeMap;

use me3_attach::mod_host::apply::{
    apply_debug_properties, apply_system_properties, DebugStep, SystemProgress, SystemStep,
};
use me3_attach::mod_host::catch_up::{
    CatchUp, CatchUpOutcome, CatchUpProgress, CatchUpStep, CatchUpTarget,
};
use me3_attach::mod_host::game::{Game, PropertySingleton, PropertyText};
use me3_attach::mod_host::game_properties::{
    attach_override, start_offline, Deferred, OverrideProgress, OverrideStep, Properties,
};
use me3_attach::mod_host::overrides::{NulError, PropertyOverrides};
use me3_attach::mod_host::runtime::{
    resolve_set_game_property, ResolveError, RuntimeClass, RuntimeMethod,
};

const GAMES: [Game; 5] = [
    Game::DarkSouls3,
    Game::Sekiro,
    Game::EldenRing,
    Game::ArmoredCore6,
    Game::Nightreign,
];

fn listed(overrides: &PropertyOverrides) -> Vec<(String, String)> {
    overrides.in_order().into_iter().map(|a| (a.property, a.value)).collect()
}

fn pair(property: &str, value: &str) -> (String, String) {
    (property.to_string(), value.to_string())
}

fn method(name: &str, invokers: &[usize]) -> RuntimeMethod {
    RuntimeMethod { name: name.to_string(), invokers: invokers.to_vec() }
}

fn class(name: &str, methods: Vec<RuntimeMethod>) -> RuntimeClass {
    RuntimeClass { name: name.to_string(), methods }
}

#[test]
fn start_offline_turns_online_mode_off() {
    let mut overrides = PropertyOverrides::new();
    assert!(listed(&overrides).is_empty());
    start_offline(&mut overrides);
    assert_eq!(listed(&overrides), vec![pair("Menu.IsEnableOnlineMode", "false")]);
    start_offline(&mut overrides);
    assert_eq!(listed(&overrides).len(), 1);
}

#[test]
fn user_overrides_come_last_and_win() {
    let mut overrides = PropertyOverrides::new();
    overrides.override_user_property("Menu.IsEnableOnlineMode", "true").unwrap();
    overrides.override_user_property("b", "2").unwrap();
    overrides.override_game_property("a", "1").unwrap();
    start_offline(&mut overrides);
    overrides.override_game_property("a", "3").unwrap();
    assert_eq!(
        listed(&overrides),
        vec![
            pair("a", "3"),
            pair("Menu.IsEnableOnlineMode", "false"),
            pair("Menu.IsEnableOnlineMode", "true"),
            pair("b", "2"),
        ]
    );
    let mut properties: BTreeMap<String, String> = BTreeMap::new();
    properties.insert("c".to_string(), "kept".to_string());
    properties.extend(listed(&overrides));
    assert_eq!(properties["Menu.IsEnableOnlineMode"], "true");
    assert_eq!(properties["a"], "3");
    assert_eq!(properties["b"], "2");
    assert_eq!(properties["c"], "kept");
}

#[test]
fn nul_is_refused_and_changes_nothing() {
    let mut overrides = PropertyOverrides::new();
    overrides.override_game_property("a", "1").unwrap();
    assert_eq!(overrides.override_game_property("a\0", "2"), Err(NulError));
    assert_eq!(overrides.override_game_property("a", "\0"), Err(NulError));
    assert_eq!(overrides.override_user_property("\0", "2"), Err(NulError));
    assert_eq!(listed(&overrides), vec![pair("a", "1")]);
}

#[test]
fn games_differ_in_their_names() {
    for game in GAMES {
        let old = matches!(game, Game::DarkSouls3 | Game::Sekiro);
        assert_eq!(game.before(Game::EldenRing), old);
        assert_eq!(
            game.control_api(),
            if old { "SprjAutoControlAPI" } else { "CSAutoControlAPI" }
        );
        let singleton = game.property_singleton();
        assert_eq!(
            singleton.name(),
            if old { "SprjSystemProperties" } else { "CSSystemProperties" }
        );
        assert_eq!(
            singleton.text,
            if game == Game::Nightreign { PropertyText::Custom } else { PropertyText::String }
        );
    }
}

#[test]
fn setter_is_found_in_the_first_class() {
    let classes = vec![
        class("Other", vec![method("SetGameProperty", &[1])]),
        class(
            "CSAutoControlAPI",
            vec![
                method("Get", &[2]),
                method("SetGameProperty", &[3, 4]),
                method("SetGameProperty", &[5]),
            ],
        ),
        class("CSAutoControlAPI", vec![method("SetGameProperty", &[6])]),
        class("SprjAutoControlAPI", vec![method("SetGameProperty", &[7])]),
    ];
    assert_eq!(resolve_set_game_property(Game::EldenRing, &classes), Ok(3));
    assert_eq!(resolve_set_game_property(Game::Nightreign, &classes), Ok(3));
    assert_eq!(resolve_set_game_property(Game::Sekiro, &classes), Ok(7));
}

#[test]
fn missing_setter_is_an_error() {
    let none = resolve_set_game_property(Game::DarkSouls3, &vec![class("CSAutoControlAPI", vec![])])
        .unwrap_err();
    assert_eq!(none, ResolveError::ClassNotFound { game: Game::DarkSouls3 });
    assert_eq!(none.message(), "failed to find runtime class for SprjAutoControlAPI");
    let classes = vec![
        class("CSAutoControlAPI", vec![method("Get", &[1])]),
        class("CSAutoControlAPI", vec![method("SetGameProperty", &[2])]),
    ];
    let method_error = resolve_set_game_property(Game::ArmoredCore6, &classes).unwrap_err();
    assert_eq!(method_error, ResolveError::MethodNotFound);
    assert_eq!(method_error.message(), "SetGameProperty method not found");
    let classes = vec![class(
        "CSAutoControlAPI",
        vec![method("SetGameProperty", &[]), method("SetGameProperty", &[2])],
    )];
    let invoker_error = resolve_set_game_property(Game::EldenRing, &classes).unwrap_err();
    assert_eq!(invoker_error, ResolveError::NoInvokers);
    assert_eq!(invoker_error.message(), "SetGameProperty has no method invokers");
}

fn override_steps(no_steam: bool, fail_at: Option<usize>) -> (Vec<OverrideStep>, Result<(), u8>) {
    let classes = vec![class("CSAutoControlAPI", vec![method("SetGameProperty", &[99])])];
    let mut run = match attach_override(Game::EldenRing, &classes, no_steam) {
        Ok(run) => run,
        Err(_) => unreachable!(),
    };
    let mut steps = Vec::new();
    loop {
        steps.push(run.step().unwrap());
        let reply = if fail_at == Some(steps.len() - 1) { Err(1) } else { Ok(()) };
        match run.reply(reply) {
            OverrideProgress::Continue(next) => run = next,
            OverrideProgress::Finished(result) => return (steps, result),
        }
    }
}

#[test]
fn overrides_are_set_up_in_order() {
    let debug = OverrideStep::Defer {
        until: Deferred::AfterDbgPropsInit,
        apply: Properties::Debug { set_game_prop: 99 },
    };
    let system = OverrideStep::Defer {
        until: Deferred::AfterSysPropsInit,
        apply: Properties::System { game: Game::EldenRing },
    };
    let target = CatchUpTarget { game: Game::EldenRing, set_game_prop: 99 };
    assert_eq!(override_steps(false, None), (vec![debug, system], Ok(())));
    assert_eq!(
        override_steps(true, None),
        (vec![debug, system, OverrideStep::StartCatchUp { target }], Ok(()))
    );
    assert_eq!(override_steps(true, Some(0)), (vec![debug], Err(1)));
    assert_eq!(override_steps(true, Some(1)), (vec![debug, system], Err(1)));
    assert!(attach_override(Game::Sekiro, &vec![], true).is_err());
}

fn system_steps(answers: &[bool]) -> (Vec<SystemStep>, Option<bool>) {
    let mut run = apply_system_properties(Game::Nightreign);
    let mut steps = vec![run.step()];
    for answer in answers {
        match run.reply(*answer) {
            SystemProgress::Continue(next) => run = next,
            SystemProgress::Finished(applied) => return (steps, Some(applied)),
        }
        steps.push(run.step());
    }
    (steps, None)
}

#[test]
fn system_properties_are_applied_behind_the_flag() {
    let singleton = PropertySingleton { sprj: false, text: PropertyText::Custom };
    let probe = SystemStep::ProbeSingleton { singleton };
    let open = SystemStep::OpenMap { singleton };
    assert_eq!(
        system_steps(&[false, true, true, true, false]),
        (
            vec![
                SystemStep::LoadFlag,
                probe,
                SystemStep::ClaimFlag,
                open,
                SystemStep::InsertOverrides,
            ],
            Some(true)
        )
    );
    assert_eq!(system_steps(&[true]), (vec![SystemStep::LoadFlag], Some(true)));
    assert_eq!(system_steps(&[false, false]), (vec![SystemStep::LoadFlag, probe], Some(false)));
    assert_eq!(
        system_steps(&[false, true, false]),
        (vec![SystemStep::LoadFlag, probe, SystemStep::ClaimFlag], Some(true))
    );
    assert_eq!(
        system_steps(&[false, true, true, false, true]),
        (
            vec![
                SystemStep::LoadFlag,
                probe,
                SystemStep::ClaimFlag,
                open,
                SystemStep::ReleaseFlag,
            ],
            Some(false)
        )
    );
}

#[test]
fn a_try_applies_the_overrides_in_their_order() {
    let mut overrides = PropertyOverrides::new();
    overrides.override_user_property("a", "user").unwrap();
    start_offline(&mut overrides);
    overrides.override_game_property("a", "host").unwrap();
    let expected = vec![
        pair("Menu.IsEnableOnlineMode", "false"),
        pair("a", "host"),
        pair("a", "user"),
    ];

    let mut run = apply_system_properties(Game::Sekiro);
    for answer in [false, true, true, true] {
        run = match run.reply(answer) {
            SystemProgress::Continue(next) => next,
            SystemProgress::Finished(_) => unreachable!(),
        };
    }
    assert_eq!(run.step(), SystemStep::InsertOverrides);
    let system: Vec<_> =
        run.assignments(&overrides).into_iter().map(|a| (a.property, a.value)).collect();
    assert_eq!(system, expected);

    let run = apply_debug_properties(7).reply(false).unwrap();
    assert_eq!(run.step(), DebugStep::SetProperties { set_game_prop: 7 });
    let debug: Vec<_> =
        run.assignments(&overrides).into_iter().map(|a| (a.property, a.value)).collect();
    assert_eq!(debug, expected);
}

#[test]
fn debug_properties_are_set_by_the_first_try() {
    let mut flag = false;
    let mut applied = 0;
    for _ in 0..3 {
        let mut run = Some(apply_debug_properties(7));
        while let Some(current) = run {
            let answer = match current.step() {
                DebugStep::SwapFlag => std::mem::replace(&mut flag, true),
                DebugStep::SetProperties { .. } => {
                    applied += 1;
                    true
                }
            };
            run = current.reply(answer);
        }
    }
    assert!(flag);
    assert_eq!(applied, 1);
}

#[test]
fn every_debug_try_leaves_the_flag_set() {
    for before in [false, true] {
        let mut flag = before;
        let first = apply_debug_properties(7);
        assert_eq!(first.step(), DebugStep::SwapFlag);
        let next = first.reply(std::mem::replace(&mut flag, true));
        assert!(flag);
        assert_eq!(next.is_none(), before);
        if let Some(run) = next {
            assert!(run.reply(false).is_none());
        }
        assert!(flag);
    }
}

/// Runs one try alone, with the singleton and the map there or not.
fn lone_try(flag: &mut bool, singleton: bool, map: bool) -> bool {
    let mut run = apply_system_properties(Game::Sekiro);
    loop {
        let answer = match run.step() {
            SystemStep::LoadFlag => *flag,
            SystemStep::ProbeSingleton { .. } => singleton,
            SystemStep::ClaimFlag => !std::mem::replace(flag, true),
            SystemStep::OpenMap { .. } => map,
            SystemStep::ReleaseFlag => {
                *flag = false;
                true
            }
            SystemStep::InsertOverrides => true,
        };
        match run.reply(answer) {
            SystemProgress::Continue(next) => run = next,
            SystemProgress::Finished(result) => return result,
        }
    }
}

#[test]
fn lone_try_returns_the_flag() {
    for (before, singleton, map, result) in [
        (true, false, false, true),
        (false, false, true, false),
        (false, true, false, false),
        (false, true, true, true),
    ] {
        let mut flag = before;
        assert_eq!(lone_try(&mut flag, singleton, map), result);
        assert_eq!(flag, result);
    }
}

#[test]
fn rolled_back_try_can_be_repeated() {
    let mut flag = false;
    assert!(!lone_try(&mut flag, true, false));
    assert!(!flag);
    assert!(lone_try(&mut flag, true, true));
    assert!(flag);
}

#[test]
fn interleaved_tries_mutate_the_map_once() {
    let mut overrides = PropertyOverrides::new();
    overrides.override_game_property("a", "host").unwrap();
    overrides.override_user_property("a", "user").unwrap();
    for first in 0..6usize {
        let mut flag = false;
        let mut applied = 0;
        let mut properties: BTreeMap<String, String> = BTreeMap::new();
        let mut tries = vec![
            Some(apply_system_properties(Game::EldenRing)),
            Some(apply_system_properties(Game::EldenRing)),
        ];
        for turn in 0..20usize {
            let who = if turn < first { 0 } else { turn % 2 };
            let Some(run) = tries[who].take() else { continue };
            let answer = match run.step() {
                SystemStep::LoadFlag => flag,
                SystemStep::ClaimFlag => !std::mem::replace(&mut flag, true),
                SystemStep::InsertOverrides => {
                    assert!(properties.is_empty());
                    properties.extend(
                        run.assignments(&overrides).into_iter().map(|a| (a.property, a.value)),
                    );
                    applied += 1;
                    true
                }
                SystemStep::ReleaseFlag => {
                    flag = false;
                    true
                }
                _ => true,
            };
            tries[who] = match run.reply(answer) {
                SystemProgress::Continue(next) => Some(next),
                SystemProgress::Finished(done) => {
                    assert!(done);
                    None
                }
            };
        }
        assert!(flag);
        assert_eq!(applied, 1);
        assert_eq!(properties["a"], "user");
    }
}

const TARGET: CatchUpTarget = CatchUpTarget { game: Game::Sekiro, set_game_prop: 99 };
const APPLY_SYSTEM: CatchUpStep = CatchUpStep::ApplySystem { game: Game::Sekiro };
const APPLY_DEBUG: CatchUpStep = CatchUpStep::ApplyDebug { set_game_prop: 99 };

fn catch_up(
    mut answer: impl FnMut(CatchUpStep, usize) -> bool,
) -> (Vec<CatchUpStep>, CatchUpOutcome) {
    let mut run = CatchUp::begin(TARGET);
    let mut steps = Vec::new();
    loop {
        let step = run.step();
        let reply = answer(step, steps.len());
        steps.push(step);
        match run.reply(reply) {
            CatchUpProgress::Continue(next) => run = next,
            CatchUpProgress::Finished(outcome) => return (steps, outcome),
        }
    }
}

fn slept(steps: &[CatchUpStep]) -> u64 {
    steps
        .iter()
        .map(|step| match step {
            CatchUpStep::Sleep { ms } => *ms,
            _ => 0,
        })
        .sum()
}

#[test]
fn nothing_to_catch_up_on() {
    let (steps, outcome) = catch_up(|_, _| true);
    assert_eq!(outcome, CatchUpOutcome::Complete);
    assert_eq!(
        steps,
        vec![
            CatchUpStep::LoadSystemFlag,
            CatchUpStep::LoadSystemFlag,
            CatchUpStep::LoadDebugFlag,
            CatchUpStep::LoadDebugFlag,
        ]
    );
}

#[test]
fn catch_up_gives_up_after_ten_seconds() {
    let (steps, outcome) = catch_up(|_, _| false);
    assert_eq!(outcome, CatchUpOutcome::NotReady);
    assert_eq!(slept(&steps), 10_000);
    assert_eq!(steps.len(), 3 * 400 + 1);
    assert_eq!(steps.iter().filter(|s| **s == APPLY_SYSTEM).count(), 400);
    assert!(!steps.contains(&APPLY_DEBUG));
    for (at, step) in steps.iter().enumerate() {
        if *step == APPLY_SYSTEM {
            assert_eq!(steps[at - 1], CatchUpStep::LoadSystemFlag);
        }
    }
}

#[test]
fn catch_up_applies_what_the_hooks_missed() {
    let mut applied = false;
    let (steps, outcome) = catch_up(|step, _| match step {
        CatchUpStep::LoadSystemFlag => applied,
        CatchUpStep::ApplySystem { .. } => {
            applied = true;
            true
        }
        _ => false,
    });
    assert_eq!(outcome, CatchUpOutcome::Complete);
    assert_eq!(steps[..3], [
        CatchUpStep::LoadSystemFlag,
        APPLY_SYSTEM,
        CatchUpStep::LoadSystemFlag,
    ]);
    assert_eq!(slept(&steps), 40 * 25);
    assert_eq!(steps.last(), Some(&APPLY_DEBUG));
    assert_eq!(steps.iter().filter(|s| **s == APPLY_DEBUG).count(), 1);
    assert_eq!(steps[steps.len() - 2], CatchUpStep::LoadDebugFlag);
    assert_eq!(steps.len(), 3 + 80 + 2);
}

#[test]
fn each_failed_try_costs_one_pause() {
    for succeeds_at in 1..=5u64 {
        let mut tries = 0;
        let (steps, outcome) = catch_up(|step, _| match step {
            CatchUpStep::LoadSystemFlag => tries >= succeeds_at,
            CatchUpStep::ApplySystem { .. } => {
                tries += 1;
                tries == succeeds_at
            }
            _ => true,
        });
        assert_eq!(outcome, CatchUpOutcome::Complete);
        assert_eq!(tries, succeeds_at);
        assert_eq!(slept(&steps), 25 * (succeeds_at - 1));
        let last = steps.iter().rposition(|s| *s == APPLY_SYSTEM).unwrap();
        assert_eq!(steps[last + 1], CatchUpStep::LoadSystemFlag);
    }
}

#[test]
fn debug_hook_that_fires_in_time_is_left_alone() {
    let (steps, outcome) = catch_up(|step, at| match step {
        CatchUpStep::LoadSystemFlag => true,
        CatchUpStep::LoadDebugFlag => at > 10,
        _ => false,
    });
    assert_eq!(outcome, CatchUpOutcome::Complete);
    assert!(!steps.contains(&APPLY_DEBUG));
}

#[test]
fn longest_catch_up_is_bounded() {
    let mut looks = 0;
    let (steps, outcome) = catch_up(|step, _| match step {
        CatchUpStep::LoadSystemFlag => {
            looks += 1;
            looks > 400
        }
        _ => false,
    });
    assert_eq!(outcome, CatchUpOutcome::Complete);
    assert_eq!(slept(&steps), 11_000);
    assert_eq!(steps.len(), 3 * 400 + 2 * 40 + 3);
}
