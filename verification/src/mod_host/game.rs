//! The games, and what of their properties depends on the game.

use vstd::prelude::*;

verus! {

/// A game, in order of release.
#[derive(Clone, Copy, Debug, PartialEq, Eq, Structural)]
pub enum Game {
    DarkSouls3,
    Sekiro,
    EldenRing,
    ArmoredCore6,
    Nightreign,
}

/// The position of a game in the order of release.
pub open spec fn release(game: Game) -> int {
    match game {
        Game::DarkSouls3 => 0,
        Game::Sekiro => 1,
        Game::EldenRing => 2,
        Game::ArmoredCore6 => 3,
        Game::Nightreign => 4,
    }
}

/// The strings that a map of system properties is made of.
#[derive(Clone, Copy, Debug, PartialEq, Eq, Structural)]
pub enum PropertyText {
    /// The strings of the engine.
    String,
    /// Strings with an allocator of their own.
    Custom,
}

/// Where a game keeps its system properties.
#[derive(Clone, Copy, Debug, PartialEq, Eq, Structural)]
pub struct PropertySingleton {
    /// Whether the singleton goes by the older of its two names.
    pub sprj: bool,
    /// What its map holds.
    pub text: PropertyText,
}

/// Where a game keeps its system properties. Games before Elden Ring use the older name, and only
/// Nightreign the strings with an allocator of their own.
pub open spec fn property_singleton_of(game: Game) -> PropertySingleton {
    PropertySingleton {
        sprj: release(game) < release(Game::EldenRing),
        text: if game == Game::Nightreign {
            PropertyText::Custom
        } else {
            PropertyText::String
        },
    }
}

/// The class whose methods control the game.
pub open spec fn control_api_of(game: Game) -> Seq<char> {
    if release(game) < release(Game::EldenRing) {
        "SprjAutoControlAPI"@
    } else {
        "CSAutoControlAPI"@
    }
}

impl Game {
    /// Whether the game came out before `other`.
    pub fn before(self, other: Game) -> (earlier: bool)
        ensures
            earlier == (release(self) < release(other)),
    {
        self.release_index() < other.release_index()
    }

    fn release_index(self) -> (index: u8)
        ensures
            index == release(self),
    {
        match self {
            Game::DarkSouls3 => 0,
            Game::Sekiro => 1,
            Game::EldenRing => 2,
            Game::ArmoredCore6 => 3,
            Game::Nightreign => 4,
        }
    }

    /// Where the game keeps its system properties.
    pub fn property_singleton(self) -> (singleton: PropertySingleton)
        ensures
            singleton == property_singleton_of(self),
    {
        match self {
            Game::DarkSouls3 | Game::Sekiro => PropertySingleton {
                sprj: true,
                text: PropertyText::String,
            },
            Game::EldenRing | Game::ArmoredCore6 => PropertySingleton {
                sprj: false,
                text: PropertyText::String,
            },
            Game::Nightreign => PropertySingleton { sprj: false, text: PropertyText::Custom },
        }
    }

    /// The class whose methods control the game.
    pub fn control_api(self) -> (name: &'static str)
        ensures
            name@ == control_api_of(self),
    {
        if self.before(Game::EldenRing) {
            "SprjAutoControlAPI"
        } else {
            "CSAutoControlAPI"
        }
    }
}

impl PropertySingleton {
    /// The name that the singleton is found by.
    pub fn name(self) -> (name: &'static str)
        ensures
            name@ == (if self.sprj {
                "SprjSystemProperties"@
            } else {
                "CSSystemProperties"@
            }),
    {
        if self.sprj {
            "SprjSystemProperties"
        } else {
            "CSSystemProperties"
        }
    }
}

/// The games came out in this order: Dark Souls III, Sekiro, Elden Ring, Armored Core VI,
/// Nightreign.
pub proof fn games_came_out_in_order()
    ensures
        release(Game::DarkSouls3) < release(Game::Sekiro) < release(Game::EldenRing) < release(
            Game::ArmoredCore6,
        ) < release(Game::Nightreign),
{
}

/// Dark Souls III and Sekiro, and no other game, go by the older names; Nightreign, and no other
/// game, has strings with an allocator of their own.
pub proof fn every_game_keeps_its_properties_in_place(game: Game)
    ensures
        property_singleton_of(game).sprj <==> game is DarkSouls3 || game is Sekiro,
        property_singleton_of(game).text == (if game is Nightreign {
            PropertyText::Custom
        } else {
            PropertyText::String
        }),
        control_api_of(game) == (if game is DarkSouls3 || game is Sekiro {
            "SprjAutoControlAPI"@
        } else {
            "CSAutoControlAPI"@
        }),
{
}

} // verus!
