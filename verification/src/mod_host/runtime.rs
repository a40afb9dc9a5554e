//! The runtime classes of a game, and the method among theirs that sets a property.

use vstd::prelude::*;
use vstd::string::StringExecFns;

use crate::mod_host::game::Game;
use crate::text::same_text;

verus! {

/// The method that sets a property.
pub const SET_GAME_PROPERTY: &'static str = "SetGameProperty";

/// A method of a runtime class, with the addresses that it can be invoked at.
pub struct RuntimeMethod {
    pub name: String,
    pub invokers: Vec<usize>,
}

/// A runtime class.
pub struct RuntimeClass {
    pub name: String,
    pub methods: Vec<RuntimeMethod>,
}

/// Why the method that sets a property was not found.
#[derive(Clone, Copy, Debug, PartialEq, Eq, Structural)]
pub enum ResolveError {
    /// The game has no class that controls it.
    ClassNotFound { game: Game },
    /// The class has no such method.
    MethodNotFound,
    /// The method cannot be invoked.
    NoInvokers,
}

/// The names of a row of classes.
pub open spec fn class_names(classes: Seq<RuntimeClass>) -> Seq<Seq<char>> {
    classes.map_values(|class: RuntimeClass| class.name@)
}

/// The names of a row of methods.
pub open spec fn method_names(methods: Seq<RuntimeMethod>) -> Seq<Seq<char>> {
    methods.map_values(|method: RuntimeMethod| method.name@)
}

/// The address of the method that sets a property. Only the first class with the right name counts,
/// only its first method with the right name, and only the first invoker of that.
pub open spec fn resolved(classes: Seq<RuntimeClass>, game: Game) -> Result<usize, ResolveError> {
    let api = crate::mod_host::game::control_api_of(game);
    match class_names(classes).index_of_first(api) {
        None => Err(ResolveError::ClassNotFound { game }),
        Some(c) => {
            let methods = classes[c].methods@;
            match method_names(methods).index_of_first(SET_GAME_PROPERTY@) {
                None => Err(ResolveError::MethodNotFound),
                Some(m) => if methods[m].invokers@.len() == 0 {
                    Err(ResolveError::NoInvokers)
                } else {
                    Ok(methods[m].invokers@[0])
                },
            }
        },
    }
}

/// Finds the first class with a name.
fn find_class<'a>(classes: &'a Vec<RuntimeClass>, name: &str) -> (found: Option<&'a RuntimeClass>)
    ensures
        match class_names(classes@).index_of_first(name@) {
            Some(at) => found == Some(&classes@[at]),
            None => found is None,
        },
{
    let ghost names = class_names(classes@);
    proof {
        names.index_of_first_ensures(name@);
    }
    let count: usize = classes.len();
    let mut i: usize = 0;
    while i < count
        invariant
            i <= count == classes@.len(),
            names == class_names(classes@),
            forall|j: int| 0 <= j < i ==> #[trigger] names[j] != name@,
        decreases count - i,
    {
        if same_text(classes[i].name.as_str(), name) {
            proof {
                names.index_of_first_ensures(name@);
                assert(names[i as int] == name@);
                assert(names.index_of_first(name@) == Some(i as int));
            }
            return Some(&classes[i]);
        }
        assert(names[i as int] != name@);
        i = i + 1;
    }
    None
}

/// The methods that `rdvec::Vec::iter` walks. It goes over the elements of the list from the first
/// to the last, so what is left of a fresh iterator is the whole list; this much is taken on trust.
#[verifier::external_body]
fn walk(methods: &Vec<RuntimeMethod>) -> (walked: &[RuntimeMethod])
    ensures
        walked@ == methods@,
{
    rdvec::Vec::iter(rdvec::std::AsDyn::as_dyn(methods)).as_slice()
}

/// Finds the first method with a name.
fn find_method<'a>(methods: &'a Vec<RuntimeMethod>, name: &str) -> (found: Option<&'a RuntimeMethod>)
    ensures
        match method_names(methods@).index_of_first(name@) {
            Some(at) => found == Some(&methods@[at]),
            None => found is None,
        },
{
    let ghost names = method_names(methods@);
    proof {
        names.index_of_first_ensures(name@);
    }
    let walked: &[RuntimeMethod] = walk(methods);
    let count: usize = walked.len();
    let mut i: usize = 0;
    while i < count
        invariant
            i <= count == methods@.len(),
            walked@ == methods@,
            names == method_names(methods@),
            forall|j: int| 0 <= j < i ==> #[trigger] names[j] != name@,
        decreases count - i,
    {
        if same_text(walked[i].name.as_str(), name) {
            proof {
                names.index_of_first_ensures(name@);
                assert(names[i as int] == name@);
                assert(names.index_of_first(name@) == Some(i as int));
            }
            return Some(&walked[i]);
        }
        assert(names[i as int] != name@);
        i = i + 1;
    }
    None
}

/// Finds the address of the method that sets a property.
pub fn resolve_set_game_property(game: Game, classes: &Vec<RuntimeClass>) -> (address: Result<
    usize,
    ResolveError,
>)
    ensures
        address == resolved(classes@, game),
{
    match find_class(classes, game.control_api()) {
        None => Err(ResolveError::ClassNotFound { game }),
        Some(class) => match find_method(&class.methods, SET_GAME_PROPERTY) {
            None => Err(ResolveError::MethodNotFound),
            Some(method) => if method.invokers.len() == 0 {
                Err(ResolveError::NoInvokers)
            } else {
                Ok(method.invokers[0])
            },
        },
    }
}

impl ResolveError {
    /// The error in words.
    pub fn message(self) -> (message: String)
        ensures
            message@ == (match self {
                ResolveError::ClassNotFound { game } => "failed to find runtime class for "@
                    + crate::mod_host::game::control_api_of(game),
                ResolveError::MethodNotFound => "SetGameProperty method not found"@,
                ResolveError::NoInvokers => "SetGameProperty has no method invokers"@,
            }),
    {
        match self {
            ResolveError::ClassNotFound { game } => "failed to find runtime class for ".to_owned().concat(
            game.control_api()),
            ResolveError::MethodNotFound => "SetGameProperty method not found".to_owned(),
            ResolveError::NoInvokers => "SetGameProperty has no method invokers".to_owned(),
        }
    }
}

/// The method that sets a property is the first `SetGameProperty` of the first class of the right
/// name, and it is invoked at its first address. The class is `SprjAutoControlAPI` in Dark Souls
/// III and Sekiro, and `CSAutoControlAPI` in every other game.
pub proof fn setter_is_the_first_of_its_name(
    classes: Seq<RuntimeClass>,
    game: Game,
    name: Seq<char>,
    c: int,
    m: int,
)
    requires
        name == (if game is DarkSouls3 || game is Sekiro {
            "SprjAutoControlAPI"@
        } else {
            "CSAutoControlAPI"@
        }),
        0 <= c < classes.len(),
        classes[c].name@ == name,
        forall|i: int| 0 <= i < c ==> (#[trigger] classes[i]).name@ != name,
        0 <= m < classes[c].methods@.len(),
        classes[c].methods@[m].name@ == "SetGameProperty"@,
        forall|i: int|
            0 <= i < m ==> (#[trigger] classes[c].methods@[i]).name@ != "SetGameProperty"@,
    ensures
        resolved(classes, game) == (if classes[c].methods@[m].invokers@.len() == 0 {
            Err(ResolveError::NoInvokers)
        } else {
            Ok(classes[c].methods@[m].invokers@[0])
        }),
{
    lemma_first_class(classes, name, c);
    let methods = classes[c].methods@;
    let names = method_names(methods);
    names.index_of_first_ensures("SetGameProperty"@);
    assert(names[m] == "SetGameProperty"@);
    assert forall|i: int| 0 <= i < m implies #[trigger] names[i] != "SetGameProperty"@ by {
        assert(methods[i].name@ != "SetGameProperty"@);
    }
    assert(names.index_of_first("SetGameProperty"@) == Some(m));
}

/// Where the first class of the right name has no `SetGameProperty`, that is the error, whatever
/// other classes have.
pub proof fn class_without_setter_is_an_error(
    classes: Seq<RuntimeClass>,
    game: Game,
    name: Seq<char>,
    c: int,
)
    requires
        name == (if game is DarkSouls3 || game is Sekiro {
            "SprjAutoControlAPI"@
        } else {
            "CSAutoControlAPI"@
        }),
        0 <= c < classes.len(),
        classes[c].name@ == name,
        forall|i: int| 0 <= i < c ==> (#[trigger] classes[i]).name@ != name,
        forall|i: int|
            0 <= i < classes[c].methods@.len() ==> (#[trigger] classes[c].methods@[i]).name@
                != "SetGameProperty"@,
    ensures
        resolved(classes, game) == Err::<usize, ResolveError>(ResolveError::MethodNotFound),
{
    lemma_first_class(classes, name, c);
    let methods = classes[c].methods@;
    let names = method_names(methods);
    names.index_of_first_ensures("SetGameProperty"@);
    assert(!names.contains("SetGameProperty"@)) by {
        if names.contains("SetGameProperty"@) {
            let i = choose|i: int| 0 <= i < names.len() && names[i] == "SetGameProperty"@;
            assert(methods[i].name@ == "SetGameProperty"@);
        }
    }
}

/// Where no class has the right name, that is the error, and it tells the game.
pub proof fn missing_class_is_an_error(
    classes: Seq<RuntimeClass>,
    game: Game,
    name: Seq<char>,
)
    requires
        name == (if game is DarkSouls3 || game is Sekiro {
            "SprjAutoControlAPI"@
        } else {
            "CSAutoControlAPI"@
        }),
        forall|i: int| 0 <= i < classes.len() ==> (#[trigger] classes[i]).name@ != name,
    ensures
        resolved(classes, game) == Err::<usize, ResolveError>(ResolveError::ClassNotFound { game }),
{
    let names = class_names(classes);
    names.index_of_first_ensures(name);
    assert(!names.contains(name)) by {
        if names.contains(name) {
            let i = choose|i: int| 0 <= i < names.len() && names[i] == name;
            assert(classes[i].name@ == name);
        }
    }
}

proof fn lemma_first_class(classes: Seq<RuntimeClass>, name: Seq<char>, c: int)
    requires
        0 <= c < classes.len(),
        classes[c].name@ == name,
        forall|i: int| 0 <= i < c ==> (#[trigger] classes[i]).name@ != name,
    ensures
        class_names(classes).index_of_first(name) == Some(c),
{
    let names = class_names(classes);
    names.index_of_first_ensures(name);
    assert(names[c] == name);
    assert forall|i: int| 0 <= i < c implies #[trigger] names[i] != name by {
        assert(classes[i].name@ != name);
    }
}

} // verus!
