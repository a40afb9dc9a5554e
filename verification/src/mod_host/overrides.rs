//! The properties that are overridden, and in which order.

use vstd::prelude::*;

use crate::text::{is_nul_free, same_text};

verus! {

/// A property and the value that it is given.
#[derive(Debug)]
pub struct Assignment {
    pub property: String,
    pub value: String,
}

impl View for Assignment {
    type V = (Seq<char>, Seq<char>);

    open spec fn view(&self) -> (Seq<char>, Seq<char>) {
        (self.property@, self.value@)
    }
}

/// The properties and values of a row of assignments.
pub open spec fn pairs(assignments: Seq<Assignment>) -> Seq<(Seq<char>, Seq<char>)> {
    assignments.map_values(|a: Assignment| a@)
}

/// A text that C code cannot be handed.
#[derive(Clone, Copy, Debug, PartialEq, Eq, Structural)]
pub struct NulError;

/// Whether every property and every value can be handed to C code.
pub open spec fn all_nul_free(list: Seq<(Seq<char>, Seq<char>)>) -> bool {
    forall|i: int|
        0 <= i < list.len() ==> {
            let (property, value) = #[trigger] list[i];
            crate::text::nul_free(property) && crate::text::nul_free(value)
        }
}

/// Whether no property occurs twice.
pub open spec fn distinct(list: Seq<(Seq<char>, Seq<char>)>) -> bool {
    forall|i: int, j: int|
        0 <= i < j < list.len() ==> (#[trigger] list[i]).0 != (#[trigger] list[j]).0
}

/// Whether a property occurs in a list.
pub open spec fn sets(list: Seq<(Seq<char>, Seq<char>)>, property: Seq<char>) -> bool {
    exists|i: int| 0 <= i < list.len() && (#[trigger] list[i]).0 == property
}

/// A list after `property` was given `value`: a property keeps its place, and a new one goes last.
pub open spec fn assigned(
    list: Seq<(Seq<char>, Seq<char>)>,
    property: Seq<char>,
    value: Seq<char>,
) -> Seq<(Seq<char>, Seq<char>)> {
    if sets(list, property) {
        list.map_values(
            |pair: (Seq<char>, Seq<char>)|
                if pair.0 == property {
                    (property, value)
                } else {
                    pair
                },
        )
    } else {
        list.push((property, value))
    }
}

/// The overrides of the host itself and those of the user.
pub struct PropertyOverrides {
    internal: Vec<Assignment>,
    user: Vec<Assignment>,
}

/// The overrides of the host itself and those of the user.
pub struct PropertyOverridesView {
    pub internal: Seq<(Seq<char>, Seq<char>)>,
    pub user: Seq<(Seq<char>, Seq<char>)>,
}

impl View for PropertyOverrides {
    type V = PropertyOverridesView;

    closed spec fn view(&self) -> PropertyOverridesView {
        PropertyOverridesView { internal: pairs(self.internal@), user: pairs(self.user@) }
    }
}

impl PropertyOverridesView {
    /// Every override can be handed to C code, and neither list sets a property twice.
    pub open spec fn well_formed(self) -> bool {
        &&& all_nul_free(self.internal)
        &&& all_nul_free(self.user)
        &&& distinct(self.internal)
        &&& distinct(self.user)
    }

    /// The overrides in the order in which they are applied: those of the user come last.
    pub open spec fn in_order(self) -> Seq<(Seq<char>, Seq<char>)> {
        self.internal + self.user
    }
}

/// Giving a property a value keeps a list usable: no NUL comes in, and no property occurs twice.
pub proof fn assignment_keeps_list_usable(
    list: Seq<(Seq<char>, Seq<char>)>,
    property: Seq<char>,
    value: Seq<char>,
)
    requires
        all_nul_free(list),
        distinct(list),
        crate::text::nul_free(property),
        crate::text::nul_free(value),
    ensures
        all_nul_free(assigned(list, property, value)),
        distinct(assigned(list, property, value)),
{
    let after = assigned(list, property, value);
    assert forall|i: int| 0 <= i < after.len() implies ({
        let (p, v) = #[trigger] after[i];
        crate::text::nul_free(p) && crate::text::nul_free(v)
    }) by {
        if i < list.len() {
            let (p, v) = list[i];
        }
    }
    assert forall|i: int, j: int| 0 <= i < j < after.len() implies (#[trigger] after[i]).0 != (
    #[trigger] after[j]).0 by {
        if j < list.len() {
            assert(list[i].0 != list[j].0);
        } else {
            assert(list[i].0 != property);
        }
    }
}

/// Gives a property a value in a list.
fn assign(list: &mut Vec<Assignment>, property: &str, value: &str)
    requires
        distinct(pairs(old(list)@)),
    ensures
        pairs(final(list)@) == assigned(pairs(old(list)@), property@, value@),
{
    let ghost before = pairs(list@);
    let count: usize = list.len();
    let mut i: usize = 0;
    while i < count
        invariant
            i <= count == list@.len(),
            before == pairs(list@),
            distinct(before),
            list@ == old(list)@,
            forall|j: int| 0 <= j < i ==> (#[trigger] before[j]).0 != property@,
        decreases count - i,
    {
        if same_text(list[i].property.as_str(), property) {
            let replacement: Assignment = Assignment {
                property: property.to_owned(),
                value: value.to_owned(),
            };
            list.set(i, replacement);
            assert(before[i as int].0 == property@);
            assert forall|j: int| 0 <= j < count && j != i implies (#[trigger] before[j]).0
                != property@ by {
                if j > i {
                    assert(before[i as int].0 != before[j].0);
                }
            }
            assert(pairs(list@) =~= assigned(before, property@, value@));
            return ;
        }
        assert(before[i as int].0 != property@);
        i = i + 1;
    }
    list.push(Assignment { property: property.to_owned(), value: value.to_owned() });
    assert(!sets(before, property@));
    assert(pairs(list@) =~= before.push((property@, value@)));
}

/// Appends copies of the assignments of `list`.
fn append_copies(copies: &mut Vec<Assignment>, list: &Vec<Assignment>)
    ensures
        pairs(final(copies)@) == pairs(old(copies)@) + pairs(list@),
{
    let count: usize = list.len();
    let mut i: usize = 0;
    assert(pairs(copies@) =~= pairs(old(copies)@) + pairs(list@).take(0));
    while i < count
        invariant
            i <= count == list@.len(),
            pairs(copies@) == pairs(old(copies)@) + pairs(list@).take(i as int),
        decreases count - i,
    {
        let ghost so_far = pairs(copies@);
        copies.push(
            Assignment { property: list[i].property.clone(), value: list[i].value.clone() },
        );
        assert(pairs(copies@) =~= so_far.push(pairs(list@)[i as int]));
        assert(pairs(list@).take(i + 1) =~= pairs(list@).take(i as int).push(
            pairs(list@)[i as int],
        ));
        i = i + 1;
    }
    assert(pairs(list@).take(count as int) =~= pairs(list@));
}

impl PropertyOverrides {
    #[verifier::type_invariant]
    spec fn usable(self) -> bool {
        self@.well_formed()
    }

    /// No overrides.
    pub fn new() -> (overrides: PropertyOverrides)
        ensures
            overrides@.internal == Seq::<(Seq<char>, Seq<char>)>::empty(),
            overrides@.user == Seq::<(Seq<char>, Seq<char>)>::empty(),
    {
        let internal: Vec<Assignment> = Vec::new();
        let user: Vec<Assignment> = Vec::new();
        assert(pairs(internal@) =~= Seq::empty());
        assert(pairs(user@) =~= Seq::empty());
        PropertyOverrides { internal, user }
    }

    /// Overrides a property on behalf of the host.
    pub fn override_game_property(&mut self, property: &str, value: &str) -> (result: Result<
        (),
        NulError,
    >)
        ensures
            result is Ok <==> crate::text::nul_free(property@) && crate::text::nul_free(value@),
            final(self)@ == (if result is Ok {
                PropertyOverridesView {
                    internal: assigned(old(self)@.internal, property@, value@),
                    ..old(self)@
                }
            } else {
                old(self)@
            }),
    {
        proof {
            use_type_invariant(&*self);
        }
        if !is_nul_free(property) || !is_nul_free(value) {
            return Err(NulError);
        }
        proof {
            assignment_keeps_list_usable(self@.internal, property@, value@);
        }
        let mut list: Vec<Assignment> = Vec::new();
        assert(pairs(list@) =~= Seq::empty());
        std::mem::swap(&mut list, &mut self.internal);
        assign(&mut list, property, value);
        self.internal = list;
        Ok(())
    }

    /// Overrides a property on behalf of the user.
    pub fn override_user_property(&mut self, property: &str, value: &str) -> (result: Result<
        (),
        NulError,
    >)
        ensures
            result is Ok <==> crate::text::nul_free(property@) && crate::text::nul_free(value@),
            final(self)@ == (if result is Ok {
                PropertyOverridesView {
                    user: assigned(old(self)@.user, property@, value@),
                    ..old(self)@
                }
            } else {
                old(self)@
            }),
    {
        proof {
            use_type_invariant(&*self);
        }
        if !is_nul_free(property) || !is_nul_free(value) {
            return Err(NulError);
        }
        proof {
            assignment_keeps_list_usable(self@.user, property@, value@);
        }
        let mut list: Vec<Assignment> = Vec::new();
        assert(pairs(list@) =~= Seq::empty());
        std::mem::swap(&mut list, &mut self.user);
        assign(&mut list, property, value);
        self.user = list;
        Ok(())
    }

    /// The overrides in the order in which they are applied: those of the user come last.
    pub fn in_order(&self) -> (assignments: Vec<Assignment>)
        ensures
            pairs(assignments@) == self@.in_order(),
            pairs(assignments@) == self@.internal + self@.user,
            all_nul_free(pairs(assignments@)),
    {
        proof {
            use_type_invariant(self);
        }
        let mut assignments: Vec<Assignment> = Vec::new();
        append_copies(&mut assignments, &self.internal);
        append_copies(&mut assignments, &self.user);
        assert(pairs(assignments@) =~= self@.in_order());
        assert forall|i: int| 0 <= i < self@.in_order().len() implies ({
            let (property, value) = #[trigger] self@.in_order()[i];
            crate::text::nul_free(property) && crate::text::nul_free(value)
        }) by {
            if i < self@.internal.len() {
                let (property, value) = self@.internal[i];
            } else {
                let (property, value) = self@.user[i - self@.internal.len()];
            }
        }
        assignments
    }
}

/// The properties of a game after a row of assignments.
pub open spec fn applied(
    properties: Map<Seq<char>, Seq<char>>,
    list: Seq<(Seq<char>, Seq<char>)>,
) -> Map<Seq<char>, Seq<char>>
    decreases list.len(),
{
    if list.len() == 0 {
        properties
    } else {
        applied(properties, list.drop_last()).insert(list.last().0, list.last().1)
    }
}

/// Applying two rows is applying the second to what the first made.
proof fn lemma_applied_concat(
    properties: Map<Seq<char>, Seq<char>>,
    first: Seq<(Seq<char>, Seq<char>)>,
    second: Seq<(Seq<char>, Seq<char>)>,
)
    ensures
        applied(properties, first + second) == applied(applied(properties, first), second),
    decreases second.len(),
{
    if second.len() == 0 {
        assert(first + second =~= first);
    } else {
        assert((first + second).drop_last() =~= first + second.drop_last());
        lemma_applied_concat(properties, first, second.drop_last());
    }
}

/// What a row without repetitions does to one property.
proof fn lemma_applied_lookup(
    properties: Map<Seq<char>, Seq<char>>,
    list: Seq<(Seq<char>, Seq<char>)>,
    property: Seq<char>,
)
    requires
        distinct(list),
    ensures
        !sets(list, property) ==> applied(properties, list).contains_key(property)
            == properties.contains_key(property) && applied(properties, list)[property]
            == properties[property],
        forall|i: int|
            0 <= i < list.len() && (#[trigger] list[i]).0 == property ==> applied(
                properties,
                list,
            ).contains_key(property) && applied(properties, list)[property] == list[i].1,
    decreases list.len(),
{
    if list.len() > 0 {
        let shorter = list.drop_last();
        assert forall|i: int, j: int| 0 <= i < j < shorter.len() implies (#[trigger] shorter[i]).0
            != (#[trigger] shorter[j]).0 by {
            assert(list[i].0 != list[j].0);
        }
        lemma_applied_lookup(properties, shorter, property);
        if !sets(list, property) {
            assert(list[list.len() - 1].0 != property);
            assert(!sets(shorter, property)) by {
                if sets(shorter, property) {
                    let i = choose|i: int| 0 <= i < shorter.len() && (#[trigger] shorter[i]).0
                        == property;
                    assert(list[i].0 == property);
                }
            }
        }
        assert forall|i: int| 0 <= i < list.len() && (#[trigger] list[i]).0
            == property implies applied(properties, list).contains_key(property) && applied(
            properties,
            list,
        )[property] == list[i].1 by {
            if i < list.len() - 1 {
                assert(list[i].0 != list[list.len() - 1].0);
                assert(shorter[i].0 == property);
            }
        }
    }
}

/// The user has priority: once the overrides are applied in their order, a property has the value
/// that the user gave it; where the user gave none, the host's; and where neither gave one, what it
/// had before.
pub proof fn user_has_priority(
    overrides: PropertyOverridesView,
    properties: Map<Seq<char>, Seq<char>>,
    property: Seq<char>,
)
    requires
        overrides.well_formed(),
    ensures
        ({
            let after = applied(properties, overrides.in_order());
            &&& forall|i: int|
                0 <= i < overrides.user.len() && (#[trigger] overrides.user[i]).0 == property
                    ==> after.contains_key(property) && after[property] == overrides.user[i].1
            &&& !sets(overrides.user, property) ==> forall|i: int|
                0 <= i < overrides.internal.len() && (#[trigger] overrides.internal[i]).0
                    == property ==> after.contains_key(property) && after[property]
                    == overrides.internal[i].1
            &&& !sets(overrides.user, property) && !sets(overrides.internal, property)
                ==> after.contains_key(property) == properties.contains_key(property)
                && after[property] == properties[property]
        }),
{
    lemma_applied_concat(properties, overrides.internal, overrides.user);
    lemma_applied_lookup(properties, overrides.internal, property);
    lemma_applied_lookup(
        applied(properties, overrides.internal),
        overrides.user,
        property,
    );
}

/// Giving a property a value is what a reader of the list sees: the property has the value, and
/// every other property what it had.
pub proof fn assignment_takes_effect(
    list: Seq<(Seq<char>, Seq<char>)>,
    properties: Map<Seq<char>, Seq<char>>,
    property: Seq<char>,
    value: Seq<char>,
)
    requires
        distinct(list),
    ensures
        applied(properties, assigned(list, property, value)) == applied(properties, list).insert(
            property,
            value,
        ),
{
    let after = assigned(list, property, value);
    if sets(list, property) {
        assert forall|i: int, j: int| 0 <= i < j < after.len() implies (#[trigger] after[i]).0 != (
        #[trigger] after[j]).0 by {
            assert(list[i].0 != list[j].0);
        }
        let left = applied(properties, after);
        let right = applied(properties, list).insert(property, value);
        assert forall|p: Seq<char>|
            #![trigger left.dom().contains(p)]
            #![trigger right.dom().contains(p)]
            #![trigger left[p]]
            left.dom().contains(p) == right.dom().contains(p) && (right.dom().contains(p)
                ==> left[p] == right[p]) by {
            lemma_applied_lookup(properties, after, p);
            lemma_applied_lookup(properties, list, p);
            if sets(list, p) {
                let i = choose|i: int| 0 <= i < list.len() && (#[trigger] list[i]).0 == p;
                assert(after[i].0 == p);
            } else {
                assert(!sets(after, p)) by {
                    if sets(after, p) {
                        let i = choose|i: int| 0 <= i < after.len() && (#[trigger] after[i]).0 == p;
                        assert(list[i].0 == p);
                    }
                }
            }
        }
        assert(left.dom() =~= right.dom());
        assert(left =~= right);
    } else {
        assert(after.drop_last() =~= list);
    }
}

/// What giving a property a value does to a list, place by place: the property has its new value
/// where it was, or behind all others where it was not, and nothing else changes.
pub proof fn assignment_keeps_places(
    list: Seq<(Seq<char>, Seq<char>)>,
    property: Seq<char>,
    value: Seq<char>,
)
    ensures
        forall|i: int|
            0 <= i < list.len() ==> #[trigger] assigned(list, property, value)[i] == (if list[i].0
                == property {
                (property, value)
            } else {
                list[i]
            }),
        assigned(list, property, value).len() == (if exists|i: int|
            0 <= i < list.len() && (#[trigger] list[i]).0 == property {
            list.len()
        } else {
            list.len() + 1
        }),
        assigned(list, property, value).len() > list.len() ==> assigned(
            list,
            property,
            value,
        ).last() == (property, value),
{
}

/// The overrides are applied list after list: those of the host in their order, then those of the
/// user in theirs, each property with its value.
pub proof fn overrides_are_applied_in_order(overrides: PropertyOverridesView, at: int)
    requires
        0 <= at,
    ensures
        overrides.in_order().len() == overrides.internal.len() + overrides.user.len(),
        at < overrides.internal.len() ==> overrides.in_order()[at] == overrides.internal[at],
        at < overrides.user.len() ==> overrides.in_order()[overrides.internal.len() + at]
            == overrides.user[at],
{
}

/// A row of assignments reads as its properties and values, one for one.
pub proof fn assignments_read_as_pairs(assignments: Seq<Assignment>, at: int)
    requires
        0 <= at < assignments.len(),
    ensures
        pairs(assignments).len() == assignments.len(),
        pairs(assignments)[at] == (assignments[at].property@, assignments[at].value@),
{
}

} // verus!
