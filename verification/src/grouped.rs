//! The parts of a form grouped by the name of their field.

use vstd::prelude::*;
use crate::error::MultipartError;
use crate::load::{field_views, loaded, Loader};
use crate::part::{raw_views, Field, FieldView, RawPart};

verus! {

/// `multimap::MultiMap`, declared as a type whose values are read through
/// the functions below only.
#[verifier::external_type_specification]
#[verifier::external_body]
#[verifier::reject_recursive_types(K)]
#[verifier::reject_recursive_types(V)]
#[verifier::reject_recursive_types(S)]
pub struct ExMultiMap<K, V, S>(multimap::MultiMap<K, V, S>);

/// What a multimap from names to numbers holds: for each name that it has,
/// the numbers inserted under it, in the order of their insertion.
pub uninterp spec fn index_groups(map: multimap::MultiMap<String, usize>) -> Map<
    Seq<char>,
    Seq<usize>,
>;

/// The contents of a multimap that holds nothing.
pub open spec fn no_groups() -> Map<Seq<char>, Seq<usize>> {
    Map::empty()
}

/// `MultiMap::new`. Trusted: the new multimap holds nothing.
#[verifier::external_body]
fn index_new() -> (index: multimap::MultiMap<String, usize>)
    ensures
        index_groups(index) == no_groups(),
{
    multimap::MultiMap::new()
}

/// The numbers that a multimap holds under a name; none where it does not
/// have the name.
pub open spec fn numbers_under(groups: Map<Seq<char>, Seq<usize>>, name: Seq<char>) -> Seq<usize> {
    if groups.dom().contains(name) {
        groups[name]
    } else {
        Seq::empty()
    }
}

/// `MultiMap::insert`. Trusted: the number is added after those that the
/// multimap holds under the name, and nothing else changes.
#[verifier::external_body]
fn index_insert(map: &mut multimap::MultiMap<String, usize>, name: String, number: usize)
    ensures
        index_groups(*final(map)) == index_groups(*old(map)).insert(
            name@,
            numbers_under(index_groups(*old(map)), name@).push(number),
        ),
{
    map.insert(name, number)
}

/// `MultiMap::get_vec`. Trusted: the call gives the numbers held under the
/// name, where the multimap has the name.
#[verifier::external_body]
fn index_get_vec<'a>(map: &'a multimap::MultiMap<String, usize>, name: &str) -> (r: Option<
    &'a Vec<usize>,
>)
    ensures
        r is Some <==> index_groups(*map).dom().contains(name@),
        r matches Some(numbers) ==> numbers@ == index_groups(*map)[name@],
{
    map.get_vec(name)
}

/// `MultiMap::remove`. Trusted: the call gives the numbers held under the
/// name, where the multimap has the name, and the multimap then lacks the
/// name and is otherwise unchanged.
#[verifier::external_body]
fn index_remove(map: &mut multimap::MultiMap<String, usize>, name: &str) -> (r: Option<Vec<usize>>)
    ensures
        r is Some <==> index_groups(*old(map)).dom().contains(name@),
        r matches Some(numbers) ==> numbers@ == index_groups(*old(map))[name@],
        index_groups(*final(map)) == index_groups(*old(map)).remove(name@),
{
    map.remove(name)
}

/// The parts among `fields` that address the field `name`, in the order of
/// their arrival.
pub open spec fn named<S>(fields: Seq<Field<S>>, name: Seq<char>) -> Seq<Field<S>>
    decreases fields.len(),
{
    if fields.len() == 0 {
        Seq::empty()
    } else if fields.last()@.name() == name {
        named(fields.drop_last(), name).push(fields.last())
    } else {
        named(fields.drop_last(), name)
    }
}

/// A multipart form of fields grouped by name.
///
/// The names are kept in a multimap, which holds for each name the positions
/// of its parts.
pub struct GroupedFields<S> {
    index: multimap::MultiMap<String, usize>,
    parts: Vec<Option<Field<S>>>,
}

impl<S> GroupedFields<S> {
    #[verifier::type_invariant]
    spec fn wf(&self) -> bool {
        let groups = index_groups(self.index);
        &&& forall|name: Seq<char>, k: int|
            groups.dom().contains(name) && 0 <= k < groups[name].len() ==> {
                &&& (#[trigger] groups[name][k]) < self.parts.len()
                &&& self.parts[groups[name][k] as int] is Some
                &&& self.parts[groups[name][k] as int]->0@.name() == name
            }
        &&& forall|name: Seq<char>, a: int, b: int|
            groups.dom().contains(name) && 0 <= a < b < groups[name].len() ==> (
            #[trigger] groups[name][a]) < (#[trigger] groups[name][b])
        &&& forall|name: Seq<char>| #[trigger]
            groups.dom().contains(name) ==> groups[name].len() > 0
    }

    /// The parts that address the field `name`, in the order of their
    /// arrival; none where no part addresses it.
    pub closed spec fn group(&self, name: Seq<char>) -> Seq<Field<S>> {
        numbers_under(index_groups(self.index), name).map_values(
            |i: usize| self.parts[i as int]->0,
        )
    }

    /// Groups the parts of a form by name, keeping the order of arrival
    /// under each name.
    pub fn from_fields(fields: Vec<Field<S>>) -> (grouped: Self)
        ensures
            forall|name: Seq<char>| #[trigger] grouped.group(name) == named(fields@, name),
    {
        let mut grouped = GroupedFields { index: index_new(), parts: Vec::new() };
        assert forall|name: Seq<char>| #[trigger] grouped.group(name) == named(
            fields@.take(0),
            name,
        ) by {
            assert(grouped.group(name) =~= Seq::empty());
        }
        for field in it: fields
            invariant
                it.seq() == fields@,
                grouped.parts.len() == it.index(),
                forall|name: Seq<char>| #[trigger]
                    grouped.group(name) == named(fields@.take(it.index() as int), name),
        {
            proof {
                use_type_invariant(&grouped);
            }
            let ghost before = grouped;
            let ghost n = it.index() as int;
            let name = field.name().to_owned();
            let GroupedFields { index, parts } = grouped;
            let mut index = index;
            let mut parts = parts;
            let position = parts.len();
            index_insert(&mut index, name, position);
            parts.push(Some(field));
            proof {
                let old_groups = index_groups(before.index);
                let new_groups = index_groups(index);
                assert forall|other: Seq<char>, k: int|
                    new_groups.dom().contains(other) && 0 <= k < new_groups[other].len() implies {
                    &&& (#[trigger] new_groups[other][k]) < parts.len()
                    &&& parts[new_groups[other][k] as int] is Some
                    &&& parts[new_groups[other][k] as int]->0@.name() == other
                } by {
                    if other == name@ && k == new_groups[other].len() - 1 {
                    } else {
                        assert(old_groups.dom().contains(other));
                        assert(new_groups[other][k] == old_groups[other][k]);
                    }
                }
                assert forall|other: Seq<char>, a: int, b: int|
                    new_groups.dom().contains(other) && 0 <= a < b
                        < new_groups[other].len() implies (#[trigger] new_groups[other][a]) < (
                #[trigger] new_groups[other][b]) by {
                    if other == name@ && b == new_groups[other].len() - 1 {
                        assert(new_groups[other][a] == old_groups[other][a]);
                    } else {
                        assert(new_groups[other][a] == old_groups[other][a]);
                        assert(new_groups[other][b] == old_groups[other][b]);
                    }
                }
            }
            grouped = GroupedFields { index, parts };
            proof {
                assert(fields@.take(n + 1).drop_last() == fields@.take(n));
                assert forall|other: Seq<char>| #[trigger]
                    grouped.group(other) == named(fields@.take(n + 1), other) by {
                    let old_numbers = numbers_under(index_groups(before.index), other);
                    assert forall|k: int| 0 <= k < old_numbers.len() implies before.parts[(
                    #[trigger] old_numbers[k]) as int] == grouped.parts[old_numbers[k] as int] by {}
                    if other == field@.name() {
                        assert(grouped.group(other) =~= before.group(other).push(field));
                    } else {
                        assert(grouped.group(other) =~= before.group(other));
                    }
                }
            }
        }
        assert(fields@.take(fields@.len() as int) == fields@);
        grouped
    }

    /// The first part that addresses the field `name`.
    pub fn get(&self, name: &str) -> (r: Option<&Field<S>>)
        ensures
            match r {
                Some(field) => self.group(name@).len() > 0 && *field == self.group(name@)[0],
                None => self.group(name@).len() == 0,
            },
    {
        proof {
            use_type_invariant(self);
        }
        match index_get_vec(&self.index, name) {
            Some(numbers) => {
                assert(index_groups(self.index)[name@][0] < self.parts.len());
                self.parts[numbers[0]].as_ref()
            },
            None => None,
        }
    }

    /// Takes the parts that address the field `name` out of the form, in the
    /// order of their arrival. The parts of other names stay in the form that
    /// is handed back.
    pub fn remove(self, name: &str) -> (r: (Self, Vec<Field<S>>))
        ensures
            r.1@ == self.group(name@),
            r.0.group(name@) == Seq::<Field<S>>::empty(),
            forall|other: Seq<char>|
                other != name@ ==> #[trigger] r.0.group(other) == self.group(other),
    {
        proof {
            use_type_invariant(&self);
        }
        let ghost old_groups = index_groups(self.index);
        let ghost old_parts = self.parts@;
        let GroupedFields { index, parts } = self;
        let mut index = index;
        let mut parts = parts;
        let mut fields: Vec<Field<S>> = Vec::new();
        let numbers = match index_remove(&mut index, name) {
            Some(numbers) => numbers,
            None => {
                let rest = GroupedFields { index, parts };
                proof {
                    assert(rest.group(name@) =~= Seq::<Field<S>>::empty());
                    assert(self.group(name@) =~= Seq::<Field<S>>::empty());
                    assert forall|other: Seq<char>| other != name@ implies #[trigger] rest.group(
                        other,
                    ) == self.group(other) by {
                        assert(rest.group(other) =~= self.group(other));
                    }
                }
                return (rest, fields);
            },
        };
        let mut k: usize = 0;
        while k < numbers.len()
            invariant
                0 <= k <= numbers.len(),
                numbers@ == old_groups[name@],
                old_groups.dom().contains(name@),
                old_groups == index_groups(self.index),
                old_parts == self.parts@,
                self.wf(),
                index_groups(index) == old_groups.remove(name@),
                parts.len() == old_parts.len(),
                forall|j: int|
                    0 <= j < old_parts.len() && !(old_parts[j] is Some && old_parts[j]->0@.name()
                        == name@) ==> #[trigger] parts[j] == old_parts[j],
                forall|a: int|
                    k <= a < numbers.len() ==> parts[(#[trigger] numbers[a]) as int]
                        == old_parts[numbers[a] as int],
                fields@ == self.group(name@).take(k as int),
            decreases numbers.len() - k,
        {
            let position = numbers[k];
            assert(old_groups[name@][k as int] < old_parts.len());
            let slot = &mut parts[position];
            let taken = slot.take();
            match taken {
                Some(field) => {
                    fields.push(field);
                },
                None => {},
            }
            proof {
                assert(fields@ =~= self.group(name@).take(k as int + 1));
                assert forall|a: int| k + 1 <= a < numbers.len() implies parts[(
                #[trigger] numbers[a]) as int] == old_parts[numbers[a] as int] by {
                    assert(old_groups[name@][k as int] < old_groups[name@][a]);
                }
            }
            k = k + 1;
        }
        proof {
            let new_groups = index_groups(index);
            assert forall|other: Seq<char>, a: int|
                new_groups.dom().contains(other) && 0 <= a < new_groups[other].len() implies {
                &&& (#[trigger] new_groups[other][a]) < parts.len()
                &&& parts[new_groups[other][a] as int] is Some
                &&& parts[new_groups[other][a] as int]->0@.name() == other
            } by {
                assert(new_groups[other][a] == old_groups[other][a]);
            }
        }
        let rest = GroupedFields { index, parts };
        proof {
            assert(self.group(name@).take(k as int) == self.group(name@));
            assert(rest.group(name@) =~= Seq::<Field<S>>::empty());
            assert forall|other: Seq<char>| other != name@ implies #[trigger] rest.group(other)
                == self.group(other) by {
                if old_groups.dom().contains(other) {
                    assert forall|a: int| 0 <= a < old_groups[other].len() implies rest.parts[(
                    #[trigger] old_groups[other][a]) as int] == old_parts[old_groups[other][a] as int] by {}
                }
                assert(rest.group(other) =~= self.group(other));
            }
        }
        (rest, fields)
    }

    /// Whether the form has no part left.
    pub fn is_empty(&self) -> (empty: bool)
        ensures
            empty <==> forall|name: Seq<char>| (#[trigger] self.group(name)).len() == 0,
    {
        proof {
            use_type_invariant(self);
        }
        let empty = index_is_empty(&self.index);
        proof {
            let groups = index_groups(self.index);
            if empty {
                assert forall|name: Seq<char>| (#[trigger] self.group(name)).len() == 0 by {
                    assert(!groups.dom().contains(name));
                }
            } else {
                let name = choose|name: Seq<char>| groups.dom().contains(name);
                assert(groups.dom().contains(name));
                assert(self.group(name).len() > 0);
            }
        }
        empty
    }
}

/// `MultiMap::is_empty`. Trusted: the call tells whether the multimap has no
/// name.
#[verifier::external_body]
fn index_is_empty(map: &multimap::MultiMap<String, usize>) -> (empty: bool)
    ensures
        empty <==> index_groups(*map).dom() =~= Set::<Seq<char>>::empty(),
{
    map.is_empty()
}

/// Whether `item` holds, grouped by name, the parts `emitted`, and these are
/// the loaded `fields`, one for each of `parts` in their order, each file
/// with the body of its part as storage.
pub open spec fn groups_loaded(
    item: GroupedFields<Vec<u8>>,
    emitted: Seq<Field<Vec<u8>>>,
    fields: Seq<FieldView>,
    parts: Seq<RawPart>,
) -> bool {
    &&& field_views(emitted) == fields
    &&& emitted.len() == parts.len()
    &&& forall|i: int|
        0 <= i < emitted.len() && (#[trigger] emitted[i]) is File ==> emitted[i]->File_0.file@
            == parts[i]@.body()
    &&& forall|name: Seq<char>| #[trigger] item.group(name) == named(emitted, name)
}

impl Loader {
    /// Loads the parts of a body that is held in memory, grouped by the name
    /// of their field. A file part keeps its body in a byte vector.
    ///
    /// returns: the parts of each name, in the order in which they were
    /// received.
    pub fn load_grouped(self, parts: &Vec<RawPart>) -> (r: Result<
        GroupedFields<Vec<u8>>,
        MultipartError,
    >)
        ensures
            match loaded(self@, raw_views(parts@)) {
                Ok(fields) => r is Ok && exists|emitted: Seq<Field<Vec<u8>>>| #[trigger]
                    groups_loaded(r->Ok_0, emitted, fields, parts@),
                Err(e) => r is Err && r->Err_0 == e,
            },
    {
        match self.load_fields(parts) {
            Ok(fields) => {
                let ghost emitted = fields@;
                let grouped = GroupedFields::from_fields(fields);
                let r = Ok(grouped);
                proof {
                    let loaded_fields = loaded(self@, raw_views(parts@))->Ok_0;
                    assert(loaded(self@, raw_views(parts@)) is Ok);
                    assert(emitted.len() == field_views(emitted).len());
                    assert(groups_loaded(r->Ok_0, emitted, loaded_fields, parts@));
                }
                r
            },
            Err(e) => Err(e),
        }
    }
}

} // verus!
