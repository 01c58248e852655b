//! The shapes in which JSON values stand for structures and variants.
//!
//! A structure is an object, or an array of its fields in the order of their
//! declaration. A variant without data is its name, or an object with its name as
//! the only key. A variant with data is an object with a tag among its entries, or an
//! array with the tag in front.
use vstd::prelude::*;

use crate::assoc::{assoc_map, lemma_assoc_present};
use crate::json::{json_views, lookup, Json, JsonMap, JsonView};
use crate::text::same_text;

verus! {

/// The fields of an object.
pub type Fields = Map<Seq<char>, JsonView>;

/// Fields by their names, in order.
pub open spec fn positional(names: Seq<Seq<char>>, items: Seq<JsonView>) -> Fields {
    assoc_map(Seq::new(items.len(), |i: int| (names[i], items[i])))
}

/// The fields of a structure: the entries of an object, or the items of an array
/// behind the first `skip`. An array holds at least the first `least` fields, and
/// nothing behind the last one.
pub open spec fn fields_of(json: JsonView, skip: nat, names: Seq<Seq<char>>, least: nat) -> Option<
    Fields,
> {
    match json {
        JsonView::Object(fields) => Some(fields),
        JsonView::Array(items) => if skip + least <= items.len() <= skip + names.len() {
            Some(positional(names, items.skip(skip as int)))
        } else {
            None
        },
        _ => None,
    }
}

/// The tag of a variant with data.
pub open spec fn tag_of(json: JsonView, key: Seq<char>) -> Option<JsonView> {
    match json {
        JsonView::Object(fields) => lookup(fields, key),
        JsonView::Array(items) => if items.len() > 0 {
            Some(items[0])
        } else {
            None
        },
        _ => None,
    }
}

/// The name of a tag. In nested content a tag may also be the position of the
/// variant.
pub open spec fn tag_name(json: JsonView, key: Seq<char>, names: Seq<Seq<char>>, nested: bool) -> Option<
    Seq<char>,
> {
    match tag_of(json, key) {
        Some(JsonView::Text(name)) => Some(name),
        Some(JsonView::Unsigned(index)) => if nested && index < names.len() {
            Some(names[index as int])
        } else {
            None
        },
        _ => None,
    }
}

/// Whether a value stands for no data. In nested content an empty object does too.
pub open spec fn is_unit(json: JsonView, nested: bool) -> bool {
    json is Null || (nested && json == JsonView::Object(Map::empty()))
}

/// The name of a variant without data.
pub open spec fn variant_name(json: JsonView, nested: bool) -> Option<Seq<char>> {
    match json {
        JsonView::Text(name) => Some(name),
        JsonView::Object(fields) => {
            let name = fields.dom().choose();
            if fields == Map::empty().insert(name, fields[name]) && is_unit(fields[name], nested) {
                Some(name)
            } else {
                None
            }
        },
        _ => None,
    }
}

/// The name of a variant without data at a key.
pub open spec fn variant_at(fields: Fields, key: Seq<char>, nested: bool) -> Option<Seq<char>> {
    match lookup(fields, key) {
        Some(json) => variant_name(json, nested),
        None => None,
    }
}

/// The name of a variant without data at a key, or another one where it is missing.
pub open spec fn variant_or(fields: Fields, key: Seq<char>, nested: bool, other: Seq<char>) -> Option<
    Seq<char>,
> {
    match lookup(fields, key) {
        Some(json) => variant_name(json, nested),
        None => Some(other),
    }
}

/// The texts of names.
pub open spec fn names_of(names: Seq<&str>) -> Seq<Seq<char>> {
    names.map_values(|name: &str| name@)
}

/// The fields of a structure, borrowed where they are an object.
pub(crate) enum Shaped<'a> {
    /// The entries of an object.
    Entries(&'a JsonMap),
    /// The items of an array by their names.
    Items(JsonMap),
}

impl<'a> View for Shaped<'a> {
    type V = Fields;

    closed spec fn view(&self) -> Fields {
        match self {
            Shaped::Entries(map) => map@,
            Shaped::Items(map) => map@,
        }
    }
}

impl<'a> Shaped<'a> {
    /// The fields.
    pub(crate) fn map(&self) -> (map: &JsonMap)
        ensures
            map@ == self@,
    {
        match self {
            Shaped::Entries(map) => map,
            Shaped::Items(map) => map,
        }
    }
}

/// The fields of a structure.
pub(crate) fn shape<'a>(json: &'a Json, skip: usize, names: &[&str], least: usize) -> (shaped: Option<
    Shaped<'a>,
>)
    requires
        least <= names@.len(),
        skip <= 1,
    ensures
        match shaped {
            Some(found) => fields_of(json@, skip as nat, names_of(names@), least as nat) == Some(
                found@,
            ),
            None => fields_of(json@, skip as nat, names_of(names@), least as nat) is None,
        },
{
    match json {
        Json::Object(map) => Some(Shaped::Entries(map)),
        Json::Array(items) => {
            let ghost all = json_views(items@);
            assert(json@->Array_0 =~= all);
            if items.len() < skip || items.len() - skip < least || items.len() - skip
                > names.len() {
                return None;
            }
            let ghost named = Seq::new(
                (items@.len() - skip) as nat,
                |i: int| (names_of(names@)[i], all.skip(skip as int)[i]),
            );
            let mut map = JsonMap::new();
            let mut i: usize = 0;
            assert(assoc_map(named.take(0)) =~= Map::empty());
            while i < items.len() - skip
                invariant
                    skip <= items@.len(),
                    i <= items@.len() - skip <= names@.len(),
                    all == json_views(items@),
                    named == Seq::new(
                        (items@.len() - skip) as nat,
                        |i: int| (names_of(names@)[i], all.skip(skip as int)[i]),
                    ),
                    map@ == assoc_map(named.take(i as int)),
                decreases items@.len() - skip - i,
            {
                proof {
                    assert(named.take(i + 1).drop_last() =~= named.take(i as int));
                    assert(named.take(i + 1).last() == (names@[i as int]@, items@[skip + i]@));
                }
                map.insert(names[i].to_owned(), items[skip + i].clone());
                i += 1;
            }
            assert(named.take(named.len() as int) =~= named);
            assert(named =~= Seq::new(
                all.skip(skip as int).len(),
                |i: int| (names_of(names@)[i], all.skip(skip as int)[i]),
            ));
            Some(Shaped::Items(map))
        },
        _ => None,
    }
}

/// The name of a tag.
pub(crate) fn get_tag<'a>(json: &'a Json, key: &str, names: &'a [&'a str], nested: bool) -> (name: Option<
    &'a str,
>)
    ensures
        match name {
            Some(found) => tag_name(json@, key@, names_of(names@), nested) == Some(found@),
            None => tag_name(json@, key@, names_of(names@), nested) is None,
        },
{
    let tag = match json {
        Json::Object(map) => map.get(key),
        Json::Array(items) => {
            assert(json@->Array_0 =~= json_views(items@));
            if items.len() > 0 {
                Some(&items[0])
            } else {
                None
            }
        },
        _ => None,
    };
    match tag {
        Some(Json::Text(name)) => Some(name.as_str()),
        Some(Json::Unsigned(index)) => {
            if nested && *index < names.len() as u64 {
                Some(names[*index as usize])
            } else {
                None
            }
        },
        _ => None,
    }
}

/// Whether a value stands for no data.
fn is_empty_value(json: &Json, nested: bool) -> (result: bool)
    ensures
        result == is_unit(json@, nested),
{
    match json {
        Json::Null => true,
        Json::Object(map) => nested && map.is_empty(),
        _ => false,
    }
}

/// An object with a single key is found out by any of its keys.
proof fn lemma_single_key(fields: Fields, name: Seq<char>)
    requires
        fields.contains_key(name),
    ensures
        (fields == Map::empty().insert(fields.dom().choose(), fields[fields.dom().choose()])) <==> (
        forall|key: Seq<char>| #[trigger] fields.contains_key(key) ==> key == name),
        (forall|key: Seq<char>| #[trigger] fields.contains_key(key) ==> key == name)
            ==> fields.dom().choose() == name,
{
    let chosen = fields.dom().choose();
    assert(fields.dom().contains(name));
    assert(fields.dom().contains(chosen));
    let single = Map::<Seq<char>, JsonView>::empty().insert(chosen, fields[chosen]);
    if forall|key: Seq<char>| #[trigger] fields.contains_key(key) ==> key == name {
        assert(fields.contains_key(chosen));
        assert(fields =~= single);
    }
    if fields == single {
        assert forall|key: Seq<char>| #[trigger] fields.contains_key(key) implies key == name by {
            assert(single.contains_key(key));
            assert(single.contains_key(name));
        }
    }
}

/// The name of a variant without data.
pub(crate) fn get_variant<'a>(json: &'a Json, nested: bool) -> (name: Option<&'a str>)
    ensures
        match name {
            Some(found) => variant_name(json@, nested) == Some(found@),
            None => variant_name(json@, nested) is None,
        },
{
    match json {
        Json::Text(name) => Some(name.as_str()),
        Json::Object(map) => {
            if map.len() == 0 {
                proof {
                    let name = map@.dom().choose();
                    assert(Map::<Seq<char>, JsonView>::empty().insert(name, map@[name]).contains_key(
                        name,
                    ));
                }
                return None;
            }
            let name = map.key_at(0);
            proof {
                map.lemma_entries();
                lemma_assoc_present(map.spec_pairs(), 0);
                lemma_single_key(map@, name@);
            }
            let mut i: usize = 0;
            while i < map.len()
                invariant
                    i <= map.spec_len(),
                    map@.contains_key(name@),
                    (map@ == Map::empty().insert(
                        map@.dom().choose(),
                        map@[map@.dom().choose()],
                    )) <==> (forall|key: Seq<char>| #[trigger]
                        map@.contains_key(key) ==> key == name@),
                    *json == Json::Object(*map),
                    forall|j: int| 0 <= j < i ==> #[trigger] map.spec_key(j) == name@,
                decreases map.spec_len() - i,
            {
                if !same_text(map.key_at(i), name) {
                    proof {
                        map.lemma_entries();
                        lemma_assoc_present(map.spec_pairs(), i as int);
                        assert(map@.contains_key(map.spec_key(i as int)));
                    }
                    return None;
                }
                i += 1;
            }
            proof {
                assert forall|key: Seq<char>| #[trigger] map@.contains_key(key) implies key
                    == name@ by {
                    map.lemma_entries();
                    crate::assoc::lemma_assoc_source(map.spec_pairs(), key);
                    let j = choose|j: int|
                        0 <= j < map.spec_pairs().len() && (#[trigger] map.spec_pairs()[j]).0
                            == key;
                    assert(map.spec_key(j) == key);
                }
                lemma_single_key(map@, name@);
            }
            match map.get(name) {
                Some(value) => {
                    if is_empty_value(value, nested) {
                        Some(name)
                    } else {
                        None
                    }
                },
                None => None,
            }
        },
        _ => None,
    }
}

} // verus!
