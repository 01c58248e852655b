//! JSON values as plain data, with an object model that ignores key order.
use vstd::prelude::*;
use vstd::std_specs::cmp::PartialEqSpecImpl;
use crate::assoc::{
    assoc_map, lemma_assoc_absent, lemma_assoc_last, lemma_assoc_present,
    lemma_assoc_source, lemma_assoc_update,
};
use crate::text::{byte_len, same_text};

verus! {

/// What a JSON value means. An object is a finite map from keys to values.
#[verifier::ext_equal]
pub enum JsonView {
    Null,
    Bool(bool),
    Unsigned(u64),
    Negative(i64),
    Decimal(Seq<char>),
    Text(Seq<char>),
    Array(Seq<JsonView>),
    Object(Map<Seq<char>, JsonView>),
}

/// Whether a decimal number is zero, of either sign.
pub open spec fn is_zero(text: Seq<char>) -> bool {
    text == "0.0"@ || text == "-0.0"@
}

/// Whether two values are equal. Numbers are compared by value: the two zeros of
/// decimal numbers are equal, though they are written differently.
pub open spec fn alike(left: JsonView, right: JsonView) -> bool
    decreases left,
{
    match (left, right) {
        (JsonView::Decimal(a), JsonView::Decimal(b)) => a == b || (is_zero(a) && is_zero(b)),
        (JsonView::Array(a), JsonView::Array(b)) => a.len() == b.len() && forall|i: int|
            0 <= i < a.len() ==> alike(#[trigger] a[i], b[i]),
        (JsonView::Object(a), JsonView::Object(b)) => (forall|key: Seq<char>|
            a.contains_key(key) <==> #[trigger] b.contains_key(key)) && forall|key: Seq<char>|
            a.contains_key(key) ==> alike(#[trigger] a[key], b[key]),
        _ => left == right,
    }
}

/// Whether two objects are equal.
pub open spec fn maps_alike(
    left: Map<Seq<char>, JsonView>,
    right: Map<Seq<char>, JsonView>,
) -> bool {
    alike(JsonView::Object(left), JsonView::Object(right))
}

/// Objects that differ at a key are not equal.
proof fn lemma_differ_at(
    left: Map<Seq<char>, JsonView>,
    right: Map<Seq<char>, JsonView>,
    key: Seq<char>,
)
    requires
        left.contains_key(key) || right.contains_key(key),
        !(left.contains_key(key) && right.contains_key(key) && alike(left[key], right[key])),
    ensures
        !maps_alike(left, right),
{
    if maps_alike(left, right) {
        let (a, b) = (JsonView::Object(left), JsonView::Object(right));
        assert(a->Object_0.contains_key(key) <==> b->Object_0.contains_key(key));
        assert(alike(a->Object_0[key], b->Object_0[key]));
    }
}

/// A JSON value.
#[derive(Debug, Eq)]
pub enum Json {
    /// `null`.
    Null,
    /// `true` or `false`.
    Bool(bool),
    /// An integer that is not negative.
    Unsigned(u64),
    /// A negative integer.
    Negative(i64),
    /// Any other number, in its shortest decimal text.
    Decimal(String),
    /// A string.
    Text(String),
    /// An array.
    Array(Vec<Json>),
    /// An object.
    Object(JsonMap),
}

/// A JSON object. A later entry for a key takes the place of an earlier one.
#[derive(Debug, Eq)]
pub struct JsonMap {
    entries: Vec<(String, Json)>,
}

impl View for Json {
    type V = JsonView;

    open spec fn view(&self) -> JsonView {
        json_view(*self)
    }
}

impl View for JsonMap {
    type V = Map<Seq<char>, JsonView>;

    open spec fn view(&self) -> Map<Seq<char>, JsonView> {
        map_view(*self)
    }
}

/// The meaning of a value.
pub open spec fn json_view(json: Json) -> JsonView
    decreases json,
{
    match json {
        Json::Null => JsonView::Null,
        Json::Bool(value) => JsonView::Bool(value),
        Json::Unsigned(number) => JsonView::Unsigned(number),
        Json::Negative(number) => JsonView::Negative(number),
        Json::Decimal(text) => JsonView::Decimal(text@),
        Json::Text(text) => JsonView::Text(text@),
        Json::Array(items) => JsonView::Array(
            Seq::new(
                items@.len(),
                |i: int|
                    if 0 <= i < items@.len() {
                        json_view(items@[i])
                    } else {
                        JsonView::Null
                    },
            ),
        ),
        Json::Object(map) => JsonView::Object(map_view(map)),
    }
}

/// The meaning of an object.
pub closed spec fn map_view(map: JsonMap) -> Map<Seq<char>, JsonView>
    decreases map,
{
    entries_view(map, map.entries@.len())
}

/// The meaning of the first `count` entries of an object.
spec fn entries_view(map: JsonMap, count: nat) -> Map<Seq<char>, JsonView>
    decreases map, count,
{
    if count == 0 || count > map.entries@.len() {
        Map::empty()
    } else {
        entries_view(map, (count - 1) as nat).insert(
            map.entries@[count - 1].0@,
            json_view(map.entries@[count - 1].1),
        )
    }
}

/// The meanings of values in a sequence.
pub open spec fn json_views(items: Seq<Json>) -> Seq<JsonView> {
    items.map_values(|item: Json| item@)
}

/// The keys and values that entries stand for.
spec fn pairs(entries: Seq<(String, Json)>) -> Seq<(Seq<char>, JsonView)> {
    entries.map_values(|entry: (String, Json)| (entry.0@, entry.1@))
}

proof fn lemma_entries_view(map: JsonMap, count: nat)
    requires
        count <= map.entries@.len(),
    ensures
        entries_view(map, count) == assoc_map(pairs(map.entries@.take(count as int))),
    decreases count,
{
    if count > 0 {
        lemma_entries_view(map, (count - 1) as nat);
        let now = pairs(map.entries@.take(count as int));
        assert(now.drop_last() =~= pairs(map.entries@.take(count - 1)));
        assert(now.last() == (map.entries@[count - 1].0@, map.entries@[count - 1].1@));
    }
}

proof fn lemma_map_view(map: JsonMap)
    ensures
        map@ == assoc_map(pairs(map.entries@)),
{
    lemma_entries_view(map, map.entries@.len());
    assert(map.entries@.take(map.entries@.len() as int) =~= map.entries@);
}

impl JsonMap {
    /// An empty object.
    pub fn new() -> (map: JsonMap)
        ensures
            map@ == Map::<Seq<char>, JsonView>::empty(),
            map_room(map) == 2,
    {
        let map = JsonMap { entries: Vec::new() };
        proof {
            lemma_map_view(map);
            lemma_map_room(map);
        }
        map
    }

    /// How many entries there are.
    pub closed spec fn spec_len(&self) -> nat {
        self.entries@.len()
    }

    /// The key of an entry.
    pub closed spec fn spec_key(&self, index: int) -> Seq<char> {
        self.entries@[index].0@
    }

    /// The value of an entry.
    pub closed spec fn spec_value(&self, index: int) -> JsonView {
        self.entries@[index].1@
    }

    /// The entries as pairs.
    pub open spec fn spec_pairs(&self) -> Seq<(Seq<char>, JsonView)> {
        Seq::new(self.spec_len(), |i: int| (self.spec_key(i), self.spec_value(i)))
    }

    /// The object holds exactly what its entries say.
    pub proof fn lemma_entries(&self)
        ensures
            self@ == assoc_map(self.spec_pairs()),
    {
        lemma_map_view(*self);
        assert(self.spec_pairs() =~= pairs(self.entries@));
    }

    /// The number of entries.
    pub fn len(&self) -> (count: usize)
        ensures
            count == self.spec_len(),
            count == 0 <==> self@ == Map::<Seq<char>, JsonView>::empty(),
    {
        proof {
            lemma_map_view(*self);
            if self.entries@.len() > 0 {
                let last = pairs(self.entries@).last();
                assert(self@.contains_key(last.0));
            }
        }
        self.entries.len()
    }

    /// Whether the object has no entries.
    pub fn is_empty(&self) -> (empty: bool)
        ensures
            empty == (self@ == Map::<Seq<char>, JsonView>::empty()),
    {
        self.len() == 0
    }

    /// The key of an entry.
    pub fn key_at(&self, index: usize) -> (key: &str)
        requires
            index < self.spec_len(),
        ensures
            key@ == self.spec_key(index as int),
    {
        self.entries[index].0.as_str()
    }

    /// The value of an entry.
    pub fn value_at(&self, index: usize) -> (value: &Json)
        requires
            index < self.spec_len(),
        ensures
            value@ == self.spec_value(index as int),
            decreases_to!(*self => *value),
    {
        &self.entries[index].1
    }

    /// The index of the last entry with a key.
    fn position(&self, key: &str) -> (index: Option<usize>)
        ensures
            match index {
                Some(i) => i < self.entries@.len() && self.entries@[i as int].0@ == key@ && forall|
                    j: int,
                |
                    i < j < self.entries@.len() ==> (#[trigger] self.entries@[j]).0@ != key@,
                None => forall|j: int|
                    0 <= j < self.entries@.len() ==> (#[trigger] self.entries@[j]).0@ != key@,
            },
    {
        let mut i: usize = self.entries.len();
        while i > 0
            invariant
                i <= self.entries@.len(),
                forall|j: int|
                    i <= j < self.entries@.len() ==> (#[trigger] self.entries@[j]).0@ != key@,
            decreases i,
        {
            i -= 1;
            if same_text(self.entries[i].0.as_str(), key) {
                return Some(i);
            }
        }
        None
    }

    /// The value of a key.
    pub fn get(&self, key: &str) -> (value: Option<&Json>)
        ensures
            match value {
                Some(found) => self@.contains_key(key@) && found@ == self@[key@] && decreases_to!(
                    *self => *found
                ),
                None => !self@.contains_key(key@),
            },
    {
        proof {
            lemma_map_view(*self);
        }
        match self.position(key) {
            Some(i) => {
                proof {
                    let s = pairs(self.entries@);
                    assert forall|j: int| i < j < s.len() implies (#[trigger] s[j]).0 != s[i as int].0 by {
                        assert(self.entries@[j].0@ != key@);
                    }
                    lemma_assoc_last(s, i as int);
                }
                Some(&self.entries[i].1)
            },
            None => {
                proof {
                    let s = pairs(self.entries@);
                    assert forall|j: int| 0 <= j < s.len() implies (#[trigger] s[j]).0 != key@ by {
                        assert(self.entries@[j].0@ != key@);
                    }
                    lemma_assoc_absent(s, key@);
                }
                None
            },
        }
    }

    /// Whether a key has a value.
    pub fn contains_key(&self, key: &str) -> (present: bool)
        ensures
            present == self@.contains_key(key@),
    {
        self.get(key).is_some()
    }

    /// Gives a key a value, in place of the value it had.
    pub fn insert(&mut self, key: String, value: Json)
        ensures
            final(self)@ == old(self)@.insert(key@, value@),
            map_room(*final(self)) <= map_room(*old(self)) + entry_room(key@, json_room(value)),
    {
        let ghost before = pairs(self.entries@);
        let ghost sizes = rooms(self.entries@);
        let ghost size = entry_room(key@, json_room(value));
        proof {
            lemma_map_view(*self);
            lemma_map_room(*self);
        }
        match self.position(key.as_str()) {
            Some(i) => {
                proof {
                    assert forall|j: int| i < j < before.len() implies (#[trigger] before[j]).0
                        != before[i as int].0 by {
                        assert(self.entries@[j].0@ != key@);
                    }
                    lemma_assoc_update(before, i as int, value@);
                }
                let ghost changed = before.update(i as int, (key@, value@));
                self.entries[i] = (key, value);
                proof {
                    lemma_map_view(*self);
                    assert(pairs(self.entries@) =~= changed);
                    lemma_map_room(*self);
                    assert(rooms(self.entries@) =~= sizes.update(i as int, size));
                    lemma_total_update(sizes, i as int, size);
                }
            },
            None => {
                let ghost longer = before.push((key@, value@));
                self.entries.push((key, value));
                proof {
                    assert(longer.drop_last() =~= before);
                    lemma_map_view(*self);
                    assert(pairs(self.entries@) =~= longer);
                    lemma_map_room(*self);
                    assert(rooms(self.entries@) =~= sizes.push(size));
                    assert(sizes.push(size).drop_last() =~= sizes);
                }
            },
        }
    }

    /// Whether two objects are equal.
    pub fn same(&self, other: &JsonMap) -> (result: bool)
        ensures
            result == maps_alike(self@, other@),
        decreases self,
    {
        proof {
            self.lemma_entries();
            other.lemma_entries();
        }
        let mut i: usize = 0;
        while i < self.entries.len()
            invariant
                i <= self.entries@.len(),
                forall|j: int|
                    0 <= j < i ==> other@.contains_key(#[trigger] self.spec_key(j)) && alike(
                        self@[self.spec_key(j)],
                        other@[self.spec_key(j)],
                    ),
            decreases self.entries@.len() - i,
        {
            let key = self.entries[i].0.as_str();
            let mine = self.get(key);
            let theirs = other.get(key);
            proof {
                self.lemma_entries();
                lemma_assoc_present(self.spec_pairs(), i as int);
                assert(self@.contains_key(key@));
            }
            match (mine, theirs) {
                (Some(mine), Some(theirs)) => {
                    if !mine.same(theirs) {
                        proof {
                            lemma_differ_at(self@, other@, key@);
                        }
                        return false;
                    }
                },
                _ => {
                    proof {
                        lemma_differ_at(self@, other@, key@);
                    }
                    return false;
                },
            }
            i += 1;
        }
        let mut k: usize = 0;
        while k < other.entries.len()
            invariant
                k <= other.entries@.len(),
                forall|j: int| 0 <= j < k ==> self@.contains_key(#[trigger] other.spec_key(j)),
            decreases other.entries@.len() - k,
        {
            if !self.contains_key(other.entries[k].0.as_str()) {
                proof {
                    other.lemma_entries();
                    lemma_assoc_present(other.spec_pairs(), k as int);
                    lemma_differ_at(self@, other@, other.entries@[k as int].0@);
                }
                return false;
            }
            k += 1;
        }
        proof {
            assert forall|key: Seq<char>| #[trigger] self@.contains_key(key) implies other@.contains_key(
                key,
            ) && alike(self@[key], other@[key]) by {
                lemma_assoc_source(self.spec_pairs(), key);
                let j = choose|j: int|
                    0 <= j < self.spec_pairs().len() && (#[trigger] self.spec_pairs()[j]).0 == key;
                assert(self.spec_key(j) == key);
            }
            assert forall|key: Seq<char>| #[trigger] other@.contains_key(key) implies self@.contains_key(
                key,
            ) by {
                lemma_assoc_source(other.spec_pairs(), key);
                let j = choose|j: int|
                    0 <= j < other.spec_pairs().len() && (#[trigger] other.spec_pairs()[j]).0 == key;
                assert(other.spec_key(j) == key);
            }
        }
        true
    }

    /// A copy.
    pub fn copy(&self) -> (copied: JsonMap)
        ensures
            copied@ == self@,
        decreases self,
    {
        let mut entries: Vec<(String, Json)> = Vec::new();
        let mut i: usize = 0;
        while i < self.entries.len()
            invariant
                i <= self.entries@.len(),
                pairs(entries@) == pairs(self.entries@.take(i as int)),
            decreases self.entries@.len() - i,
        {
            let entry = &self.entries[i];
            let value = entry.1.copy();
            entries.push((entry.0.clone(), value));
            proof {
                assert(pairs(self.entries@.take(i + 1)) =~= pairs(self.entries@.take(i as int)).push(
                    (entry.0@, entry.1@),
                ));
                assert(pairs(entries@) =~= pairs(entries@.drop_last()).push((entry.0@, value@)));
                assert(entries@.drop_last() =~= entries@.take(i as int));
            }
            i += 1;
        }
        assert(self.entries@.take(self.entries@.len() as int) =~= self.entries@);
        let copied = JsonMap { entries };
        proof {
            lemma_map_view(*self);
            lemma_map_view(copied);
        }
        copied
    }
}

/// Whether a decimal number is zero, of either sign.
fn zero(text: &str) -> (result: bool)
    ensures
        result == is_zero(text@),
{
    same_text(text, "0.0") || same_text(text, "-0.0")
}

impl Json {
    /// Whether two values are equal.
    pub fn same(&self, other: &Json) -> (result: bool)
        ensures
            result == alike(self@, other@),
        decreases self,
    {
        match (self, other) {
            (Json::Null, Json::Null) => true,
            (Json::Bool(a), Json::Bool(b)) => *a == *b,
            (Json::Unsigned(a), Json::Unsigned(b)) => *a == *b,
            (Json::Negative(a), Json::Negative(b)) => *a == *b,
            (Json::Decimal(a), Json::Decimal(b)) => same_text(a.as_str(), b.as_str()) || (zero(
                a.as_str(),
            ) && zero(b.as_str())),
            (Json::Text(a), Json::Text(b)) => same_text(a.as_str(), b.as_str()),
            (Json::Array(a), Json::Array(b)) => {
                proof {
                    assert(self@->Array_0.len() == a@.len());
                    assert(other@->Array_0.len() == b@.len());
                }
                if a.len() != b.len() {
                    return false;
                }
                let mut i: usize = 0;
                while i < a.len()
                    invariant
                        i <= a@.len(),
                        a@.len() == b@.len(),
                        *self == Json::Array(*a),
                        *other == Json::Array(*b),
                        forall|j: int| 0 <= j < i ==> alike((#[trigger] a@[j])@, b@[j]@),
                    decreases a@.len() - i,
                {
                    if !a[i].same(&b[i]) {
                        proof {
                            assert(self@->Array_0[i as int] == a@[i as int]@);
                            assert(other@->Array_0[i as int] == b@[i as int]@);
                        }
                        return false;
                    }
                    i += 1;
                }
                proof {
                    assert forall|j: int| 0 <= j < self@->Array_0.len() implies alike(
                        #[trigger] self@->Array_0[j],
                        other@->Array_0[j],
                    ) by {
                        assert(self@->Array_0[j] == a@[j]@);
                        assert(other@->Array_0[j] == b@[j]@);
                    }
                }
                true
            },
            (Json::Object(a), Json::Object(b)) => a.same(b),
            _ => false,
        }
    }

    /// A copy.
    pub fn copy(&self) -> (copied: Json)
        ensures
            copied@ == self@,
        decreases self,
    {
        match self {
            Json::Null => Json::Null,
            Json::Bool(value) => Json::Bool(*value),
            Json::Unsigned(number) => Json::Unsigned(*number),
            Json::Negative(number) => Json::Negative(*number),
            Json::Decimal(text) => Json::Decimal(text.clone()),
            Json::Text(text) => Json::Text(text.clone()),
            Json::Array(items) => {
                let mut copies: Vec<Json> = Vec::new();
                let mut i: usize = 0;
                while i < items.len()
                    invariant
                        i <= items@.len(),
                        *self == Json::Array(*items),
                        copies@.len() == i,
                        forall|j: int| 0 <= j < i ==> (#[trigger] copies@[j])@ == items@[j]@,
                    decreases items@.len() - i,
                {
                    let item = &items[i];
                    assert(decreases_to!(*self => self->Array_0));
                    assert(decreases_to!(*items => *item));
                    copies.push(item.copy());
                    i += 1;
                }
                let copied = Json::Array(copies);
                assert(copied@->Array_0 =~= self@->Array_0);
                copied
            },
            Json::Object(map) => Json::Object(map.copy()),
        }
    }

    /// The value of a key, of an object only.
    pub fn get(&self, key: &str) -> (value: Option<&Json>)
        ensures
            match value {
                Some(found) => field(self@, key@) == Some(found@),
                None => field(self@, key@) is None,
            },
    {
        match self {
            Json::Object(map) => map.get(key),
            _ => None,
        }
    }

    /// The text of a string.
    pub fn as_str(&self) -> (text: Option<&str>)
        ensures
            match text {
                Some(found) => as_text(self@) == Some(found@),
                None => as_text(self@) is None,
            },
    {
        match self {
            Json::Text(text) => Some(text.as_str()),
            _ => None,
        }
    }

    /// The value of an integer that is not negative.
    pub fn as_u64(&self) -> (number: Option<u64>)
        ensures
            number == as_unsigned(self@),
    {
        match self {
            Json::Unsigned(number) => Some(*number),
            _ => None,
        }
    }

    /// The entries of an object.
    pub fn as_object(&self) -> (map: Option<&JsonMap>)
        ensures
            match map {
                Some(found) => self@ == JsonView::Object(found@),
                None => !(self@ is Object),
            },
    {
        match self {
            Json::Object(map) => Some(map),
            _ => None,
        }
    }

    /// The items of an array.
    pub fn as_array(&self) -> (items: Option<&Vec<Json>>)
        ensures
            match items {
                Some(found) => self@ == JsonView::Array(json_views(found@)),
                None => !(self@ is Array),
            },
    {
        match self {
            Json::Array(items) => {
                assert(self@->Array_0 =~= json_views(items@));
                Some(items)
            },
            _ => None,
        }
    }

    /// Whether this is `null`.
    pub fn is_null(&self) -> (result: bool)
        ensures
            result == (self@ == JsonView::Null),
    {
        matches!(self, Json::Null)
    }
}

impl PartialEq for Json {
    fn eq(&self, other: &Json) -> (result: bool) {
        self.same(other)
    }
}

impl PartialEqSpecImpl for Json {
    open spec fn obeys_eq_spec() -> bool {
        true
    }

    open spec fn eq_spec(&self, other: &Json) -> bool {
        alike(self@, other@)
    }
}

impl PartialEq for JsonMap {
    fn eq(&self, other: &JsonMap) -> (result: bool) {
        self.same(other)
    }
}

impl PartialEqSpecImpl for JsonMap {
    open spec fn obeys_eq_spec() -> bool {
        true
    }

    open spec fn eq_spec(&self, other: &JsonMap) -> bool {
        maps_alike(self@, other@)
    }
}

impl Clone for Json {
    fn clone(&self) -> (copied: Json)
        ensures
            copied@ == self@,
    {
        self.copy()
    }
}

impl Clone for JsonMap {
    fn clone(&self) -> (copied: JsonMap)
        ensures
            copied@ == self@,
    {
        self.copy()
    }
}

/// The value of a key, of an object only.
pub open spec fn field(json: JsonView, key: Seq<char>) -> Option<JsonView> {
    match json {
        JsonView::Object(map) => lookup(map, key),
        _ => None,
    }
}

/// The value of a key, if it has one.
pub open spec fn lookup(map: Map<Seq<char>, JsonView>, key: Seq<char>) -> Option<JsonView> {
    if map.contains_key(key) {
        Some(map[key])
    } else {
        None
    }
}

/// The text of a string.
pub open spec fn as_text(json: JsonView) -> Option<Seq<char>> {
    match json {
        JsonView::Text(text) => Some(text),
        _ => None,
    }
}

/// The value of an integer that is not negative.
pub open spec fn as_unsigned(json: JsonView) -> Option<u64> {
    match json {
        JsonView::Unsigned(number) => Some(number),
        _ => None,
    }
}

/// Whether a value can be the root of a JSON Schema: an object or a boolean.
pub open spec fn schema_root(json: JsonView) -> bool {
    json is Object || json is Bool
}

/// Room enough for a character inside a JSON string, in bytes.
pub open spec fn char_room(c: char) -> nat {
    if ' ' <= c <= '~' && c != '"' && c != '\\' {
        1
    } else {
        6
    }
}

/// Room enough for the characters of a JSON string, in bytes.
pub open spec fn text_room(text: Seq<char>) -> nat
    decreases text.len(),
{
    if text.len() == 0 {
        0
    } else {
        text_room(text.drop_last()) + char_room(text.last())
    }
}

/// A sum of sizes.
pub open spec fn total(sizes: Seq<nat>) -> nat
    decreases sizes.len(),
{
    if sizes.len() == 0 {
        0
    } else {
        total(sizes.drop_last()) + sizes.last()
    }
}

/// Room enough for the compact text of a value, in bytes.
pub open spec fn json_room(json: Json) -> nat
    decreases json,
{
    match json {
        Json::Null => 4,
        Json::Bool(_) => 5,
        Json::Unsigned(_) => 20,
        Json::Negative(_) => 20,
        Json::Decimal(_) => 32,
        Json::Text(text) => text_room(text@) + 2,
        Json::Array(items) => 2 + total(
            Seq::new(
                items@.len(),
                |i: int|
                    if 0 <= i < items@.len() {
                        json_room(items@[i]) + 1
                    } else {
                        0
                    },
            ),
        ),
        Json::Object(map) => map_room(map),
    }
}

/// Room enough for an entry of an object, with its punctuation.
pub open spec fn entry_room(key: Seq<char>, value: nat) -> nat {
    text_room(key) + 4 + value
}

/// Room enough for the compact text of an object, in bytes.
pub closed spec fn map_room(map: JsonMap) -> nat
    decreases map,
{
    2 + entries_room(map, map.entries@.len())
}

/// Room enough for the first `count` entries of an object.
spec fn entries_room(map: JsonMap, count: nat) -> nat
    decreases map, count,
{
    if count == 0 || count > map.entries@.len() {
        0
    } else {
        entries_room(map, (count - 1) as nat) + entry_room(
            map.entries@[count - 1].0@,
            json_room(map.entries@[count - 1].1),
        )
    }
}

spec fn rooms(entries: Seq<(String, Json)>) -> Seq<nat> {
    entries.map_values(|entry: (String, Json)| entry_room(entry.0@, json_room(entry.1)))
}

proof fn lemma_entries_room(map: JsonMap, count: nat)
    requires
        count <= map.entries@.len(),
    ensures
        entries_room(map, count) == total(rooms(map.entries@.take(count as int))),
    decreases count,
{
    if count > 0 {
        lemma_entries_room(map, (count - 1) as nat);
        let now = rooms(map.entries@.take(count as int));
        assert(now.drop_last() =~= rooms(map.entries@.take(count - 1)));
    }
}

proof fn lemma_map_room(map: JsonMap)
    ensures
        map_room(map) == 2 + total(rooms(map.entries@)),
{
    lemma_entries_room(map, map.entries@.len());
    assert(map.entries@.take(map.entries@.len() as int) =~= map.entries@);
}

proof fn lemma_total_update(sizes: Seq<nat>, i: int, size: nat)
    requires
        0 <= i < sizes.len(),
    ensures
        total(sizes.update(i, size)) + sizes[i] == total(sizes) + size,
    decreases sizes.len(),
{
    let changed = sizes.update(i, size);
    if i == sizes.len() - 1 {
        assert(changed.drop_last() =~= sizes.drop_last());
    } else {
        lemma_total_update(sizes.drop_last(), i, size);
        assert(changed.drop_last() =~= sizes.drop_last().update(i, size));
    }
}

/// Whether a value is read back as it was written: its numbers are integers and
/// its nesting is below `depth` levels.
pub open spec fn plain(json: JsonView, depth: nat) -> bool
    decreases json,
{
    match json {
        JsonView::Null => true,
        JsonView::Bool(_) => true,
        JsonView::Unsigned(_) => true,
        JsonView::Negative(number) => number < 0,
        JsonView::Decimal(_) => false,
        JsonView::Text(_) => true,
        JsonView::Array(items) => depth > 0 && forall|i: int|
            0 <= i < items.len() ==> plain(#[trigger] items[i], (depth - 1) as nat),
        JsonView::Object(map) => depth > 0 && forall|key: Seq<char>|
            map.contains_key(key) ==> plain(#[trigger] map[key], (depth - 1) as nat),
    }
}

/// What `serde_json` reads in a text: a value, or the message of its error.
pub uninterp spec fn parsed_json(text: Seq<char>) -> Result<JsonView, Seq<char>>;

/// Whether a text reads as a value.
pub open spec fn reads_as(text: Seq<char>, json: JsonView) -> bool {
    parsed_json(text) == Ok::<JsonView, Seq<char>>(json)
}

/// The compact text that `serde_json` writes of a value.
pub uninterp spec fn json_text(json: JsonView) -> Seq<char>;

/// `serde_json::Value`, which holds what is read or written.
#[verifier::external_type_specification]
#[verifier::external_body]
pub struct ExValue(serde_json::Value);

/// A `serde_json::Value` as plain data, form by form.
#[verifier::external_body]
fn json_from_value(value: serde_json::Value) -> Json {
    match value {
        serde_json::Value::Null => Json::Null,
        serde_json::Value::Bool(value) => Json::Bool(value),
        serde_json::Value::Number(number) => match (number.as_u64(), number.as_i64()) {
            (Some(unsigned), _) => Json::Unsigned(unsigned),
            (None, Some(negative)) => Json::Negative(negative),
            (None, None) => Json::Decimal(number.to_string()),
        },
        serde_json::Value::String(text) => Json::Text(text),
        serde_json::Value::Array(items) => Json::Array(items.into_iter().map(json_from_value).collect()),
        serde_json::Value::Object(map) => Json::Object(JsonMap {
            entries: map.into_iter().map(|(key, value)| (key, json_from_value(value))).collect(),
        }),
    }
}

/// Plain data as a `serde_json::Value`, form by form. A decimal whose text is no
/// JSON number becomes `null`.
#[verifier::external_body]
fn value_from_json(json: &Json) -> serde_json::Value {
    match json {
        Json::Null => serde_json::Value::Null,
        Json::Bool(value) => (*value).into(),
        Json::Unsigned(number) => (*number).into(),
        Json::Negative(number) => (*number).into(),
        Json::Decimal(text) => text.parse().map_or(serde_json::Value::Null, serde_json::Value::Number),
        Json::Text(text) => text.as_str().into(),
        Json::Array(items) => serde_json::Value::Array(items.iter().map(value_from_json).collect()),
        Json::Object(map) => serde_json::Value::Object(
            map.entries.iter().map(|(key, value)| (key.clone(), value_from_json(value))).collect(),
        ),
    }
}

/// `serde_json::from_str` into a `Value`: the value of a JSON text, or what is
/// wrong with it. The result depends on the text alone.
#[verifier::external_body]
fn read_json(text: &str) -> (result: Result<Json, String>)
    ensures
        match (result, parsed_json(text@)) {
            (Ok(json), Ok(view)) => json@ == view,
            (Err(message), Err(fault)) => message@ == fault,
            _ => false,
        },
{
    match serde_json::from_str(text) {
        Ok(value) => Ok(json_from_value(value)),
        Err(error) => Err(error.to_string()),
    }
}

/// The `Display` of a `serde_json::Value`: its compact text, which depends on the
/// meaning of the value alone. A string escapes the quote, the backslash and
/// control characters, in at most six bytes each; an integer has at most twenty
/// digits and sign. What is written of integers, strings and up to 127 levels of
/// nesting is read back the same.
#[verifier::external_body]
fn write_json(json: &Json) -> (text: String)
    ensures
        text@ == json_text(json@),
        byte_len(text@) <= json_room(*json),
        plain(json@, 127) ==> reads_as(text@, json@),
{
    value_from_json(json).to_string()
}

impl Json {
    /// Reads a JSON text. The error is the reader's message.
    pub fn parse(text: &str) -> (result: Result<Json, String>)
        ensures
            match (result, parsed_json(text@)) {
                (Ok(json), Ok(view)) => json@ == view,
                (Err(message), Err(fault)) => message@ == fault,
                _ => false,
            },
    {
        read_json(text)
    }

    /// The compact text of the value.
    pub fn to_text(&self) -> (text: String)
        ensures
            text@ == json_text(self@),
            byte_len(text@) <= json_room(*self),
            plain(self@, 127) ==> reads_as(text@, self@),
    {
        write_json(self)
    }
}

/// Values are equal to themselves and to values of their own kind alone; other than
/// decimal numbers, arrays and objects, they are equal only where they are the same.
pub proof fn values_equal_their_like(left: JsonView, right: JsonView)
    ensures
        left is Null || left is Bool || left is Unsigned || left is Negative || left is Text ==> (
        alike(left, right) <==> left == right),
        alike(left, right) ==> (left is Decimal <==> right is Decimal) && (left is Array <==> right
            is Array) && (left is Object <==> right is Object),
        left is Array && right is Array ==> (alike(left, right) <==> left->Array_0.len()
            == right->Array_0.len() && forall|i: int|
            0 <= i < left->Array_0.len() ==> alike(
                #[trigger] left->Array_0[i],
                right->Array_0[i],
            )),
        left is Object && right is Object && alike(left, right) ==> left->Object_0.dom()
            == right->Object_0.dom(),
        left is Object && right is Object && alike(left, right) ==> forall|key: Seq<char>|
            left->Object_0.contains_key(key) ==> alike(
                #[trigger] left->Object_0[key],
                right->Object_0[key],
            ),
        left is Decimal && left == right ==> alike(left, right),
{
    if left is Object && right is Object && alike(left, right) {
        assert(left->Object_0.dom() =~= right->Object_0.dom());
    }
}

} // verus!
