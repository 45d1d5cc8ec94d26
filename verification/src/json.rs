//! JSON documents as plain data, with the mathematical value each denotes.
//!
//! A [`Json`] is a tree that verified code can read and build. Its view, a
//! [`JsonValue`], is what the document means: an object is a map from keys to
//! values, so neither the order of its members nor an overwritten member
//! shows in it. Numbers are carried as the JSON library holds them.

use vstd::prelude::*;

verus! {

/// `serde_json::Number`, carried through as it is: an integer of up to 64
/// bits, or a binary64 number.
#[verifier::external_type_specification]
#[verifier::external_body]
pub struct ExNumber(serde_json::Number);

/// The number that a number of the JSON library holds.
pub uninterp spec fn number_model(n: serde_json::Number) -> NumberValue;

/// The number a JSON number denotes: an integer, or the binary64 number
/// with the given bit pattern.
pub ghost enum NumberValue {
    Int(int),
    Float(u64),
}

/// The integer that a JSON number holds, where it holds one that fits in
/// 64 signed bits.
pub open spec fn int_of_number(n: NumberValue) -> Option<i64> {
    match n {
        NumberValue::Int(i) => if i64::MIN <= i <= i64::MAX {
            Some(i as i64)
        } else {
            None
        },
        NumberValue::Float(_) => None,
    }
}

/// `serde_json::Number::as_i64`: the number as a signed integer, where it is
/// an integer in that range; nothing for a larger integer or a float.
#[verifier::external_body]
pub(crate) fn number_as_i64(n: &serde_json::Number) -> (r: Option<i64>)
    ensures
        r == int_of_number(number_model(*n)),
{
    n.as_i64()
}

/// `serde_json::Number::from`, on a signed integer: the number that holds
/// that integer.
#[verifier::external_body]
pub(crate) fn number_from_i64(i: i64) -> (n: serde_json::Number)
    ensures
        number_model(n) == NumberValue::Int(i as int),
{
    serde_json::Number::from(i)
}

/// `Clone::clone` of `serde_json::Number`: a number that holds the same.
#[verifier::external_body]
pub(crate) fn number_clone(n: &serde_json::Number) -> (r: serde_json::Number)
    ensures
        number_model(r) == number_model(*n),
{
    n.clone()
}

/// The value a JSON document denotes.
pub ghost enum JsonValue {
    Null,
    Bool(bool),
    Number(NumberValue),
    Str(Seq<char>),
    Array(Seq<JsonValue>),
    Object(Map<Seq<char>, JsonValue>),
}

impl JsonValue {
    /// The member under `key`, where this is an object that has one.
    pub open spec fn member(self, key: Seq<char>) -> Option<JsonValue> {
        match self {
            JsonValue::Object(m) => if m.contains_key(key) {
                Some(m[key])
            } else {
                None
            },
            _ => None,
        }
    }

    /// The characters, where this is a string.
    pub open spec fn text(self) -> Option<Seq<char>> {
        match self {
            JsonValue::Str(s) => Some(s),
            _ => None,
        }
    }

    /// The items, where this is an array.
    pub open spec fn items(self) -> Option<Seq<JsonValue>> {
        match self {
            JsonValue::Array(a) => Some(a),
            _ => None,
        }
    }

    /// The integer, where this is a number that holds one in 64 signed bits.
    pub open spec fn integer(self) -> Option<i64> {
        match self {
            JsonValue::Number(n) => int_of_number(n),
            _ => None,
        }
    }

    /// This object with `value` under `key`; anything but an object is left
    /// as it is.
    pub open spec fn with_member(self, key: Seq<char>, value: JsonValue) -> JsonValue {
        match self {
            JsonValue::Object(m) => JsonValue::Object(m.insert(key, value)),
            _ => self,
        }
    }
}

/// A JSON document.
#[derive(Debug, PartialEq)]
pub enum Json {
    Null,
    Bool(bool),
    Number(serde_json::Number),
    Str(String),
    Array(Vec<Json>),
    /// The members in the order they were written. Where a key occurs more
    /// than once, the last occurrence counts.
    Object(Vec<(String, Json)>),
}

/// The members that a list of key-value pairs denotes: a later pair
/// replaces an earlier one with the same key.
pub open spec fn members_of(pairs: Seq<(String, Json)>) -> Map<Seq<char>, JsonValue>
    decreases pairs, 0nat,
{
    if pairs.len() == 0 {
        Map::empty()
    } else {
        members_of(pairs.drop_last()).insert(pairs.last().0@, pairs.last().1.model())
    }
}

/// The values that a list of documents denotes, one for one.
pub open spec fn models_of(items: Seq<Json>) -> Seq<JsonValue>
    decreases items, 0nat,
{
    if items.len() == 0 {
        Seq::empty()
    } else {
        models_of(items.drop_last()).push(items.last().model())
    }
}

/// The position of the last pair under `key`, if there is one.
pub open spec fn last_with_key(pairs: Seq<(String, Json)>, key: Seq<char>) -> Option<int>
    decreases pairs.len(),
{
    if pairs.len() == 0 {
        None
    } else if pairs.last().0@ == key {
        Some(pairs.len() - 1)
    } else {
        last_with_key(pairs.drop_last(), key)
    }
}

impl Json {
    /// The value this document denotes.
    pub open spec fn model(&self) -> JsonValue
        decreases self, 1nat,
    {
        match self {
            Json::Null => JsonValue::Null,
            Json::Bool(b) => JsonValue::Bool(*b),
            Json::Number(n) => JsonValue::Number(number_model(*n)),
            Json::Str(s) => JsonValue::Str(s@),
            Json::Array(items) => JsonValue::Array(models_of(items@)),
            Json::Object(pairs) => JsonValue::Object(members_of(pairs@)),
        }
    }
}

impl View for Json {
    type V = JsonValue;

    open spec fn view(&self) -> JsonValue {
        self.model()
    }
}

/// `models_of` keeps the length and takes each item to its value.
pub proof fn lemma_models_of(items: Seq<Json>)
    ensures
        models_of(items).len() == items.len(),
        forall|i: int| 0 <= i < items.len() ==> (#[trigger] models_of(items)[i]) == items[i]@,
    decreases items.len(),
{
    if items.len() > 0 {
        lemma_models_of(items.drop_last());
    }
}

/// What `members_of` holds under `key` is the value of the last pair under
/// that key, and it holds nothing there where no pair has that key.
pub proof fn lemma_members_lookup(pairs: Seq<(String, Json)>, key: Seq<char>)
    ensures
        match last_with_key(pairs, key) {
            Some(i) => {
                &&& 0 <= i < pairs.len()
                &&& pairs[i].0@ == key
                &&& forall|j: int| i < j < pairs.len() ==> (#[trigger] pairs[j]).0@ != key
                &&& members_of(pairs).contains_key(key)
                &&& members_of(pairs)[key] == pairs[i].1@
            },
            None => {
                &&& forall|j: int| 0 <= j < pairs.len() ==> (#[trigger] pairs[j]).0@ != key
                &&& !members_of(pairs).contains_key(key)
            },
        },
    decreases pairs.len(),
{
    if pairs.len() > 0 {
        lemma_members_lookup(pairs.drop_last(), key);
        if pairs.last().0@ != key {
            let front = pairs.drop_last();
            assert forall|j: int|
                0 <= j < pairs.len() && (last_with_key(pairs, key) matches Some(i) ==> i < j) implies (
            #[trigger] pairs[j]).0@ != key by {
                if j < front.len() {
                    assert(front[j] == pairs[j]);
                }
            }
        }
    }
}

/// Writing a pair over the last pair that has its key changes the members as
/// inserting it does.
pub proof fn lemma_members_update(pairs: Seq<(String, Json)>, i: int, pair: (String, Json))
    requires
        0 <= i < pairs.len(),
        pairs[i].0@ == pair.0@,
        forall|j: int| i < j < pairs.len() ==> (#[trigger] pairs[j]).0@ != pair.0@,
    ensures
        members_of(pairs.update(i, pair)) == members_of(pairs).insert(pair.0@, pair.1@),
    decreases pairs.len(),
{
    let updated = pairs.update(i, pair);
    if i == pairs.len() - 1 {
        assert(updated.drop_last() == pairs.drop_last());
        assert(members_of(updated) =~= members_of(pairs).insert(pair.0@, pair.1@));
    } else {
        let front = pairs.drop_last();
        assert forall|j: int| i < j < front.len() implies (#[trigger] front[j]).0@ != pair.0@ by {
            assert(front[j] == pairs[j]);
        }
        lemma_members_update(front, i, pair);
        assert(updated.drop_last() == front.update(i, pair));
        assert(updated.last() == pairs.last());
        assert(pairs[pairs.len() - 1].0@ != pair.0@);
        assert(members_of(updated) =~= members_of(pairs).insert(pair.0@, pair.1@));
    }
}

/// The position of the last pair under `key`, if there is one.
pub fn find_member(pairs: &Vec<(String, Json)>, key: &String) -> (r: Option<usize>)
    ensures
        r matches Some(i) ==> last_with_key(pairs@, key@) == Some(i as int),
        r is None ==> last_with_key(pairs@, key@) is None,
{
    let mut i: usize = pairs.len();
    assert(pairs@.take(i as int) == pairs@);
    while i > 0
        invariant
            i <= pairs.len(),
            last_with_key(pairs@, key@) == last_with_key(pairs@.take(i as int), key@),
        decreases i,
    {
        let ghost front = pairs@.take(i as int);
        assert(front.last() == pairs@[i - 1]);
        assert(front.drop_last() == pairs@.take(i - 1));
        if pairs[i - 1].0 == *key {
            return Some(i - 1);
        }
        i = i - 1;
    }
    None
}

impl Json {
    /// The member under `key`, where this is an object that has one.
    pub fn get(&self, key: &str) -> (r: Option<&Json>)
        ensures
            r matches Some(j) ==> self@.member(key@) == Some(j@),
            r is None <==> self@.member(key@) is None,
    {
        match self {
            Json::Object(pairs) => {
                let owned = key.to_owned();
                proof {
                    lemma_members_lookup(pairs@, key@);
                }
                match find_member(pairs, &owned) {
                    Some(i) => Some(&pairs[i].1),
                    None => None,
                }
            },
            _ => None,
        }
    }

    /// The characters, where this is a string.
    pub fn as_str(&self) -> (r: Option<&str>)
        ensures
            r matches Some(s) ==> self@.text() == Some(s@),
            r is None <==> self@.text() is None,
    {
        match self {
            Json::Str(s) => Some(s.as_str()),
            _ => None,
        }
    }

    /// The items, where this is an array.
    pub fn as_array(&self) -> (r: Option<&Vec<Json>>)
        ensures
            r matches Some(items) ==> self@.items() == Some(models_of(items@)),
            r is None <==> self@.items() is None,
    {
        match self {
            Json::Array(items) => Some(items),
            _ => None,
        }
    }

    /// The integer, where this is a number that holds one in 64 signed bits.
    pub fn as_i64(&self) -> (r: Option<i64>)
        ensures
            r == self@.integer(),
    {
        match self {
            Json::Number(n) => number_as_i64(n),
            _ => None,
        }
    }

    /// The string with the characters of `s`.
    pub fn string(s: &str) -> (r: Json)
        ensures
            r@ == JsonValue::Str(s@),
    {
        Json::Str(s.to_owned())
    }

    /// The number that holds the integer `i`.
    pub fn integer(i: i64) -> (r: Json)
        ensures
            r@ == JsonValue::Number(NumberValue::Int(i as int)),
    {
        Json::Number(number_from_i64(i))
    }

    /// Puts `value` under `key` in this object: over the member that counts
    /// for that key where there is one, else behind the others. Anything but
    /// an object is left as it is.
    pub fn set_member(&mut self, key: String, value: Json)
        ensures
            final(self)@ == old(self)@.with_member(key@, value@),
    {
        match self {
            Json::Object(pairs) => {
                proof {
                    lemma_members_lookup(pairs@, key@);
                }
                match find_member(pairs, &key) {
                    Some(i) => {
                        proof {
                            lemma_members_update(pairs@, i as int, (key, value));
                        }
                        pairs.set(i, (key, value));
                    },
                    None => {
                        assert(pairs@.push((key, value)).drop_last() == pairs@);
                        pairs.push((key, value));
                    },
                }
            },
            _ => {},
        }
    }
}

impl Clone for Json {
    fn clone(&self) -> (r: Json)
        ensures
            r@ == self@,
        decreases self,
    {
        match self {
            Json::Null => Json::Null,
            Json::Bool(b) => Json::Bool(*b),
            Json::Number(n) => Json::Number(number_clone(n)),
            Json::Str(s) => Json::Str(s.clone()),
            Json::Array(items) => {
                let mut out: Vec<Json> = Vec::new();
                let mut i: usize = 0;
                assert(items@.take(0) == Seq::<Json>::empty());
                while i < items.len()
                    invariant
                        i <= items.len(),
                        *self == Json::Array(*items),
                        models_of(out@) == models_of(items@.take(i as int)),
                    decreases items.len() - i,
                {
                    let ghost before = out@;
                    assert(decreases_to!(self => items@[i as int])) by {
                        assert(self->Array_0 == *items);
                        assert(decreases_to!(self => self->Array_0));
                        assert(decreases_to!(items => items@));
                        assert(decreases_to!(items@ => items@[i as int]));
                    }
                    let item = items[i].clone();
                    out.push(item);
                    assert(out@.drop_last() == before);
                    assert(items@.take(i + 1).drop_last() == items@.take(i as int));
                    i = i + 1;
                }
                assert(items@.take(i as int) == items@);
                Json::Array(out)
            },
            Json::Object(pairs) => {
                let mut out: Vec<(String, Json)> = Vec::new();
                let mut i: usize = 0;
                assert(pairs@.take(0) == Seq::<(String, Json)>::empty());
                while i < pairs.len()
                    invariant
                        i <= pairs.len(),
                        *self == Json::Object(*pairs),
                        members_of(out@) == members_of(pairs@.take(i as int)),
                    decreases pairs.len() - i,
                {
                    let ghost before = out@;
                    let key = pairs[i].0.clone();
                    assert(decreases_to!(self => pairs@[i as int].1)) by {
                        assert(self->Object_0 == *pairs);
                        assert(decreases_to!(self => self->Object_0));
                        assert(decreases_to!(pairs => pairs@));
                        assert(decreases_to!(pairs@ => pairs@[i as int]));
                        assert(decreases_to!(pairs@[i as int] => pairs@[i as int].1));
                    }
                    let value = pairs[i].1.clone();
                    out.push((key, value));
                    assert(out@.drop_last() == before);
                    assert(pairs@.take(i + 1).drop_last() == pairs@.take(i as int));
                    i = i + 1;
                }
                assert(pairs@.take(i as int) == pairs@);
                Json::Object(out)
            },
        }
    }
}

} // verus!
