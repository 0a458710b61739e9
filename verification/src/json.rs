//! JSON documents as plain data, with their mathematical model.
use vstd::prelude::*;

verus! {

/// The mathematical model of a JSON document: the members of an object keep
/// the order in which they were written.
pub enum JsonValue {
    Null,
    Bool(bool),
    Integer(int),
    Decimal(Seq<char>),
    String(Seq<char>),
    Array(Seq<JsonValue>),
    Object(Seq<(Seq<char>, JsonValue)>),
}

/// A JSON document. A number that is a 64-bit signed integer is an `Integer`;
/// any other number is a `Decimal`, which keeps the number's text.
#[derive(Debug, PartialEq, Eq)]
pub enum Json {
    Null,
    Bool(bool),
    Integer(i64),
    Decimal(String),
    String(String),
    Array(Vec<Json>),
    Object(Vec<(String, Json)>),
}

/// The index of the first member at or after `from` whose name is `name`,
/// or -1 when there is none.
pub open spec fn position(members: Seq<(Seq<char>, JsonValue)>, name: Seq<char>, from: int) -> int
    decreases members.len() - from,
{
    if from < 0 || from >= members.len() {
        -1
    } else if members[from].0 == name {
        from
    } else {
        position(members, name, from + 1)
    }
}

impl JsonValue {
    /// The first member of an object that is called `name`.
    pub open spec fn member(self, name: Seq<char>) -> Option<JsonValue> {
        match self {
            JsonValue::Object(members) => {
                let at = position(members, name, 0);
                if 0 <= at < members.len() {
                    Some(members[at].1)
                } else {
                    None
                }
            },
            _ => None,
        }
    }

    /// The element of an array at `index`.
    pub open spec fn element(self, index: int) -> Option<JsonValue> {
        match self {
            JsonValue::Array(items) => if 0 <= index < items.len() {
                Some(items[index])
            } else {
                None
            },
            _ => None,
        }
    }
}

impl View for Json {
    type V = JsonValue;

    open spec fn view(&self) -> JsonValue
        decreases self,
    {
        match self {
            Json::Null => JsonValue::Null,
            Json::Bool(b) => JsonValue::Bool(*b),
            Json::Integer(n) => JsonValue::Integer(*n as int),
            Json::Decimal(text) => JsonValue::Decimal(text@),
            Json::String(text) => JsonValue::String(text@),
            Json::Array(items) => JsonValue::Array(
                Seq::new(
                    items.len() as nat,
                    |i: int|
                        if 0 <= i < items.len() {
                            items[i]@
                        } else {
                            JsonValue::Null
                        },
                ),
            ),
            Json::Object(members) => JsonValue::Object(
                Seq::new(
                    members.len() as nat,
                    |i: int|
                        if 0 <= i < members.len() {
                            member_view(members[i])
                        } else {
                            (Seq::empty(), JsonValue::Null)
                        },
                ),
            ),
        }
    }
}

/// The model of one member of an object: its name and its value's model.
pub open spec fn member_view(member: (String, Json)) -> (Seq<char>, JsonValue)
    decreases member,
{
    (member.0@, member.1@)
}

/// The model of an array lists the models of its elements.
pub proof fn lemma_array_view(json: Json)
    requires
        json is Array,
    ensures
        json@ is Array,
        json@->Array_0.len() == json->Array_0.len(),
        forall|i: int|
            0 <= i < json->Array_0.len() ==> #[trigger] json@->Array_0[i] == json->Array_0[i]@,
{
}

/// The model of an object lists its members' names and the models of their
/// values.
pub proof fn lemma_object_view(json: Json)
    requires
        json is Object,
    ensures
        json@ is Object,
        json@->Object_0.len() == json->Object_0.len(),
        forall|i: int|
            0 <= i < json->Object_0.len() ==> #[trigger] json@->Object_0[i] == (
                json->Object_0[i].0@,
                json->Object_0[i].1@,
            ),
{
    let members = json->Object_0;
    assert forall|i: int| 0 <= i < members.len() implies #[trigger] json@->Object_0[i] == (
        members[i].0@,
        members[i].1@,
    ) by {
        assert(json@->Object_0[i] == member_view(members[i]));
    }
}

/// A member of an object is a smaller value than the object.
pub proof fn lemma_member_is_smaller(value: JsonValue, name: Seq<char>)
    requires
        value.member(name) is Some,
    ensures
        decreases_to!(value => value.member(name)->Some_0),
{
    let fields = value->Object_0;
    let i = position(fields, name, 0);
    assert(decreases_to!(value => value->Object_0));
    assert(decreases_to!(fields => fields[i]));
    assert(decreases_to!(fields[i] => fields[i].1));
}

/// The value of each member of an object is a smaller value than the
/// object.
pub proof fn lemma_field_is_smaller(value: JsonValue, i: int)
    requires
        value is Object,
        0 <= i < value->Object_0.len(),
    ensures
        decreases_to!(value => value->Object_0[i].1),
{
    let fields = value->Object_0;
    assert(decreases_to!(value => value->Object_0));
    assert(decreases_to!(fields => fields[i]));
    assert(decreases_to!(fields[i] => fields[i].1));
}

/// An element of an array is a smaller value than the array.
pub proof fn lemma_item_is_smaller(value: JsonValue, i: int)
    requires
        value is Array,
        0 <= i < value->Array_0.len(),
    ensures
        decreases_to!(value => value->Array_0[i]),
{
    let items = value->Array_0;
    assert(decreases_to!(value => value->Array_0));
    assert(decreases_to!(items => items[i]));
}

impl Json {
    /// The first member of an object that is called `name`; `None` for a
    /// value that is no object or has no such member.
    pub fn member<'a>(&'a self, name: &str) -> (found: Option<&'a Json>)
        ensures
            match found {
                Some(value) => self@.member(name@) == Some(value@),
                None => self@.member(name@).is_none(),
            },
    {
        match self {
            Json::Object(members) => {
                proof {
                    lemma_object_view(*self);
                }
                let ghost model = self@->Object_0;
                let mut i: usize = 0;
                while i < members.len()
                    invariant
                        i <= members.len(),
                        self@ == JsonValue::Object(model),
                        model.len() == members.len(),
                        forall|k: int|
                            0 <= k < members.len() ==> #[trigger] model[k] == (
                                members[k].0@,
                                members[k].1@,
                            ),
                        position(model, name@, 0) == position(model, name@, i as int),
                    decreases members.len() - i,
                {
                    if same_text(members[i].0.as_str(), name) {
                        assert(model[i as int].0 == name@);
                        assert(position(model, name@, i as int) == i);
                        return Some(&members[i].1);
                    }
                    i += 1;
                }
                None
            },
            _ => None,
        }
    }

    /// A copy of this document.
    pub fn duplicate(&self) -> (copy: Json)
        ensures
            copy@ == self@,
        decreases self@,
    {
        match self {
            Json::Null => Json::Null,
            Json::Bool(b) => Json::Bool(*b),
            Json::Integer(n) => Json::Integer(*n),
            Json::Decimal(text) => Json::Decimal(text.clone()),
            Json::String(text) => Json::String(text.clone()),
            Json::Array(items) => {
                proof {
                    lemma_array_view(*self);
                }
                let mut copies: Vec<Json> = Vec::new();
                let mut i: usize = 0;
                while i < items.len()
                    invariant
                        i <= items.len(),
                        self@ is Array,
                        self@->Array_0.len() == items.len(),
                        forall|k: int|
                            0 <= k < items.len() ==> #[trigger] self@->Array_0[k] == items[k]@,
                        copies.len() == i,
                        forall|k: int| 0 <= k < i ==> (#[trigger] copies[k])@ == items[k]@,
                    decreases items.len() - i,
                {
                    proof {
                        lemma_item_is_smaller(self@, i as int);
                    }
                    copies.push(items[i].duplicate());
                    i += 1;
                }
                let copy = Json::Array(copies);
                proof {
                    lemma_array_view(copy);
                    assert(copy@->Array_0 =~= self@->Array_0);
                }
                copy
            },
            Json::Object(members) => {
                proof {
                    lemma_object_view(*self);
                }
                let mut copies: Vec<(String, Json)> = Vec::new();
                let mut i: usize = 0;
                while i < members.len()
                    invariant
                        i <= members.len(),
                        self@ is Object,
                        self@->Object_0.len() == members.len(),
                        forall|k: int|
                            0 <= k < members.len() ==> #[trigger] self@->Object_0[k] == (
                                members[k].0@,
                                members[k].1@,
                            ),
                        copies.len() == i,
                        forall|k: int|
                            0 <= k < i ==> (#[trigger] copies[k]).0@ == members[k].0@
                                && copies[k].1@ == members[k].1@,
                    decreases members.len() - i,
                {
                    proof {
                        lemma_field_is_smaller(self@, i as int);
                    }
                    copies.push((members[i].0.clone(), members[i].1.duplicate()));
                    i += 1;
                }
                let copy = Json::Object(copies);
                proof {
                    lemma_object_view(copy);
                    assert(copy@->Object_0 =~= self@->Object_0);
                }
                copy
            },
        }
    }

    /// The element of an array at `index`; `None` for a value that is no
    /// array or is shorter.
    pub fn element<'a>(&'a self, index: usize) -> (found: Option<&'a Json>)
        ensures
            match found {
                Some(value) => self@.element(index as int) == Some(value@),
                None => self@.element(index as int).is_none(),
            },
    {
        match self {
            Json::Array(items) => {
                proof {
                    lemma_array_view(*self);
                }
                if index < items.len() {
                    Some(&items[index])
                } else {
                    None
                }
            },
            _ => None,
        }
    }
}

/// Compares two string slices with `str::eq` of the standard library, which
/// is documented to hold exactly when both hold the same characters.
#[verifier::external_body]
pub(crate) fn same_text(a: &str, b: &str) -> (same: bool)
    ensures
        same == (a@ == b@),
{
    a == b
}

} // verus!
