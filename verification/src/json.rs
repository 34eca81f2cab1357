use vstd::prelude::*;

use crate::text::same_text;

verus! {

/// A JSON value held as plain data.
#[derive(Debug, PartialEq)]
pub enum JsonValue {
    Null,
    Bool(bool),
    /// A number, held as its JSON text (such as `42` or `-32601`).
    Number(String),
    Str(String),
    Array(Vec<JsonValue>),
    /// The members of an object, in order.
    Object(Vec<(String, JsonValue)>),
}

/// The mathematical model of a JSON value.
#[verifier::ext_equal]
pub enum Json {
    Null,
    Bool(bool),
    Number(Seq<char>),
    Str(Seq<char>),
    Array(Seq<Json>),
    Object(Seq<(Seq<char>, Json)>),
}

/// The model of a JSON value.
pub open spec fn json_model(v: JsonValue) -> Json
    decreases v, 0int,
{
    match v {
        JsonValue::Null => Json::Null,
        JsonValue::Bool(b) => Json::Bool(b),
        JsonValue::Number(n) => Json::Number(n@),
        JsonValue::Str(s) => Json::Str(s@),
        JsonValue::Array(items) => Json::Array(items_model(items@)),
        JsonValue::Object(members) => Json::Object(members_model(members@)),
    }
}

/// The models of a list of values.
pub open spec fn items_model(items: Seq<JsonValue>) -> Seq<Json>
    decreases items, 1int,
{
    if items.len() == 0 {
        Seq::empty()
    } else {
        items_model(items.drop_last()).push(json_model(items.last()))
    }
}

/// The models of a list of members.
pub open spec fn members_model(members: Seq<(String, JsonValue)>) -> Seq<(Seq<char>, Json)>
    decreases members, 1int,
{
    if members.len() == 0 {
        Seq::empty()
    } else {
        members_model(members.drop_last()).push(
            (members.last().0@, json_model(members.last().1)),
        )
    }
}

impl View for JsonValue {
    type V = Json;

    open spec fn view(&self) -> Json {
        json_model(*self)
    }
}

/// The value of the first member of `members` named `key`.
pub open spec fn member_lookup(members: Seq<(Seq<char>, Json)>, key: Seq<char>) -> Option<Json>
    decreases members.len(),
{
    if members.len() == 0 {
        None
    } else if members[0].0 == key {
        Some(members[0].1)
    } else {
        member_lookup(members.drop_first(), key)
    }
}

impl Json {
    /// The member `key` of an object; none for a missing member or a value
    /// that is not an object.
    pub open spec fn get(self, key: Seq<char>) -> Option<Json> {
        match self {
            Json::Object(members) => member_lookup(members, key),
            _ => None,
        }
    }

    /// The text of a string value.
    pub open spec fn as_str(self) -> Option<Seq<char>> {
        match self {
            Json::Str(s) => Some(s),
            _ => None,
        }
    }
}

/// The models of a list of values, item by item.
pub proof fn lemma_items_model(items: Seq<JsonValue>)
    ensures
        items_model(items).len() == items.len(),
        forall|i: int| 0 <= i < items.len() ==> #[trigger] items_model(items)[i] == json_model(items[i]),
    decreases items.len(),
{
    if items.len() > 0 {
        lemma_items_model(items.drop_last());
        assert forall|i: int| 0 <= i < items.len() implies #[trigger] items_model(items)[i]
            == json_model(items[i]) by {
            if i < items.len() - 1 {
                assert(items.drop_last()[i] == items[i]);
            }
        }
    }
}

/// The models of a list of members, member by member.
pub proof fn lemma_members_model(members: Seq<(String, JsonValue)>)
    ensures
        members_model(members).len() == members.len(),
        forall|i: int|
            0 <= i < members.len() ==> #[trigger] members_model(members)[i] == (
                members[i].0@,
                json_model(members[i].1),
            ),
    decreases members.len(),
{
    if members.len() > 0 {
        lemma_members_model(members.drop_last());
        assert forall|i: int| 0 <= i < members.len() implies #[trigger] members_model(members)[i]
            == (members[i].0@, json_model(members[i].1)) by {
            if i < members.len() - 1 {
                assert(members.drop_last()[i] == members[i]);
            }
        }
    }
}

impl JsonValue {
    /// The empty object `{}`.
    pub fn empty_object() -> (j: JsonValue)
        ensures
            j@ == Json::Object(Seq::empty()),
    {
        let members: Vec<(String, JsonValue)> = Vec::new();
        proof {
            assert(members_model(members@) =~= Seq::empty());
        }
        JsonValue::Object(members)
    }

    /// An object with the given members.
    pub fn object(members: Vec<(String, JsonValue)>) -> (j: JsonValue)
        ensures
            j@ == Json::Object(members_model(members@)),
    {
        JsonValue::Object(members)
    }

    /// An array with the given items.
    pub fn array(items: Vec<JsonValue>) -> (j: JsonValue)
        ensures
            j@ == Json::Array(items_model(items@)),
    {
        JsonValue::Array(items)
    }

    /// The string value `s`.
    pub fn string(s: &str) -> (j: JsonValue)
        ensures
            j@ == Json::Str(s@),
    {
        JsonValue::Str(s.to_owned())
    }

    /// The number whose JSON text is `text`.
    pub fn number(text: &str) -> (j: JsonValue)
        ensures
            j@ == Json::Number(text@),
    {
        JsonValue::Number(text.to_owned())
    }

    /// The member `key: value`.
    pub fn member(key: &str, value: JsonValue) -> (m: (String, JsonValue))
        ensures
            m.0@ == key@,
            m.1 == value,
    {
        (key.to_owned(), value)
    }

    /// The object with the single member `a`.
    pub fn object1(a: (String, JsonValue)) -> (j: JsonValue)
        ensures
            j@ == Json::Object(seq![(a.0@, a.1@)]),
    {
        let ghost ga = a;
        let mut v: Vec<(String, JsonValue)> = Vec::new();
        v.push(a);
        proof {
            lemma_members_model(v@);
            assert(members_model(v@) =~= seq![(ga.0@, ga.1@)]);
        }
        JsonValue::object(v)
    }

    /// The object with the members `a` and `b`.
    pub fn object2(a: (String, JsonValue), b: (String, JsonValue)) -> (j: JsonValue)
        ensures
            j@ == Json::Object(seq![(a.0@, a.1@), (b.0@, b.1@)]),
    {
        let ghost (ga, gb) = (a, b);
        let mut v: Vec<(String, JsonValue)> = Vec::new();
        v.push(a);
        v.push(b);
        proof {
            lemma_members_model(v@);
            assert(members_model(v@) =~= seq![(ga.0@, ga.1@), (gb.0@, gb.1@)]);
        }
        JsonValue::object(v)
    }

    /// The object with the members `a`, `b` and `c`.
    pub fn object3(a: (String, JsonValue), b: (String, JsonValue), c: (String, JsonValue)) -> (j:
        JsonValue)
        ensures
            j@ == Json::Object(seq![(a.0@, a.1@), (b.0@, b.1@), (c.0@, c.1@)]),
    {
        let ghost (ga, gb, gc) = (a, b, c);
        let mut v: Vec<(String, JsonValue)> = Vec::new();
        v.push(a);
        v.push(b);
        v.push(c);
        proof {
            lemma_members_model(v@);
            assert(members_model(v@) =~= seq![(ga.0@, ga.1@), (gb.0@, gb.1@), (gc.0@, gc.1@)]);
        }
        JsonValue::object(v)
    }

    /// The array with the single item `a`.
    pub fn array1(a: JsonValue) -> (j: JsonValue)
        ensures
            j@ == Json::Array(seq![a@]),
    {
        let ghost ga = a;
        let mut v: Vec<JsonValue> = Vec::new();
        v.push(a);
        proof {
            lemma_items_model(v@);
            assert(items_model(v@) =~= seq![ga@]);
        }
        JsonValue::array(v)
    }

    /// A copy of this value.
    pub fn copy(&self) -> (c: JsonValue)
        ensures
            c@ == self@,
        decreases self,
    {
        match self {
            JsonValue::Null => JsonValue::Null,
            JsonValue::Bool(b) => JsonValue::Bool(*b),
            JsonValue::Number(n) => JsonValue::Number(n.clone()),
            JsonValue::Str(t) => JsonValue::Str(t.clone()),
            JsonValue::Array(items) => {
                let mut out: Vec<JsonValue> = Vec::new();
                let mut i: usize = 0;
                while i < items.len()
                    invariant
                        i <= items@.len(),
                        *self == JsonValue::Array(*items),
                        out@.len() == i,
                        forall|j: int| 0 <= j < i ==> #[trigger] out@[j]@ == items@[j]@,
                    decreases items@.len() - i,
                {
                    proof {
                        assert(decreases_to!(*self => (*self)->Array_0));
                        assert(decreases_to!(*items => items[i as int]));
                        assert(decreases_to!(*self => items[i as int]));
                    }
                    out.push(items[i].copy());
                    i = i + 1;
                }
                proof {
                    lemma_items_model(out@);
                    lemma_items_model(items@);
                    assert forall|j: int| 0 <= j < items@.len() implies items_model(out@)[j]
                        == items_model(items@)[j] by {
                        assert(out@[j]@ == items@[j]@);
                    }
                    assert(items_model(out@) =~= items_model(items@));
                }
                JsonValue::Array(out)
            },
            JsonValue::Object(members) => {
                let mut out: Vec<(String, JsonValue)> = Vec::new();
                let mut i: usize = 0;
                while i < members.len()
                    invariant
                        i <= members@.len(),
                        *self == JsonValue::Object(*members),
                        out@.len() == i,
                        forall|j: int|
                            0 <= j < i ==> (#[trigger] out@[j]).0@ == members@[j].0@ && out@[j].1@
                                == members@[j].1@,
                    decreases members@.len() - i,
                {
                    proof {
                        assert(decreases_to!(*self => (*self)->Object_0));
                        assert(decreases_to!(*members => members[i as int]));
                        assert(decreases_to!(members[i as int] => members[i as int].1));
                        assert(decreases_to!(*self => members[i as int].1));
                    }
                    let v = members[i].1.copy();
                    out.push((members[i].0.clone(), v));
                    i = i + 1;
                }
                proof {
                    lemma_members_model(out@);
                    lemma_members_model(members@);
                    assert(members_model(out@) =~= members_model(members@));
                }
                JsonValue::Object(out)
            },
        }
    }

    /// Whether this is `null`.
    pub fn is_null(&self) -> (b: bool)
        ensures
            b == (self@ == Json::Null),
    {
        match self {
            JsonValue::Null => true,
            _ => false,
        }
    }

    /// The text of a string value.
    pub fn as_str(&self) -> (r: Option<&str>)
        ensures
            r matches Some(t) ==> self@.as_str() == Some(t@),
            r is None ==> self@.as_str() is None,
    {
        match self {
            JsonValue::Str(t) => Some(t.as_str()),
            _ => None,
        }
    }

    /// The value of a boolean.
    pub fn as_bool(&self) -> (r: Option<bool>)
        ensures
            r == match self@ {
                Json::Bool(b) => Some(b),
                _ => None,
            },
    {
        match self {
            JsonValue::Bool(b) => Some(*b),
            _ => None,
        }
    }

    /// The member `key` of an object, as `serde_json::Value::get` finds it.
    pub fn get(&self, key: &str) -> (r: Option<&JsonValue>)
        ensures
            r matches Some(v) ==> self@.get(key@) == Some(v@),
            r is None ==> self@.get(key@) is None,
    {
        match self {
            JsonValue::Object(members) => {
                proof {
                    lemma_members_model(members@);
                }
                let ghost mv = members_model(members@);
                assert(mv.skip(0) =~= mv);
                let mut i: usize = 0;
                while i < members.len()
                    invariant
                        i <= members@.len(),
                        *self == JsonValue::Object(*members),
                        mv == members_model(members@),
                        mv.len() == members@.len(),
                        forall|j: int|
                            0 <= j < mv.len() ==> #[trigger] mv[j] == (
                                members@[j].0@,
                                json_model(members@[j].1),
                            ),
                        member_lookup(mv, key@) == member_lookup(mv.skip(i as int), key@),
                    decreases members@.len() - i,
                {
                    proof {
                        assert(mv.skip(i as int)[0] == mv[i as int]);
                        assert(mv.skip(i as int).drop_first() =~= mv.skip(i as int + 1));
                    }
                    if same_text(members[i].0.as_str(), key) {
                        proof {
                            assert(mv.skip(i as int)[0] == mv[i as int]);
                            assert(mv[i as int].0 == key@);
                        }
                        return Some(&members[i].1);
                    }
                    i = i + 1;
                }
                None
            },
            _ => None,
        }
    }
}

// --- JSON text ---

#[verifier::external_type_specification]
#[verifier::external_body]
pub struct ExSerdeJsonValue(serde_json::Value);

/// The value `serde_json` reads from `text`; none when `text` is not a JSON
/// document.
pub uninterp spec fn parsed_json(text: Seq<char>) -> Option<Json>;

/// The compact JSON text `serde_json` writes for `value`.
pub uninterp spec fn written_json(value: Json) -> Seq<char>;

/// Converts a `serde_json::Value` into a `JsonValue`, variant by variant;
/// numbers keep their JSON text. Nothing is stated of it alone: the parse
/// that uses it names the converted result as a whole.
#[verifier::external_body]
fn value_to_json(v: &serde_json::Value) -> JsonValue {
    match v {
        serde_json::Value::Null => JsonValue::Null,
        serde_json::Value::Bool(b) => JsonValue::Bool(*b),
        serde_json::Value::Number(n) => JsonValue::Number(n.to_string()),
        serde_json::Value::String(s) => JsonValue::Str(s.clone()),
        serde_json::Value::Array(a) => JsonValue::Array(a.iter().map(value_to_json).collect()),
        serde_json::Value::Object(m) => JsonValue::Object(
            m.iter().map(|(k, x)| (k.clone(), value_to_json(x))).collect(),
        ),
    }
}

/// Converts a `JsonValue` into a `serde_json::Value`, variant by variant;
/// number text goes through `serde_json::Number::from_str`, and text it
/// refuses becomes `null`. Nothing is stated of it alone: the writer that
/// uses it names its result as a whole.
#[verifier::external_body]
fn json_to_value(j: &JsonValue) -> serde_json::Value {
    match j {
        JsonValue::Null => serde_json::Value::Null,
        JsonValue::Bool(b) => serde_json::Value::Bool(*b),
        JsonValue::Number(t) => <serde_json::Number as std::str::FromStr>::from_str(t).map(
            serde_json::Value::Number,
        ).unwrap_or(serde_json::Value::Null),
        JsonValue::Str(s) => serde_json::Value::String(s.clone()),
        JsonValue::Array(a) => serde_json::Value::Array(a.iter().map(json_to_value).collect()),
        JsonValue::Object(m) => serde_json::Value::Object(
            m.iter().map(|(k, x)| (k.clone(), json_to_value(x))).collect(),
        ),
    }
}

/// Calls `serde_json::from_str` for a `serde_json::Value`. Trusted: what it
/// reads, converted, is the named `parsed_json` of the text, and it fails
/// exactly when that is none. The parse is a function of the text alone.
#[verifier::external_body]
pub(crate) fn read_json_text(text: &str) -> (r: Option<JsonValue>)
    ensures
        r matches Some(v) ==> parsed_json(text@) == Some(v@),
        r is None ==> parsed_json(text@) is None,
{
    match serde_json::from_str::<serde_json::Value>(text) {
        Ok(v) => Some(value_to_json(&v)),
        Err(_) => None,
    }
}

/// Calls `serde_json::to_string` on the converted value. Trusted: the text is
/// the named `written_json` of the value. Writing a `serde_json::Value`
/// cannot fail (its maps have string keys), so the empty string of the error
/// arm is never produced.
#[verifier::external_body]
pub(crate) fn write_json_text(value: &JsonValue) -> (s: String)
    ensures
        s@ == written_json(value@),
{
    serde_json::to_string(&json_to_value(value)).unwrap_or_default()
}

} // verus!
