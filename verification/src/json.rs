//! JSON values, as far as the bot reads and writes them.

use vstd::prelude::*;
use crate::text::str_eq;

verus! {

/// A JSON value.
#[derive(Debug)]
pub enum Json {
    Null,
    Bool(bool),
    /// A number that is an `i64`.
    Int(i64),
    /// Any other number, as it is written.
    Number(String),
    Str(String),
    Array(Vec<Json>),
    /// The members of an object. Of several with one name, the first counts.
    Object(Vec<(String, Json)>),
}

/// A JSON value to reason about.
pub enum JsonView {
    Null,
    Bool(bool),
    Int(i64),
    Number(Seq<char>),
    Str(Seq<char>),
    Array(Seq<JsonView>),
    Object(Seq<(Seq<char>, JsonView)>),
}

impl Json {
    pub open spec fn tree(self) -> JsonView
        decreases self,
    {
        match self {
            Json::Null => JsonView::Null,
            Json::Bool(b) => JsonView::Bool(b),
            Json::Int(i) => JsonView::Int(i),
            Json::Number(s) => JsonView::Number(s@),
            Json::Str(s) => JsonView::Str(s@),
            Json::Array(v) => JsonView::Array(
                Seq::new(
                    v@.len(),
                    |i: int|
                        if 0 <= i < v@.len() {
                            v@[i].tree()
                        } else {
                            JsonView::Null
                        },
                ),
            ),
            Json::Object(v) => JsonView::Object(
                Seq::new(
                    v@.len(),
                    |i: int|
                        if 0 <= i < v@.len() {
                            (v@[i].0@, v@[i].1.tree())
                        } else {
                            (Seq::empty(), JsonView::Null)
                        },
                ),
            ),
        }
    }
}

impl View for Json {
    type V = JsonView;

    open spec fn view(&self) -> JsonView {
        self.tree()
    }
}

/// The values of a sequence.
pub open spec fn items_view(v: Seq<Json>) -> Seq<JsonView> {
    Seq::new(v.len(), |i: int| v[i]@)
}

/// The members of an object.
pub open spec fn members_view(v: Seq<(String, Json)>) -> Seq<(Seq<char>, JsonView)> {
    Seq::new(v.len(), |i: int| (v[i].0@, v[i].1@))
}

proof fn lemma_array_view(v: Vec<Json>)
    ensures
        Json::Array(v)@ == JsonView::Array(items_view(v@)),
{
    assert(Json::Array(v)@->Array_0 =~= items_view(v@));
}

proof fn lemma_object_view(v: Vec<(String, Json)>)
    ensures
        Json::Object(v)@ == JsonView::Object(members_view(v@)),
{
    assert(Json::Object(v)@->Object_0 =~= members_view(v@));
}

/// The first member of that name, or null.
pub open spec fn member_spec(members: Seq<(Seq<char>, JsonView)>, key: Seq<char>) -> JsonView
    decreases members.len(),
{
    if members.len() == 0 {
        JsonView::Null
    } else if members[0].0 == key {
        members[0].1
    } else {
        member_spec(members.skip(1), key)
    }
}

/// The member of an object, or null where there is none or `v` is no object.
pub open spec fn field_spec(v: JsonView, key: Seq<char>) -> JsonView {
    match v {
        JsonView::Object(members) => member_spec(members, key),
        _ => JsonView::Null,
    }
}

/// The number, where `v` is one that fits an `i64`.
pub open spec fn int_spec(v: JsonView) -> Option<i64> {
    match v {
        JsonView::Int(i) => Some(i),
        _ => None,
    }
}

/// The number, or `default` where `v` is none that fits an `i64`.
pub open spec fn int_or(v: JsonView, default: i64) -> i64 {
    match v {
        JsonView::Int(i) => i,
        _ => default,
    }
}

/// The text, or the empty text where `v` is none.
pub open spec fn text_or_empty(v: JsonView) -> Seq<char> {
    match v {
        JsonView::Str(s) => s,
        _ => Seq::empty(),
    }
}

/// Whether `v` is the truth value true.
pub open spec fn is_true(v: JsonView) -> bool {
    v == JsonView::Bool(true)
}

/// The values of an array; none where `v` is no array.
pub open spec fn items_spec(v: JsonView) -> Seq<JsonView> {
    match v {
        JsonView::Array(items) => items,
        _ => Seq::empty(),
    }
}

/// A value of `serde_json`.
#[verifier::external_type_specification]
#[verifier::external_body]
pub struct ExValue(serde_json::Value);

/// The text that a value of `serde_json` is shown as.
pub uninterp spec fn value_text(value: serde_json::Value) -> Seq<char>;

/// The text that `serde_json` writes for a JSON value, without white space.
pub uninterp spec fn json_text(v: JsonView) -> Seq<char>;

/// Makes a value of `serde_json`: the variants of `serde_json::Value` stand for
/// those of `Json`, and `serde_json::from_str` reads a number as it is written.
/// Claimed is that what it is shown as depends on the JSON value alone.
#[verifier::external_body]
fn json_value(json: &Json) -> (r: serde_json::Value)
    ensures
        value_text(r) == json_text(json@),
{
    match json {
        Json::Null => serde_json::Value::Null,
        Json::Bool(b) => (*b).into(),
        Json::Int(i) => (*i).into(),
        Json::Number(text) => serde_json::from_str(text).unwrap_or_default(),
        Json::Str(s) => s.as_str().into(),
        Json::Array(items) => items.iter().map(json_value).collect(),
        Json::Object(members) => members.iter().map(|(k, v)| (k.clone(), json_value(v))).collect(),
    }
}

/// Writes a value with `to_string` of `serde_json::Value`.
#[verifier::external_body]
fn value_string(value: &serde_json::Value) -> (r: String)
    ensures
        r@ == value_text(*value),
{
    value.to_string()
}

/// The text that `serde_json` writes for a JSON value.
pub fn rendered(json: &Json) -> (r: String)
    ensures
        r@ == json_text(json@),
{
    value_string(&json_value(json))
}

/// The position of the first member of that name.
fn find(members: &Vec<(String, Json)>, key: &str) -> (r: Option<usize>)
    ensures
        match r {
            Some(i) => i < members@.len() && member_spec(members_view(members@), key@)
                == members@[i as int].1@,
            None => member_spec(members_view(members@), key@) == JsonView::Null,
        },
{
    let ghost all = members_view(members@);
    let mut i: usize = 0;
    assert(all.skip(0) =~= all);
    while i < members.len()
        invariant
            i <= members@.len(),
            all == members_view(members@),
            member_spec(all, key@) == member_spec(all.skip(i as int), key@),
        decreases members@.len() - i,
    {
        proof {
            assert(all.skip(i as int)[0] == all[i as int]);
            assert(all.skip(i as int).skip(1) =~= all.skip(i + 1));
        }
        if str_eq(members[i].0.as_str(), key) {
            return Some(i);
        }
        i += 1;
    }
    None
}

impl Json {
    /// The member of an object, or null where there is none.
    pub fn field(&self, key: &str) -> (r: &Json)
        ensures
            r@ == field_spec(self@, key@),
    {
        match self {
            Json::Object(members) => {
                proof {
                    lemma_object_view(*members);
                }
                match find(members, key) {
                    Some(i) => &members[i].1,
                    None => &Json::Null,
                }
            },
            _ => &Json::Null,
        }
    }

    /// The member of an object, taken out of it, or null where there is none.
    pub fn into_field(self, key: &str) -> (r: Json)
        ensures
            r@ == field_spec(self@, key@),
    {
        match self {
            Json::Object(members) => {
                proof {
                    lemma_object_view(members);
                }
                match find(&members, key) {
                    Some(i) => {
                        let mut members = members;
                        members.swap_remove(i).1
                    },
                    None => Json::Null,
                }
            },
            _ => Json::Null,
        }
    }

    /// The number, if it is one that fits.
    pub fn as_i64(&self) -> (r: Option<i64>)
        ensures
            r == int_spec(self@),
    {
        match self {
            Json::Int(i) => Some(*i),
            _ => None,
        }
    }

    /// The number, or `default` where there is none that fits.
    pub fn i64_or(&self, default: i64) -> (r: i64)
        ensures
            r == int_or(self@, default),
    {
        match self {
            Json::Int(i) => *i,
            _ => default,
        }
    }

    /// The text, or the empty text where it is none.
    pub fn str_or_empty(&self) -> (r: &str)
        ensures
            r@ == text_or_empty(self@),
    {
        match self {
            Json::Str(s) => s.as_str(),
            _ => {
                proof {
                    reveal_strlit("");
                    assert(""@ =~= Seq::<char>::empty());
                }
                ""
            },
        }
    }

    /// The text, if it is one.
    pub fn as_str(&self) -> (r: Option<&str>)
        ensures
            match r {
                Some(s) => self@ == JsonView::Str(s@),
                None => !(self@ is Str),
            },
    {
        match self {
            Json::Str(s) => Some(s.as_str()),
            _ => None,
        }
    }

    /// Whether it is the truth value true.
    pub fn is_true(&self) -> (r: bool)
        ensures
            r == is_true(self@),
    {
        match self {
            Json::Bool(b) => *b,
            _ => false,
        }
    }

    /// Whether it is that text.
    pub fn is_text(&self, text: &str) -> (r: bool)
        ensures
            r == (self@ == JsonView::Str(text@)),
    {
        match self {
            Json::Str(s) => str_eq(s.as_str(), text),
            _ => false,
        }
    }

    /// How many values an array has; none where it is no array.
    pub fn item_count(&self) -> (r: usize)
        ensures
            r == items_spec(self@).len(),
    {
        match self {
            Json::Array(items) => {
                proof {
                    lemma_array_view(*items);
                }
                items.len()
            },
            _ => 0,
        }
    }

    /// A value of an array.
    pub fn item(&self, i: usize) -> (r: &Json)
        requires
            i < items_spec(self@).len(),
        ensures
            r@ == items_spec(self@)[i as int],
    {
        match self {
            Json::Array(items) => {
                proof {
                    lemma_array_view(*items);
                }
                &items[i]
            },
            _ => &Json::Null,
        }
    }

    /// The values of an array; none where it is no array.
    pub fn into_items(self) -> (r: Vec<Json>)
        ensures
            items_view(r@) == items_spec(self@),
    {
        match self {
            Json::Array(items) => {
                proof {
                    lemma_array_view(items);
                }
                items
            },
            _ => {
                let none: Vec<Json> = Vec::new();
                assert(items_view(none@) =~= Seq::<JsonView>::empty());
                none
            },
        }
    }

    /// A text.
    pub fn text(s: &str) -> (r: Json)
        ensures
            r@ == JsonView::Str(s@),
    {
        Json::Str(s.to_owned())
    }

    /// An object without members.
    pub fn object() -> (r: Json)
        ensures
            r@ == JsonView::Object(Seq::empty()),
    {
        let none: Vec<(String, Json)> = Vec::new();
        let r = Json::Object(none);
        proof {
            lemma_object_view(none);
            assert(members_view(none@) =~= Seq::<(Seq<char>, JsonView)>::empty());
        }
        r
    }

    /// An object with one more member at its end.
    pub fn with(self, key: &str, value: Json) -> (r: Json)
        requires
            self@ is Object,
        ensures
            r@ == JsonView::Object(self@->Object_0.push((key@, value@))),
    {
        match self {
            Json::Object(members) => {
                proof {
                    lemma_object_view(members);
                }
                let ghost before = members@;
                let mut members = members;
                members.push((key.to_owned(), value));
                proof {
                    lemma_object_view(members);
                    assert(members_view(members@) =~= members_view(before).push((key@, value@)));
                }
                Json::Object(members)
            },
            other => other,
        }
    }

    /// An array of the values.
    pub fn array(items: Vec<Json>) -> (r: Json)
        ensures
            r@ == JsonView::Array(items_view(items@)),
    {
        proof {
            lemma_array_view(items);
        }
        Json::Array(items)
    }
}

/// A member of an object is found by its name, if no member before it has that
/// name.
pub proof fn law_member_is_found(members: Seq<(Seq<char>, JsonView)>, at: int)
    requires
        0 <= at < members.len(),
        forall|i: int| 0 <= i < at ==> (#[trigger] members[i]).0 != members[at].0,
    ensures
        field_spec(JsonView::Object(members), members[at].0) == members[at].1,
    decreases members.len(),
{
    if at > 0 {
        assert(members[0].0 != members[at].0);
        let rest = members.skip(1);
        assert(rest[at - 1] == members[at]);
        assert forall|i: int| 0 <= i < at - 1 implies (#[trigger] rest[i]).0 != rest[at - 1].0 by {
            assert(members[i + 1].0 != members[at].0);
        }
        law_member_is_found(rest, at - 1);
    }
}

/// A name that no member has stands for null, and so does any name in a value
/// that is no object.
pub proof fn law_member_is_absent(members: Seq<(Seq<char>, JsonView)>, name: Seq<char>, v: JsonView)
    requires
        forall|i: int| 0 <= i < members.len() ==> (#[trigger] members[i]).0 != name,
        !(v is Object),
    ensures
        field_spec(JsonView::Object(members), name) == JsonView::Null,
        field_spec(v, name) == JsonView::Null,
    decreases members.len(),
{
    if members.len() > 0 {
        assert(members[0].0 != name);
        let rest = members.skip(1);
        assert forall|i: int| 0 <= i < rest.len() implies (#[trigger] rest[i]).0 != name by {
            assert(members[i + 1].0 != name);
        }
        law_member_is_absent(rest, name, v);
    }
}

} // verus!
