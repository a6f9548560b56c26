//! JSON values as plain data, and their textual form by way of `serde_json`.

use crate::text::{same_text, text_before, texts};
use vstd::prelude::*;

verus! {

/// A JSON value. A number is a `u64`, a negative `i64`, or the text of any
/// other number; the members of an object stand in the order of the list.
#[derive(Debug)]
pub enum Json {
    Null,
    Bool(bool),
    PosInt(u64),
    NegInt(i64),
    Real(String),
    Str(String),
    Array(Vec<Json>),
    Object(Vec<(String, Json)>),
}

/// A JSON value as contracts see it.
#[verifier::ext_equal]
pub enum JsonView {
    Null,
    Bool(bool),
    PosInt(u64),
    NegInt(i64),
    Real(Seq<char>),
    Str(Seq<char>),
    Array(Seq<JsonView>),
    Object(Seq<(Seq<char>, JsonView)>),
}

impl Json {
    /// The value as contracts see it.
    pub open spec fn view(&self) -> JsonView
        decreases self,
    {
        match self {
            Json::Null => JsonView::Null,
            Json::Bool(b) => JsonView::Bool(*b),
            Json::PosInt(n) => JsonView::PosInt(*n),
            Json::NegInt(n) => JsonView::NegInt(*n),
            Json::Real(s) => JsonView::Real(s@),
            Json::Str(s) => JsonView::Str(s@),
            Json::Array(items) => JsonView::Array(json_views(items@)),
            Json::Object(members) => JsonView::Object(member_views(members@)),
        }
    }
}

/// The views of a list of values.
pub open spec fn json_views(items: Seq<Json>) -> Seq<JsonView>
    decreases items,
{
    if items.len() == 0 {
        Seq::empty()
    } else {
        json_views(items.drop_last()).push(items.last().view())
    }
}

/// The views of a list of members.
pub open spec fn member_views(members: Seq<(String, Json)>) -> Seq<(Seq<char>, JsonView)>
    decreases members,
{
    if members.len() == 0 {
        Seq::empty()
    } else {
        member_views(members.drop_last()).push((members.last().0@, members.last().1.view()))
    }
}

/// `json_views` maps the list element by element.
pub proof fn lemma_json_views(items: Seq<Json>)
    ensures
        json_views(items).len() == items.len(),
        forall|i: int| 0 <= i < items.len() ==> #[trigger] json_views(items)[i] == items[i].view(),
    decreases items.len(),
{
    if items.len() > 0 {
        lemma_json_views(items.drop_last());
    }
}

/// `member_views` maps the list element by element.
pub proof fn lemma_member_views(members: Seq<(String, Json)>)
    ensures
        member_views(members).len() == members.len(),
        forall|i: int|
            0 <= i < members.len() ==> #[trigger] member_views(members)[i] == (
                members[i].0@,
                members[i].1.view(),
            ),
    decreases members.len(),
{
    if members.len() > 0 {
        lemma_member_views(members.drop_last());
    }
}

/// The value of the first member named `key`, from the `from`th on.
pub open spec fn lookup(members: Seq<(Seq<char>, JsonView)>, key: Seq<char>, from: int) -> Option<
    JsonView,
>
    decreases members.len() - from,
{
    if from < 0 || from >= members.len() {
        None
    } else if members[from].0 == key {
        Some(members[from].1)
    } else {
        lookup(members, key, from + 1)
    }
}

/// Of several members of one name the first is found, and one is found exactly
/// when there is one.
pub proof fn law_first_member_is_found(
    members: Seq<(Seq<char>, JsonView)>,
    key: Seq<char>,
    from: int,
)
    requires
        0 <= from <= members.len(),
    ensures
        match lookup(members, key, from) {
            Some(v) => exists|i: int|
                {
                    &&& from <= i < members.len()
                    &&& #[trigger] members[i] == (key, v)
                    &&& forall|j: int| from <= j < i ==> (#[trigger] members[j]).0 != key
                },
            None => forall|i: int| from <= i < members.len() ==> (#[trigger] members[i]).0 != key,
        },
    decreases members.len() - from,
{
    if from < members.len() {
        if members[from].0 == key {
            assert(members[from] == (key, members[from].1));
        } else {
            law_first_member_is_found(members, key, from + 1);
            if let Some(v) = lookup(members, key, from) {
                let i = choose|i: int|
                    {
                        &&& from + 1 <= i < members.len()
                        &&& #[trigger] members[i] == (key, v)
                        &&& forall|j: int| from + 1 <= j < i ==> (#[trigger] members[j]).0 != key
                    };
                assert(members[i] == (key, v));
            }
        }
    }
}

/// A member that is the only one of its name is what is read under that name.
pub proof fn law_single_members_are_read(
    members: Seq<(Seq<char>, JsonView)>,
    i: int,
)
    requires
        0 <= i < members.len(),
        forall|j: int| 0 <= j < i ==> (#[trigger] members[j]).0 != members[i].0,
    ensures
        JsonView::Object(members).field(members[i].0) == Some(members[i].1),
        members[i].1 matches JsonView::Bool(b) ==> JsonView::Object(members).truth_field(
            members[i].0,
        ) == Some(b),
        members[i].1 matches JsonView::Str(s) ==> JsonView::Object(members).text_field(
            members[i].0,
        ) == Some(s),
        members[i].1 matches JsonView::Array(items) ==> JsonView::Object(members).items_field(
            members[i].0,
        ) == Some(items),
{
    law_first_member_is_found(members, members[i].0, 0);
    assert(members[i] == (members[i].0, members[i].1));
}

impl JsonView {
    /// The member `key` of an object; nothing else has members.
    pub open spec fn field(self, key: Seq<char>) -> Option<JsonView> {
        match self {
            JsonView::Object(members) => lookup(members, key, 0),
            _ => None,
        }
    }

    /// The text of a string value.
    pub open spec fn text(self) -> Option<Seq<char>> {
        match self {
            JsonView::Str(s) => Some(s),
            _ => None,
        }
    }

    /// The text of the member `key`, where it is a string.
    pub open spec fn text_field(self, key: Seq<char>) -> Option<Seq<char>> {
        match self.field(key) {
            Some(v) => v.text(),
            None => None,
        }
    }

    /// The truth value of a boolean value.
    pub open spec fn truth(self) -> Option<bool> {
        match self {
            JsonView::Bool(b) => Some(b),
            _ => None,
        }
    }

    /// The truth value of the member `key`, where it is a boolean.
    pub open spec fn truth_field(self, key: Seq<char>) -> Option<bool> {
        match self.field(key) {
            Some(v) => v.truth(),
            None => None,
        }
    }

    /// The number, where it is a `u64`.
    pub open spec fn unsigned(self) -> Option<u64> {
        match self {
            JsonView::PosInt(n) => Some(n),
            _ => None,
        }
    }

    /// The number, where it is an `i64`.
    pub open spec fn signed(self) -> Option<i64> {
        match self {
            JsonView::PosInt(n) => if n <= i64::MAX {
                Some(n as i64)
            } else {
                None
            },
            JsonView::NegInt(n) => Some(n),
            _ => None,
        }
    }

    /// The items of an array.
    pub open spec fn items(self) -> Option<Seq<JsonView>> {
        match self {
            JsonView::Array(items) => Some(items),
            _ => None,
        }
    }

    /// The items of the member `key`, where it is an array.
    pub open spec fn items_field(self, key: Seq<char>) -> Option<Seq<JsonView>> {
        match self.field(key) {
            Some(v) => v.items(),
            None => None,
        }
    }

    /// The members of an object.
    pub open spec fn members(self) -> Option<Seq<(Seq<char>, JsonView)>> {
        match self {
            JsonView::Object(members) => Some(members),
            _ => None,
        }
    }
}

impl Json {
    /// The member `key` of an object.
    pub fn get(&self, key: &str) -> (r: Option<&Json>)
        ensures
            match r {
                Some(v) => self@.field(key@) == Some(v@),
                None => self@.field(key@) is None,
            },
    {
        match self {
            Json::Object(members) => {
                let mut i: usize = 0;
                proof {
                    lemma_member_views(members@);
                }
                while i < members.len()
                    invariant
                        i <= members@.len(),
                        self@ == JsonView::Object(member_views(members@)),
                        member_views(members@).len() == members@.len(),
                        forall|j: int|
                            0 <= j < members@.len() ==> #[trigger] member_views(members@)[j] == (
                                members@[j].0@,
                                members@[j].1.view(),
                            ),
                        lookup(member_views(members@), key@, 0) == lookup(
                            member_views(members@),
                            key@,
                            i as int,
                        ),
                    decreases members@.len() - i,
                {
                    if same_text(members[i].0.as_str(), key) {
                        return Some(&members[i].1);
                    }
                    i += 1;
                }
                None
            },
            _ => None,
        }
    }

    /// The text of a string value.
    pub fn as_str(&self) -> (r: Option<&str>)
        ensures
            match r {
                Some(s) => self@.text() == Some(s@),
                None => self@.text() is None,
            },
    {
        match self {
            Json::Str(s) => Some(s.as_str()),
            _ => None,
        }
    }

    /// The text of the member `key`, where it is a string.
    pub fn get_str(&self, key: &str) -> (r: Option<&str>)
        ensures
            match r {
                Some(s) => self@.text_field(key@) == Some(s@),
                None => self@.text_field(key@) is None,
            },
    {
        match self.get(key) {
            Some(v) => v.as_str(),
            None => None,
        }
    }

    /// The truth value of a boolean value.
    pub fn as_bool(&self) -> (r: Option<bool>)
        ensures
            r == self@.truth(),
    {
        match self {
            Json::Bool(b) => Some(*b),
            _ => None,
        }
    }

    /// The truth value of the member `key`, where it is a boolean.
    pub fn get_bool(&self, key: &str) -> (r: Option<bool>)
        ensures
            r == self@.truth_field(key@),
    {
        match self.get(key) {
            Some(v) => v.as_bool(),
            None => None,
        }
    }

    /// The number, where it is a `u64`.
    pub fn as_u64(&self) -> (r: Option<u64>)
        ensures
            r == self@.unsigned(),
    {
        match self {
            Json::PosInt(n) => Some(*n),
            _ => None,
        }
    }

    /// The number, where it is an `i64`.
    pub fn as_i64(&self) -> (r: Option<i64>)
        ensures
            r == self@.signed(),
    {
        match self {
            Json::PosInt(n) => if *n <= i64::MAX as u64 {
                Some(*n as i64)
            } else {
                None
            },
            Json::NegInt(n) => Some(*n),
            _ => None,
        }
    }

    /// The items of an array.
    pub fn as_array(&self) -> (r: Option<&Vec<Json>>)
        ensures
            match r {
                Some(v) => self@.items() == Some(json_views(v@)),
                None => self@.items() is None,
            },
    {
        match self {
            Json::Array(items) => Some(items),
            _ => None,
        }
    }

    /// The items of the member `key`, where it is an array.
    pub fn get_array(&self, key: &str) -> (r: Option<&Vec<Json>>)
        ensures
            match r {
                Some(v) => self@.items_field(key@) == Some(json_views(v@)),
                None => self@.items_field(key@) is None,
            },
    {
        match self.get(key) {
            Some(v) => v.as_array(),
            None => None,
        }
    }

    /// The members of an object.
    pub fn as_object(&self) -> (r: Option<&Vec<(String, Json)>>)
        ensures
            match r {
                Some(v) => self@.members() == Some(member_views(v@)),
                None => self@.members() is None,
            },
    {
        match self {
            Json::Object(members) => Some(members),
            _ => None,
        }
    }
}

/// A list of copies of the values.
pub fn copy_items(items: &Vec<Json>) -> (r: Vec<Json>)
    ensures
        json_views(r@) == json_views(items@),
    decreases items,
{
    let mut out: Vec<Json> = Vec::new();
    let mut i: usize = 0;
    proof {
        lemma_json_views(items@);
    }
    while i < items.len()
        invariant
            i == out@.len(),
            i <= items@.len(),
            forall|j: int| 0 <= j < i ==> #[trigger] out@[j].view() == items@[j].view(),
        decreases items@.len() - i,
    {
        proof {
            assert(decreases_to!(items => items@));
            assert(decreases_to!(items@ => items@[i as int]));
        }
        out.push(items[i].clone());
        i += 1;
    }
    proof {
        lemma_json_views(out@);
        assert(json_views(out@) =~= json_views(items@));
    }
    out
}

/// A list of copies of the members.
pub fn copy_members(members: &Vec<(String, Json)>) -> (r: Vec<(String, Json)>)
    ensures
        member_views(r@) == member_views(members@),
    decreases members,
{
    let mut out: Vec<(String, Json)> = Vec::new();
    let mut i: usize = 0;
    proof {
        lemma_member_views(members@);
    }
    while i < members.len()
        invariant
            i == out@.len(),
            i <= members@.len(),
            forall|j: int|
                0 <= j < i ==> (#[trigger] out@[j]).0@ == members@[j].0@ && out@[j].1.view()
                    == members@[j].1.view(),
        decreases members@.len() - i,
    {
        proof {
            assert(decreases_to!(members => members@));
            assert(decreases_to!(members@ => members@[i as int]));
            assert(decreases_to!(members@[i as int] => members@[i as int].1));
        }
        let key = members[i].0.clone();
        let value = members[i].1.clone();
        out.push((key, value));
        i += 1;
    }
    proof {
        lemma_member_views(out@);
        assert(member_views(out@) =~= member_views(members@));
    }
    out
}

impl Clone for Json {
    fn clone(&self) -> (r: Self)
        ensures
            r.view() == self.view(),
        decreases self,
    {
        match self {
            Json::Null => Json::Null,
            Json::Bool(b) => Json::Bool(*b),
            Json::PosInt(n) => Json::PosInt(*n),
            Json::NegInt(n) => Json::NegInt(*n),
            Json::Real(s) => Json::Real(s.clone()),
            Json::Str(s) => Json::Str(s.clone()),
            Json::Array(items) => Json::Array(copy_items(items)),
            Json::Object(members) => Json::Object(copy_members(members)),
        }
    }
}

/// The value that a JSON text denotes, or `None` where `serde_json` refuses it.
pub uninterp spec fn json_of_text(text: Seq<char>) -> Option<JsonView>;

/// The text that `serde_json` writes for a value, without white space.
pub uninterp spec fn json_text(value: JsonView) -> Seq<char>;

/// The view of an optional value.
pub open spec fn opt_json(v: Option<Json>) -> Option<JsonView> {
    match v {
        Some(j) => Some(j@),
        None => None,
    }
}

/// `serde_json::Value`, which this module takes apart and puts together.
#[verifier::external_type_specification]
#[verifier::external_body]
pub struct ExValue(serde_json::Value);

/// `serde_json::Value` taken apart into plain data, variant by variant.
#[verifier::external_body]
fn json_from_value(value: serde_json::Value) -> (r: Json)
{
    match value {
        serde_json::Value::Null => Json::Null,
        serde_json::Value::Bool(b) => Json::Bool(b),
        serde_json::Value::Number(n) => match (n.as_u64(), n.as_i64()) {
            (Some(u), _) => Json::PosInt(u),
            (None, Some(i)) => Json::NegInt(i),
            (None, None) => Json::Real(n.to_string()),
        },
        serde_json::Value::String(s) => Json::Str(s),
        serde_json::Value::Array(v) => Json::Array(v.into_iter().map(json_from_value).collect()),
        serde_json::Value::Object(m) => Json::Object(
            m.into_iter().map(|e| (e.0, json_from_value(e.1))).collect(),
        ),
    }
}

/// Plain data put together into a `serde_json::Value`, variant by variant.
#[verifier::external_body]
fn value_from_json(json: &Json) -> (r: serde_json::Value)
{
    match json {
        Json::Null => serde_json::Value::Null,
        Json::Bool(b) => serde_json::Value::Bool(*b),
        Json::PosInt(n) => serde_json::Value::from(*n),
        Json::NegInt(n) => serde_json::Value::from(*n),
        Json::Real(s) => serde_json::from_str(s).unwrap_or(serde_json::Value::Null),
        Json::Str(s) => serde_json::Value::String(s.clone()),
        Json::Array(v) => serde_json::Value::Array(v.iter().map(value_from_json).collect()),
        Json::Object(m) => serde_json::Value::Object(
            m.iter().map(|e| (e.0.clone(), value_from_json(&e.1))).collect(),
        ),
    }
}

/// `serde_json::from_str` into a value: `None` where the text is not JSON. The
/// result is a function of the text alone.
#[verifier::external_body]
pub(crate) fn parse_json(text: &str) -> (r: Option<Json>)
    ensures
        opt_json(r) == json_of_text(text@),
{
    match serde_json::from_str::<serde_json::Value>(text) {
        Ok(value) => Some(json_from_value(value)),
        Err(_) => None,
    }
}

/// A value that is written in the one way in which it is read: whole numbers by
/// their sign, the members of objects in the order of their names, each once, and
/// no more than `depth` levels deep.
pub open spec fn reads_back(value: JsonView, depth: nat) -> bool
    decreases depth,
{
    match value {
        JsonView::NegInt(n) => n < 0,
        JsonView::Real(_) => false,
        JsonView::Array(items) => depth > 0 && forall|i: int|
            0 <= i < items.len() ==> reads_back(#[trigger] items[i], (depth - 1) as nat),
        JsonView::Object(members) => {
            &&& depth > 0
            &&& forall|i: int|
                0 <= i < members.len() ==> reads_back(
                    (#[trigger] members[i]).1,
                    (depth - 1) as nat,
                )
            &&& forall|i: int, j: int|
                0 <= i < j < members.len() ==> text_before(
                    (#[trigger] members[i]).0,
                    (#[trigger] members[j]).0,
                )
        },
        _ => true,
    }
}

/// How deep a value can be so that it is sure to be read back.
pub const READ_BACK_DEPTH: usize = 100;

/// `serde_json::Value::to_string`: the compact text of a value, a function of
/// the value alone. `serde_json::from_str` gives the value back, as long as it
/// holds no fractions, is in the form in which it is read and is not too deep.
#[verifier::external_body]
pub(crate) fn render_json(json: &Json) -> (r: String)
    ensures
        r@ == json_text(json@),
        reads_back(json@, READ_BACK_DEPTH as nat) ==> json_of_text(r@) == Some(json@),
{
    value_from_json(json).to_string()
}

/// A string value.
pub fn text_value(s: &str) -> (r: Json)
    ensures
        r@ == JsonView::Str(s@),
{
    Json::Str(s.to_owned())
}

/// An object with one member.
pub fn object1(k1: &str, v1: Json) -> (r: Json)
    ensures
        r@ == JsonView::Object(seq![(k1@, v1@)]),
{
    let members = vec![(k1.to_owned(), v1)];
    proof {
        lemma_member_views(members@);
        assert(member_views(members@) =~= seq![(k1@, v1@)]);
    }
    Json::Object(members)
}

/// An object with two members.
pub fn object2(k1: &str, v1: Json, k2: &str, v2: Json) -> (r: Json)
    ensures
        r@ == JsonView::Object(seq![(k1@, v1@), (k2@, v2@)]),
{
    let members = vec![(k1.to_owned(), v1), (k2.to_owned(), v2)];
    proof {
        lemma_member_views(members@);
        assert(member_views(members@) =~= seq![(k1@, v1@), (k2@, v2@)]);
    }
    Json::Object(members)
}

/// An object with three members.
pub fn object3(k1: &str, v1: Json, k2: &str, v2: Json, k3: &str, v3: Json) -> (r: Json)
    ensures
        r@ == JsonView::Object(seq![(k1@, v1@), (k2@, v2@), (k3@, v3@)]),
{
    let members = vec![(k1.to_owned(), v1), (k2.to_owned(), v2), (k3.to_owned(), v3)];
    proof {
        lemma_member_views(members@);
        assert(member_views(members@) =~= seq![(k1@, v1@), (k2@, v2@), (k3@, v3@)]);
    }
    Json::Object(members)
}

/// The members of an object with one more member at the end.
pub fn with_pair(members: Vec<(String, Json)>, key: &str, value: Json) -> (r: Vec<(String, Json)>)
    ensures
        member_views(r@) == member_views(members@).push((key@, value@)),
{
    let mut out = members;
    let ghost before = out@;
    out.push((key.to_owned(), value));
    proof {
        lemma_member_views(before);
        lemma_member_views(out@);
        assert(member_views(out@) =~= member_views(before).push((key@, value@)));
    }
    out
}

/// String values for a list of texts.
pub open spec fn text_values(list: Seq<Seq<char>>) -> Seq<JsonView> {
    list.map_values(|s: Seq<char>| JsonView::Str(s))
}

/// An array of string values.
pub fn text_array(list: &Vec<String>) -> (r: Json)
    ensures
        r@ == JsonView::Array(text_values(texts(list@))),
{
    let mut out: Vec<Json> = Vec::new();
    let mut i: usize = 0;
    while i < list.len()
        invariant
            i <= list@.len(),
            out@.len() == i,
            forall|j: int| 0 <= j < i ==> (#[trigger] out@[j])@ == JsonView::Str(list@[j]@),
        decreases list@.len() - i,
    {
        out.push(Json::Str(list[i].clone()));
        i += 1;
    }
    proof {
        lemma_json_views(out@);
        assert(json_views(out@) =~= text_values(texts(list@)));
    }
    Json::Array(out)
}

/// An array with one string value.
pub fn text_array1(a: &str) -> (r: Json)
    ensures
        r@ == JsonView::Array(seq![JsonView::Str(a@)]),
{
    let items = vec![Json::Str(a.to_owned())];
    proof {
        lemma_json_views(items@);
        assert(json_views(items@) =~= seq![JsonView::Str(a@)]);
    }
    Json::Array(items)
}

/// An array with two string values.
pub fn text_array2(a: &str, b: &str) -> (r: Json)
    ensures
        r@ == JsonView::Array(seq![JsonView::Str(a@), JsonView::Str(b@)]),
{
    let items = vec![Json::Str(a.to_owned()), Json::Str(b.to_owned())];
    proof {
        lemma_json_views(items@);
        assert(json_views(items@) =~= seq![JsonView::Str(a@), JsonView::Str(b@)]);
    }
    Json::Array(items)
}

} // verus!
