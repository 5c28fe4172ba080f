//! A JSON value as the bridge reads and writes it.
//!
//! Parsing and printing are done by `serde_json`; everything in between works
//! on the plain tree defined here.

use crate::text::str_eq;
use vstd::prelude::*;
use vstd::string::*;

verus! {

/// A JSON number: a non-negative integer, a negative integer, or the decimal
/// text of anything else.
#[derive(Debug, Clone, PartialEq, Eq)]
pub enum JsonNumber {
    PosInt(u64),
    NegInt(i64),
    Float(String),
}

/// A JSON value. An object keeps its members in order; where a key occurs
/// more than once the last occurrence is the member of that name.
#[derive(Debug, PartialEq, Eq)]
pub enum Json {
    Null,
    Bool(bool),
    Number(JsonNumber),
    Str(String),
    Array(Vec<Json>),
    Object(Vec<(String, Json)>),
}

/// Mathematical model of a [`JsonNumber`].
pub enum NumberView {
    PosInt(u64),
    NegInt(i64),
    Float(Seq<char>),
}

/// Mathematical model of a [`Json`] value.
pub enum JsonView {
    Null,
    Bool(bool),
    Number(NumberView),
    Str(Seq<char>),
    Array(Seq<JsonView>),
    Object(Seq<(Seq<char>, JsonView)>),
}

impl View for JsonNumber {
    type V = NumberView;

    open spec fn view(&self) -> NumberView {
        match self {
            JsonNumber::PosInt(u) => NumberView::PosInt(*u),
            JsonNumber::NegInt(i) => NumberView::NegInt(*i),
            JsonNumber::Float(t) => NumberView::Float(t@),
        }
    }
}

/// The model of a value: strings by their characters, arrays and objects
/// element by element.
pub open spec fn json_view(j: Json) -> JsonView
    decreases j,
{
    match j {
        Json::Null => JsonView::Null,
        Json::Bool(b) => JsonView::Bool(b),
        Json::Number(n) => JsonView::Number(n@),
        Json::Str(s) => JsonView::Str(s@),
        Json::Array(items) => JsonView::Array(
            Seq::new(
                items@.len(),
                |i: int|
                    if 0 <= i < items@.len() {
                        json_view(items@[i])
                    } else {
                        JsonView::Null
                    },
            ),
        ),
        Json::Object(members) => JsonView::Object(
            Seq::new(
                members@.len(),
                |i: int|
                    if 0 <= i < members@.len() {
                        (members@[i].0@, json_view(members@[i].1))
                    } else {
                        (Seq::empty(), JsonView::Null)
                    },
            ),
        ),
    }
}

impl View for Json {
    type V = JsonView;

    open spec fn view(&self) -> JsonView {
        json_view(*self)
    }
}

/// The member of an object that a key names: the last one with that key.
pub open spec fn member(members: Seq<(Seq<char>, JsonView)>, key: Seq<char>) -> Option<JsonView>
    decreases members.len(),
{
    if members.len() == 0 {
        None
    } else if members.last().0 == key {
        Some(members.last().1)
    } else {
        member(members.drop_last(), key)
    }
}

impl JsonView {
    /// The member `key` of an object; `None` for anything that is no object
    /// or has no such member.
    pub open spec fn get(self, key: Seq<char>) -> Option<JsonView> {
        match self {
            JsonView::Object(members) => member(members, key),
            _ => None,
        }
    }

    /// The text of a string value.
    pub open spec fn as_str(self) -> Option<Seq<char>> {
        match self {
            JsonView::Str(s) => Some(s),
            _ => None,
        }
    }

    /// The truth value of a boolean.
    pub open spec fn as_bool(self) -> Option<bool> {
        match self {
            JsonView::Bool(b) => Some(b),
            _ => None,
        }
    }

    /// The elements of an array.
    pub open spec fn as_array(self) -> Option<Seq<JsonView>> {
        match self {
            JsonView::Array(items) => Some(items),
            _ => None,
        }
    }

    /// The value of a number that is a non-negative integer.
    pub open spec fn as_u64(self) -> Option<u64> {
        match self {
            JsonView::Number(NumberView::PosInt(u)) => Some(u),
            _ => None,
        }
    }

    /// The text of the string member `key`, if the value has one.
    pub open spec fn str_at(self, key: Seq<char>) -> Option<Seq<char>> {
        match self.get(key) {
            Some(v) => v.as_str(),
            None => None,
        }
    }
}

/// The members of an object, as its view holds them.
pub open spec fn members_view(members: Seq<(String, Json)>) -> Seq<(Seq<char>, JsonView)> {
    Seq::new(members.len(), |i: int| (members[i].0@, members[i].1@))
}

/// The elements of an array, as its view holds them.
pub open spec fn items_view(items: Seq<Json>) -> Seq<JsonView> {
    Seq::new(items.len(), |i: int| items[i]@)
}

/// The view of an object is the view of its members, one by one.
pub proof fn lemma_object_view(members: Vec<(String, Json)>)
    ensures
        Json::Object(members)@ == JsonView::Object(members_view(members@)),
{
    let j = Json::Object(members);
    assert(j@->Object_0 =~= members_view(members@));
}

/// The view of an array is the view of its elements, one by one.
pub proof fn lemma_array_view(items: Vec<Json>)
    ensures
        Json::Array(items)@ == JsonView::Array(items_view(items@)),
{
    let j = Json::Array(items);
    assert(j@->Array_0 =~= items_view(items@));
}

impl Json {
    /// The member `key` of an object.
    pub fn get(&self, key: &str) -> (r: Option<&Json>)
        ensures
            match r {
                Some(j) => self@.get(key@) == Some(j@),
                None => self@.get(key@) is None,
            },
    {
        match self {
            Json::Object(members) => {
                proof {
                    lemma_object_view(*members);
                }
                let ghost all = members_view(members@);
                let mut i: usize = members.len();
                assert(all.take(i as int) =~= all);
                while i > 0
                    invariant
                        i <= members.len(),
                        all == members_view(members@),
                        member(all, key@) == member(all.take(i as int), key@),
                        self@ == JsonView::Object(all),
                    decreases i,
                {
                    i = i - 1;
                    proof {
                        let upto = all.take(i + 1);
                        assert(upto.last() == all[i as int]);
                        assert(upto.drop_last() =~= all.take(i as int));
                    }
                    if str_eq(members[i].0.as_str(), key) {
                        return Some(&members[i].1);
                    }
                }
                assert(all.take(0).len() == 0);
                None
            },
            _ => None,
        }
    }

    /// The text of a string value.
    pub fn as_str(&self) -> (r: Option<&str>)
        ensures
            match r {
                Some(s) => self@.as_str() == Some(s@),
                None => self@.as_str() is None,
            },
    {
        match self {
            Json::Str(s) => Some(s.as_str()),
            _ => None,
        }
    }

    /// The truth value of a boolean.
    pub fn as_bool(&self) -> (r: Option<bool>)
        ensures
            r == self@.as_bool(),
    {
        match self {
            Json::Bool(b) => Some(*b),
            _ => None,
        }
    }

    /// The value of a number that is a non-negative integer.
    pub fn as_u64(&self) -> (r: Option<u64>)
        ensures
            r == self@.as_u64(),
    {
        match self {
            Json::Number(JsonNumber::PosInt(u)) => Some(*u),
            _ => None,
        }
    }

    /// The elements of an array.
    pub fn as_array(&self) -> (r: Option<&Vec<Json>>)
        ensures
            match r {
                Some(items) => self@.as_array() == Some(items_view(items@)),
                None => self@.as_array() is None,
            },
    {
        match self {
            Json::Array(items) => {
                proof {
                    lemma_array_view(*items);
                }
                Some(items)
            },
            _ => None,
        }
    }

    /// Reads a text as JSON.
    pub fn parse(text: &str) -> (r: Result<Json, String>)
        ensures
            parsed_view(r) == json_parse(text@),
    {
        parse_json(text)
    }

    /// Writes the value as compact JSON text.
    pub fn to_text(&self) -> (s: String)
        ensures
            s@ == json_text(self@),
    {
        print_json(self)
    }

    /// Whether the value is `null`.
    pub fn is_null(&self) -> (r: bool)
        ensures
            r == (self@ == JsonView::Null),
    {
        match self {
            Json::Null => true,
            _ => false,
        }
    }

    /// The text of the string member `key`.
    pub fn str_at(&self, key: &str) -> (r: Option<&str>)
        ensures
            match r {
                Some(s) => self@.str_at(key@) == Some(s@),
                None => self@.str_at(key@) is None,
            },
    {
        match self.get(key) {
            Some(v) => v.as_str(),
            None => None,
        }
    }
}

/// `serde_json`'s own tree, carried between its parser and printer and the
/// conversions below; nothing in this crate looks inside it.
#[verifier::external_type_specification]
#[verifier::external_body]
pub struct ExValue(serde_json::Value);

/// What `serde_json::from_str` makes of a text: the value it parses to, or
/// the text of the error it reports. The members of an object stand in the
/// order in which `serde_json`'s map hands them out; a number stands as
/// `PosInt` where `as_u64` gives it, else as `NegInt` where `as_i64` gives
/// it, else as `Float` with the text that `serde_json` prints for it.
pub uninterp spec fn json_parse(text: Seq<char>) -> Result<JsonView, Seq<char>>;

/// The compact text that `serde_json` prints for a value, once the value
/// is built as a `serde_json::Value`: members are inserted into
/// `serde_json`'s map in order, so the last member of a name is the one
/// printed; the text of a `Float` is read back by `serde_json` and prints
/// as `null` where it is no JSON text.
pub uninterp spec fn json_text(value: JsonView) -> Seq<char>;

/// What `serde_json::to_string_pretty` makes of a value, built as for
/// [`json_text`]: the indented text, or `None` where it reports an error.
pub uninterp spec fn json_pretty_text(value: JsonView) -> Option<Seq<char>>;

/// What `json5::from_str` makes of a text: the value it parses to, read as
/// for [`json_parse`], or the text of the error it reports.
pub uninterp spec fn json5_parse(text: Seq<char>) -> Result<JsonView, Seq<char>>;

/// The view of an optional value.
pub open spec fn opt_view(j: Option<Json>) -> Option<JsonView> {
    match j {
        Some(v) => Some(v@),
        None => None,
    }
}

/// The view of the result of a parse.
pub open spec fn parsed_view(r: Result<Json, String>) -> Result<JsonView, Seq<char>> {
    match r {
        Ok(v) => Ok(v@),
        Err(e) => Err(e@),
    }
}

/// The value of a parse that succeeded.
pub open spec fn parsed_ok(r: Result<JsonView, Seq<char>>) -> Option<JsonView> {
    match r {
        Ok(v) => Some(v),
        Err(_) => None,
    }
}

/// What a `serde_json::Value` holds, as a value of this crate: each variant
/// as the variant of the same kind; the members of an object in the order
/// in which `serde_json`'s map hands them out; a number as `PosInt` where
/// `as_u64` gives it, else as `NegInt` where `as_i64` gives it, else as
/// `Float` with the text that `serde_json` prints for it.
pub uninterp spec fn value_view(v: serde_json::Value) -> JsonView;

/// The compact text that `serde_json` prints for one of its values.
pub uninterp spec fn value_text(v: serde_json::Value) -> Seq<char>;

/// What `serde_json::to_string_pretty` makes of one of `serde_json`'s
/// values: the indented text, or `None` where it reports an error.
pub uninterp spec fn value_pretty_text(v: serde_json::Value) -> Option<Seq<char>>;

/// Moves a `serde_json::Value` into a [`Json`], variant by variant, as
/// [`value_view`] describes it.
#[verifier::external_body]
fn from_value(v: serde_json::Value) -> (j: Json)
    ensures
        j@ == value_view(v),
{
    match v {
        serde_json::Value::Null => Json::Null,
        serde_json::Value::Bool(b) => Json::Bool(b),
        serde_json::Value::Number(n) => Json::Number(match (n.as_u64(), n.as_i64()) {
            (Some(u), _) => JsonNumber::PosInt(u),
            (None, Some(i)) => JsonNumber::NegInt(i),
            (None, None) => JsonNumber::Float(n.to_string()),
        }),
        serde_json::Value::String(s) => Json::Str(s),
        serde_json::Value::Array(a) => Json::Array(a.into_iter().map(from_value).collect()),
        serde_json::Value::Object(m) => {
            Json::Object(m.into_iter().map(|(k, x)| (k, from_value(x))).collect())
        },
    }
}

/// Builds the `serde_json::Value` for a [`Json`], variant by variant. Object
/// members are inserted in order, so a later member replaces an earlier one
/// of the same name; the text of a `Float` is read back by `serde_json` and
/// stands for `null` where it is no JSON text. What `serde_json` prints for
/// the result is what [`json_text`] and [`json_pretty_text`] name for the
/// value.
#[verifier::external_body]
fn to_value(j: &Json) -> (v: serde_json::Value)
    ensures
        value_text(v) == json_text(j@),
        value_pretty_text(v) == json_pretty_text(j@),
{
    match j {
        Json::Null => serde_json::Value::Null,
        Json::Bool(b) => serde_json::Value::Bool(*b),
        Json::Number(JsonNumber::PosInt(u)) => serde_json::Value::from(*u),
        Json::Number(JsonNumber::NegInt(i)) => serde_json::Value::from(*i),
        Json::Number(JsonNumber::Float(t)) => t.parse().unwrap_or(serde_json::Value::Null),
        Json::Str(s) => serde_json::Value::String(s.clone()),
        Json::Array(a) => serde_json::Value::Array(a.iter().map(to_value).collect()),
        Json::Object(m) => {
            serde_json::Value::Object(m.iter().map(|(k, x)| (k.clone(), to_value(x))).collect())
        },
    }
}

/// Calls `serde_json::from_str` for a `serde_json::Value`; an error is given
/// as the text it displays. What comes back is what [`json_parse`] names
/// for the text.
#[verifier::external_body]
fn parse_value(text: &str) -> (r: Result<serde_json::Value, String>)
    ensures
        match r {
            Ok(v) => json_parse(text@) == Ok::<JsonView, Seq<char>>(value_view(v)),
            Err(e) => json_parse(text@) == Err::<JsonView, Seq<char>>(e@),
        },
{
    serde_json::from_str::<serde_json::Value>(text).map_err(|e| e.to_string())
}

/// Calls `json5::from_str` for a `serde_json::Value`; an error is given as
/// the text it displays. What comes back is what [`json5_parse`] names for
/// the text.
#[verifier::external_body]
fn parse_value5(text: &str) -> (r: Result<serde_json::Value, String>)
    ensures
        match r {
            Ok(v) => json5_parse(text@) == Ok::<JsonView, Seq<char>>(value_view(v)),
            Err(e) => json5_parse(text@) == Err::<JsonView, Seq<char>>(e@),
        },
{
    json5::from_str::<serde_json::Value>(text).map_err(|e| e.to_string())
}

/// Prints a `serde_json::Value` with its `Display`, the compact form
/// without spaces.
#[verifier::external_body]
fn print_value(v: &serde_json::Value) -> (s: String)
    ensures
        s@ == value_text(*v),
{
    v.to_string()
}

/// Prints a `serde_json::Value` with `serde_json::to_string_pretty`; `None`
/// where that reports an error. The outcome is what [`value_pretty_text`]
/// names for the value.
#[verifier::external_body]
fn print_value_pretty(v: &serde_json::Value) -> (s: Option<String>)
    ensures
        crate::session::opt_str_view(s) == value_pretty_text(*v),
{
    serde_json::to_string_pretty(v).ok()
}

/// Reads a text as JSON.
pub(crate) fn parse_json(text: &str) -> (r: Result<Json, String>)
    ensures
        parsed_view(r) == json_parse(text@),
{
    match parse_value(text) {
        Ok(v) => Ok(from_value(v)),
        Err(e) => Err(e),
    }
}

/// Writes a value as compact JSON text.
pub(crate) fn print_json(j: &Json) -> (s: String)
    ensures
        s@ == json_text(j@),
{
    let v = to_value(j);
    print_value(&v)
}

/// Writes a value as indented JSON text; `None` where the printer reports
/// an error.
pub(crate) fn print_json_pretty(j: &Json) -> (s: Option<String>)
    ensures
        crate::session::opt_str_view(s) == json_pretty_text(j@),
{
    let v = to_value(j);
    print_value_pretty(&v)
}

/// Reads a text as JSON5.
pub(crate) fn parse_json5(text: &str) -> (r: Result<Json, String>)
    ensures
        parsed_view(r) == json5_parse(text@),
{
    match parse_value5(text) {
        Ok(v) => Ok(from_value(v)),
        Err(e) => Err(e),
    }
}

impl Json {
    /// A copy of the value.
    pub fn deep_clone(&self) -> (r: Json)
        ensures
            r@ == self@,
        decreases self,
    {
        match self {
            Json::Null => Json::Null,
            Json::Bool(b) => Json::Bool(*b),
            Json::Number(JsonNumber::PosInt(u)) => Json::Number(JsonNumber::PosInt(*u)),
            Json::Number(JsonNumber::NegInt(i)) => Json::Number(JsonNumber::NegInt(*i)),
            Json::Number(JsonNumber::Float(t)) => Json::Number(JsonNumber::Float(t.clone())),
            Json::Str(s) => Json::Str(s.clone()),
            Json::Array(items) => {
                let mut out: Vec<Json> = Vec::new();
                let mut i: usize = 0;
                while i < items.len()
                    invariant
                        i <= items.len(),
                        out.len() == i,
                        *self == Json::Array(*items),
                        forall|k: int| 0 <= k < i ==> (#[trigger] out@[k])@ == items@[k]@,
                    decreases items.len() - i,
                {
                    proof {
                        vstd::std_specs::vec::axiom_vec_index_decreases(*items, i as int);
                        assert(self->Array_0 == *items);
                    }
                    let item = items[i].deep_clone();
                    out.push(item);
                    i = i + 1;
                }
                proof {
                    lemma_array_view(*items);
                    lemma_array_view(out);
                    assert(items_view(out@) =~= items_view(items@));
                }
                Json::Array(out)
            },
            Json::Object(members) => {
                let mut out: Vec<(String, Json)> = Vec::new();
                let mut i: usize = 0;
                while i < members.len()
                    invariant
                        i <= members.len(),
                        out.len() == i,
                        *self == Json::Object(*members),
                        forall|k: int|
                            0 <= k < i ==> (#[trigger] out@[k]).0@ == members@[k].0@ && out@[k].1@
                                == members@[k].1@,
                    decreases members.len() - i,
                {
                    proof {
                        vstd::std_specs::vec::axiom_vec_index_decreases(*members, i as int);
                        assert(self->Object_0 == *members);
                    }
                    let value = members[i].1.deep_clone();
                    out.push((members[i].0.clone(), value));
                    i = i + 1;
                }
                proof {
                    lemma_object_view(*members);
                    lemma_object_view(out);
                    assert(members_view(out@) =~= members_view(members@));
                }
                Json::Object(out)
            },
        }
    }
}

impl Clone for Json {
    fn clone(&self) -> (r: Json)
        ensures
            r@ == self@,
    {
        self.deep_clone()
    }
}

} // verus!
