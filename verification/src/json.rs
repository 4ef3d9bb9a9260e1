//! JSON documents as plain values.
//!
//! [`Json`] holds what `serde_json::Value` holds. Reading and writing JSON text
//! is `serde_json`'s work; looking things up in a document is done here.

use crate::text::same;
use vstd::prelude::*;

verus! {

/// A JSON document.
#[derive(Debug, PartialEq, Eq)]
pub enum Json {
    Null,
    Bool(bool),
    Int(i64),
    /// An integer above the range of `i64`.
    UInt(u64),
    /// A number that is no integer, by the text it is written as.
    Float(String),
    Str(String),
    Array(Vec<Json>),
    /// The members, in the order in which they are held. A document that was read
    /// holds them sorted by name.
    Object(Vec<(String, Json)>),
}

/// What a JSON document says.
pub enum JsonView {
    Null,
    Bool(bool),
    Int(int),
    Float(Seq<char>),
    Str(Seq<char>),
    Array(Seq<JsonView>),
    Object(Seq<(Seq<char>, JsonView)>),
}

impl View for Json {
    type V = JsonView;

    open spec fn view(&self) -> JsonView {
        json_view(*self)
    }
}

/// What `j` says.
pub open spec fn json_view(j: Json) -> JsonView
    decreases j,
{
    match j {
        Json::Null => JsonView::Null,
        Json::Bool(b) => JsonView::Bool(b),
        Json::Int(n) => JsonView::Int(n as int),
        Json::UInt(n) => JsonView::Int(n as int),
        Json::Float(text) => JsonView::Float(text@),
        Json::Str(text) => JsonView::Str(text@),
        Json::Array(items) => JsonView::Array(
            Seq::new(
                items@.len(),
                |i: int|
                    if 0 <= i < items@.len() {
                        json_view(items@[i])
                    } else {
                        JsonView::Null
                    },
            ),
        ),
        Json::Object(members) => JsonView::Object(
            Seq::new(
                members@.len(),
                |i: int|
                    if 0 <= i < members@.len() {
                        (members@[i].0@, json_view(members@[i].1))
                    } else {
                        (Seq::empty(), JsonView::Null)
                    },
            ),
        ),
    }
}

/// What a list of documents says.
pub open spec fn json_views(items: Seq<Json>) -> Seq<JsonView> {
    items.map_values(|j: Json| json_view(j))
}

/// What `serde_json::from_str` makes of `text`: a document, or the message of
/// its error.
pub uninterp spec fn json_parse(text: Seq<char>) -> Result<JsonView, Seq<char>>;

/// The text that `serde_json` writes for a document.
pub uninterp spec fn json_text(doc: JsonView) -> Seq<char>;

/// `serde_json`'s own document type, carried between the functions below.
#[verifier::external_type_specification]
#[verifier::external_body]
pub struct ExValue(serde_json::Value);

/// One document of `serde_json`, variant by variant, as a [`Json`]: an integer
/// that fits `i64` becomes [`Json::Int`], one above it [`Json::UInt`], any other
/// number keeps the text that `Number`'s `Display` gives. Nothing is claimed of
/// the result on its own; [`read`] claims what a text comes out as.
#[verifier::external_body]
fn of_value(value: serde_json::Value) -> Json {
    match value {
        serde_json::Value::Null => Json::Null,
        serde_json::Value::Bool(b) => Json::Bool(b),
        serde_json::Value::Number(n) => match (n.as_i64(), n.as_u64()) {
            (Some(i), _) => Json::Int(i),
            (None, Some(u)) => Json::UInt(u),
            (None, None) => Json::Float(n.to_string()),
        },
        serde_json::Value::String(s) => Json::Str(s),
        serde_json::Value::Array(a) => Json::Array(a.into_iter().map(of_value).collect()),
        serde_json::Value::Object(o) =>
            Json::Object(o.into_iter().map(|(k, v)| (k, of_value(v))).collect()),
    }
}

/// The document of `serde_json` that `json` stands for, variant by variant.
/// Nothing is claimed of the result on its own; [`write`] claims what text it is
/// written as.
#[verifier::external_body]
fn to_value(json: &Json) -> serde_json::Value {
    match json {
        Json::Null => serde_json::Value::Null,
        Json::Bool(b) => serde_json::Value::Bool(*b),
        Json::Int(n) => serde_json::Value::from(*n),
        Json::UInt(n) => serde_json::Value::from(*n),
        Json::Float(text) => text.parse().map_or(serde_json::Value::Null, serde_json::Value::Number),
        Json::Str(s) => serde_json::Value::String(s.clone()),
        Json::Array(a) => serde_json::Value::Array(a.iter().map(to_value).collect()),
        Json::Object(o) =>
            serde_json::Value::Object(o.iter().map(|(k, v)| (k.clone(), to_value(v))).collect()),
    }
}

/// `serde_json::from_str`: the document that `text` is, or the message of the
/// error. Both are functions of the text alone, named by [`json_parse`].
#[verifier::external_body]
fn read(text: &str) -> (r: Result<Json, String>)
    ensures
        match r {
            Ok(doc) => json_parse(text@) == Ok::<JsonView, Seq<char>>(doc@),
            Err(message) => json_parse(text@) == Err::<JsonView, Seq<char>>(message@),
        },
{
    match serde_json::from_str(text) {
        Ok(value) => Ok(of_value(value)),
        Err(e) => Err(e.to_string()),
    }
}

/// `serde_json::Value`'s `Display`: the compact text of a document. It is a
/// function of the document alone, named by [`json_text`].
#[verifier::external_body]
fn write(doc: &Json) -> (r: String)
    ensures
        r@ == json_text(doc@),
{
    to_value(doc).to_string()
}

/// What the members of an object say.
pub open spec fn member_views(members: Seq<(String, Json)>) -> Seq<(Seq<char>, JsonView)> {
    members.map_values(|m: (String, Json)| (m.0@, json_view(m.1)))
}

/// The debugging form of the members of an object.
pub uninterp spec fn json_debug(members: Seq<(Seq<char>, JsonView)>) -> Seq<char>;

/// The `Debug` form of `serde_json::Map`. It is a function of the members alone, named
/// by [`json_debug`].
#[verifier::external_body]
pub(crate) fn debug(members: &Vec<(String, Json)>) -> (r: String)
    ensures
        r@ == json_debug(member_views(members@)),
{
    let map: serde_json::Map<String, serde_json::Value> =
        members.iter().map(|(k, v)| (k.clone(), to_value(v))).collect();
    format!("{map:?}")
}

/// The value of the first member called `key` at or after `from`.
pub open spec fn member(members: Seq<(Seq<char>, JsonView)>, key: Seq<char>, from: int) -> Option<
    JsonView,
>
    decreases members.len() - from,
{
    if from < 0 || from >= members.len() {
        None
    } else if members[from].0 == key {
        Some(members[from].1)
    } else {
        member(members, key, from + 1)
    }
}

impl JsonView {
    /// The member called `key`, when this is an object that has one.
    pub open spec fn get(self, key: Seq<char>) -> Option<JsonView> {
        match self {
            JsonView::Object(members) => member(members, key, 0),
            _ => None,
        }
    }

    /// The text, when this is a string.
    pub open spec fn text(self) -> Option<Seq<char>> {
        match self {
            JsonView::Str(s) => Some(s),
            _ => None,
        }
    }

    /// The number, when this is an integer in the range of `i64`.
    pub open spec fn whole(self) -> Option<int> {
        match self {
            JsonView::Int(n) => if i64::MIN <= n <= i64::MAX {
                Some(n)
            } else {
                None
            },
            _ => None,
        }
    }

    /// The truth value, when this is one.
    pub open spec fn truth(self) -> Option<bool> {
        match self {
            JsonView::Bool(b) => Some(b),
            _ => None,
        }
    }

    /// This object with one more member at its end.
    pub open spec fn with(self, key: Seq<char>, value: JsonView) -> JsonView {
        match self {
            JsonView::Object(members) => JsonView::Object(members.push((key, value))),
            _ => self,
        }
    }

    /// The object without members.
    pub open spec fn empty() -> JsonView {
        JsonView::Object(Seq::empty())
    }

    /// The text of the member called `key`.
    pub open spec fn text_of(self, key: Seq<char>) -> Option<Seq<char>> {
        match self.get(key) {
            Some(v) => v.text(),
            None => None,
        }
    }
}

/// The view of an optional string.
pub open spec fn opt_view(s: Option<&str>) -> Option<Seq<char>> {
    match s {
        Some(s) => Some(s@),
        None => None,
    }
}

/// The view of an optional owned string.
pub open spec fn opt_string(s: Option<String>) -> Option<Seq<char>> {
    match s {
        Some(s) => Some(s@),
        None => None,
    }
}

impl Json {
    /// Read a JSON text.
    pub fn parse(text: &str) -> (r: Result<Json, String>)
        ensures
            match r {
                Ok(doc) => json_parse(text@) == Ok::<JsonView, Seq<char>>(doc@),
                Err(message) => json_parse(text@) == Err::<JsonView, Seq<char>>(message@),
            },
    {
        read(text)
    }

    /// The compact text of this document.
    pub fn render(&self) -> (r: String)
        ensures
            r@ == json_text(self@),
    {
        write(self)
    }

    /// The member called `key`.
    pub fn get(&self, key: &str) -> (r: Option<&Json>)
        ensures
            r is Some <==> self@.get(key@) is Some,
            r matches Some(v) ==> self@.get(key@) == Some(v@),
    {
        match self {
            Json::Object(members) => {
                let mut i: usize = 0;
                let ghost all = self@->Object_0;
                while i < members.len()
                    invariant
                        i <= members@.len(),
                        *self == Json::Object(*members),
                        self@ == JsonView::Object(all),
                        all.len() == members@.len(),
                        forall|k: int|
                            0 <= k < all.len() ==> #[trigger] all[k] == (
                                members@[k].0@,
                                json_view(members@[k].1),
                            ),
                        member(all, key@, 0) == member(all, key@, i as int),
                    decreases members@.len() - i,
                {
                    assert(all[i as int].0 == members@[i as int].0@);
                    if same(members[i].0.as_str(), key) {
                        return Some(&members[i].1);
                    }
                    i += 1;
                }
                None
            },
            _ => None,
        }
    }

    /// The text, when this is a string.
    pub fn as_str(&self) -> (r: Option<&str>)
        ensures
            opt_view(r) == self@.text(),
    {
        match self {
            Json::Str(s) => Some(s.as_str()),
            _ => None,
        }
    }

    /// The number, when this is an integer in the range of `i64`.
    pub fn as_i64(&self) -> (r: Option<i64>)
        ensures
            r is Some <==> self@.whole() is Some,
            r matches Some(n) ==> self@.whole() == Some(n as int),
    {
        match self {
            Json::Int(n) => Some(*n),
            Json::UInt(n) => if *n <= i64::MAX as u64 {
                Some(*n as i64)
            } else {
                None
            },
            _ => None,
        }
    }

    /// The truth value, when this is one.
    pub fn as_bool(&self) -> (r: Option<bool>)
        ensures
            r == self@.truth(),
    {
        match self {
            Json::Bool(b) => Some(*b),
            _ => None,
        }
    }

    /// Whether this is `null`.
    pub fn is_null(&self) -> (r: bool)
        ensures
            r == (self@ is Null),
    {
        match self {
            Json::Null => true,
            _ => false,
        }
    }

    /// The text of the member called `key`.
    pub fn text_of(&self, key: &str) -> (r: Option<&str>)
        ensures
            opt_view(r) == self@.text_of(key@),
    {
        match self.get(key) {
            Some(v) => v.as_str(),
            None => None,
        }
    }

    /// The object without members.
    pub fn empty() -> (r: Json)
        ensures
            r@ == JsonView::empty(),
    {
        let r = Json::Object(Vec::new());
        assert(r@->Object_0 =~= Seq::<(Seq<char>, JsonView)>::empty());
        r
    }

    /// This object with one more member at its end.
    pub fn with(self, key: &str, value: Json) -> (r: Json)
        ensures
            r@ == self@.with(key@, value@),
    {
        match self {
            Json::Object(members) => {
                let ghost before = json_view(Json::Object(members))->Object_0;
                let mut members = members;
                members.push((key.to_owned(), value));
                let r = Json::Object(members);
                assert(r@->Object_0 =~= before.push((key@, value@)));
                r
            },
            other => other,
        }
    }

    /// The string `text`.
    pub fn string(text: &str) -> (r: Json)
        ensures
            r@ == JsonView::Str(text@),
    {
        Json::Str(text.to_owned())
    }

    /// The array of `items`.
    pub fn array(items: Vec<Json>) -> (r: Json)
        ensures
            r@ == JsonView::Array(json_views(items@)),
    {
        let r = Json::Array(items);
        assert(r@->Array_0 =~= json_views(items@));
        r
    }

    /// A copy of this document.
    pub fn copy(&self) -> (r: Json)
        ensures
            r@ == self@,
        decreases self,
    {
        match self {
            Json::Null => Json::Null,
            Json::Bool(b) => Json::Bool(*b),
            Json::Int(n) => Json::Int(*n),
            Json::UInt(n) => Json::UInt(*n),
            Json::Float(s) => Json::Float(s.clone()),
            Json::Str(s) => Json::Str(s.clone()),
            Json::Array(items) => {
                let mut out: Vec<Json> = Vec::new();
                let mut i: usize = 0;
                while i < items.len()
                    invariant
                        i <= items@.len(),
                        out@.len() == i,
                        *self == Json::Array(*items),
                        forall|k: int|
                            0 <= k < i ==> json_view(#[trigger] out@[k]) == json_view(items@[k]),
                    decreases items@.len() - i,
                {
                    let item = &items[i];
                    assert(decreases_to!(*self => self->Array_0));
                    assert(decreases_to!(items@ => items@[i as int]));
                    out.push(item.copy());
                    i += 1;
                }
                let r = Json::Array(out);
                assert(r@->Array_0 =~= self@->Array_0);
                r
            },
            Json::Object(members) => {
                let mut out: Vec<(String, Json)> = Vec::new();
                let mut i: usize = 0;
                while i < members.len()
                    invariant
                        i <= members@.len(),
                        out@.len() == i,
                        *self == Json::Object(*members),
                        forall|k: int|
                            0 <= k < i ==> (#[trigger] out@[k]).0@ == members@[k].0@ && json_view(
                                out@[k].1,
                            ) == json_view(members@[k].1),
                    decreases members@.len() - i,
                {
                    let entry = &members[i];
                    assert(decreases_to!(*self => self->Object_0));
                    assert(decreases_to!(members@ => members@[i as int]));
                    out.push((entry.0.clone(), entry.1.copy()));
                    i += 1;
                }
                let r = Json::Object(out);
                assert(r@->Object_0 =~= self@->Object_0);
                r
            },
        }
    }
}

impl Clone for Json {
    fn clone(&self) -> (r: Self)
        ensures
            r@ == self@,
    {
        self.copy()
    }
}

impl Default for Json {
    fn default() -> (r: Self)
        ensures
            r@ == JsonView::Null,
    {
        Json::Null
    }
}

proof fn member_of_longer(
    members: Seq<(Seq<char>, JsonView)>,
    last: (Seq<char>, JsonView),
    key: Seq<char>,
    from: int,
)
    requires
        0 <= from <= members.len(),
    ensures
        member(members.push(last), key, from) == match member(members, key, from) {
            Some(value) => Some(value),
            None => if last.0 == key {
                Some(last.1)
            } else {
                None
            },
        },
    decreases members.len() - from,
{
    let longer = members.push(last);
    if from < members.len() {
        assert(longer[from] == members[from]);
        member_of_longer(members, last, key, from + 1);
    } else {
        assert(longer[from] == last);
        reveal_with_fuel(member, 2);
    }
}

/// A member put into a document is read back as it was put in, and every other name
/// reads as it did before. A document without members has none to read.
pub proof fn a_member_put_in_is_read_back(
    doc: JsonView,
    key: Seq<char>,
    value: JsonView,
    other: Seq<char>,
)
    requires
        doc is Object,
        doc.get(key) is None,
    ensures
        doc.with(key, value) is Object,
        doc.with(key, value).get(key) == Some(value),
        other != key ==> doc.with(key, value).get(other) == doc.get(other),
        JsonView::empty() is Object,
        JsonView::empty().get(other) is None,
{
    let members = doc->Object_0;
    member_of_longer(members, (key, value), key, 0);
    member_of_longer(members, (key, value), other, 0);
}

/// Looking a name up finds the first member that has it, and finds nothing only where
/// no member has it. What is no object has no members.
pub proof fn the_first_member_of_a_name_counts(doc: JsonView, key: Seq<char>)
    ensures
        !(doc is Object) ==> doc.get(key) is None,
        doc matches JsonView::Object(members) ==> match doc.get(key) {
            Some(value) => exists|i: int|
                0 <= i < members.len() && #[trigger] members[i] == (key, value) && forall|j: int|
                    0 <= j < i ==> (#[trigger] members[j]).0 != key,
            None => forall|i: int| 0 <= i < members.len() ==> (#[trigger] members[i]).0 != key,
        },
{
    if let JsonView::Object(members) = doc {
        first_member(members, key, 0);
    }
}

proof fn first_member(members: Seq<(Seq<char>, JsonView)>, key: Seq<char>, from: int)
    requires
        0 <= from <= members.len(),
    ensures
        match member(members, key, from) {
            Some(value) => exists|i: int|
                from <= i < members.len() && #[trigger] members[i] == (key, value) && forall|
                    j: int,
                |
                    from <= j < i ==> (#[trigger] members[j]).0 != key,
            None => forall|i: int| from <= i < members.len() ==> (#[trigger] members[i]).0 != key,
        },
    decreases members.len() - from,
{
    if from < members.len() {
        if members[from].0 == key {
            assert(members[from] == (key, members[from].1));
        } else {
            first_member(members, key, from + 1);
            if let Some(value) = member(members, key, from + 1) {
                let i = choose|i: int|
                    from + 1 <= i < members.len() && #[trigger] members[i] == (key, value)
                        && forall|j: int| from + 1 <= j < i ==> (#[trigger] members[j]).0 != key;
                assert(members[i] == (key, value));
            }
        }
    }
}

/// A document reads as what it holds and as nothing else: text as text, a truth value
/// as a truth value, and a number as a whole number where it is one that `i64` holds.
pub proof fn a_value_reads_as_what_it_is(doc: JsonView)
    ensures
        forall|text: Seq<char>| doc.text() == Some(text) <==> doc == JsonView::Str(text),
        forall|b: bool| doc.truth() == Some(b) <==> doc == JsonView::Bool(b),
        forall|n: int|
            doc.whole() == Some(n) <==> doc == JsonView::Int(n) && i64::MIN <= n <= i64::MAX,
        forall|key: Seq<char>, text: Seq<char>|
            doc.text_of(key) == Some(text) <==> doc.get(key) == Some(JsonView::Str(text)),
{
}

/// A held document says what it holds, part by part and in order; the two ways to hold
/// an integer make no difference.
pub proof fn a_document_says_what_it_holds(j: Json)
    ensures
        match j {
            Json::Null => j@ == JsonView::Null,
            Json::Bool(b) => j@ == JsonView::Bool(b),
            Json::Int(n) => j@ == JsonView::Int(n as int),
            Json::UInt(n) => j@ == JsonView::Int(n as int),
            Json::Float(text) => j@ == JsonView::Float(text@),
            Json::Str(text) => j@ == JsonView::Str(text@),
            Json::Array(items) => j@ matches JsonView::Array(list) && list.len() == items@.len()
                && forall|i: int| 0 <= i < list.len() ==> #[trigger] list[i] == items@[i]@,
            Json::Object(members) => j@ matches JsonView::Object(list) && list.len()
                == members@.len() && forall|i: int|
                0 <= i < list.len() ==> #[trigger] list[i] == (
                    members@[i].0@,
                    members@[i].1@,
                ),
        },
{
}

} // verus!
