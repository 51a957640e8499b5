//! JSON values: the tree that the library reads and builds, and the texts it comes from
//! and goes to.

use vstd::prelude::*;

use crate::number;
use crate::text::same;

verus! {

/// A JSON value.
#[derive(Debug)]
pub enum Json {
    Null,
    Bool(bool),
    /// A number that an `i64` holds.
    Int(i64),
    /// Any other number, as it was read.
    Number(serde_json::Number),
    Str(String),
    Array(Vec<Json>),
    /// The members in the order in which they were put in. Of two members with one name
    /// the later one counts.
    Object(Vec<(String, Json)>),
}

/// What a JSON value is, as a mathematical tree.
pub enum JsonView {
    Null,
    Bool(bool),
    Int(i64),
    /// A number that no `i64` holds, as its JSON text.
    Number(Seq<char>),
    Str(Seq<char>),
    Array(Seq<JsonView>),
    Object(Map<Seq<char>, JsonView>),
}

/// The tree that a JSON value stands for.
pub open spec fn json_view(j: Json) -> JsonView
    decreases j,
{
    match j {
        Json::Null => JsonView::Null,
        Json::Bool(b) => JsonView::Bool(b),
        Json::Int(n) => JsonView::Int(n),
        Json::Number(n) => number_view(n),
        Json::Str(s) => JsonView::Str(s@),
        Json::Array(v) => JsonView::Array(
            Seq::new(
                v@.len(),
                |i: int|
                    if 0 <= i < v@.len() {
                        json_view(v@[i])
                    } else {
                        JsonView::Null
                    },
            ),
        ),
        Json::Object(v) => JsonView::Object(members_view(v@)),
    }
}

/// The members of an object by name.
pub open spec fn members_view(members: Seq<(String, Json)>) -> Map<Seq<char>, JsonView>
    decreases members,
{
    if members.len() == 0 {
        Map::empty()
    } else {
        members_view(members.drop_last()).insert(members.last().0@, json_view(members.last().1))
    }
}

/// The first `n` members of an object by name.
pub open spec fn members_so_far(members: Seq<(String, Json)>, n: nat) -> Map<Seq<char>, JsonView>
    decreases n,
{
    if n == 0 {
        Map::empty()
    } else {
        members_so_far(members, (n - 1) as nat).insert(
            members[n - 1].0@,
            json_view(members[n - 1].1),
        )
    }
}

/// The members of an object are what putting them in one after the other gives.
pub proof fn lemma_members_in_order(members: Seq<(String, Json)>)
    ensures
        members_view(members) == members_so_far(members, members.len()),
{
    lemma_members_so_far(members, members.len());
    assert(members.take(members.len() as int) =~= members);
}

proof fn lemma_members_so_far(members: Seq<(String, Json)>, n: nat)
    requires
        n <= members.len(),
    ensures
        members_view(members.take(n as int)) == members_so_far(members, n),
    decreases n,
{
    if n > 0 {
        lemma_members_so_far(members, (n - 1) as nat);
        assert(members.take(n as int).drop_last() =~= members.take(n - 1));
        assert(members.take(n as int).last() == members[n - 1]);
    }
}

impl DeepView for Json {
    type V = JsonView;

    open spec fn deep_view(&self) -> JsonView {
        json_view(*self)
    }
}

impl JsonView {
    /// The member `key` of an object; null for a member that is not there and for a
    /// value that is no object.
    pub open spec fn at(self, key: Seq<char>) -> JsonView {
        match self.get(key) {
            Some(v) => v,
            None => JsonView::Null,
        }
    }

    /// The member `key` of an object, if the value is an object and has it.
    pub open spec fn get(self, key: Seq<char>) -> Option<JsonView> {
        match self {
            JsonView::Object(m) if m.dom().contains(key) => Some(m[key]),
            _ => None,
        }
    }

    /// The text of a string.
    pub open spec fn as_str(self) -> Option<Seq<char>> {
        match self {
            JsonView::Str(s) => Some(s),
            _ => None,
        }
    }

    /// The text of a string, or `default` for any other value.
    pub open spec fn str_or(self, default: Seq<char>) -> Seq<char> {
        match self {
            JsonView::Str(s) => s,
            _ => default,
        }
    }

    /// The value of a number that an `i64` holds.
    pub open spec fn as_i64(self) -> Option<i64> {
        match self {
            JsonView::Int(n) => Some(n),
            _ => None,
        }
    }

    /// The value of a boolean.
    pub open spec fn as_bool(self) -> Option<bool> {
        match self {
            JsonView::Bool(b) => Some(b),
            _ => None,
        }
    }

    /// The elements of an array.
    pub open spec fn as_array(self) -> Option<Seq<JsonView>> {
        match self {
            JsonView::Array(a) => Some(a),
            _ => None,
        }
    }

    /// Whether the value holds no number outside `i64` and is nested at most `depth`
    /// arrays and objects deep.
    pub open spec fn is_plain(self, depth: nat) -> bool
        decreases depth,
    {
        match self {
            JsonView::Number(_) => false,
            JsonView::Array(a) => depth > 0 && forall|i: int|
                0 <= i < a.len() ==> (#[trigger] a[i]).is_plain((depth - 1) as nat),
            JsonView::Object(m) => depth > 0 && forall|k: Seq<char>|
                m.dom().contains(k) ==> (#[trigger] m[k]).is_plain((depth - 1) as nat),
            _ => true,
        }
    }
}

/// An object whose members are null, booleans, whole numbers and texts is plain.
pub proof fn lemma_flat_is_plain(members: Map<Seq<char>, JsonView>, depth: nat)
    requires
        depth > 0,
        forall|k: Seq<char>|
            members.dom().contains(k) ==> {
                let v = #[trigger] members[k];
                v is Null || v is Bool || v is Int || v is Str
            },
    ensures
        JsonView::Object(members).is_plain(depth),
{
    assert forall|k: Seq<char>| members.dom().contains(k) implies (#[trigger] members[k]).is_plain(
        (depth - 1) as nat,
    ) by {}
}

// ---- outside: serde_json -----------------------------------------------------------
/// A JSON value as `serde_json` holds it.
#[verifier::external_type_specification]
#[verifier::external_body]
pub struct ExValue(serde_json::Value);

/// What is wrong with a text that is not JSON.
#[verifier::external_type_specification]
#[verifier::external_body]
pub struct ExJsonError(serde_json::Error);

/// A number as `serde_json` holds it.
#[verifier::external_type_specification]
#[verifier::external_body]
pub struct ExNumber(serde_json::Number);

/// The value of a number that an `i64` holds, as `serde_json::Number::as_i64` gives it.
pub uninterp spec fn number_i64(n: serde_json::Number) -> Option<i64>;

/// The JSON text of a number, as `Display` of `serde_json::Number` writes it.
pub uninterp spec fn number_text(n: serde_json::Number) -> Seq<char>;

/// What a number of `serde_json` is.
pub open spec fn number_view(n: serde_json::Number) -> JsonView {
    match number_i64(n) {
        Some(i) => JsonView::Int(i),
        None => JsonView::Number(number_text(n)),
    }
}

/// `serde_json::Number::as_i64`: the value of a number, where it is a whole number that an `i64`
/// holds. It is determined by the number.
#[verifier::external_body]
fn as_i64(n: &serde_json::Number) -> (r: Option<i64>)
    ensures
        r == number_i64(*n),
{
    n.as_i64()
}

/// `Clone` of `serde_json::Number`: the copy is the same number, so that it has the same value
/// and the same text.
#[verifier::external_body]
pub(crate) fn copy_number(n: &serde_json::Number) -> (r: serde_json::Number)
    ensures
        number_i64(r) == number_i64(*n),
        number_text(r) == number_text(*n),
{
    n.clone()
}

/// What a value of `serde_json` holds.
pub uninterp spec fn value_view(v: serde_json::Value) -> JsonView;

/// The JSON value that a text holds, if it is a JSON text that `serde_json` accepts.
pub uninterp spec fn json_of_text(text: Seq<char>) -> Option<JsonView>;

/// The compact JSON text of a value, as `serde_json` writes it.
pub uninterp spec fn json_text(v: JsonView) -> Seq<char>;

/// The indented JSON text of a value, as `serde_json` writes it.
pub uninterp spec fn json_pretty_text(v: JsonView) -> Seq<char>;

/// `serde_json::from_str` into a value: whether a text is accepted, and what it holds,
/// is determined by the text.
#[verifier::external_body]
fn parse_value(text: &str) -> (r: Result<serde_json::Value, serde_json::Error>)
    ensures
        r is Ok <==> json_of_text(text@) is Some,
        r matches Ok(v) ==> json_of_text(text@) == Some(value_view(v)),
{
    serde_json::from_str(text)
}

/// The JSON value that bytes hold: that of the text that they encode, if they encode one.
pub open spec fn json_of_bytes(bytes: Seq<u8>) -> Option<JsonView> {
    if vstd::utf8::valid_utf8(bytes) {
        json_of_text(vstd::utf8::decode_utf8(bytes))
    } else {
        None
    }
}

/// `serde_json::from_slice` into a value: bytes that encode a text hold what the text holds.
/// Bytes that are not UTF-8 are refused, in a string as an invalid code point and elsewhere as a
/// syntax error.
#[verifier::external_body]
fn parse_slice(bytes: &[u8]) -> (r: Result<serde_json::Value, serde_json::Error>)
    ensures
        r is Ok <==> json_of_bytes(bytes@) is Some,
        r matches Ok(v) ==> json_of_bytes(bytes@) == Some(value_view(v)),
{
    serde_json::from_slice(bytes)
}

/// The tree that a value of `serde_json` holds, variant for variant. A number that
/// `Number::as_i64` gives is an `Int`; any other is kept as it is.
#[verifier::external_body]
fn from_value(value: serde_json::Value) -> (r: Json)
    ensures
        r.deep_view() == value_view(value),
{
    match value {
        serde_json::Value::Null => Json::Null,
        serde_json::Value::Bool(b) => Json::Bool(b),
        serde_json::Value::Number(n) => match n.as_i64() {
            Some(i) => Json::Int(i),
            None => Json::Number(n),
        },
        serde_json::Value::String(s) => Json::Str(s),
        serde_json::Value::Array(a) => Json::Array(a.into_iter().map(from_value).collect()),
        serde_json::Value::Object(m) =>
            Json::Object(m.into_iter().map(|(k, v)| (k, from_value(v))).collect()),
    }
}

/// The value of `serde_json` for a tree, variant for variant.
#[verifier::external_body]
fn to_value(json: &Json) -> (r: serde_json::Value)
    ensures
        value_view(r) == json.deep_view(),
{
    match json {
        Json::Null => serde_json::Value::Null,
        Json::Bool(b) => serde_json::Value::Bool(*b),
        Json::Int(n) => serde_json::Value::from(*n),
        Json::Number(n) => serde_json::Value::Number(n.clone()),
        Json::Str(s) => serde_json::Value::String(s.clone()),
        Json::Array(a) => serde_json::Value::Array(a.iter().map(to_value).collect()),
        Json::Object(m) =>
            serde_json::Value::Object(m.iter().map(|(k, v)| (k.clone(), to_value(v))).collect()),
    }
}

/// `Display` of `serde_json::Value`, the compact text. Null, booleans and the numbers of
/// an `i64` are written as their names and decimal digits, and any other number as the number
/// itself is. Control characters are escaped
/// and nothing is broken into lines, so that the text is one line. Where the value holds no
/// other number and is not nested deeper than `serde_json` reads, the text reads back as
/// the value.
#[verifier::external_body]
fn value_text(value: &serde_json::Value) -> (r: String)
    ensures
        r@ == json_text(value_view(*value)),
        value_view(*value) is Null ==> r@ == "null"@,
        value_view(*value) matches JsonView::Bool(b) ==> r@ == (if b { "true"@ } else { "false"@ }),
        value_view(*value) matches JsonView::Int(n) ==> r@ == number::int_text(n as int),
        value_view(*value) matches JsonView::Number(s) ==> r@ == s,
        !r@.contains('\n'),
        value_view(*value).is_plain(127) ==> json_of_text(r@) == Some(value_view(*value)),
{
    value.to_string()
}

/// `serde_json::to_string_pretty`, the indented text. A value of `serde_json` has string
/// keys only, so that writing it into a string does not fail.
#[verifier::external_body]
fn value_pretty_text(value: &serde_json::Value) -> (r: String)
    ensures
        r@ == json_pretty_text(value_view(*value)),
{
    serde_json::to_string_pretty(value).unwrap_or_default()
}

// ---- texts -------------------------------------------------------------------------
/// The compact JSON text of a tree.
pub open spec fn compact_text(v: JsonView) -> Seq<char> {
    json_text(v)
}

/// The indented JSON text of a tree.
pub open spec fn pretty_text(v: JsonView) -> Seq<char> {
    json_pretty_text(v)
}

/// Reads a JSON text; gives none where the text is not JSON.
pub fn parse(text: &str) -> (r: Option<Json>)
    ensures
        r.deep_view() == json_of_text(text@),
{
    match parse_value(text) {
        Ok(v) => Some(from_value(v)),
        Err(_) => None,
    }
}

/// Reads JSON from bytes; gives none where the bytes are not JSON.
pub fn parse_bytes(bytes: &Vec<u8>) -> (r: Option<Json>)
    ensures
        r.deep_view() == json_of_bytes(bytes@),
        forall|text: Seq<char>|
            #[trigger] vstd::utf8::encode_utf8(text) == bytes@ ==> r.deep_view() == json_of_text(
                text,
            ),
{
    proof {
        assert forall|text: Seq<char>|
            #[trigger] vstd::utf8::encode_utf8(text) == bytes@ implies json_of_bytes(bytes@)
            == json_of_text(text) by {
            vstd::utf8::encode_utf8_valid_utf8(text);
            vstd::utf8::encode_utf8_decode_utf8(text);
        }
    }
    match parse_slice(bytes.as_slice()) {
        Ok(v) => Some(from_value(v)),
        Err(_) => None,
    }
}

/// Writes a JSON value as compact text.
pub fn to_text(json: &Json) -> (r: String)
    ensures
        r@ == compact_text(json.deep_view()),
        json.deep_view() is Null ==> r@ == "null"@,
        json.deep_view() matches JsonView::Bool(b) ==> r@ == (if b { "true"@ } else { "false"@ }),
        json.deep_view() matches JsonView::Int(n) ==> r@ == number::int_text(n as int),
        json.deep_view() matches JsonView::Number(s) ==> r@ == s,
        !r@.contains('\n'),
        json.deep_view().is_plain(127) ==> json_of_text(r@) == Some(json.deep_view()),
{
    let value: serde_json::Value = to_value(json);
    value_text(&value)
}

/// Writes a JSON value as indented text.
pub fn to_pretty_text(json: &Json) -> (r: String)
    ensures
        r@ == pretty_text(json.deep_view()),
{
    let value: serde_json::Value = to_value(json);
    value_pretty_text(&value)
}

// ---- reading -----------------------------------------------------------------------
impl Json {
    /// The member `key` of an object, if the value is an object and has it.
    pub fn get(&self, key: &str) -> (r: Option<&Json>)
        ensures
            r.deep_view() == self.deep_view().get(key@),
    {
        match self {
            Json::Object(members) => {
                let mut found: Option<&Json> = None;
                let mut i: usize = 0;
                while i < members.len()
                    invariant
                        i <= members.len(),
                        ({
                            let m = members_view(members@.take(i as int));
                            match found {
                                Some(v) => m.dom().contains(key@) && m[key@] == v.deep_view(),
                                None => !m.dom().contains(key@),
                            }
                        }),
                    decreases members.len() - i,
                {
                    proof {
                        let next = members@.take(i + 1);
                        assert(next.drop_last() =~= members@.take(i as int));
                        assert(next.last() == members@[i as int]);
                    }
                    if same(members[i].0.as_str(), key) {
                        found = Some(&members[i].1);
                    }
                    i += 1;
                }
                assert(members@.take(i as int) =~= members@);
                found
            },
            _ => None,
        }
    }

    /// The member `key` of an object; null for a member that is not there and for a
    /// value that is no object.
    pub fn at(&self, key: &str) -> (r: &Json)
        ensures
            r.deep_view() == self.deep_view().at(key@),
    {
        match self.get(key) {
            Some(v) => v,
            None => &Json::Null,
        }
    }

    /// The text of a string.
    pub fn as_str(&self) -> (r: Option<&str>)
        ensures
            r.deep_view() == self.deep_view().as_str(),
    {
        match self {
            Json::Str(s) => Some(s.as_str()),
            _ => None,
        }
    }

    /// The text of a string, or `default` for any other value.
    pub fn str_or<'a>(&'a self, default: &'a str) -> (r: &'a str)
        ensures
            r@ == self.deep_view().str_or(default@),
    {
        match self {
            Json::Str(s) => s.as_str(),
            _ => default,
        }
    }

    /// The text of a string, as a string of its own.
    pub fn to_str(&self) -> (r: Option<String>)
        ensures
            r.deep_view() == self.deep_view().as_str(),
    {
        match self {
            Json::Str(s) => Some(s.clone()),
            _ => None,
        }
    }

    /// The value of a number that an `i64` holds.
    pub fn as_i64(&self) -> (r: Option<i64>)
        ensures
            r == self.deep_view().as_i64(),
    {
        match self {
            Json::Int(n) => Some(*n),
            Json::Number(n) => as_i64(n),
            _ => None,
        }
    }

    /// The value of a boolean.
    pub fn as_bool(&self) -> (r: Option<bool>)
        ensures
            r == self.deep_view().as_bool(),
    {
        match self {
            Json::Bool(b) => Some(*b),
            _ => None,
        }
    }

    /// Whether the value is null.
    pub fn is_null(&self) -> (r: bool)
        ensures
            r == (self.deep_view() is Null),
    {
        match self {
            Json::Null => true,
            _ => false,
        }
    }

    /// A copy of the value.
    pub fn copy(&self) -> (r: Json)
        ensures
            r.deep_view() == self.deep_view(),
        decreases self,
    {
        match self {
            Json::Null => Json::Null,
            Json::Bool(b) => Json::Bool(*b),
            Json::Int(n) => Json::Int(*n),
            Json::Number(n) => Json::Number(copy_number(n)),
            Json::Str(s) => Json::Str(s.clone()),
            Json::Array(v) => {
                let mut out: Vec<Json> = Vec::new();
                let mut i: usize = 0;
                while i < v.len()
                    invariant
                        i == out.len() <= v.len(),
                        *self == Json::Array(*v),
                        forall|k: int| 0 <= k < i ==> json_view(#[trigger] out@[k]) == json_view(v@[k]),
                    decreases v.len() - i,
                {
                    let item: &Json = &v[i];
                    assert(decreases_to!(*self => self->Array_0));
                    assert(decreases_to!(self->Array_0 => self->Array_0@[i as int]));
                    out.push(item.copy());
                    i += 1;
                }
                let r: Json = Json::Array(out);
                assert(r.deep_view()->Array_0 =~= self.deep_view()->Array_0);
                r
            },
            Json::Object(v) => {
                let mut out: Vec<(String, Json)> = Vec::new();
                let mut i: usize = 0;
                while i < v.len()
                    invariant
                        i == out.len() <= v.len(),
                        *self == Json::Object(*v),
                        members_view(out@) == members_view(v@.take(i as int)),
                    decreases v.len() - i,
                {
                    let ghost before = out@;
                    let item: &(String, Json) = &v[i];
                    assert(decreases_to!(*self => self->Object_0));
                    assert(decreases_to!(self->Object_0 => self->Object_0@[i as int]));
                    assert(decreases_to!(self->Object_0@[i as int] => self->Object_0@[i as int].1));
                    out.push((item.0.clone(), item.1.copy()));
                    proof {
                        assert(out@.drop_last() =~= before);
                        assert(v@.take(i + 1).drop_last() =~= v@.take(i as int));
                    }
                    i += 1;
                }
                assert(v@.take(i as int) =~= v@);
                Json::Object(out)
            },
        }
    }

    /// The elements of an array, taken out of it.
    pub fn into_array(self) -> (r: Option<Vec<Json>>)
        ensures
            r.deep_view() == self.deep_view().as_array(),
    {
        match self {
            Json::Array(v) => {
                assert(v.deep_view() =~= self.deep_view()->Array_0);
                Some(v)
            },
            _ => None,
        }
    }

    /// The elements of an array.
    pub fn as_array(&self) -> (r: Option<&Vec<Json>>)
        ensures
            r.deep_view() == self.deep_view().as_array(),
    {
        match self {
            Json::Array(v) => {
                assert(v.deep_view() =~= self.deep_view()->Array_0);
                Some(v)
            },
            _ => None,
        }
    }
}

impl Clone for Json {
    fn clone(&self) -> (r: Json)
        ensures
            r.deep_view() == self.deep_view(),
    {
        self.copy()
    }
}

// ---- building ----------------------------------------------------------------------
/// A text or null.
pub open spec fn str_or_null(s: Option<Seq<char>>) -> JsonView {
    match s {
        Some(t) => JsonView::Str(t),
        None => JsonView::Null,
    }
}

/// An integer or null.
pub open spec fn int_or_null(n: Option<i64>) -> JsonView {
    match n {
        Some(i) => JsonView::Int(i),
        None => JsonView::Null,
    }
}

/// A text or null.
pub fn opt_str(s: &Option<String>) -> (r: Json)
    ensures
        r.deep_view() == str_or_null(s.deep_view()),
{
    match s {
        Some(t) => Json::Str(t.clone()),
        None => Json::Null,
    }
}

/// An integer or null.
pub fn opt_int(n: Option<i64>) -> (r: Json)
    ensures
        r.deep_view() == int_or_null(n),
{
    match n {
        Some(i) => Json::Int(i),
        None => Json::Null,
    }
}

} // verus!
