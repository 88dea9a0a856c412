//! JSON values as plain data.
//!
//! Text and bytes are parsed and written by `serde_json`; the library works on
//! [`Json`], which holds what such a value holds.
use crate::text;
use crate::text::{push_text, str_eq};
use vstd::prelude::*;

verus! {

/// What a JSON number answers when it is read as an integer or as a double.
#[derive(Debug, Clone, Copy, PartialEq, Eq)]
pub struct Number {
    /// The number, where it is an integer that fits in 64 unsigned bits.
    pub unsigned: Option<u64>,
    /// The number, where it is an integer that fits in 64 signed bits.
    pub signed: Option<i64>,
    /// The bit pattern of the number as a double.
    pub double_bits: Option<u64>,
}

/// A JSON value.
#[derive(Debug, PartialEq, Eq)]
pub enum Json {
    Null,
    Bool(bool),
    Number(Number),
    Str(String),
    Array(Vec<Json>),
    /// The fields in order, each key once.
    Object(Vec<(String, Json)>),
}

/// A JSON value as a mathematical tree.
pub enum JsonView {
    Null,
    Bool(bool),
    Number(Number),
    Str(Seq<char>),
    Array(Seq<JsonView>),
    Object(Seq<(Seq<char>, JsonView)>),
}

/// The tree that `j` stands for.
pub open spec fn json_view(j: Json) -> JsonView
    decreases j,
{
    match j {
        Json::Null => JsonView::Null,
        Json::Bool(b) => JsonView::Bool(b),
        Json::Number(n) => JsonView::Number(n),
        Json::Str(s) => JsonView::Str(s@),
        Json::Array(items) => JsonView::Array(
            Seq::new(
                items@.len(),
                |i: int|
                    if 0 <= i < items@.len() {
                        json_view(items@[i])
                    } else {
                        JsonView::Null
                    },
            ),
        ),
        Json::Object(fields) => JsonView::Object(
            Seq::new(
                fields@.len(),
                |i: int|
                    if 0 <= i < fields@.len() {
                        (fields@[i].0@, json_view(fields@[i].1))
                    } else {
                        (Seq::empty(), JsonView::Null)
                    },
            ),
        ),
    }
}

impl View for Json {
    type V = JsonView;

    open spec fn view(&self) -> JsonView {
        json_view(*self)
    }
}

/// The value of the first of `fields` from position `from` on that is named
/// `key`.
pub open spec fn field_from(fields: Seq<(Seq<char>, JsonView)>, key: Seq<char>, from: int) -> Option<
    JsonView,
>
    decreases fields.len() - from,
{
    if from < 0 || from >= fields.len() {
        None
    } else if fields[from].0 == key {
        Some(fields[from].1)
    } else {
        field_from(fields, key, from + 1)
    }
}

impl JsonView {
    /// The value of the field `key`; an object alone has fields.
    pub open spec fn get(self, key: Seq<char>) -> Option<JsonView> {
        match self {
            JsonView::Object(fields) => field_from(fields, key, 0),
            _ => None,
        }
    }

    /// The text of a string.
    pub open spec fn as_str(self) -> Option<Seq<char>> {
        match self {
            JsonView::Str(s) => Some(s),
            _ => None,
        }
    }

    /// A truth value.
    pub open spec fn as_bool(self) -> Option<bool> {
        match self {
            JsonView::Bool(b) => Some(b),
            _ => None,
        }
    }

    /// A number that is an unsigned integer.
    pub open spec fn as_u64(self) -> Option<u64> {
        match self {
            JsonView::Number(n) => n.unsigned,
            _ => None,
        }
    }

    /// A number that is a signed integer.
    pub open spec fn as_i64(self) -> Option<i64> {
        match self {
            JsonView::Number(n) => n.signed,
            _ => None,
        }
    }

    /// The bit pattern of a number as a double.
    pub open spec fn as_double_bits(self) -> Option<u64> {
        match self {
            JsonView::Number(n) => n.double_bits,
            _ => None,
        }
    }

    /// The value at `a`, then `b`.
    pub open spec fn get2(self, a: Seq<char>, b: Seq<char>) -> Option<JsonView> {
        match self.get(a) {
            Some(v) => v.get(b),
            None => None,
        }
    }

    /// The value at `a`, then `b`, then `c`.
    pub open spec fn get3(self, a: Seq<char>, b: Seq<char>, c: Seq<char>) -> Option<JsonView> {
        match self.get2(a, b) {
            Some(v) => v.get(c),
            None => None,
        }
    }

    /// The text of the field `key`; empty where it is no string.
    pub open spec fn text(self, key: Seq<char>) -> Seq<char> {
        text_of(self.get(key))
    }

    /// The unsigned integer in the field `key`; zero where there is none.
    pub open spec fn count(self, key: Seq<char>) -> u64 {
        count_of(self.get(key))
    }

    /// The items of an array.
    pub open spec fn as_array(self) -> Option<Seq<JsonView>> {
        match self {
            JsonView::Array(items) => Some(items),
            _ => None,
        }
    }
}

/// The text of an optional value, where it is a string.
pub open spec fn str_of(v: Option<JsonView>) -> Option<Seq<char>> {
    match v {
        Some(v) => v.as_str(),
        None => None,
    }
}

/// The text of an optional value; empty where it is no string.
pub open spec fn text_of(v: Option<JsonView>) -> Seq<char> {
    match str_of(v) {
        Some(s) => s,
        None => Seq::empty(),
    }
}

/// The truth value of an optional value.
pub open spec fn bool_of(v: Option<JsonView>) -> Option<bool> {
    match v {
        Some(v) => v.as_bool(),
        None => None,
    }
}

/// The unsigned integer of an optional value; zero where there is none.
pub open spec fn count_of(v: Option<JsonView>) -> u64 {
    match v {
        Some(v) => match v.as_u64() {
            Some(n) => n,
            None => 0,
        },
        None => 0,
    }
}

/// The bit pattern of an optional number as a double.
pub open spec fn double_of(v: Option<JsonView>) -> Option<u64> {
    match v {
        Some(v) => v.as_double_bits(),
        None => None,
    }
}

/// The items of an optional array.
pub open spec fn items_of(v: Option<JsonView>) -> Option<Seq<JsonView>> {
    match v {
        Some(v) => v.as_array(),
        None => None,
    }
}

/// An optional value, or null.
pub open spec fn or_null(v: Option<JsonView>) -> JsonView {
    match v {
        Some(v) => v,
        None => JsonView::Null,
    }
}

/// The first of two optional values that is there.
pub open spec fn first_of<T>(a: Option<T>, b: Option<T>) -> Option<T> {
    match a {
        Some(_) => a,
        None => b,
    }
}

/// `a`, or `b` where `a` is empty.
pub open spec fn non_empty_or(a: Seq<char>, b: Seq<char>) -> Seq<char> {
    if a.len() == 0 {
        b
    } else {
        a
    }
}

/// An optional value by its tree.
pub open spec fn opt_json(j: Option<Json>) -> Option<JsonView> {
    match j {
        Some(j) => Some(j@),
        None => None,
    }
}

/// A borrowed optional value by its tree.
pub open spec fn opt_json_ref(j: Option<&Json>) -> Option<JsonView> {
    match j {
        Some(j) => Some(j@),
        None => None,
    }
}

/// A borrowed optional text by its characters.
pub open spec fn opt_str(s: Option<&str>) -> Option<Seq<char>> {
    match s {
        Some(s) => Some(s@),
        None => None,
    }
}

impl Json {
    /// The value of the field `key`.
    pub fn get(&self, key: &str) -> (value: Option<&Json>)
        ensures
            opt_json_ref(value) == self@.get(key@),
    {
        match self {
            Json::Object(fields) => {
                let mut i: usize = 0;
                let ghost all = self@->Object_0;
                while i < fields.len()
                    invariant
                        i <= fields@.len(),
                        *self == Json::Object(*fields),
                        self@ == JsonView::Object(all),
                        field_from(all, key@, i as int) == field_from(all, key@, 0),
                    decreases fields@.len() - i,
                {
                    assert(all[i as int] == (fields@[i as int].0@, fields@[i as int].1@));
                    if str_eq(fields[i].0.as_str(), key) {
                        return Some(&fields[i].1);
                    }
                    i += 1;
                }
                None
            },
            _ => None,
        }
    }

    /// The value at `a`, then `b`.
    pub fn get2(&self, a: &str, b: &str) -> (value: Option<&Json>)
        ensures
            opt_json_ref(value) == self@.get2(a@, b@),
    {
        match self.get(a) {
            Some(v) => v.get(b),
            None => None,
        }
    }

    /// The value at `a`, then `b`, then `c`.
    pub fn get3(&self, a: &str, b: &str, c: &str) -> (value: Option<&Json>)
        ensures
            opt_json_ref(value) == self@.get3(a@, b@, c@),
    {
        match self.get2(a, b) {
            Some(v) => v.get(c),
            None => None,
        }
    }

    /// The text of the field `key`; empty where it is no string.
    pub fn text(&self, key: &str) -> (s: &str)
        ensures
            s@ == self@.text(key@),
    {
        read_text(self.get(key))
    }

    /// The unsigned integer in the field `key`; zero where there is none.
    pub fn count(&self, key: &str) -> (n: u64)
        ensures
            n == self@.count(key@),
    {
        read_count(self.get(key))
    }

    /// The text of a string.
    pub fn as_str(&self) -> (s: Option<&str>)
        ensures
            opt_str(s) == self@.as_str(),
    {
        match self {
            Json::Str(s) => Some(s.as_str()),
            _ => None,
        }
    }

    /// A truth value.
    pub fn as_bool(&self) -> (b: Option<bool>)
        ensures
            b == self@.as_bool(),
    {
        match self {
            Json::Bool(b) => Some(*b),
            _ => None,
        }
    }

    /// A number that is an unsigned integer.
    pub fn as_u64(&self) -> (n: Option<u64>)
        ensures
            n == self@.as_u64(),
    {
        match self {
            Json::Number(n) => n.unsigned,
            _ => None,
        }
    }

    /// A number that is a signed integer.
    pub fn as_i64(&self) -> (n: Option<i64>)
        ensures
            n == self@.as_i64(),
    {
        match self {
            Json::Number(n) => n.signed,
            _ => None,
        }
    }

    /// The bit pattern of a number as a double.
    pub fn as_double_bits(&self) -> (bits: Option<u64>)
        ensures
            bits == self@.as_double_bits(),
    {
        match self {
            Json::Number(n) => n.double_bits,
            _ => None,
        }
    }

    /// The items of an array.
    pub fn as_array(&self) -> (items: Option<&Vec<Json>>)
        ensures
            match items {
                Some(items) => self@.as_array() == Some(json_views(items@)),
                None => self@.as_array() is None,
            },
    {
        match self {
            Json::Array(items) => {
                assert(self@.as_array()->0 == json_views(items@));
                Some(items)
            },
            _ => None,
        }
    }

    /// Whether this is an object.
    pub fn is_object(&self) -> (yes: bool)
        ensures
            yes == (self@ is Object),
    {
        match self {
            Json::Object(_) => true,
            _ => false,
        }
    }
}

/// The text of an optional value, where it is a string.
pub fn read_str(v: Option<&Json>) -> (s: Option<&str>)
    ensures
        opt_str(s) == str_of(opt_json_ref(v)),
{
    match v {
        Some(v) => v.as_str(),
        None => None,
    }
}

/// A copy of a borrowed optional text.
pub fn owned(s: Option<&str>) -> (copy: Option<String>)
    ensures
        match copy {
            Some(copy) => s is Some && copy@ == s->0@,
            None => s is None,
        },
{
    match s {
        Some(s) => Some(s.to_owned()),
        None => None,
    }
}

/// The text of an optional value; empty where it is no string.
pub fn read_text(v: Option<&Json>) -> (s: &str)
    ensures
        s@ == text_of(opt_json_ref(v)),
{
    proof {
        reveal_strlit("");
        assert(""@ == Seq::<char>::empty());
    }
    match read_str(v) {
        Some(s) => s,
        None => "",
    }
}

/// The truth value of an optional value.
pub fn read_bool(v: Option<&Json>) -> (b: Option<bool>)
    ensures
        b == bool_of(opt_json_ref(v)),
{
    match v {
        Some(v) => v.as_bool(),
        None => None,
    }
}

/// Whether an optional value is the truth value `true`.
pub fn is_true(v: Option<&Json>) -> (yes: bool)
    ensures
        yes == (bool_of(opt_json_ref(v)) == Some(true)),
{
    match read_bool(v) {
        Some(b) => b,
        None => false,
    }
}

/// The unsigned integer of an optional value; zero where there is none.
pub fn read_count(v: Option<&Json>) -> (n: u64)
    ensures
        n == count_of(opt_json_ref(v)),
{
    match v {
        Some(v) => match v.as_u64() {
            Some(n) => n,
            None => 0,
        },
        None => 0,
    }
}

/// The bit pattern of an optional number as a double.
pub fn read_double(v: Option<&Json>) -> (bits: Option<u64>)
    ensures
        bits == double_of(opt_json_ref(v)),
{
    match v {
        Some(v) => v.as_double_bits(),
        None => None,
    }
}

/// A copy of an optional value.
pub fn copied(v: Option<&Json>) -> (copy: Option<Json>)
    ensures
        opt_json(copy) == opt_json_ref(v),
{
    match v {
        Some(v) => Some(v.clone()),
        None => None,
    }
}

/// A copy of an optional value, or null.
pub fn copied_or_null(v: Option<&Json>) -> (copy: Json)
    ensures
        copy@ == or_null(opt_json_ref(v)),
{
    match v {
        Some(v) => v.clone(),
        None => Json::Null,
    }
}

/// Keys by their texts.
pub open spec fn key_views(keys: Seq<&str>) -> Seq<Seq<char>> {
    keys.map_values(|k: &str| k@)
}

/// The string under the first of `keys` from position `from` on that holds one.
pub open spec fn str_among(v: JsonView, keys: Seq<Seq<char>>, from: int) -> Option<Seq<char>>
    decreases keys.len() - from,
{
    if from < 0 || from >= keys.len() {
        None
    } else {
        match str_of(v.get(keys[from])) {
            Some(s) => Some(s),
            None => str_among(v, keys, from + 1),
        }
    }
}

/// The string under the first of `keys` that holds one.
pub fn find_str<'a>(v: &'a Json, keys: &[&str]) -> (s: Option<&'a str>)
    ensures
        opt_str(s) == str_among(v@, key_views(keys@), 0),
{
    let ghost all = key_views(keys@);
    let mut i: usize = 0;
    while i < keys.len()
        invariant
            i <= keys@.len(),
            all == key_views(keys@),
            str_among(v@, all, i as int) == str_among(v@, all, 0),
        decreases keys@.len() - i,
    {
        assert(all[i as int] == keys@[i as int]@);
        if let Some(s) = read_str(v.get(keys[i])) {
            return Some(s);
        }
        i += 1;
    }
    None
}

/// The value under the first of `keys` from position `from` on that is there.
pub open spec fn value_among(v: JsonView, keys: Seq<Seq<char>>, from: int) -> Option<JsonView>
    decreases keys.len() - from,
{
    if from < 0 || from >= keys.len() {
        None
    } else {
        match v.get(keys[from]) {
            Some(found) => Some(found),
            None => value_among(v, keys, from + 1),
        }
    }
}

/// The value under the first of `keys` that is there.
pub fn find_value<'a>(v: &'a Json, keys: &[&str]) -> (found: Option<&'a Json>)
    ensures
        opt_json_ref(found) == value_among(v@, key_views(keys@), 0),
{
    let ghost all = key_views(keys@);
    let mut i: usize = 0;
    while i < keys.len()
        invariant
            i <= keys@.len(),
            all == key_views(keys@),
            value_among(v@, all, i as int) == value_among(v@, all, 0),
        decreases keys@.len() - i,
    {
        assert(all[i as int] == keys@[i as int]@);
        if let Some(found) = v.get(keys[i]) {
            return Some(found);
        }
        i += 1;
    }
    None
}

/// The unsigned integer of the first of two optional values that holds one; zero
/// where neither does.
pub open spec fn either_count(a: Option<JsonView>, b: Option<JsonView>) -> u64 {
    match a {
        Some(v) => match v.as_u64() {
            Some(n) => n,
            None => count_of(b),
        },
        None => count_of(b),
    }
}

/// The unsigned integer of the first of two optional values that holds one.
pub fn read_either_count(a: Option<&Json>, b: Option<&Json>) -> (n: u64)
    ensures
        n == either_count(opt_json_ref(a), opt_json_ref(b)),
{
    match a {
        Some(v) => match v.as_u64() {
            Some(n) => n,
            None => read_count(b),
        },
        None => read_count(b),
    }
}

/// The strings among `items` from position `from` on, in order.
pub open spec fn texts_from(items: Seq<JsonView>, from: int) -> Seq<Seq<char>>
    decreases items.len() - from,
{
    if from < 0 || from >= items.len() {
        Seq::empty()
    } else {
        match items[from].as_str() {
            Some(s) => seq![s] + texts_from(items, from + 1),
            None => texts_from(items, from + 1),
        }
    }
}

/// The strings in an optional array; none where it is no array.
pub open spec fn texts_in(v: Option<JsonView>) -> Seq<Seq<char>> {
    match items_of(v) {
        Some(items) => texts_from(items, 0),
        None => Seq::empty(),
    }
}

/// Copies of the strings in an optional array.
pub fn read_texts(v: Option<&Json>) -> (texts: Vec<String>)
    ensures
        text::views(texts@) == texts_in(opt_json_ref(v)),
{
    let mut texts: Vec<String> = Vec::new();
    assert(text::views(texts@) == Seq::<Seq<char>>::empty());
    if let Some(v) = v {
        if let Some(items) = v.as_array() {
            let mut i: usize = 0;
            let ghost all = json_views(items@);
            while i < items.len()
                invariant
                    i <= items@.len(),
                    all == json_views(items@),
                    text::views(texts@) + texts_from(all, i as int) == texts_from(all, 0),
                decreases items@.len() - i,
            {
                assert(all[i as int] == items@[i as int]@);
                let ghost before = text::views(texts@);
                if let Some(s) = items[i].as_str() {
                    push_text(&mut texts, s.to_owned());
                    assert(text::views(texts@) + texts_from(all, i + 1) == before + texts_from(
                        all,
                        i as int,
                    ));
                }
                i += 1;
            }
            assert(text::views(texts@) + Seq::<Seq<char>>::empty() == text::views(texts@));
        }
    }
    texts
}

/// The trees of several values.
pub open spec fn json_views(items: Seq<Json>) -> Seq<JsonView> {
    items.map_values(|j: Json| j@)
}

/// The fields of an object, each value by its tree.
pub open spec fn field_views(fields: Seq<(String, Json)>) -> Seq<(Seq<char>, JsonView)> {
    fields.map_values(|f: (String, Json)| (f.0@, f.1@))
}

impl Clone for Json {
    fn clone(&self) -> (copy: Json)
        ensures
            copy@ == self@,
        decreases self@,
    {
        match self {
            Json::Null => Json::Null,
            Json::Bool(b) => Json::Bool(*b),
            Json::Number(n) => Json::Number(*n),
            Json::Str(s) => Json::Str(s.clone()),
            Json::Array(items) => {
                let mut out: Vec<Json> = Vec::new();
                let mut i: usize = 0;
                while i < items.len()
                    invariant
                        i <= items@.len(),
                        *self == Json::Array(*items),
                        json_views(out@) == json_views(items@).take(i as int),
                    decreases items@.len() - i,
                {
                    assert(self@->Array_0[i as int] == items@[i as int]@);
                    let ghost before = out@;
                    let item = items[i].clone();
                    out.push(item);
                    assert(json_views(out@) == json_views(before).push(item@));
                    assert(json_views(out@) == json_views(items@).take(i + 1));
                    i += 1;
                }
                let copy = Json::Array(out);
                assert(json_views(items@).take(i as int) == json_views(items@));
                assert(copy@->Array_0 == json_views(out@));
                assert(self@->Array_0 == json_views(items@));
                copy
            },
            Json::Object(fields) => {
                let mut out: Vec<(String, Json)> = Vec::new();
                let mut i: usize = 0;
                while i < fields.len()
                    invariant
                        i <= fields@.len(),
                        *self == Json::Object(*fields),
                        field_views(out@) == field_views(fields@).take(i as int),
                    decreases fields@.len() - i,
                {
                    assert(self@->Object_0[i as int].1 == fields@[i as int].1@);
                    let ghost before = out@;
                    let value = fields[i].1.clone();
                    out.push((fields[i].0.clone(), value));
                    assert(field_views(out@) == field_views(before).push(
                        (fields@[i as int].0@, value@),
                    ));
                    assert(field_views(out@) == field_views(fields@).take(i + 1));
                    i += 1;
                }
                let copy = Json::Object(out);
                assert(field_views(fields@).take(i as int) == field_views(fields@));
                assert(copy@->Object_0 == field_views(out@));
                assert(self@->Object_0 == field_views(fields@));
                copy
            },
        }
    }
}

/// A value of `serde_json`, whose insides [`open_value`] shows.
#[verifier::external_type_specification]
#[verifier::external_body]
pub struct ExValue(serde_json::Value);

/// The tree that a `serde_json` value holds.
pub uninterp spec fn value_of(value: serde_json::Value) -> JsonView;

/// What `serde_json::from_str` makes of a text; nothing where it refuses it.
pub uninterp spec fn parsed_text(text: Seq<char>) -> Option<JsonView>;

/// What `serde_json::from_slice` makes of bytes: the value, or the words in
/// which it refuses them.
pub uninterp spec fn parsed_bytes(bytes: Seq<u8>) -> Result<JsonView, Seq<char>>;

/// The compact text that `serde_json::to_string` writes for a value.
pub uninterp spec fn written(value: JsonView) -> Seq<char>;

/// `serde_json::from_str` into a value. The result is a function of the text.
#[verifier::external_body]
fn value_from_str(text: &str) -> (value: Option<serde_json::Value>)
    ensures
        match value {
            Some(v) => parsed_text(text@) == Some(value_of(v)),
            None => parsed_text(text@) is None,
        },
{
    serde_json::from_str(text).ok()
}

/// `serde_json::from_slice` into a value, with the error as its message. The
/// result is a function of the bytes.
#[verifier::external_body]
fn value_from_slice(bytes: &[u8]) -> (value: Result<serde_json::Value, String>)
    ensures
        match value {
            Ok(v) => parsed_bytes(bytes@) == Ok::<JsonView, Seq<char>>(value_of(v)),
            Err(message) => parsed_bytes(bytes@) == Err::<JsonView, Seq<char>>(message@),
        },
{
    serde_json::from_slice(bytes).map_err(|e| e.to_string())
}

/// `serde_json::to_string` of a value, which cannot fail: every key of a value
/// is a string. The text is a function of what the value holds; it is compact
/// and its strings are escaped, so that no line break stands in it.
#[verifier::external_body]
pub(crate) fn value_to_string(value: &serde_json::Value) -> (text: String)
    ensures
        text@ == written(value_of(*value)),
        forall|i: int| 0 <= i < text@.len() ==> text@[i] != '\n' && text@[i] != '\r',
{
    serde_json::to_string(value).unwrap_or_default()
}

/// Whether the keys of `fields` stand in order, each once.
pub open spec fn keys_in_order(fields: Seq<(String, serde_json::Value)>) -> bool {
    forall|i: int, j: int|
        0 <= i < j < fields.len() ==> text::precedes(#[trigger] fields[i].0@, #[trigger] fields[j].0@)
}

/// One level of a value to be written.
pub enum Layer {
    Null,
    Bool(bool),
    Str(String),
    Array(Vec<serde_json::Value>),
    Object(Vec<(String, serde_json::Value)>),
}

/// The tree of which `layer` is the top level.
pub open spec fn layer_view(layer: Layer) -> JsonView {
    match layer {
        Layer::Null => JsonView::Null,
        Layer::Bool(b) => JsonView::Bool(b),
        Layer::Str(s) => JsonView::Str(s@),
        Layer::Array(items) => JsonView::Array(
            items@.map_values(|v: serde_json::Value| value_of(v)),
        ),
        Layer::Object(fields) => JsonView::Object(
            fields@.map_values(|f: (String, serde_json::Value)| (f.0@, value_of(f.1))),
        ),
    }
}

/// Builds a `serde_json::Value` from one level: the variant with its fields as
/// they stand. A map walks its fields in the order of their keys, so fields whose
/// keys are in order keep their places.
#[verifier::external_body]
pub(crate) fn close_value(layer: Layer) -> (value: serde_json::Value)
    requires
        layer matches Layer::Object(fields) ==> keys_in_order(fields@),
    ensures
        value_of(value) == layer_view(layer),
{
    match layer {
        Layer::Null => serde_json::Value::Null,
        Layer::Bool(b) => serde_json::Value::Bool(b),
        Layer::Str(s) => serde_json::Value::String(s),
        Layer::Array(items) => serde_json::Value::Array(items),
        Layer::Object(fields) => serde_json::Value::Object(fields.into_iter().collect()),
    }
}

/// Builds an object from fields whose keys are in order.
pub(crate) fn object_value(fields: Vec<(String, serde_json::Value)>) -> (value: serde_json::Value)
    requires
        text::ascending(fields@.map_values(|f: (String, serde_json::Value)| f.0@)),
    ensures
        value_of(value) == JsonView::Object(
            fields@.map_values(|f: (String, serde_json::Value)| (f.0@, value_of(f.1))),
        ),
{
    proof {
        let keys = fields@.map_values(|f: (String, serde_json::Value)| f.0@);
        assert forall|i: int, j: int| 0 <= i < j < fields@.len() implies text::precedes(
            #[trigger] fields@[i].0@,
            #[trigger] fields@[j].0@,
        ) by {
            text::lemma_ascending(keys, i, j);
            assert(keys[i] == fields@[i].0@ && keys[j] == fields@[j].0@);
        }
    }
    close_value(Layer::Object(fields))
}

/// Builds an object with one field.
pub(crate) fn single_value(key: &str, item: serde_json::Value) -> (value: serde_json::Value)
    ensures
        value_of(value) == JsonView::Object(seq![(key@, value_of(item))]),
{
    let mut fields: Vec<(String, serde_json::Value)> = Vec::new();
    fields.push((key.to_owned(), item));
    let value = object_value(fields);
    assert(value_of(value)->Object_0 == seq![(key@, value_of(item))]);
    value
}

/// Builds an array with one item.
pub(crate) fn only_value(item: serde_json::Value) -> (value: serde_json::Value)
    ensures
        value_of(value) == JsonView::Array(seq![value_of(item)]),
{
    let mut items: Vec<serde_json::Value> = Vec::new();
    items.push(item);
    let value = close_value(Layer::Array(items));
    assert(value_of(value)->Array_0 == seq![value_of(item)]);
    value
}

/// A string to be written.
pub(crate) fn string_value(s: &str) -> (value: serde_json::Value)
    ensures
        value_of(value) == JsonView::Str(s@),
{
    close_value(Layer::Str(s.to_owned()))
}

/// A truth value to be written.
pub(crate) fn bool_value(b: bool) -> (value: serde_json::Value)
    ensures
        value_of(value) == JsonView::Bool(b),
{
    close_value(Layer::Bool(b))
}

/// One level of a `serde_json` value.
pub enum Shallow {
    Null,
    Bool(bool),
    Number(Number),
    Str(String),
    Array(Vec<serde_json::Value>),
    Object(Vec<(String, serde_json::Value)>),
}

/// The tree of which `s` is the top level.
pub open spec fn shallow_view(s: Shallow) -> JsonView {
    match s {
        Shallow::Null => JsonView::Null,
        Shallow::Bool(b) => JsonView::Bool(b),
        Shallow::Number(n) => JsonView::Number(n),
        Shallow::Str(s) => JsonView::Str(s@),
        Shallow::Array(items) => JsonView::Array(
            items@.map_values(|v: serde_json::Value| value_of(v)),
        ),
        Shallow::Object(fields) => JsonView::Object(
            fields@.map_values(|f: (String, serde_json::Value)| (f.0@, value_of(f.1))),
        ),
    }
}

/// Takes a `serde_json::Value` apart by one level: the variant and its fields as
/// they stand, an object's fields in the order in which its map walks them.
#[verifier::external_body]
fn open_value(value: serde_json::Value) -> (level: Shallow)
    ensures
        shallow_view(level) == value_of(value),
{
    match value {
        serde_json::Value::Null => Shallow::Null,
        serde_json::Value::Bool(b) => Shallow::Bool(b),
        serde_json::Value::Number(n) => Shallow::Number(Number {
            unsigned: n.as_u64(),
            signed: n.as_i64(),
            double_bits: n.as_f64().map(|d| d.to_bits()),
        }),
        serde_json::Value::String(s) => Shallow::Str(s),
        serde_json::Value::Array(items) => Shallow::Array(items),
        serde_json::Value::Object(fields) => Shallow::Object(fields.into_iter().collect()),
    }
}

/// The plain value that a `serde_json` value holds.
fn json_from(value: serde_json::Value) -> (json: Json)
    ensures
        json@ == value_of(value),
    decreases value_of(value),
{
    match open_value(value) {
        Shallow::Null => Json::Null,
        Shallow::Bool(b) => Json::Bool(b),
        Shallow::Number(n) => Json::Number(n),
        Shallow::Str(s) => Json::Str(s),
        Shallow::Array(items) => {
            let ghost all = value_of(value)->Array_0;
            let mut out: Vec<Json> = Vec::new();
            for item in it: items
                invariant
                    value_of(value) == JsonView::Array(all),
                    all == it.seq().map_values(|v: serde_json::Value| value_of(v)),
                    json_views(out@) == all.take(it.index() as int),
            {
                let ghost before = out@;
                assert(all[it.index() as int] == value_of(item));
                assert(decreases_to!(value_of(value) => value_of(value)->Array_0[it.index() as int]));
                let json = json_from(item);
                out.push(json);
                assert(json_views(out@) == json_views(before).push(json@));
                assert(json_views(out@) == all.take(it.index() + 1));
            }
            let json = Json::Array(out);
            assert(json@->Array_0 == json_views(out@));
            assert(all.take(all.len() as int) == all);
            json
        },
        Shallow::Object(fields) => {
            let ghost all = value_of(value)->Object_0;
            let mut out: Vec<(String, Json)> = Vec::new();
            for field in it: fields
                invariant
                    value_of(value) == JsonView::Object(all),
                    all == it.seq().map_values(
                        |f: (String, serde_json::Value)| (f.0@, value_of(f.1)),
                    ),
                    field_views(out@) == all.take(it.index() as int),
            {
                let ghost before = out@;
                assert(all[it.index() as int] == (field.0@, value_of(field.1)));
                assert(decreases_to!(value_of(value) => value_of(value)->Object_0[it.index() as int].1));
                let json = json_from(field.1);
                out.push((field.0, json));
                assert(field_views(out@) == field_views(before).push((field.0@, json@)));
                assert(field_views(out@) == all.take(it.index() + 1));
            }
            let json = Json::Object(out);
            assert(json@->Object_0 == field_views(out@));
            assert(all.take(all.len() as int) == all);
            json
        },
    }
}

/// Parses a JSON text; nothing where it is not one.
pub fn parse(text: &str) -> (json: Option<Json>)
    ensures
        opt_json(json) == parsed_text(text@),
{
    match value_from_str(text) {
        Some(value) => Some(json_from(value)),
        None => None,
    }
}

/// Parses JSON bytes; the error is the parser's message.
pub fn parse_bytes(bytes: &[u8]) -> (json: Result<Json, String>)
    ensures
        match json {
            Ok(j) => parsed_bytes(bytes@) == Ok::<JsonView, Seq<char>>(j@),
            Err(message) => parsed_bytes(bytes@) == Err::<JsonView, Seq<char>>(message@),
        },
{
    match value_from_slice(bytes) {
        Ok(value) => Ok(json_from(value)),
        Err(message) => Err(message),
    }
}

/// What a body says: its value, or null where it is no JSON.
pub open spec fn tree_or_null(parsed: Result<JsonView, Seq<char>>) -> JsonView {
    match parsed {
        Ok(tree) => tree,
        Err(_) => JsonView::Null,
    }
}

/// Reads a body as JSON, null where it is none, and also writes it compactly.
pub fn read_body(body: &[u8]) -> (read: (Json, String))
    ensures
        read.0@ == tree_or_null(parsed_bytes(body@)),
        read.1@ == written(tree_or_null(parsed_bytes(body@))),
{
    let value = match value_from_slice(body) {
        Ok(value) => value,
        Err(_) => close_value(Layer::Null),
    };
    let shown = value_to_string(&value);
    (json_from(value), shown)
}

/// An object whose one field is a string.
pub fn text_object(key: &str, text: &str) -> (json: Json)
    ensures
        json@ == JsonView::Object(seq![(key@, JsonView::Str(text@))]),
{
    let mut fields: Vec<(String, Json)> = Vec::new();
    fields.push((key.to_owned(), Json::Str(text.to_owned())));
    let json = Json::Object(fields);
    assert(json_view(fields@[0].1) == JsonView::Str(text@));
    assert(json@->Object_0 == seq![(key@, JsonView::Str(text@))]);
    json
}

} // verus!
