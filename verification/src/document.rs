use vstd::prelude::*;

use crate::parse::Parse;

verus! {

/// A parsed TOML value of the `toml` crate, carried through opaquely.
#[verifier::external_type_specification]
#[verifier::external_body]
pub struct ExTomlValue(toml::Value);

/// One step from a TOML value to a value inside it: a key of a table, or an
/// index of an array.
pub enum TomlStep {
    Key(Seq<char>),
    Index(int),
}

/// What a TOML value is, without the values inside it.
pub enum TomlNode {
    String(Seq<char>),
    Integer(i64),
    Float,
    Boolean(bool),
    Datetime,
    /// An array, with its length.
    Array(nat),
    Table,
}

/// The contents of a TOML value: for the path of each value inside it (the
/// empty path for the value itself), what that value is.
pub type TomlContents = Map<Seq<TomlStep>, TomlNode>;

/// What a `toml::Value` holds (see `TomlContents`). A TOML value is a
/// collection: a table holds values under keys, an array values at indices.
pub uninterp spec fn toml_contents(value: toml::Value) -> Map<Seq<TomlStep>, TomlNode>;

/// The contents of the TOML document `text`, as `toml::from_str` reads it
/// into a `toml::Value`; where it refuses the text, the text of its error.
pub uninterp spec fn toml_document(text: Seq<char>) -> Result<Map<Seq<TomlStep>, TomlNode>, Seq<char>>;

/// What the value with contents `m` is.
pub open spec fn node_of(m: TomlContents) -> TomlNode {
    m[Seq::empty()]
}

/// The contents of the value one `step` inside the value with contents `m`.
pub open spec fn child(m: TomlContents, step: TomlStep) -> TomlContents {
    Map::new(|p: Seq<TomlStep>| m.contains_key(seq![step] + p), |p: Seq<TomlStep>| m[seq![step] + p])
}

/// Reads the TOML document `text`.
///
/// Calls `toml::from_str::<toml::Value>`, and writes its error with
/// `to_string`. Claimed: it succeeds exactly where `toml_document` gives
/// contents, and then the value has those contents; otherwise the error's
/// text is the one that `toml_document` gives.
#[verifier::external_body]
pub(crate) fn toml_from_str(text: &str) -> (res: Result<toml::Value, String>)
    ensures
        res is Ok <==> toml_document(text@) is Ok,
        res matches Ok(v) ==> (toml_document(text@) matches Ok(c) && c == toml_contents(v)),
        res matches Err(m) ==> (toml_document(text@) matches Err(t) && t == m@),
{
    toml::from_str::<toml::Value>(text).map_err(|e| e.to_string())
}

/// The value under `key` in the table `v`.
///
/// Calls `toml::Value::get` with a string key. Claimed: it finds a value
/// exactly where `v` has one under `key` (so never where `v` is no table),
/// and that value's contents are those under `key` in `v`.
#[verifier::external_body]
pub(crate) fn toml_get<'a>(v: &'a toml::Value, key: &str) -> (res: Option<&'a toml::Value>)
    ensures
        res is Some <==> toml_contents(*v).contains_key(seq![TomlStep::Key(key@)]),
        res matches Some(c) ==> toml_contents(*c) == child(toml_contents(*v), TomlStep::Key(key@)),
{
    v.get(key)
}

/// The string that `v` is.
///
/// Calls `toml::Value::as_str`. Claimed: a string exactly where `v` is one,
/// and then it is that string.
#[verifier::external_body]
pub(crate) fn toml_as_str<'a>(v: &'a toml::Value) -> (res: Option<&'a str>)
    ensures
        res is Some <==> node_of(toml_contents(*v)) is String,
        res matches Some(s) ==> node_of(toml_contents(*v)) == TomlNode::String(s@),
{
    v.as_str()
}

/// The integer that `v` is.
///
/// Calls `toml::Value::as_integer`. Claimed: an integer exactly where `v` is
/// one, and then it is that integer.
#[verifier::external_body]
pub(crate) fn toml_as_integer(v: &toml::Value) -> (res: Option<i64>)
    ensures
        res is Some <==> node_of(toml_contents(*v)) is Integer,
        res matches Some(i) ==> node_of(toml_contents(*v)) == TomlNode::Integer(i),
{
    v.as_integer()
}

/// The boolean that `v` is.
///
/// Calls `toml::Value::as_bool`. Claimed: a boolean exactly where `v` is
/// one, and then it is that boolean.
#[verifier::external_body]
pub(crate) fn toml_as_bool(v: &toml::Value) -> (res: Option<bool>)
    ensures
        res is Some <==> node_of(toml_contents(*v)) is Boolean,
        res matches Some(b) ==> node_of(toml_contents(*v)) == TomlNode::Boolean(b),
{
    v.as_bool()
}

/// The elements of the array `v`.
///
/// Calls `toml::Value::as_array`. Claimed: the elements exactly where `v`
/// is an array; there are as many as its length, and the contents of the
/// element at index `i` are those at index `i` in `v`.
#[verifier::external_body]
pub(crate) fn toml_as_array<'a>(v: &'a toml::Value) -> (res: Option<&'a Vec<toml::Value>>)
    ensures
        res is Some <==> node_of(toml_contents(*v)) is Array,
        res matches Some(a) ==> node_of(toml_contents(*v)) == TomlNode::Array(a@.len()),
        res matches Some(a) ==> forall|i: int|
            0 <= i < a@.len() ==> toml_contents(#[trigger] a@[i]) == child(toml_contents(*v), TomlStep::Index(i)),
{
    v.as_array()
}

/// Whether `v` is a table.
///
/// Calls `toml::Value::is_table`. Claimed: true exactly where `v` is a table.
#[verifier::external_body]
pub(crate) fn toml_is_table(v: &toml::Value) -> (res: bool)
    ensures
        res == (node_of(toml_contents(*v)) == TomlNode::Table),
{
    v.is_table()
}

/// The contents of `v`, where there is a value.
pub open spec fn contents_of(v: Option<&toml::Value>) -> Option<TomlContents> {
    match v {
        Some(x) => Some(toml_contents(*x)),
        None => None,
    }
}

/// The field at position `idx` of `count` fields, or under `key`, of a value
/// read as a struct: a table gives the value under `key`; an array of
/// exactly `count` elements gives its element at `idx`.
pub open spec fn struct_field(m: TomlContents, count: nat, idx: int, key: Seq<char>) -> Option<TomlContents> {
    match node_of(m) {
        TomlNode::Table => if m.contains_key(seq![TomlStep::Key(key)]) {
            Some(child(m, TomlStep::Key(key)))
        } else {
            None
        },
        TomlNode::Array(n) => if n == count {
            Some(child(m, TomlStep::Index(idx)))
        } else {
            None
        },
        _ => None,
    }
}

/// Finds a field of `v` read as a struct; see `struct_field`.
pub fn struct_field_exec<'a>(v: &'a toml::Value, count: usize, idx: usize, key: &str) -> (res: Option<&'a toml::Value>)
    requires
        idx < count,
    ensures
        contents_of(res) == struct_field(toml_contents(*v), count as nat, idx as int, key@),
{
    if toml_is_table(v) {
        toml_get(v, key)
    } else {
        match toml_as_array(v) {
            Some(a) => {
                if a.len() == count {
                    Some(&a[idx])
                } else {
                    None
                }
            },
            None => None,
        }
    }
}

/// The string that a present value is.
pub open spec fn string_value(f: Option<TomlContents>) -> Option<Seq<char>> {
    match f {
        Some(c) => match node_of(c) {
            TomlNode::String(s) => Some(s),
            _ => None,
        },
        None => None,
    }
}

/// The boolean that a present value is.
pub open spec fn bool_value(f: Option<TomlContents>) -> Option<bool> {
    match f {
        Some(c) => match node_of(c) {
            TomlNode::Boolean(b) => Some(b),
            _ => None,
        },
        None => None,
    }
}

/// The setting that a present value gives: a string that `T` reads.
pub open spec fn setting_value<T: Parse>(f: Option<TomlContents>) -> Option<<T as DeepView>::V> {
    match string_value(f) {
        Some(s) => T::parse_spec(s),
        None => None,
    }
}

/// Reads a boolean; see `bool_value`.
pub fn bool_of(f: Option<&toml::Value>) -> (res: Option<bool>)
    ensures
        res == bool_value(contents_of(f)),
{
    match f {
        Some(v) => toml_as_bool(v),
        None => None,
    }
}

/// Reads a setting from its string; see `setting_value`.
pub fn setting_of<T: Parse>(f: Option<&toml::Value>) -> (res: Option<T>)
    ensures
        res is Some <==> setting_value::<T>(contents_of(f)) is Some,
        res matches Some(x) ==> Some(x.deep_view()) == setting_value::<T>(contents_of(f)),
{
    let v = match f {
        Some(v) => v,
        None => return None,
    };
    let s = match toml_as_str(v) {
        Some(s) => s,
        None => return None,
    };
    match T::parse(s) {
        Ok(x) => Some(x),
        Err(_) => None,
    }
}

} // verus!
