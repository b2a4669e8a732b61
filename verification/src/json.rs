//! The JSON values commands report.
//!
//! Both output modes render the same value, so they cannot drift: `--json`
//! prints it, and the human renderer formats it. Objects keep their members
//! in the order they were built; a key is looked up by its first occurrence.
use vstd::prelude::*;

use crate::text::{chars_of, same};

verus! {

/// A JSON value.
#[derive(Debug)]
pub enum Json {
    /// `null`.
    Null,
    /// `true` or `false`.
    Bool(bool),
    /// A non-negative integer.
    UInt(u64),
    /// A signed integer.
    Int(i64),
    /// A string.
    Str(String),
    /// An array.
    Array(Vec<Json>),
    /// An object, as its members in order.
    Object(Vec<(String, Json)>),
}

/// The value of the first member named `key`, if any.
pub open spec fn lookup(pairs: Seq<(String, Json)>, key: Seq<char>) -> Option<Json>
    decreases pairs.len(),
{
    if pairs.len() == 0 {
        None
    } else if pairs[0].0@ == key {
        Some(pairs[0].1)
    } else {
        lookup(pairs.drop_first(), key)
    }
}

/// The member `key` of an object; `None` for a missing member or a value
/// that is not an object.
pub open spec fn member(v: Json, key: Seq<char>) -> Option<Json> {
    match v {
        Json::Object(pairs) => lookup(pairs@, key),
        _ => None,
    }
}

/// `value[key]`: the member, or `null` when there is none.
pub open spec fn at(v: Json, key: Seq<char>) -> Json {
    match member(v, key) {
        Some(x) => x,
        None => Json::Null,
    }
}

/// The text of a string value.
pub open spec fn str_of(v: Json) -> Option<Seq<char>> {
    match v {
        Json::Str(s) => Some(s@),
        _ => None,
    }
}

/// A boolean value.
pub open spec fn bool_of(v: Json) -> Option<bool> {
    match v {
        Json::Bool(b) => Some(b),
        _ => None,
    }
}

/// A non-negative integer value.
pub open spec fn u64_of(v: Json) -> Option<u64> {
    match v {
        Json::UInt(n) => Some(n),
        Json::Int(n) => if n >= 0 {
            Some(n as u64)
        } else {
            None
        },
        _ => None,
    }
}

/// The text of a string member.
pub open spec fn str_at(v: Json, key: Seq<char>) -> Option<Seq<char>> {
    str_of(at(v, key))
}

fn lookup_from<'a>(pairs: &'a Vec<(String, Json)>, key: &Vec<char>, from: usize) -> (r: Option<
    &'a Json,
>)
    requires
        from <= pairs.len(),
    ensures
        match r {
            Some(x) => lookup(pairs@.subrange(from as int, pairs.len() as int), key@) == Some(*x),
            None => lookup(pairs@.subrange(from as int, pairs.len() as int), key@) is None,
        },
    decreases pairs.len() - from,
{
    if from == pairs.len() {
        return None;
    }
    let ghost rest = pairs@.subrange(from as int, pairs.len() as int);
    assert(rest.drop_first() =~= pairs@.subrange(from + 1, pairs.len() as int));
    let name = chars_of(pairs[from].0.as_str());
    if same(&name, key) {
        Some(&pairs[from].1)
    } else {
        lookup_from(pairs, key, from + 1)
    }
}

/// The member `key` of an object.
pub fn get<'a>(v: &'a Json, key: &str) -> (r: Option<&'a Json>)
    ensures
        match r {
            Some(x) => member(*v, key@) == Some(*x),
            None => member(*v, key@) is None,
        },
{
    match v {
        Json::Object(pairs) => {
            let k = chars_of(key);
            assert(pairs@.subrange(0, pairs.len() as int) =~= pairs@);
            lookup_from(pairs, &k, 0)
        },
        _ => None,
    }
}

/// The text of a string member.
pub fn get_str<'a>(v: &'a Json, key: &str) -> (r: Option<&'a String>)
    ensures
        match r {
            Some(s) => str_at(*v, key@) == Some(s@),
            None => str_at(*v, key@) is None,
        },
{
    match get(v, key) {
        Some(Json::Str(s)) => Some(s),
        _ => None,
    }
}

/// A boolean member.
pub fn get_bool(v: &Json, key: &str) -> (r: Option<bool>)
    ensures
        r == bool_of(at(*v, key@)),
{
    match get(v, key) {
        Some(Json::Bool(b)) => Some(*b),
        _ => None,
    }
}

/// A non-negative integer member.
pub fn get_u64(v: &Json, key: &str) -> (r: Option<u64>)
    ensures
        r == u64_of(at(*v, key@)),
{
    match get(v, key) {
        Some(x) => as_u64(x),
        None => None,
    }
}

/// A non-negative integer value.
pub fn as_u64(v: &Json) -> (r: Option<u64>)
    ensures
        r == u64_of(*v),
{
    match v {
        Json::UInt(n) => Some(*n),
        Json::Int(n) => if *n >= 0 {
            Some(*n as u64)
        } else {
            None
        },
        _ => None,
    }
}

/// A string value.
pub fn text(s: &str) -> (v: Json)
    ensures
        v matches Json::Str(t) && t@ == s@,
        jview(v) == JsonView::Str(s@),
{
    Json::Str(s.to_owned())
}

/// What a JSON value says, with strings as their characters.
#[verifier::ext_equal]
pub enum JsonView {
    /// `null`.
    Null,
    /// `true` or `false`.
    Bool(bool),
    /// A non-negative integer.
    UInt(u64),
    /// A signed integer.
    Int(i64),
    /// A string.
    Str(Seq<char>),
    /// An array.
    Array(Seq<JsonView>),
    /// An object, as its members in order.
    Object(Seq<(Seq<char>, JsonView)>),
}

/// What a JSON value says.
pub open spec fn jview(v: Json) -> JsonView
    decreases v,
{
    match v {
        Json::Null => JsonView::Null,
        Json::Bool(b) => JsonView::Bool(b),
        Json::UInt(n) => JsonView::UInt(n),
        Json::Int(n) => JsonView::Int(n),
        Json::Str(s) => JsonView::Str(s@),
        Json::Array(items) => JsonView::Array(
            Seq::new(
                items.len() as nat,
                |i: int|
                    if 0 <= i < items.len() {
                        jview(items@[i])
                    } else {
                        JsonView::Null
                    },
            ),
        ),
        Json::Object(pairs) => JsonView::Object(
            Seq::new(
                pairs.len() as nat,
                |i: int|
                    if 0 <= i < pairs.len() {
                        (pairs@[i].0@, jview(pairs@[i].1))
                    } else {
                        (Seq::empty(), JsonView::Null)
                    },
            ),
        ),
    }
}

/// What the members of an object say.
pub open spec fn members_view(pairs: Seq<(String, Json)>) -> Seq<(Seq<char>, JsonView)> {
    Seq::new(pairs.len(), |i: int| (pairs[i].0@, jview(pairs[i].1)))
}

/// What the items of an array say.
pub open spec fn items_view(items: Seq<Json>) -> Seq<JsonView> {
    Seq::new(items.len(), |i: int| jview(items[i]))
}

/// An object of the given members.
pub fn object(pairs: Vec<(String, Json)>) -> (r: Json)
    ensures
        jview(r) == JsonView::Object(members_view(pairs@)),
{
    let r = Json::Object(pairs);
    assert(jview(r) matches JsonView::Object(m) && m =~= members_view(pairs@));
    r
}

/// An array of the given items.
pub fn array(items: Vec<Json>) -> (r: Json)
    ensures
        jview(r) == JsonView::Array(items_view(items@)),
{
    let r = Json::Array(items);
    assert(jview(r) matches JsonView::Array(m) && m =~= items_view(items@));
    r
}

/// Appends a member to an object under construction.
pub fn push_member(pairs: &mut Vec<(String, Json)>, key: &str, value: Json)
    ensures
        members_view(final(pairs)@) == members_view(old(pairs)@).push((key@, jview(value))),
{
    pairs.push((key.to_owned(), value));
    assert(members_view(pairs@) =~= members_view(old(pairs)@).push((key@, jview(value))));
}

/// Appends an item to an array under construction.
pub fn push_item(items: &mut Vec<Json>, value: Json)
    ensures
        items_view(final(items)@) == items_view(old(items)@).push(jview(value)),
{
    items.push(value);
    assert(items_view(items@) =~= items_view(old(items)@).push(jview(value)));
}

/// A string value.
pub fn string(s: String) -> (r: Json)
    ensures
        jview(r) == JsonView::Str(s@),
{
    Json::Str(s)
}

/// A string value, or `null`.
pub fn optional_text(s: Option<&str>) -> (r: Json)
    ensures
        jview(r) == match s {
            Some(t) => JsonView::Str(t@),
            None => JsonView::Null,
        },
{
    match s {
        Some(t) => Json::Str(t.to_owned()),
        None => Json::Null,
    }
}

/// An empty list of object members.
pub fn members() -> (r: Vec<(String, Json)>)
    ensures
        members_view(r@) == Seq::<(Seq<char>, JsonView)>::empty(),
{
    let r: Vec<(String, Json)> = Vec::new();
    assert(members_view(r@) =~= Seq::<(Seq<char>, JsonView)>::empty());
    r
}

/// An empty list of array items.
pub fn items() -> (r: Vec<Json>)
    ensures
        items_view(r@) == Seq::<JsonView>::empty(),
{
    let r: Vec<Json> = Vec::new();
    assert(items_view(r@) =~= Seq::<JsonView>::empty());
    r
}

} // verus!
