//! The payload of a webhook: a JSON document and what is read of it.
use vstd::prelude::*;

use crate::clock::{date_millis, github_date_millis};
use crate::config::str_option;
use crate::text::same;

verus! {

/// A JSON value. A number that is no integer of 64 bits with a sign is kept as
/// its text.
#[derive(Debug)]
pub enum Json {
    Null,
    Flag(bool),
    Integer(i64),
    Number(String),
    Text(String),
    List(Vec<Json>),
    Object(Vec<Member>),
}

/// A member of a JSON object.
#[derive(Debug)]
pub struct Member {
    pub key: String,
    pub value: Json,
}

/// The value of a member of an object, from position `from` on.
pub open spec fn member_from(object: Seq<Member>, key: Seq<char>, from: int) -> Option<Json>
    decreases object.len() - from,
{
    if from >= object.len() {
        None
    } else if object[from].key@ == key {
        Some(object[from].value)
    } else {
        member_from(object, key, from + 1)
    }
}

/// The value of a member of an object.
pub open spec fn member(object: Seq<Member>, key: Seq<char>) -> Option<Json> {
    member_from(object, key, 0)
}

/// The value that a reference leads to.
pub open spec fn given(value: Option<&Json>) -> Option<Json> {
    match value {
        Some(value) => Some(*value),
        None => None,
    }
}

/// The text of a member, where it is a text.
pub open spec fn text_member(object: Seq<Member>, key: Seq<char>) -> Option<Seq<char>> {
    match member(object, key) {
        Some(Json::Text(text)) => Some(text@),
        _ => None,
    }
}

/// The number of a member, where it is an integer.
pub open spec fn integer_member(object: Seq<Member>, key: Seq<char>) -> Option<i64> {
    match member(object, key) {
        Some(Json::Integer(n)) => Some(n),
        _ => None,
    }
}

/// The truth value of a member: false where it has none.
pub open spec fn flag_member(object: Seq<Member>, key: Seq<char>) -> bool {
    match member(object, key) {
        Some(Json::Flag(flag)) => flag,
        _ => false,
    }
}

/// The members of a member, where it is an object.
pub open spec fn object_member(object: Seq<Member>, key: Seq<char>) -> Option<Seq<Member>> {
    match member(object, key) {
        Some(Json::Object(members)) => Some(members@),
        _ => None,
    }
}

/// The items of a member: none where it is no list.
pub open spec fn list_member(object: Seq<Member>, key: Seq<char>) -> Seq<Json> {
    match member(object, key) {
        Some(Json::List(items)) => items@,
        _ => Seq::empty(),
    }
}

/// The number of a member of a member.
pub open spec fn nested_integer(object: Seq<Member>, key: Seq<char>, nested: Seq<char>) -> Option<
    i64,
> {
    match object_member(object, key) {
        Some(inner) => integer_member(inner, nested),
        None => None,
    }
}

/// The text of a member of a member.
pub open spec fn nested_text(object: Seq<Member>, key: Seq<char>, nested: Seq<char>) -> Option<
    Seq<char>,
> {
    match object_member(object, key) {
        Some(inner) => text_member(inner, nested),
        None => None,
    }
}

/// The instant that the text of a member names.
pub open spec fn date_member(object: Seq<Member>, key: Seq<char>) -> Option<i64> {
    date_millis(text_member(object, key))
}

/// The value of a member of an object.
pub fn get<'a>(object: &'a [Member], key: &str) -> (r: Option<&'a Json>)
    ensures
        match r {
            Some(value) => member(object@, key@) == Some(*value),
            None => member(object@, key@) is None,
        },
{
    let mut i: usize = 0;
    while i < object.len()
        invariant
            i <= object@.len(),
            member_from(object@, key@, i as int) == member(object@, key@),
        decreases object@.len() - i,
    {
        if same(object[i].key.as_str(), key) {
            return Some(&object[i].value);
        }
        i += 1;
    }
    None
}

/// The text of a member, where it is a text.
pub fn string<'a>(object: &'a [Member], key: &str) -> (r: Option<&'a str>)
    ensures
        str_option(r) == text_member(object@, key@),
{
    match get(object, key) {
        Some(Json::Text(text)) => Some(text.as_str()),
        _ => None,
    }
}

/// The number of a member, where it is an integer.
pub fn i64_value(object: &[Member], key: &str) -> (r: Option<i64>)
    ensures
        r == integer_member(object@, key@),
{
    match get(object, key) {
        Some(Json::Integer(n)) => Some(*n),
        _ => None,
    }
}

/// The truth value of a member: false where it has none.
pub fn bool_value(object: &[Member], key: &str) -> (r: bool)
    ensures
        r == flag_member(object@, key@),
{
    match get(object, key) {
        Some(Json::Flag(flag)) => *flag,
        _ => false,
    }
}

/// The members of a member, where it is an object.
pub fn nested_object<'a>(object: &'a [Member], key: &str) -> (r: Option<&'a [Member]>)
    ensures
        match r {
            Some(members) => object_member(object@, key@) == Some(members@),
            None => object_member(object@, key@) is None,
        },
{
    match get(object, key) {
        Some(Json::Object(members)) => Some(members.as_slice()),
        _ => None,
    }
}

/// The items of a member, where it is a list.
pub fn array<'a>(object: &'a [Member], key: &str) -> (r: Option<&'a [Json]>)
    ensures
        match r {
            Some(items) => list_member(object@, key@) == items@,
            None => list_member(object@, key@).len() == 0,
        },
{
    match get(object, key) {
        Some(Json::List(items)) => Some(items.as_slice()),
        _ => None,
    }
}

/// The number of a member of a member.
pub fn nested_i64(object: &[Member], key: &str, nested_key: &str) -> (r: Option<i64>)
    ensures
        r == nested_integer(object@, key@, nested_key@),
{
    match nested_object(object, key) {
        Some(inner) => i64_value(inner, nested_key),
        None => None,
    }
}

/// The text of a member of a member.
pub fn nested_string<'a>(object: &'a [Member], key: &str, nested_key: &str) -> (r: Option<&'a str>)
    ensures
        str_option(r) == nested_text(object@, key@, nested_key@),
{
    match nested_object(object, key) {
        Some(inner) => string(inner, nested_key),
        None => None,
    }
}

/// The instant that the text of a member names.
pub fn date_value(object: &[Member], key: &str) -> (r: Option<i64>)
    ensures
        r == date_member(object@, key@),
{
    github_date_millis(string(object, key))
}

/// The text of a member, or a default.
pub fn string_or(object: &[Member], key: &str, default: &str) -> (r: String)
    ensures
        r@ == crate::config::or_default(text_member(object@, key@), default@),
{
    match string(object, key) {
        Some(text) => text.to_owned(),
        None => default.to_owned(),
    }
}

/// The text of a member, kept.
pub fn owned_string(object: &[Member], key: &str) -> (r: Option<String>)
    ensures
        crate::text::text_option(r) == text_member(object@, key@),
{
    match string(object, key) {
        Some(text) => Some(text.to_owned()),
        None => None,
    }
}

/// The number of a member, or a default.
pub open spec fn integer_or(object: Seq<Member>, key: Seq<char>, default: i64) -> i64 {
    match integer_member(object, key) {
        Some(n) => n,
        None => default,
    }
}

/// The number of a member, or a default.
pub fn i64_or(object: &[Member], key: &str, default: i64) -> (r: i64)
    ensures
        r == integer_or(object@, key@, default),
{
    match i64_value(object, key) {
        Some(n) => n,
        None => default,
    }
}

/// The value of a member is that of the first one with its key, and there is none where no
/// member has the key.
pub proof fn members_are_found_by_their_key(object: Seq<Member>, key: Seq<char>, i: int)
    ensures
        0 <= i < object.len() && object[i].key@ == key && (forall|k: int|
            0 <= k < i ==> (#[trigger] object[k]).key@ != key) ==> member(object, key) == Some(
            object[i].value,
        ),
        (forall|k: int| 0 <= k < object.len() ==> (#[trigger] object[k]).key@ != key) ==> member(
            object,
            key,
        ) is None,
{
    if 0 <= i < object.len() && object[i].key@ == key && (forall|k: int|
        0 <= k < i ==> (#[trigger] object[k]).key@ != key) {
        lemma_member_at(object, key, 0, i);
    }
    if forall|k: int| 0 <= k < object.len() ==> (#[trigger] object[k]).key@ != key {
        lemma_no_member(object, key, 0);
    }
}

proof fn lemma_member_at(object: Seq<Member>, key: Seq<char>, from: int, i: int)
    requires
        0 <= from <= i < object.len(),
        object[i].key@ == key,
        forall|k: int| from <= k < i ==> (#[trigger] object[k]).key@ != key,
    ensures
        member_from(object, key, from) == Some(object[i].value),
    decreases i - from,
{
    if from < i {
        lemma_member_at(object, key, from + 1, i);
    }
}

proof fn lemma_no_member(object: Seq<Member>, key: Seq<char>, from: int)
    requires
        0 <= from <= object.len(),
        forall|k: int| from <= k < object.len() ==> (#[trigger] object[k]).key@ != key,
    ensures
        member_from(object, key, from) is None,
    decreases object.len() - from,
{
    if from < object.len() {
        lemma_no_member(object, key, from + 1);
    }
}

/// Only a text is read as a text, only an integer as an integer, only a truth value as one,
/// only an object as an object and only a list as a list.
pub proof fn members_are_read_as_what_they_are(object: Seq<Member>, key: Seq<char>)
    ensures
        match member(object, key) {
            Some(Json::Text(text)) => text_member(object, key) == Some(text@) && integer_member(
                object,
                key,
            ) is None && object_member(object, key) is None && !flag_member(object, key),
            Some(Json::Integer(n)) => integer_member(object, key) == Some(n) && text_member(
                object,
                key,
            ) is None && object_member(object, key) is None && !flag_member(object, key),
            Some(Json::Flag(flag)) => flag_member(object, key) == flag && text_member(
                object,
                key,
            ) is None && integer_member(object, key) is None,
            Some(Json::Object(inner)) => object_member(object, key) == Some(inner@) && text_member(
                object,
                key,
            ) is None && list_member(object, key).len() == 0,
            Some(Json::List(items)) => list_member(object, key) == items@ && object_member(
                object,
                key,
            ) is None,
            _ => text_member(object, key) is None && integer_member(object, key) is None
                && !flag_member(object, key) && object_member(object, key) is None && list_member(
                object,
                key,
            ).len() == 0,
        },
{
}

}
