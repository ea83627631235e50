//! Trusted boundary to the outside crates the history decoder relies on:
//! serde_json reads the response's JSON array, chrono reads timestamps.
//! Each item's contract states no more than the crate's own documentation.

use vstd::prelude::*;
use chrono::Datelike;
use chrono::Timelike;
use crate::model::{SimpleDate, Timestamp};

verus! {

#[verifier::external_type_specification]
#[verifier::external_body]
pub struct ExValue(serde_json::Value);

/// What `chrono::NaiveDateTime::parse_from_str` reads from a string with the
/// format `%Y-%m-%d %H:%M:%S`: the result depends on the characters alone.
pub uninterp spec fn parsed_datetime(s: Seq<char>) -> Option<Timestamp>;

/// What `chrono::NaiveDate::parse_from_str` reads from a string with the
/// format `%Y-%m-%d`: the result depends on the characters alone.
pub uninterp spec fn parsed_date(s: Seq<char>) -> Option<SimpleDate>;

/// The string-valued members a JSON value holds: for an object, each key
/// whose member is a JSON string maps to that string's characters; any other
/// kind of value holds none. What a parsed value holds depends on the parsed
/// text alone.
pub uninterp spec fn json_str_members(v: serde_json::Value) -> Map<Seq<char>, Seq<char>>;

/// What `serde_json::from_str` reads from a history body: the string-member
/// maps of the elements of a JSON array, in array order, or nothing when the
/// body is not a well-formed JSON array. The result depends on the body
/// characters alone.
pub uninterp spec fn json_array_members(body: Seq<char>) -> Option<Seq<Map<Seq<char>, Seq<char>>>>;

/// Relies on `serde_json::from_str`: the elements of a JSON array, in order,
/// or nothing when the body is not well-formed JSON or not an array.
#[verifier::external_body]
pub(crate) fn json_parse_array(body: &str) -> (r: Option<Vec<serde_json::Value>>)
    ensures
        r is Some <==> json_array_members(body@) is Some,
        r matches Some(vs) ==> vs@.len() == json_array_members(body@)->Some_0.len() && (forall|
            i: int,
        |
            0 <= i < vs@.len() ==> #[trigger] json_str_members(vs@[i]) == json_array_members(
                body@,
            )->Some_0[i]),
{
    serde_json::from_str::<Vec<serde_json::Value>>(body).ok()
}

/// Relies on `serde_json::Value::get` (a member lookup on an object, nothing
/// on any other kind of value) and `Value::as_str` (the content of a string
/// member, nothing for another kind of member): the characters of the string
/// member of `v` under `key`.
#[verifier::external_body]
pub(crate) fn json_member_str(v: &serde_json::Value, key: &str) -> (r: Option<String>)
    ensures
        r is Some <==> json_str_members(*v).dom().contains(key@),
        r matches Some(s) ==> s@ == json_str_members(*v)[key@],
{
    match v.get(key) {
        Some(x) => match x.as_str() {
            Some(s) => Some(s.to_string()),
            None => None,
        },
        None => None,
    }
}

/// Relies on `chrono::NaiveDateTime::parse_from_str` with the format
/// `%Y-%m-%d %H:%M:%S`, converted to plain fields.
#[verifier::external_body]
pub(crate) fn parse_datetime_str(s: &str) -> (r: Option<Timestamp>)
    ensures
        r == parsed_datetime(s@),
{
    match chrono::NaiveDateTime::parse_from_str(s, "%Y-%m-%d %H:%M:%S") {
        Ok(dt) => Some(Timestamp {
            year: dt.year(),
            month: dt.month() as u8,
            day: dt.day() as u8,
            hour: dt.hour() as u8,
            minute: dt.minute() as u8,
            second: dt.second() as u8,
        }),
        Err(_) => None,
    }
}

/// Relies on `chrono::NaiveDate::parse_from_str` with the format `%Y-%m-%d`,
/// converted to plain fields.
#[verifier::external_body]
pub(crate) fn parse_date_str(s: &str) -> (r: Option<SimpleDate>)
    ensures
        r == parsed_date(s@),
{
    match chrono::NaiveDate::parse_from_str(s, "%Y-%m-%d") {
        Ok(d) => Some(SimpleDate { year: d.year(), month: d.month() as u8, day: d.day() as u8 }),
        Err(_) => None,
    }
}

} // verus!
