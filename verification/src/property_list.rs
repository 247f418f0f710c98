//! Property lists: what the values and dictionaries of the `plist` crate hold.

use crate::entries::{lookup, with_entry};
use std::time::SystemTime;
use vstd::prelude::*;

verus! {

/// The content of a property list value, as far as this library tells values
/// apart.
pub enum PlistTree {
    Entries(Seq<(Seq<char>, PlistTree)>),
    Bytes(Seq<u8>),
    Time(SystemTime),
    Number(int),
    Text(Seq<char>),
    /// An array, a boolean, a real or a UID.
    Other,
}

/// `plist::Value`.
#[verifier::external_type_specification]
#[verifier::external_body]
pub struct ExValue(plist::Value);

/// `plist::Dictionary`.
#[verifier::external_type_specification]
#[verifier::external_body]
pub struct ExDictionary(plist::Dictionary);

/// The entries of a dictionary, in its order.
pub uninterp spec fn dictionary_entries(dict: plist::Dictionary) -> Seq<(Seq<char>, PlistTree)>;

/// What a property list value holds.
pub uninterp spec fn value_tree(value: plist::Value) -> PlistTree;

/// `plist::Dictionary::new`: an empty dictionary.
pub assume_specification[ plist::Dictionary::new ]() -> (dict: plist::Dictionary)
    ensures
        dictionary_entries(dict) == Seq::<(Seq<char>, PlistTree)>::empty(),
;

/// `plist::Dictionary::insert`: gives a key its value. A key that is there
/// keeps its place and gets the new value, and the old one is handed back; a
/// new key comes last.
pub assume_specification[ plist::Dictionary::insert ](
    dict: &mut plist::Dictionary,
    k: String,
    v: plist::Value,
) -> (previous: Option<plist::Value>)
    ensures
        dictionary_entries(*final(dict)) == with_entry(
            dictionary_entries(*old(dict)),
            k@,
            value_tree(v),
        ),
        match previous {
            Some(p) => lookup(dictionary_entries(*old(dict)), k@) == Some(value_tree(p)),
            None => lookup(dictionary_entries(*old(dict)), k@) is None,
        },
;

/// `plist::Dictionary::get`: the value of a key, where the key is there.
pub assume_specification<'a>[ plist::Dictionary::get ](
    dict: &'a plist::Dictionary,
    key: &str,
) -> (value: Option<&'a plist::Value>)
    ensures
        match value {
            Some(v) => lookup(dictionary_entries(*dict), key@) == Some(value_tree(*v)),
            None => lookup(dictionary_entries(*dict), key@) is None,
        },
;

/// `plist::Value::as_unsigned_integer`: the number of an integer value that
/// fits in `u64`, and nothing for any other value.
pub assume_specification[ plist::Value::as_unsigned_integer ](value: &plist::Value) -> (out: Option<
    u64,
>)
    ensures
        match out {
            Some(n) => value_tree(*value) == PlistTree::Number(n as int),
            None => match value_tree(*value) {
                PlistTree::Number(n) => !(0 <= n <= u64::MAX),
                _ => true,
            },
        },
;

/// `plist::Value::as_string`: the text of a string value, and nothing for any
/// other value.
pub assume_specification[ plist::Value::as_string ](value: &plist::Value) -> (out: Option<&str>)
    ensures
        match out {
            Some(s) => value_tree(*value) == PlistTree::Text(s@),
            None => !(value_tree(*value) is Text),
        },
;

/// `plist::Value::Data`: a value that holds these bytes.
#[verifier::external_body]
pub(crate) fn data_value(bytes: Vec<u8>) -> (value: plist::Value)
    ensures
        value_tree(value) == PlistTree::Bytes(bytes@),
{
    plist::Value::Data(bytes)
}

/// `plist::Value::String`: a value that holds this text.
#[verifier::external_body]
pub(crate) fn string_value(text: String) -> (value: plist::Value)
    ensures
        value_tree(value) == PlistTree::Text(text@),
{
    plist::Value::String(text)
}

/// `plist::Value::Date` of `plist::Date::from`: a value that holds this time.
#[verifier::external_body]
pub(crate) fn date_value(time: SystemTime) -> (value: plist::Value)
    ensures
        value_tree(value) == PlistTree::Time(time),
{
    plist::Value::Date(plist::Date::from(time))
}

/// `plist::Value::Integer` of `plist::Integer::from`: a value that holds this
/// number.
#[verifier::external_body]
pub(crate) fn integer_value(n: i64) -> (value: plist::Value)
    ensures
        value_tree(value) == PlistTree::Number(n as int),
{
    plist::Value::Integer(plist::Integer::from(n))
}

/// `plist::Value::Dictionary`: a value that holds this dictionary.
#[verifier::external_body]
pub(crate) fn dictionary_value(dict: plist::Dictionary) -> (value: plist::Value)
    ensures
        value_tree(value) == PlistTree::Entries(dictionary_entries(dict)),
{
    plist::Value::Dictionary(dict)
}

} // verus!
