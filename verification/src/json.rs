//! JSON values as `serde_json` reads them.
//!
//! A `serde_json::Value` is opaque here: the library looks at one through the
//! accessors below, and contracts speak of what those accessors hand out.
use vstd::prelude::*;

verus! {

/// `serde_json::Value`, carried as it is.
#[verifier::external_type_specification]
#[verifier::external_body]
pub struct ExValue(serde_json::Value);

/// What `serde_json::Value::as_str` finds in a value.
pub uninterp spec fn json_str(value: serde_json::Value) -> Option<Seq<char>>;

/// What `serde_json::Value::as_array` finds in a value.
pub uninterp spec fn json_items(value: serde_json::Value) -> Option<Seq<serde_json::Value>>;

/// What `serde_json::Value::get` finds in a value under a key.
pub uninterp spec fn json_member(value: serde_json::Value, key: Seq<char>) -> Option<
    serde_json::Value,
>;

/// The text of a JSON string, or nothing for any other value:
/// `serde_json::Value::as_str`.
pub assume_specification[ serde_json::Value::as_str ](value: &serde_json::Value) -> (r: Option<
    &str,
>)
    ensures
        r is Some == json_str(*value) is Some,
        r matches Some(t) ==> json_str(*value) == Some(t@),
;

/// The elements of a JSON array in their order, or nothing for any other
/// value: `serde_json::Value::as_array`.
pub assume_specification[ serde_json::Value::as_array ](value: &serde_json::Value) -> (r: Option<
    &Vec<serde_json::Value>,
>)
    ensures
        r is Some == json_items(*value) is Some,
        r matches Some(items) ==> json_items(*value) == Some(items@),
;

/// The member of a JSON object under a key, or nothing where there is none or
/// the value is no object: `serde_json::Value::get` with a string index.
#[verifier::external_body]
pub(crate) fn member<'a>(value: &'a serde_json::Value, key: &str) -> (r: Option<
    &'a serde_json::Value,
>)
    ensures
        r is Some == json_member(*value, key@) is Some,
        r matches Some(m) ==> json_member(*value, key@) == Some(*m),
{
    value.get(key)
}

/// Whether `serde_json::Value::is_null` holds of a value.
pub uninterp spec fn json_null(value: serde_json::Value) -> bool;

/// Whether a value is JSON's `null`: `serde_json::Value::is_null`.
pub assume_specification[ serde_json::Value::is_null ](value: &serde_json::Value) -> (r: bool)
    ensures
        r == json_null(*value),
;

/// A value as compact JSON text, as `serde_json::Value` displays itself.
pub uninterp spec fn json_rendered(value: serde_json::Value) -> Seq<char>;

/// A value as compact JSON text: the `Display` of `serde_json::Value`. A number
/// is written as its digits.
#[verifier::external_body]
pub(crate) fn rendered(value: &serde_json::Value) -> (r: String)
    ensures
        r@ == json_rendered(*value),
{
    value.to_string()
}

/// The texts among the values, in their order; other values are left out.
pub open spec fn json_texts(items: Seq<serde_json::Value>) -> Seq<Seq<char>>
    decreases items.len(),
{
    if items.len() == 0 {
        Seq::empty()
    } else {
        match json_str(items.last()) {
            Some(t) => json_texts(items.drop_last()).push(t),
            None => json_texts(items.drop_last()),
        }
    }
}

/// The texts of an array are those of its first and of its second part: a text
/// is kept whole and in its place, and any other value adds nothing.
pub proof fn law_texts_are_kept_in_their_order(
    first: Seq<serde_json::Value>,
    value: serde_json::Value,
    second: Seq<serde_json::Value>,
)
    ensures
        json_texts(first + seq![value] + second) == json_texts(first) + (match json_str(value) {
            Some(t) => seq![t],
            None => Seq::empty(),
        }) + json_texts(second),
    decreases second.len(),
{
    let all = first + seq![value] + second;
    if second.len() == 0 {
        assert(all.drop_last() =~= first);
        assert(json_texts(all) =~= json_texts(first) + (match json_str(value) {
            Some(t) => seq![t],
            None => Seq::empty(),
        }) + json_texts(second));
    } else {
        law_texts_are_kept_in_their_order(first, value, second.drop_last());
        assert(all.drop_last() =~= first + seq![value] + second.drop_last());
        assert(json_texts(all) =~= json_texts(first) + (match json_str(value) {
            Some(t) => seq![t],
            None => Seq::empty(),
        }) + json_texts(second));
    }
}

} // verus!
