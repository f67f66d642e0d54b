//! JSON, as `serde_json` reads it, and the mods that `rosu_mods` reads out of it.
//!
//! Nothing in this file is proved. Each wrapper says of its result only that
//! it depends on the arguments alone: the same text gives the same result.
//! What passes between the wrappers and the parser is text, so that the
//! parser's own steps can be stated and proved.

use vstd::prelude::*;
use rosu_mods::serde::GameModSeed;
use rosu_mods::GameMod;
use serde::de::{DeserializeSeed, IntoDeserializer};
use crate::model::ModEntry;
use crate::rosu::mod_entry;

verus! {

/// What `serde_json::from_str` makes of `text` as an array: its elements in
/// order, each written as compact JSON, or the error's message.
pub uninterp spec fn json_array_items(text: Seq<char>) -> Result<Seq<Seq<char>>, Seq<char>>;

/// What `serde_json::from_str` makes of `text` as one value: the value
/// written as compact JSON, or the error's message.
pub uninterp spec fn json_value_text(text: Seq<char>) -> Result<Seq<char>, Seq<char>>;

/// What `GameModSeed::Mode` makes of one JSON value for the mode of number
/// `mode`, unknown fields allowed: the mod, or the error's message.
pub uninterp spec fn parsed_mod(element: Seq<char>, mode: u8) -> Result<ModEntry, Seq<char>>;

/// What `serde_json::from_str` makes of `text` as an object: its fields,
/// each with its name and with its value written as compact JSON; `None`
/// where the text holds no object.
pub uninterp spec fn json_object_fields(text: Seq<char>) -> Option<Seq<(Seq<char>, Seq<char>)>>;

/// `text` written as a JSON string, as `serde_json::Value` displays it: in
/// double quotes, with escapes where JSON needs them.
pub uninterp spec fn json_string_text(text: Seq<char>) -> Seq<char>;

/// `serde_json::from_str` on a text that should hold an array. The elements
/// come back as text, which is how `serde_json::Value` displays itself.
#[verifier::external_body]
pub(crate) fn parse_array(text: &str) -> (r: Result<Vec<String>, String>)
    ensures
        match r {
            Ok(items) => json_array_items(text@) == Ok::<Seq<Seq<char>>, Seq<char>>(
                items.deep_view(),
            ),
            Err(message) => json_array_items(text@) == Err::<Seq<Seq<char>>, Seq<char>>(message@),
        },
{
    match serde_json::from_str::<Vec<serde_json::Value>>(text) {
        Ok(values) => Ok(values.iter().map(|value| value.to_string()).collect()),
        Err(error) => Err(error.to_string()),
    }
}

/// `serde_json::from_str` on a text that should hold one value.
#[verifier::external_body]
pub(crate) fn parse_value(text: &str) -> (r: Result<String, String>)
    ensures
        match r {
            Ok(element) => json_value_text(text@) == Ok::<Seq<char>, Seq<char>>(element@),
            Err(message) => json_value_text(text@) == Err::<Seq<char>, Seq<char>>(message@),
        },
{
    match serde_json::from_str::<serde_json::Value>(text) {
        Ok(value) => Ok(value.to_string()),
        Err(error) => Err(error.to_string()),
    }
}

/// `GameModSeed::deserialize` on the value that `serde_json::from_str` reads
/// out of `element`, with the seed `GameModSeed::Mode` for the mode of number
/// `mode` (`rosu_mods::GameMode::from` takes a number above 3 for mode 0) and
/// `deny_unknown_fields` off.
#[verifier::external_body]
pub(crate) fn deserialize_mod(element: &str, mode: u8) -> (r: Result<GameMod, String>)
    ensures
        match r {
            Ok(gamemod) => parsed_mod(element@, mode) == Ok::<ModEntry, Seq<char>>(
                mod_entry(gamemod),
            ),
            Err(message) => parsed_mod(element@, mode) == Err::<ModEntry, Seq<char>>(message@),
        },
{
    let mode = rosu_mods::GameMode::from(mode);
    let seed = GameModSeed::Mode { mode, deny_unknown_fields: false };
    match serde_json::from_str::<serde_json::Value>(element) {
        Ok(value) => match seed.deserialize(value.into_deserializer()) {
            Ok(gamemod) => Ok(gamemod),
            Err(error) => Err(error.to_string()),
        },
        Err(error) => Err(error.to_string()),
    }
}

/// `serde_json::from_str` on a text that should hold an object, read as a
/// `serde_json::Map`. The values come back as text, as in `parse_array`.
#[verifier::external_body]
pub(crate) fn object_fields(text: &str) -> (r: Option<Vec<(String, String)>>)
    ensures
        match r {
            Some(fields) => json_object_fields(text@) == Some(fields.deep_view()),
            None => json_object_fields(text@) is None,
        },
{
    match serde_json::from_str::<serde_json::Map<String, serde_json::Value>>(text) {
        Ok(object) => Some(
            object.iter().map(|(name, value)| (name.clone(), value.to_string())).collect(),
        ),
        Err(_) => None,
    }
}

/// `serde_json::Value::from` on a text, displayed: the text as a JSON string.
#[verifier::external_body]
pub(crate) fn json_string(text: &str) -> (r: String)
    ensures
        r@ == json_string_text(text@),
{
    serde_json::Value::from(text).to_string()
}

} // verus!
