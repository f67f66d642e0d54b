//! One element of the JSON form: what kind of value it is, and the mod or the
//! error that it gives.

use vstd::prelude::*;
use vstd::string::{StrSliceExecFns, StringExecFns};
use rosu_mods::GameMod;
use crate::error::{ParseError, ParseErrorView};
use crate::json::{deserialize_mod, parsed_mod};
use crate::mode::GameMode;
use crate::model::{put, ModEntry};
use crate::rosu::{is_unknown_mod, mod_acronym, mod_entry};
use crate::setting::{find_refused_setting, refused_setting};
use crate::text::digit_of;

verus! {

/// The kinds of JSON value that the parser tells apart.
#[derive(Clone, Copy, Debug, PartialEq, Eq, Structural)]
pub enum ElementKind {
    /// A string: a bare acronym.
    Text,
    /// A number: the legacy bit value of one mod.
    Number,
    /// An object: an acronym with settings.
    Object,
    /// An array, a boolean or `null`: no mod.
    Other,
}

/// The kind of the value that `element` writes, by its first character.
pub open spec fn kind_of(element: Seq<char>) -> ElementKind {
    if element.len() == 0 {
        ElementKind::Other
    } else if element[0] == '"' {
        ElementKind::Text
    } else if element[0] == '{' {
        ElementKind::Object
    } else if element[0] == '-' || digit_of(element[0]) is Some {
        ElementKind::Number
    } else {
        ElementKind::Other
    }
}

/// The kind of the JSON value that `element` writes.
pub fn element_kind(element: &str) -> (r: ElementKind)
    ensures
        r == kind_of(element@),
{
    if element.unicode_len() == 0 {
        return ElementKind::Other;
    }
    let first = element.get_char(0);
    let n: u32 = first as u32;
    if first == '"' {
        ElementKind::Text
    } else if first == '{' {
        ElementKind::Object
    } else if first == '-' || (0x30 <= n && n <= 0x39) {
        ElementKind::Number
    } else {
        ElementKind::Other
    }
}

/// The message for a value that is neither a string, a number nor an object.
pub open spec fn not_a_mod() -> Seq<char> {
    "failed to deserialize mod: expected a string, a number or an object"@
}

/// The message for a value that the mod table or the mod's settings refuse.
pub open spec fn refused(message: Seq<char>) -> Seq<char> {
    "failed to deserialize mod: "@ + message
}

/// What one element gives for `mode`: its mod, or the reason why it is refused.
///
/// - An array, a boolean or `null` is no mod.
/// - A value that the mode's mod table reads gives that mod, unless the table
///   lacks the acronym.
/// - Of the values that the table does not read, an object with a setting
///   that its mod refuses is refused for that setting, anything else for its
///   shape.
pub open spec fn element_outcome(element: Seq<char>, mode: GameMode) -> Result<
    ModEntry,
    ParseErrorView,
> {
    if kind_of(element) == ElementKind::Other {
        Err(ParseErrorView::DeserializationFailure { message: not_a_mod() })
    } else {
        match parsed_mod(element, mode.spec_index()) {
            Ok(entry) => if entry.known {
                Ok(entry)
            } else {
                Err(ParseErrorView::UnknownModAcronym { acronym: entry.acronym, mode })
            },
            Err(message) => match (kind_of(element), refused_setting(element, mode.spec_index())) {
                (ElementKind::Object, Some(found)) => Err(
                    ParseErrorView::InvalidSettingValue {
                        acronym: found.0,
                        setting: found.1,
                        message: refused(message),
                    },
                ),
                _ => Err(ParseErrorView::DeserializationFailure { message: refused(message) }),
            },
        }
    }
}

/// Reads one element for `mode`.
pub fn resolve_element(element: &str, mode: GameMode) -> (r: Result<GameMod, ParseError>)
    ensures
        match r {
            Ok(gamemod) => element_outcome(element@, mode) == Ok::<ModEntry, ParseErrorView>(
                mod_entry(gamemod),
            ),
            Err(error) => element_outcome(element@, mode) == Err::<ModEntry, ParseErrorView>(
                error@,
            ),
        },
{
    let kind = element_kind(element);
    if kind == ElementKind::Other {
        return Err(
            ParseError::DeserializationFailure {
                message: "failed to deserialize mod: expected a string, a number or an object".to_owned(),
            },
        );
    }
    match deserialize_mod(element, mode.index()) {
        Ok(gamemod) => {
            if is_unknown_mod(&gamemod) {
                Err(ParseError::UnknownModAcronym { acronym: mod_acronym(&gamemod), mode })
            } else {
                Ok(gamemod)
            }
        },
        Err(message) => {
            let message = "failed to deserialize mod: ".to_owned().concat(message.as_str());
            if kind == ElementKind::Object {
                match find_refused_setting(element, mode) {
                    Some((acronym, setting)) => Err(
                        ParseError::InvalidSettingValue { acronym, setting, message },
                    ),
                    None => Err(ParseError::DeserializationFailure { message }),
                }
            } else {
                Err(ParseError::DeserializationFailure { message })
            }
        },
    }
}

/// The first refusal among `items`, in their order.
pub open spec fn first_failure(items: Seq<Seq<char>>, mode: GameMode) -> Option<ParseErrorView>
    decreases items.len(),
{
    if items.len() == 0 {
        None
    } else {
        match first_failure(items.drop_last(), mode) {
            Some(failure) => Some(failure),
            None => match element_outcome(items.last(), mode) {
                Ok(_) => None,
                Err(failure) => Some(failure),
            },
        }
    }
}

/// The mods that `items` give, put into a collection one after the other: a
/// later mod replaces an earlier one of its acronym.
pub open spec fn collected(items: Seq<Seq<char>>, mode: GameMode) -> Set<ModEntry>
    decreases items.len(),
{
    if items.len() == 0 {
        Set::empty()
    } else {
        match element_outcome(items.last(), mode) {
            Ok(entry) => put(collected(items.drop_last(), mode), entry),
            Err(_) => collected(items.drop_last(), mode),
        }
    }
}

/// A refusal among the first `n` elements is the first refusal of the whole.
pub proof fn lemma_failure_stays(items: Seq<Seq<char>>, mode: GameMode, n: int)
    requires
        0 <= n <= items.len(),
        first_failure(items.take(n), mode) is Some,
    ensures
        first_failure(items, mode) == first_failure(items.take(n), mode),
    decreases items.len() - n,
{
    if n == items.len() {
        assert(items.take(n) =~= items);
    } else {
        assert(items.take(n + 1).drop_last() =~= items.take(n));
        lemma_failure_stays(items, mode, n + 1);
    }
}

} // verus!
