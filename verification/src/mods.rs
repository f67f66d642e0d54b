//! Mods in their three forms, and the parser that picks the form.

use vstd::prelude::*;
use vstd::string::{StrSliceExecFns, StringExecFns};
use vstd::utf8::is_ascii_chars;
use rosu_mods::GameMods as GameModsLazer;
use rosu_mods::{GameModsIntermode, GameModsLegacy};
use crate::element::{
    collected,
    element_outcome,
    first_failure,
    lemma_failure_stays,
    resolve_element,
};
use crate::error::{ParseError, ParseErrorView};
use crate::json::{json_array_items, json_value_text, parse_array, parse_value};
use crate::mode::GameMode;
use crate::model::{all_have_bits, all_known, is_union_mask, put, ModEntry};
use crate::rosu::{acronym_mod, intermode_mods, lazer_mods, legacy_bits, merge};
use crate::text::{detect, encoding_of, trim, trimmed, upper_text, Encoding};

verus! {

/// Mods in one of three forms.
#[derive(Debug)]
pub enum GameMods {
    /// A bit mask, one bit per legacy mod.
    Legacy(GameModsLegacy),
    /// A set of mods without settings, not bound to a mode. It is used where
    /// a mod has no legacy bit.
    Intermode(GameModsIntermode),
    /// Mods of one mode with their settings.
    Lazer(GameModsLazer),
}

/// The acronym at place `k` of a string of acronyms: two characters.
pub open spec fn chunk(acronyms: Seq<char>, k: int) -> Seq<char> {
    acronyms.subrange(2 * k, 2 * k + 2)
}

/// The mods that one acronym names: the mod that the table has for it,
/// whatever the case of its letters, known or not. `NM` names no mod, and so
/// does an acronym with a character outside ASCII.
pub open spec fn chunk_mods(acronym: Seq<char>) -> Set<ModEntry> {
    if is_ascii_chars(acronym) {
        match acronym_mod(upper_text(acronym)) {
            Some(entry) => set![entry],
            None => Set::empty(),
        }
    } else {
        Set::empty()
    }
}

/// The mods that the first `n` acronyms of a string name.
pub open spec fn named_mods_upto(acronyms: Seq<char>, n: int) -> Set<ModEntry> {
    Set::new(
        |entry: ModEntry|
            exists|k: int| 0 <= k < n && #[trigger] chunk_mods(chunk(acronyms, k)).contains(entry),
    )
}

/// The mods that a string of acronyms names. The string is cut into acronyms
/// of two characters; a character that is left over at the end names nothing.
pub open spec fn named_mods(acronyms: Seq<char>) -> Set<ModEntry> {
    named_mods_upto(acronyms, acronyms.len() as int / 2)
}

/// `mods` is what a string of acronyms resolves to: the smallest form that
/// holds the mods it names. Where each of them has a legacy bit, that is the
/// mask of their bits; else it is the set of the mods.
pub open spec fn resolves_to(acronyms: Seq<char>, mods: GameMods) -> bool {
    if all_have_bits(named_mods(acronyms)) {
        mods matches GameMods::Legacy(legacy) && is_union_mask(
            legacy_bits(legacy),
            named_mods(acronyms),
        )
    } else {
        mods matches GameMods::Intermode(set) && intermode_mods(set) == named_mods(acronyms)
    }
}

/// `r` is what the JSON text `json` gives for `mode`.
///
/// A text that starts with `[` is an array of elements. The first element
/// that is refused, in array order, decides the error; where none is, the
/// mods are collected in array order. Any other text is one element.
pub open spec fn json_gives(json: Seq<char>, mode: GameMode, r: Result<GameMods, ParseError>) -> bool {
    if json.len() > 0 && json[0] == '[' {
        match json_array_items(json) {
            Err(message) => r matches Err(error) && error@ == (ParseErrorView::MalformedJson {
                message: "invalid JSON array: "@ + message,
            }),
            Ok(items) => match first_failure(items, mode) {
                Some(failure) => r matches Err(error) && error@ == failure,
                None => r matches Ok(GameMods::Lazer(mods)) && lazer_mods(mods) == collected(
                    items,
                    mode,
                ),
            },
        }
    } else {
        match json_value_text(json) {
            Err(message) => r matches Err(error) && error@ == (ParseErrorView::MalformedJson {
                message: "invalid JSON: "@ + message,
            }),
            Ok(element) => match element_outcome(element, mode) {
                Err(failure) => r matches Err(error) && error@ == failure,
                Ok(entry) => r matches Ok(GameMods::Lazer(mods)) && lazer_mods(mods) == put(
                    Set::empty(),
                    entry,
                ),
            },
        }
    }
}

/// `mask` is the legacy bit mask that `mods` projects to. The projection
/// loses the settings and every mod without a legacy bit.
pub open spec fn projects_to(mods: GameMods, mask: u32) -> bool {
    match mods {
        GameMods::Legacy(legacy) => mask == legacy_bits(legacy),
        GameMods::Intermode(set) => is_union_mask(mask, intermode_mods(set)),
        GameMods::Lazer(entries) => is_union_mask(mask, lazer_mods(entries)),
    }
}

impl GameMods {
    /// The legacy form with exactly the bits of `bits`. No bit is checked
    /// against a mode.
    pub fn from_legacy_bits(bits: u32) -> (r: Self)
        ensures
            r matches GameMods::Legacy(legacy) && legacy_bits(legacy) == bits,
    {
        GameMods::Legacy(GameModsLegacy::from_bits_retain(bits))
    }

    /// Resolves a string of acronyms. This never fails: an acronym that the
    /// mod table lacks stays in the set as an unknown mod.
    pub fn from_acronyms(acronyms: &str) -> (r: Self)
        ensures
            resolves_to(acronyms@, r),
    {
        let len = acronyms.unicode_len();
        let pairs = len / 2;
        let mut found = GameModsIntermode::new();
        let mut k: usize = 0;
        assert(intermode_mods(found) =~= named_mods_upto(acronyms@, 0));
        while k < pairs
            invariant
                k <= pairs,
                len == acronyms@.len(),
                pairs == len / 2,
                intermode_mods(found) == named_mods_upto(acronyms@, k as int),
                forall|entry: ModEntry| #[trigger]
                    intermode_mods(found).contains(entry) ==> acronym_mod(entry.acronym) == Some(
                        entry,
                    ),
            decreases pairs - k,
        {
            let acronym = acronyms.substring_char(2 * k, 2 * k + 2);
            let ghost before = intermode_mods(found);
            assert(acronym@ == chunk(acronyms@, k as int));
            if acronym.is_ascii() {
                let more = GameModsIntermode::from_acronyms(acronym);
                merge(&mut found, more);
            }
            proof {
                let after = intermode_mods(found);
                assert(after == before.union(chunk_mods(acronym@)));
                assert forall|entry: ModEntry|
                    named_mods_upto(acronyms@, k + 1).contains(entry) implies after.contains(
                    entry,
                ) by {
                    let at = choose|j: int|
                        0 <= j < k + 1 && #[trigger] chunk_mods(chunk(acronyms@, j)).contains(
                            entry,
                        );
                    if at < k {
                        assert(named_mods_upto(acronyms@, k as int).contains(entry));
                    }
                }
                assert forall|entry: ModEntry| after.contains(entry) implies named_mods_upto(
                    acronyms@,
                    k + 1,
                ).contains(entry) by {
                    if before.contains(entry) {
                        let at = choose|j: int|
                            0 <= j < k && #[trigger] chunk_mods(chunk(acronyms@, j)).contains(
                                entry,
                            );
                        assert(chunk_mods(chunk(acronyms@, at)).contains(entry));
                    } else {
                        assert(chunk_mods(chunk(acronyms@, k as int)).contains(entry));
                    }
                }
                assert(after =~= named_mods_upto(acronyms@, k + 1));
            }
            k += 1;
        }
        match found.checked_bits() {
            Some(bits) => GameMods::from_legacy_bits(bits),
            None => GameMods::Intermode(found),
        }
    }

    /// Reads the JSON form for `mode`: an array of mods, or one mod.
    pub fn from_json_str(json_str: &str, mode: GameMode) -> (r: Result<Self, ParseError>)
        ensures
            json_gives(json_str@, mode, r),
    {
        if json_str.unicode_len() > 0 && json_str.get_char(0) == '[' {
            let items = match parse_array(json_str) {
                Ok(items) => items,
                Err(message) => {
                    return Err(
                        ParseError::MalformedJson {
                            message: "invalid JSON array: ".to_owned().concat(message.as_str()),
                        },
                    );
                },
            };
            let ghost texts = items.deep_view();
            let mut mods = GameModsLazer::new();
            let mut i: usize = 0;
            assert(texts.take(0) =~= Seq::<Seq<char>>::empty());
            while i < items.len()
                invariant
                    i <= items.len(),
                    texts == items.deep_view(),
                    json_str@.len() > 0 && json_str@[0] == '[',
                    json_array_items(json_str@) == Ok::<Seq<Seq<char>>, Seq<char>>(texts),
                    first_failure(texts.take(i as int), mode) is None,
                    lazer_mods(mods) == collected(texts.take(i as int), mode),
                    all_known(lazer_mods(mods)),
                decreases items.len() - i,
            {
                let ghost upto = texts.take(i + 1);
                assert(upto.drop_last() =~= texts.take(i as int));
                assert(upto.last() == items[i as int]@);
                match resolve_element(items[i].as_str(), mode) {
                    Ok(gamemod) => {
                        mods.insert(gamemod);
                    },
                    Err(error) => {
                        proof {
                            lemma_failure_stays(texts, mode, i + 1);
                        }
                        return Err(error);
                    },
                }
                i += 1;
            }
            assert(texts.take(i as int) =~= texts);
            Ok(GameMods::Lazer(mods))
        } else {
            let element = match parse_value(json_str) {
                Ok(element) => element,
                Err(message) => {
                    return Err(
                        ParseError::MalformedJson {
                            message: "invalid JSON: ".to_owned().concat(message.as_str()),
                        },
                    );
                },
            };
            match resolve_element(element.as_str(), mode) {
                Ok(gamemod) => {
                    let mut mods = GameModsLazer::new();
                    mods.insert(gamemod);
                    Ok(GameMods::Lazer(mods))
                },
                Err(error) => Err(error),
            }
        }
    }

    /// The legacy bit mask of the mods. For the other two forms this loses
    /// the settings and every mod without a legacy bit.
    pub fn to_legacy_bits(&self) -> (r: u32)
        ensures
            projects_to(*self, r),
    {
        match self {
            GameMods::Legacy(legacy) => legacy.bits(),
            GameMods::Intermode(set) => set.bits(),
            GameMods::Lazer(entries) => entries.bits(),
        }
    }
}

/// `a` and `b` are of one form and hold the same mods.
pub open spec fn same_mods(a: GameMods, b: GameMods) -> bool {
    match (a, b) {
        (GameMods::Legacy(x), GameMods::Legacy(y)) => legacy_bits(x) == legacy_bits(y),
        (GameMods::Intermode(x), GameMods::Intermode(y)) => intermode_mods(x) == intermode_mods(y),
        (GameMods::Lazer(x), GameMods::Lazer(y)) => lazer_mods(x) == lazer_mods(y),
        _ => false,
    }
}

impl Clone for GameMods {
    /// A copy in the same form with the same mods.
    fn clone(&self) -> (r: Self)
        ensures
            same_mods(*self, r),
    {
        match self {
            GameMods::Legacy(legacy) => GameMods::Legacy(legacy.clone()),
            GameMods::Intermode(set) => GameMods::Intermode(set.clone()),
            GameMods::Lazer(entries) => GameMods::Lazer(entries.clone()),
        }
    }
}

impl Default for GameMods {
    /// No mods, in the legacy form.
    fn default() -> (r: Self)
        ensures
            r matches GameMods::Legacy(legacy) && legacy_bits(legacy) == 0,
    {
        GameMods::from_legacy_bits(0)
    }
}

/// `r` is what the text `input` gives for `mode`.
pub open spec fn parse_gives(input: Seq<char>, mode: GameMode, r: Result<GameMods, ParseError>) -> bool {
    match encoding_of(trimmed(input)) {
        Encoding::Empty => r matches Ok(GameMods::Legacy(legacy)) && legacy_bits(legacy) == 0,
        Encoding::Json => json_gives(trimmed(input), mode, r),
        Encoding::Bits(bits) => r matches Ok(GameMods::Legacy(legacy)) && legacy_bits(legacy)
            == bits,
        Encoding::Acronyms => r matches Ok(mods) && resolves_to(trimmed(input), mods),
    }
}

/// Reads mods from text, in whichever form they are written: nothing, a
/// decimal bit mask, JSON, or a string of acronyms. White space around the
/// text does not count. Only JSON can be refused.
pub fn parse_mods(input: &str, mode: GameMode) -> (r: Result<GameMods, ParseError>)
    ensures
        parse_gives(input@, mode, r),
{
    let text = trim(input);
    match detect(text) {
        Encoding::Empty => Ok(GameMods::default()),
        Encoding::Json => GameMods::from_json_str(text, mode),
        Encoding::Bits(bits) => Ok(GameMods::from_legacy_bits(bits)),
        Encoding::Acronyms => Ok(GameMods::from_acronyms(text)),
    }
}

} // verus!
