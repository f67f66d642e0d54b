//! What holds of the parser for every input.

use vstd::prelude::*;
use crate::element::{collected, element_outcome};
use crate::error::ParseError;
use crate::mode::GameMode;
use crate::json::json_value_text;
use crate::model::{
    all_have_bits,
    all_known,
    is_union_mask,
    lemma_union_mask_of_none,
    lemma_union_mask_of_one,
    lemma_union_mask_unique,
    put,
    same_slot,
    ModEntry,
};
use crate::mods::{
    chunk,
    chunk_mods,
    json_gives,
    named_mods,
    named_mods_upto,
    parse_gives,
    projects_to,
    resolves_to,
    same_mods,
    GameMods,
};
use crate::rosu::{intermode_mods, lazer_mods, legacy_bits};
use crate::text::{
    decimal_text,
    encoding_of,
    is_space,
    lemma_decimal_detected,
    lemma_trimmed_blank,
    trimmed,
    upper_text,
    Encoding,
};

verus! {

/// Empty text, and text of white space only, gives no mods in every mode:
/// the legacy form with mask 0.
pub proof fn law_blank_text_gives_no_mods(
    input: Seq<char>,
    mode: GameMode,
    r: Result<GameMods, ParseError>,
)
    requires
        forall|k: int| 0 <= k < input.len() ==> is_space(#[trigger] input[k]),
        parse_gives(input, mode, r),
    ensures
        r matches Ok(GameMods::Legacy(legacy)) && legacy_bits(legacy) == 0,
{
    lemma_trimmed_blank(input);
}

/// Every `u32`, written in decimal, gives the legacy form with exactly that
/// mask in every mode. No bit is checked or dropped.
pub proof fn law_decimal_text_gives_its_bits(
    bits: u32,
    mode: GameMode,
    r: Result<GameMods, ParseError>,
)
    requires
        parse_gives(decimal_text(bits as nat), mode, r),
    ensures
        r matches Ok(GameMods::Legacy(legacy)) && legacy_bits(legacy) == bits,
{
    lemma_decimal_detected(bits);
}

/// Only the JSON form can be refused: text in any other encoding gives mods.
pub proof fn law_only_json_is_refused(
    input: Seq<char>,
    mode: GameMode,
    r: Result<GameMods, ParseError>,
)
    requires
        parse_gives(input, mode, r),
        r is Err,
    ensures
        encoding_of(trimmed(input)) == Encoding::Json,
{
}

/// Mods project to one mask only.
pub proof fn law_projection_is_unique(mods: GameMods, a: u32, b: u32)
    requires
        projects_to(mods, a),
        projects_to(mods, b),
    ensures
        a == b,
{
    match mods {
        GameMods::Legacy(legacy) => {},
        GameMods::Intermode(set) => {
            lemma_union_mask_unique(a, b, intermode_mods(set));
        },
        GameMods::Lazer(entries) => {
            lemma_union_mask_unique(a, b, lazer_mods(entries));
        },
    }
}

/// A copy projects to the mask of what it was copied from.
pub proof fn law_copy_projects_alike(mods: GameMods, copy: GameMods, mask: u32)
    requires
        same_mods(mods, copy),
        projects_to(mods, mask),
    ensures
        projects_to(copy, mask),
{
}

/// A mask that was made into the legacy form projects back to itself.
pub proof fn law_legacy_bits_round_trip(bits: u32, mods: GameMods, mask: u32)
    requires
        mods matches GameMods::Legacy(legacy) && legacy_bits(legacy) == bits,
        projects_to(mods, mask),
    ensures
        mask == bits,
{
}

/// A string of acronyms resolves to the legacy form exactly where each mod
/// that it names has a legacy bit, and to the set of the mods otherwise.
pub proof fn law_legacy_form_is_preferred(acronyms: Seq<char>, mods: GameMods)
    requires
        resolves_to(acronyms, mods),
    ensures
        mods is Legacy <==> all_have_bits(named_mods(acronyms)),
        mods is Intermode <==> !all_have_bits(named_mods(acronyms)),
{
}

/// Whichever form a string of acronyms resolves to, it projects to the
/// bitwise or of the legacy bits of the mods that the string names.
pub proof fn law_acronyms_project_to_their_bits(acronyms: Seq<char>, mods: GameMods, mask: u32)
    requires
        resolves_to(acronyms, mods),
        projects_to(mods, mask),
    ensures
        is_union_mask(mask, named_mods(acronyms)),
{
}

/// Text that is shorter than one acronym names no mods: it resolves to the
/// legacy form with mask 0.
pub proof fn law_short_text_names_no_mods(acronyms: Seq<char>, mods: GameMods)
    requires
        acronyms.len() < 2,
        resolves_to(acronyms, mods),
    ensures
        mods matches GameMods::Legacy(legacy) && legacy_bits(legacy) == 0,
{
    assert(named_mods(acronyms) =~= Set::<ModEntry>::empty());
    match mods {
        GameMods::Legacy(legacy) => {
            lemma_union_mask_of_none(legacy_bits(legacy));
        },
        _ => {},
    }
}

/// A character that is left over behind the last acronym names nothing.
pub proof fn law_leftover_character_is_dropped(acronyms: Seq<char>, leftover: char)
    requires
        acronyms.len() % 2 == 0,
    ensures
        named_mods(acronyms.push(leftover)) == named_mods(acronyms),
{
    let longer = acronyms.push(leftover);
    let pairs = acronyms.len() as int / 2;
    assert(longer.len() as int / 2 == pairs);
    assert forall|k: int| 0 <= k < pairs implies chunk(longer, k) == chunk(acronyms, k) by {
        assert(chunk(longer, k) =~= chunk(acronyms, k));
    }
    assert forall|entry: ModEntry|
        named_mods_upto(longer, pairs).contains(entry) implies named_mods_upto(
        acronyms,
        pairs,
    ).contains(entry) by {
        let k = choose|k: int|
            0 <= k < pairs && #[trigger] chunk_mods(chunk(longer, k)).contains(entry);
        assert(chunk_mods(chunk(acronyms, k)).contains(entry));
    }
    assert forall|entry: ModEntry|
        named_mods_upto(acronyms, pairs).contains(entry) implies named_mods_upto(
        longer,
        pairs,
    ).contains(entry) by {
        let k = choose|k: int|
            0 <= k < pairs && #[trigger] chunk_mods(chunk(acronyms, k)).contains(entry);
        assert(chunk_mods(chunk(longer, k)).contains(entry));
    }
    assert(named_mods(longer) =~= named_mods(acronyms));
}

/// The case of the letters in a string of acronyms does not matter.
pub proof fn law_case_does_not_matter(acronyms: Seq<char>)
    ensures
        named_mods(upper_text(acronyms)) == named_mods(acronyms),
{
    let raised = upper_text(acronyms);
    let pairs = acronyms.len() as int / 2;
    assert forall|k: int| 0 <= k < pairs implies #[trigger] chunk_mods(chunk(raised, k))
        == chunk_mods(chunk(acronyms, k)) by {
        let plain = chunk(acronyms, k);
        assert(chunk(raised, k) =~= upper_text(plain));
        assert(upper_text(upper_text(plain)) =~= upper_text(plain));
        if vstd::utf8::is_ascii_chars(plain) {
            assert(vstd::utf8::is_ascii_chars(upper_text(plain)));
        } else {
            let at = choose|i: int| 0 <= i < plain.len() && !('\0' <= #[trigger] plain[i] <= '\u{7f}');
            assert(upper_text(plain)[at] == plain[at]);
            assert(!vstd::utf8::is_ascii_chars(upper_text(plain)));
        }
    }
    assert forall|entry: ModEntry|
        named_mods_upto(raised, pairs).contains(entry) implies named_mods_upto(
        acronyms,
        pairs,
    ).contains(entry) by {
        let k = choose|k: int|
            0 <= k < pairs && #[trigger] chunk_mods(chunk(raised, k)).contains(entry);
        assert(chunk_mods(chunk(acronyms, k)).contains(entry));
    }
    assert forall|entry: ModEntry|
        named_mods_upto(acronyms, pairs).contains(entry) implies named_mods_upto(
        raised,
        pairs,
    ).contains(entry) by {
        let k = choose|k: int|
            0 <= k < pairs && #[trigger] chunk_mods(chunk(acronyms, k)).contains(entry);
        assert(chunk_mods(chunk(raised, k)).contains(entry));
    }
    assert(named_mods(raised) =~= named_mods(acronyms));
}

/// A single JSON element that gives a mod projects to the legacy bit of that
/// mod, and to 0 where the mod has none.
pub proof fn law_single_element_projects_to_its_bit(
    json: Seq<char>,
    mode: GameMode,
    r: Result<GameMods, ParseError>,
    mask: u32,
)
    requires
        json.len() == 0 || json[0] != '[',
        json_gives(json, mode, r),
        r is Ok,
        projects_to(r->Ok_0, mask),
    ensures
        json_value_text(json) is Ok,
        element_outcome(json_value_text(json)->Ok_0, mode) is Ok,
        mask == match element_outcome(json_value_text(json)->Ok_0, mode)->Ok_0.bits {
            Some(bits) => bits,
            None => 0u32,
        },
{
    let entry = element_outcome(json_value_text(json)->Ok_0, mode)->Ok_0;
    assert(put(Set::<ModEntry>::empty(), entry) =~= set![entry]);
    lemma_union_mask_of_one(mask, entry);
}

/// Where the JSON form gives mods, they are in the form that carries
/// settings.
pub proof fn law_json_gives_the_lazer_form(
    json: Seq<char>,
    mode: GameMode,
    r: Result<GameMods, ParseError>,
)
    requires
        json_gives(json, mode, r),
        r is Ok,
    ensures
        r->Ok_0 is Lazer,
{
}

/// The mods collected from an array are known mods, one per mode and acronym.
pub proof fn law_collected_one_per_acronym(items: Seq<Seq<char>>, mode: GameMode)
    ensures
        all_known(collected(items, mode)),
        forall|a: ModEntry, b: ModEntry|
            collected(items, mode).contains(a) && collected(items, mode).contains(b) && same_slot(
                a,
                b,
            ) ==> a == b,
    decreases items.len(),
{
    if items.len() > 0 {
        law_collected_one_per_acronym(items.drop_last(), mode);
    }
}

/// An element of an array that gives a mod leaves it in the collection,
/// unless a later element gives a mod of the same acronym: the later one
/// replaces the earlier one.
pub proof fn law_last_entry_stays(items: Seq<Seq<char>>, mode: GameMode, at: int)
    requires
        0 <= at < items.len(),
        element_outcome(items[at], mode) is Ok,
        forall|later: int|
            at < later < items.len() ==> match #[trigger] element_outcome(items[later], mode) {
                Ok(entry) => !same_slot(entry, element_outcome(items[at], mode)->Ok_0),
                Err(_) => true,
            },
    ensures
        collected(items, mode).contains(element_outcome(items[at], mode)->Ok_0),
    decreases items.len(),
{
    if at < items.len() - 1 {
        let shorter = items.drop_last();
        assert(shorter[at] == items[at]);
        assert forall|later: int| at < later < shorter.len() implies match #[trigger] element_outcome(
            shorter[later],
            mode,
        ) {
            Ok(entry) => !same_slot(entry, element_outcome(shorter[at], mode)->Ok_0),
            Err(_) => true,
        } by {
            assert(shorter[later] == items[later]);
        }
        law_last_entry_stays(shorter, mode, at);
        let last = element_outcome(items[items.len() - 1], mode);
        assert(items.last() == items[items.len() - 1]);
    } else {
        assert(items.last() == items[at]);
    }
}

} // verus!
