//! The mod types of `rosu_mods`, and what this library relies on of them.
//!
//! Nothing in this file is proved. Each item says which function of
//! `rosu_mods` it speaks of and what it claims.

use vstd::prelude::*;
use vstd::utf8::is_ascii_chars;
use rosu_mods::GameMods as GameModsLazer;
use rosu_mods::{GameMod, GameModsIntermode, GameModsLegacy};
use crate::model::{all_have_bits, all_known, is_union_mask, put, ModEntry};
use crate::text::upper_text;

verus! {

/// `rosu_mods::GameModsLegacy`: a set of legacy mods, held as a bit mask.
#[verifier::external_type_specification]
#[verifier::external_body]
pub struct ExGameModsLegacy(rosu_mods::GameModsLegacy);

/// `rosu_mods::GameModsIntermode`: a set of mods that are not bound to a mode.
#[verifier::external_type_specification]
#[verifier::external_body]
pub struct ExGameModsIntermode(rosu_mods::GameModsIntermode);

/// `rosu_mods::GameMods`, here under the name `GameModsLazer`: a collection of
/// mods with their settings, which holds one mod per mode and acronym and
/// keeps them in an order of its own.
#[verifier::external_type_specification]
#[verifier::external_body]
pub struct ExGameModsLazer(GameModsLazer);

/// `rosu_mods::GameMod`: one mod of one mode, with its settings.
#[verifier::external_type_specification]
#[verifier::external_body]
pub struct ExGameMod(rosu_mods::GameMod);

/// The bit mask that a legacy mod value holds.
pub uninterp spec fn legacy_bits(mods: GameModsLegacy) -> u32;

/// The mods that a mode-independent set holds. None of them has a mode or settings.
pub uninterp spec fn intermode_mods(mods: GameModsIntermode) -> Set<ModEntry>;

/// The mods that a collection holds.
pub uninterp spec fn lazer_mods(mods: GameModsLazer) -> Set<ModEntry>;

/// One mod as plain values: what `acronym`, `bits` and `mode` give for it,
/// whether it is another variant than the `Unknown` ones, and the settings
/// that it serializes.
pub uninterp spec fn mod_entry(gamemod: GameMod) -> ModEntry;

/// The mod that `GameModsIntermode::from_acronyms` reads out of an acronym of
/// two characters in upper case: `None` for `NM`, which stands for no mod.
pub uninterp spec fn acronym_mod(acronym: Seq<char>) -> Option<ModEntry>;

/// `GameModsLegacy::from_bits_retain` keeps every bit of its argument,
/// also those that name no mod.
pub assume_specification[ GameModsLegacy::from_bits_retain ](bits: u32) -> (mods: GameModsLegacy)
    ensures
        legacy_bits(mods) == bits,
;

/// `GameModsLegacy::bits` hands back the mask as it is held.
pub assume_specification[ GameModsLegacy::bits ](mods: GameModsLegacy) -> (bits: u32)
    ensures
        bits == legacy_bits(mods),
;

/// A clone of a legacy mod value holds the same mask.
pub assume_specification[ <GameModsLegacy as Clone>::clone ](mods: &GameModsLegacy) -> (copy:
    GameModsLegacy)
    ensures
        legacy_bits(copy) == legacy_bits(*mods),
;

/// A clone of a mode-independent set holds the same mods.
pub assume_specification[ <GameModsIntermode as Clone>::clone ](mods: &GameModsIntermode) -> (copy:
    GameModsIntermode)
    ensures
        intermode_mods(copy) == intermode_mods(*mods),
;

/// A clone of a collection holds the same mods.
pub assume_specification[ <GameModsLazer as Clone>::clone ](mods: &GameModsLazer) -> (copy:
    GameModsLazer)
    ensures
        lazer_mods(copy) == lazer_mods(*mods),
;

/// `GameModsIntermode::new` returns a set without mods.
pub assume_specification[ GameModsIntermode::new ]() -> (mods: GameModsIntermode)
    ensures
        intermode_mods(mods) == Set::<ModEntry>::empty(),
;

/// `GameModsIntermode::from_acronyms` on one acronym of two ASCII characters.
/// It puts the text into upper case and returns no mod for `NM`, else the one
/// mod that the table has for the acronym, or an unknown mod of that acronym.
///
/// Only such text is admitted. Out of longer text the function also reads
/// acronyms of three characters, and there its result is not a function of
/// the text alone: behind an acronym of three characters, and in text outside
/// ASCII, it makes an acronym of bytes next to those it was handed.
pub assume_specification[ GameModsIntermode::from_acronyms ](s: &str) -> (mods: GameModsIntermode)
    requires
        s@.len() == 2,
        is_ascii_chars(s@),
    ensures
        intermode_mods(mods) == match acronym_mod(upper_text(s@)) {
            Some(entry) => set![entry],
            None => Set::empty(),
        },
        forall|entry: ModEntry| #[trigger]
            intermode_mods(mods).contains(entry) ==> entry.acronym == upper_text(s@),
;

/// `GameModsIntermode::extend` with the mods of another set: the union of the
/// two. The set tells its mods apart by kind and acronym; where no acronym
/// stands for two different mods, as `requires` asks, that is the same as
/// telling them apart as mods.
#[verifier::external_body]
pub(crate) fn merge(mods: &mut GameModsIntermode, more: GameModsIntermode)
    requires
        forall|a: ModEntry, b: ModEntry|
            intermode_mods(*old(mods)).contains(a) && intermode_mods(more).contains(b)
                && a.acronym == b.acronym ==> a == b,
    ensures
        intermode_mods(*final(mods)) == intermode_mods(*old(mods)).union(intermode_mods(more)),
{
    mods.extend(more);
}

/// `GameModsIntermode::checked_bits` returns the bitwise or of the bit values
/// of all mods in the set, or `None` if one of them has no bit value.
pub assume_specification[ GameModsIntermode::checked_bits ](mods: &GameModsIntermode) -> (bits:
    Option<u32>)
    ensures
        bits is Some <==> all_have_bits(intermode_mods(*mods)),
        bits matches Some(mask) ==> is_union_mask(mask, intermode_mods(*mods)),
;

/// `GameModsIntermode::bits` returns the bitwise or of the bit values in the
/// set and passes over the mods that have none.
pub assume_specification[ GameModsIntermode::bits ](mods: &GameModsIntermode) -> (mask: u32)
    ensures
        is_union_mask(mask, intermode_mods(*mods)),
;

/// `GameMods::new` returns a collection without mods.
pub assume_specification[ GameModsLazer::new ]() -> (mods: GameModsLazer)
    ensures
        lazer_mods(mods) == Set::<ModEntry>::empty(),
;

/// `GameMods::insert` puts the mod into the slot of its mode and acronym and
/// drops what was there. The collection tells slots apart by the kind of mod
/// as well, which follows from the acronym as long as every mod is a known
/// one.
pub assume_specification[ GameModsLazer::insert ](
    mods: &mut GameModsLazer,
    gamemod: GameMod,
)
    requires
        all_known(lazer_mods(*old(mods))),
        mod_entry(gamemod).known,
    ensures
        lazer_mods(*final(mods)) == put(lazer_mods(*old(mods)), mod_entry(gamemod)),
;

/// `GameMods::bits` returns the bitwise or of the bit values in the
/// collection and passes over the mods that have none.
pub assume_specification[ GameModsLazer::bits ](mods: &GameModsLazer) -> (mask: u32)
    ensures
        is_union_mask(mask, lazer_mods(*mods)),
;

/// Whether `gamemod` is one of the four `Unknown` variants of `GameMod`, which
/// stand for an acronym that the mode's mod table lacks.
#[verifier::external_body]
pub(crate) fn is_unknown_mod(gamemod: &GameMod) -> (unknown: bool)
    ensures
        unknown == !mod_entry(*gamemod).known,
{
    matches!(
        gamemod,
        GameMod::UnknownOsu(_)
            | GameMod::UnknownTaiko(_)
            | GameMod::UnknownCatch(_)
            | GameMod::UnknownMania(_)
    )
}

/// The text of `GameMod::acronym`.
#[verifier::external_body]
pub(crate) fn mod_acronym(gamemod: &GameMod) -> (acronym: String)
    ensures
        acronym@ == mod_entry(*gamemod).acronym,
{
    gamemod.acronym().as_str().to_owned()
}

} // verus!
