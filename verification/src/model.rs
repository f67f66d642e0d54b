//! Mods as plain values, and the bit mask that a set of mods projects to.

use vstd::prelude::*;
use crate::mode::GameMode;

verus! {

/// One mod as plain values: what the parser reads of it.
pub struct ModEntry {
    /// Its acronym, in upper case.
    pub acronym: Seq<char>,
    /// Its legacy bit value, if it has one.
    pub bits: Option<u32>,
    /// Whether the mod table lists the acronym (for `mode`, where there is one).
    pub known: bool,
    /// The game mode that the mod belongs to; `None` for a mod that is not bound to a mode.
    pub mode: Option<GameMode>,
    /// Its settings as JSON text; empty where it carries none.
    pub settings: Seq<char>,
}

/// Whether `a` and `b` take the same place in a collection of mods: a second
/// one put there replaces the first.
pub open spec fn same_slot(a: ModEntry, b: ModEntry) -> bool {
    a.mode == b.mode && a.acronym == b.acronym
}

/// `mods` after `entry` was put in: `entry` is there, and nothing else is left in its slot.
pub open spec fn put(mods: Set<ModEntry>, entry: ModEntry) -> Set<ModEntry> {
    Set::new(|m: ModEntry| m == entry || (mods.contains(m) && !same_slot(m, entry)))
}

/// Every mod of `mods` is listed in the mod table.
pub open spec fn all_known(mods: Set<ModEntry>) -> bool {
    forall|m: ModEntry| mods.contains(m) ==> m.known
}

/// Every mod of `mods` has a legacy bit value.
pub open spec fn all_have_bits(mods: Set<ModEntry>) -> bool {
    forall|m: ModEntry| mods.contains(m) ==> m.bits is Some
}

/// `mask` has every bit set that a mod of `mods` has in its legacy bit value.
pub open spec fn covers(mask: u32, mods: Set<ModEntry>) -> bool {
    forall|m: ModEntry| #[trigger]
        mods.contains(m) ==> match m.bits {
            Some(b) => b & mask == b,
            None => true,
        }
}

/// `mask` is the bitwise or of the legacy bit values in `mods`: it covers them,
/// and every mask that covers them holds all of its bits. Mods without a bit
/// value add nothing.
pub open spec fn is_union_mask(mask: u32, mods: Set<ModEntry>) -> bool {
    &&& covers(mask, mods)
    &&& forall|other: u32| covers(other, mods) ==> #[trigger] (mask & other) == mask
}

/// A set of mods has one union mask at most.
pub proof fn lemma_union_mask_unique(a: u32, b: u32, mods: Set<ModEntry>)
    requires
        is_union_mask(a, mods),
        is_union_mask(b, mods),
    ensures
        a == b,
{
    assert(a & b == a);
    assert(b & a == b);
    assert(a & b == b & a) by (bit_vector);
}

/// The union mask of no mods is 0.
pub proof fn lemma_union_mask_of_none(mask: u32)
    ensures
        is_union_mask(mask, Set::<ModEntry>::empty()) <==> mask == 0,
{
    let none = Set::<ModEntry>::empty();
    if is_union_mask(mask, none) {
        assert(covers(0u32, none));
        assert(mask & 0u32 == mask);
        assert(mask & 0u32 == 0u32) by (bit_vector);
    }
    if mask == 0 {
        assert forall|other: u32| covers(other, none) implies #[trigger] (mask & other) == mask by {
            assert(0u32 & other == 0u32) by (bit_vector);
        }
    }
}

/// The union mask of one mod is its bit value, or 0 where it has none.
pub proof fn lemma_union_mask_of_one(mask: u32, entry: ModEntry)
    ensures
        is_union_mask(mask, set![entry]) <==> mask == match entry.bits {
            Some(b) => b,
            None => 0u32,
        },
{
    let one = set![entry];
    let own: u32 = match entry.bits {
        Some(b) => b,
        None => 0u32,
    };
    assert(one.contains(entry));
    assert(own & own == own) by (bit_vector);
    assert(covers(own, one));
    if is_union_mask(mask, one) {
        assert(mask & own == mask);
        assert(own & mask == mask & own) by (bit_vector);
        match entry.bits {
            Some(b) => {},
            None => {
                assert(mask & 0u32 == 0u32) by (bit_vector);
            },
        }
    }
    if mask == own {
        assert forall|other: u32| covers(other, one) implies #[trigger] (mask & other) == mask by {
            match entry.bits {
                Some(b) => {},
                None => {
                    assert(0u32 & other == 0u32) by (bit_vector);
                },
            }
        }
    }
}

} // verus!
