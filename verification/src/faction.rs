//! The six playable factions and the palette sub-range remap that
//! recolors unit graphics per faction.

use vstd::prelude::*;

verus! {

/// First index of the remappable palette sub-range, which belongs to
/// the faction at ordinal 0.
pub const COLOR_HARKONNEN: usize = 144;

/// First palette index of the faction at ordinal 1.
pub const COLOR_ATREIDES: usize = 160;

/// First palette index of the faction at ordinal 2.
pub const COLOR_ORDOS: usize = 176;

/// First palette index of the faction at ordinal 3.
pub const COLOR_FREMEN: usize = 192;

/// First palette index of the faction at ordinal 4.
pub const COLOR_SARDAUKAR: usize = 208;

/// First palette index of the faction at ordinal 5.
pub const COLOR_MERCENARY: usize = 224;

/// The closed set of factions.  The ordinal position of each value
/// selects a 16-entry palette window used to recolor unit graphics.
#[derive(Clone, Copy, Debug, Hash, PartialEq, Eq, Structural)]
pub enum Faction {
    Harkonnen,
    Atreides,
    Ordos,
    Fremen,
    Sardaukar,
    Mercenary,
}

impl Faction {
    /// The position of the faction in the declaration order.
    pub open spec fn spec_ordinal(self) -> int {
        match self {
            Faction::Harkonnen => 0,
            Faction::Atreides => 1,
            Faction::Ordos => 2,
            Faction::Fremen => 3,
            Faction::Sardaukar => 4,
            Faction::Mercenary => 5,
        }
    }

    /// The position of the faction in the declaration order.
    pub fn ordinal(&self) -> (n: usize)
        ensures
            n == self.spec_ordinal(),
    {
        match self {
            Faction::Harkonnen => 0,
            Faction::Atreides => 1,
            Faction::Ordos => 2,
            Faction::Fremen => 3,
            Faction::Sardaukar => 4,
            Faction::Mercenary => 5,
        }
    }
}

/// The faction remap of a single palette index: an index in the
/// fixed sub-range `[144, 151)` moves into the faction's own window,
/// sixteen entries per ordinal step; every other index passes through
/// unchanged.
pub open spec fn spec_remap_color_index(index: int, faction_ordinal: int) -> int {
    if 144 <= index < 151 {
        index + 16 * faction_ordinal
    } else {
        index
    }
}

/// Applies the faction remap to one palette index.
pub fn remap_color_index(index: usize, faction: Faction) -> (r: usize)
    ensures
        r == spec_remap_color_index(index as int, faction.spec_ordinal()),
{
    if index >= COLOR_HARKONNEN && index < COLOR_HARKONNEN + 7 {
        index + 16 * faction.ordinal()
    } else {
        index
    }
}

} // verus!
