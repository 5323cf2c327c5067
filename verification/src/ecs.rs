//! How the game engine writes an entity: a combatant the round cannot find
//! is named by the engine's text for its identifier.

use crate::text::decimal;
use vstd::prelude::*;

verus! {

/// The text of the engine's `Debug` formatting of the entity whose bits are
/// `id`; `None` when the bits form no entity.
///
/// The low 32 bits hold the index, stored inverted (an index is never
/// `u32::MAX`, so stored bits are never 0); the high 32 bits hold the
/// generation. The entity of index `u32::MAX - 1` and generation 0 is the
/// placeholder, written `PLACEHOLDER`; any other is written
/// `{index}v{generation}`.
pub open spec fn entity_debug_text(id: u64) -> Option<Seq<char>> {
    let low = id % 0x1_0000_0000;
    let high = id / 0x1_0000_0000;
    if low == 0 {
        None
    } else if id == 1 {
        Some(seq!['P', 'L', 'A', 'C', 'E', 'H', 'O', 'L', 'D', 'E', 'R'])
    } else {
        Some(decimal((0xffff_ffff - low) as nat) + seq!['v'] + decimal(high as nat))
    }
}

/// `bevy::ecs::entity::Entity::try_from_bits` and, for an entity, its `Debug`
/// text. The contract claims what the engine's source shows: no entity when
/// the low 32 bits are 0, else the text of `entity_debug_text`.
#[verifier::external_body]
pub(crate) fn entity_debug(id: u64) -> (r: Option<String>)
    ensures
        match r {
            Some(t) => entity_debug_text(id) == Some(t@),
            None => entity_debug_text(id) is None,
        },
{
    bevy::ecs::entity::Entity::try_from_bits(id).map(|e| format!("{:?}", e))
}

} // verus!
