//! Entities travel through the native engine as a body's user data word.
use vstd::prelude::*;

verus! {

/// The user data word stored for an entity: its 64-bit encoding when that
/// fits in a `usize`, and 0 (no entity) otherwise.
pub open spec fn spec_entity_user_data(entity: u64) -> usize {
    if entity <= usize::MAX {
        entity as usize
    } else {
        0
    }
}

/// The entity a user data word stands for: none for 0, and none for a word
/// whose lower 32 bits, the entity index, are all zero.
pub open spec fn spec_entity_from_user_data(user_data: usize) -> Option<u64> {
    if user_data == 0 || (user_data as int) % 0x1_0000_0000 == 0 {
        None
    } else {
        Some(user_data as u64)
    }
}

/// `bevy_ecs::entity::Entity::try_from_bits`, with the entity it returns given
/// back by `Entity::to_bits`. The source builds the entity from the lower 32
/// bits as index and the upper 32 bits as generation, and refuses only an index
/// of 0; `to_bits` puts the same two halves back together.
#[verifier::external_body]
fn entity_bits_checked(bits: u64) -> (checked: Option<u64>)
    ensures
        checked == (if bits % 0x1_0000_0000 != 0 {
            Some(bits)
        } else {
            None
        }),
{
    match bevy_ecs::entity::Entity::try_from_bits(bits) {
        Some(entity) => Some(entity.to_bits()),
        None => None,
    }
}

/// The user data word stored on the native body created for an entity.
pub fn entity_user_data(entity: u64) -> (user_data: usize)
    ensures
        user_data == spec_entity_user_data(entity),
{
    if entity <= usize::MAX as u64 {
        entity as usize
    } else {
        0
    }
}

/// The entity that a body's user data word names, if any.
pub fn entity_from_user_data(user_data: usize) -> (entity: Option<u64>)
    ensures
        entity == spec_entity_from_user_data(user_data),
{
    if user_data == 0 {
        return None;
    }
    entity_bits_checked(user_data as u64)
}

/// A word made from an entity names that entity again, whenever the entity's
/// encoding fits in the word.
pub proof fn lemma_user_data_round_trip(entity: u64)
    requires
        entity <= usize::MAX,
        entity % 0x1_0000_0000 != 0,
    ensures
        spec_entity_from_user_data(spec_entity_user_data(entity)) == Some(entity),
{
}

} // verus!
