//! The list of bodies whose transforms are interpolated between steps, kept
//! as entity entries with the transforms as payload.
use vstd::prelude::*;

verus! {

/// The entries of a list that do not belong to an entity, in order.
pub open spec fn entries_without<T>(entries: Seq<(u64, T)>, entity: u64) -> Seq<(u64, T)> {
    entries.filter(other_entity::<T>(entity))
}

/// Whether an entry belongs to an entity other than the given one.
pub open spec fn other_entity<T>(entity: u64) -> spec_fn((u64, T)) -> bool {
    |entry: (u64, T)| entry.0 != entity
}

/// No entry of the removed entity is left, every entry of another entity
/// is kept, nothing new appears, and the list does not grow.
pub proof fn lemma_entries_without_drops_exactly_the_entity<T>(entries: Seq<(u64, T)>, entity: u64)
    ensures
        ({
            let r = entries_without(entries, entity);
            &&& r.len() <= entries.len()
            &&& forall|i: int| 0 <= i < r.len() ==> (#[trigger] r[i]).0 != entity
            &&& forall|i: int| 0 <= i < entries.len() && (#[trigger] entries[i]).0 != entity ==> r.contains(entries[i])
            &&& forall|i: int| 0 <= i < r.len() ==> entries.contains(#[trigger] r[i])
        }),
{
    let p = other_entity::<T>(entity);
    let r = entries.filter(p);
    entries.lemma_filter_len(p);
    assert forall|i: int| 0 <= i < r.len() implies (#[trigger] r[i]).0 != entity by {
        entries.lemma_filter_pred(p, i);
    }
    assert forall|i: int| 0 <= i < entries.len() && (#[trigger] entries[i]).0 != entity implies r.contains(entries[i]) by {
        entries.lemma_filter_contains(p, i);
    }
    assert forall|i: int| 0 <= i < r.len() implies entries.contains(#[trigger] r[i]) by {
        assert(r.contains(r[i]));
        entries.lemma_filter_contains_rev(p, r[i]);
    }
}

/// Dropping an entity from an empty list gives an empty list, and appending
/// an entry before dropping keeps it at the end exactly when it belongs to
/// another entity, so the kept entries stay in their order.
pub proof fn lemma_entries_without_push<T>(entries: Seq<(u64, T)>, entry: (u64, T), entity: u64)
    ensures
        entries_without(Seq::<(u64, T)>::empty(), entity) == Seq::<(u64, T)>::empty(),
        entries_without(entries.push(entry), entity) == (if entry.0 == entity {
            entries_without(entries, entity)
        } else {
            entries_without(entries, entity).push(entry)
        }),
{
    reveal_with_fuel(Seq::filter, 1);
    assert(entries.push(entry).drop_last() =~= entries);
}

/// Drops the entries of a removed body entity, keeping the others in order.
pub fn drop_entity_entries<T: Copy>(entries: &mut Vec<(u64, T)>, entity: u64)
    ensures
        final(entries)@ == entries_without(old(entries)@, entity),
        final(entries)@.len() <= old(entries)@.len(),
        forall|i: int| 0 <= i < final(entries)@.len() ==> (#[trigger] final(entries)@[i]).0 != entity,
        forall|i: int|
            0 <= i < old(entries)@.len() && (#[trigger] old(entries)@[i]).0 != entity
                ==> final(entries)@.contains(old(entries)@[i]),
        forall|i: int| 0 <= i < final(entries)@.len() ==> old(entries)@.contains(#[trigger] final(entries)@[i]),
{
    let ghost original = entries@;
    let mut kept: Vec<(u64, T)> = Vec::new();
    let mut index: usize = 0;
    while index < entries.len()
        invariant
            entries@ == original,
            0 <= index <= original.len(),
            kept@ == entries_without(original.take(index as int), entity),
        decreases original.len() - index,
    {
        let entry = entries[index];
        proof {
            let next = original.take(index + 1);
            assert(next.drop_last() =~= original.take(index as int));
            assert(next.last() == entry);
            reveal_with_fuel(Seq::filter, 1);
        }
        if entry.0 != entity {
            kept.push(entry);
        }
        index = index + 1;
    }
    proof {
        assert(original.take(original.len() as int) =~= original);
    }
    proof {
        lemma_entries_without_drops_exactly_the_entity(original, entity);
    }
    *entries = kept;
}

} // verus!
