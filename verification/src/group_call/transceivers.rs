//! Which remote demux IDs the peer connection's transceivers are assigned to.
//! Each slot stands for an audio/video transceiver pair; `None` is unused.

use vstd::prelude::*;
use std::collections::HashSet;
use super::DemuxId;

verus! {

broadcast use {
    vstd::std_specs::hash::axiom_u32_obeys_hash_table_key_model,
    vstd::std_specs::hash::axiom_random_state_builds_valid_hashers,
    vstd::std_specs::hash::axiom_set_contains_deref_key,
};

/// The slots with demux IDs that are no longer in the call freed.
pub open spec fn cleared_slots(slots: Seq<Option<DemuxId>>, new_ids: Set<DemuxId>) -> Seq<Option<DemuxId>> {
    Seq::new(
        slots.len(),
        |i: int|
            match slots[i] {
                Some(id) => if new_ids.contains(id) {
                    Some(id)
                } else {
                    None
                },
                None => None,
            },
    )
}

/// Whether some slot holds a demux ID that is no longer in the call.
pub open spec fn some_slot_removed(slots: Seq<Option<DemuxId>>, new_ids: Set<DemuxId>) -> bool {
    exists|i: int| 0 <= i < slots.len() && slot_left(#[trigger] slots[i], new_ids)
}

/// Whether the slot holds a demux ID that is no longer in the call.
pub open spec fn slot_left(slot: Option<DemuxId>, new_ids: Set<DemuxId>) -> bool {
    slot matches Some(id) && !new_ids.contains(id)
}

/// Whether a slot can take a new demux ID: it is unused or its demux ID left.
pub open spec fn reusable(slot: Option<DemuxId>, new_ids: Set<DemuxId>) -> bool {
    match slot {
        Some(id) => !new_ids.contains(id),
        None => true,
    }
}

/// The slots after handing out the added demux IDs in order: each reusable
/// slot takes the next one (or becomes unused once they run out), and the
/// ones left over get new slots at the end.
pub open spec fn filled_slots(slots: Seq<Option<DemuxId>>, new_ids: Set<DemuxId>, added: Seq<DemuxId>) -> Seq<Option<DemuxId>>
    decreases slots.len(),
{
    if slots.len() == 0 {
        added.map_values(|id: DemuxId| Some(id))
    } else if reusable(slots[0], new_ids) {
        if added.len() == 0 {
            seq![None::<DemuxId>] + filled_slots(slots.drop_first(), new_ids, added)
        } else {
            seq![Some(added[0])] + filled_slots(slots.drop_first(), new_ids, added.drop_first())
        }
    } else {
        seq![slots[0]] + filled_slots(slots.drop_first(), new_ids, added)
    }
}

/// Frees the slots of demux IDs that left; returns whether any was freed.
pub fn clear_removed_transceivers(slots: &mut Vec<Option<DemuxId>>, new_ids: &HashSet<DemuxId>) -> (removed: bool)
    ensures
        final(slots)@ == cleared_slots(old(slots)@, new_ids@),
        removed == some_slot_removed(old(slots)@, new_ids@),
{
    let ghost start = slots@;
    let mut removed = false;
    let mut i: usize = 0;
    while i < slots.len()
        invariant
            slots@.len() == start.len(),
            i <= start.len(),
            forall|j: int| 0 <= j < i ==> slots@[j] == #[trigger] cleared_slots(start, new_ids@)[j],
            forall|j: int| i <= j < start.len() ==> slots@[j] == start[j],
            removed == exists|j: int| 0 <= j < i && slot_left(#[trigger] start[j], new_ids@),
        decreases start.len() - i,
    {
        if let Some(id) = slots[i] {
            if !new_ids.contains(&id) {
                slots.set(i, None);
                removed = true;
            }
        }
        proof {
            if slot_left(start[i as int], new_ids@) {
                assert(exists|j: int| 0 <= j < i + 1 && slot_left(#[trigger] start[j], new_ids@));
            } else {
                assert forall|j: int| 0 <= j < i + 1 && slot_left(#[trigger] start[j], new_ids@) implies j < i by {}
            }
        }
        i = i + 1;
    }
    assert(slots@ =~= cleared_slots(start, new_ids@));
    removed
}

/// Hands the added demux IDs to reusable slots in order, then appends slots
/// for the rest (see `filled_slots`).
pub fn assign_added_transceivers(
    slots: &mut Vec<Option<DemuxId>>,
    new_ids: &HashSet<DemuxId>,
    added: &Vec<DemuxId>,
)
    ensures
        final(slots)@ == filled_slots(old(slots)@, new_ids@, added@),
{
    let ghost start = slots@;
    let mut next: usize = 0;
    let mut i: usize = 0;
    assert(start.subrange(0, start.len() as int) =~= start);
    assert(added@.subrange(0, added@.len() as int) =~= added@);
    assert(slots@.subrange(0, 0) + filled_slots(start, new_ids@, added@) =~= filled_slots(start, new_ids@, added@));
    while i < slots.len()
        invariant
            slots@.len() == start.len(),
            i <= start.len(),
            next <= added@.len(),
            forall|j: int| i <= j < start.len() ==> slots@[j] == start[j],
            slots@.subrange(0, i as int) + filled_slots(start.subrange(i as int, start.len() as int), new_ids@, added@.subrange(next as int, added@.len() as int))
                == filled_slots(start, new_ids@, added@),
        decreases start.len() - i,
    {
        let ghost rest = start.subrange(i as int, start.len() as int);
        let ghost adds = added@.subrange(next as int, added@.len() as int);
        assert(rest.drop_first() =~= start.subrange(i + 1, start.len() as int));
        let reuse = match slots[i] {
            Some(id) => !new_ids.contains(&id),
            None => true,
        };
        if reuse {
            if next < added.len() {
                assert(adds.drop_first() =~= added@.subrange(next + 1, added@.len() as int));
                slots.set(i, Some(added[next]));
                next = next + 1;
            } else {
                slots.set(i, None);
            }
        }
        proof {
            assert(slots@.subrange(0, i + 1) =~= slots@.subrange(0, i as int).push(slots@[i as int]));
            let lhs = slots@.subrange(0, i + 1) + filled_slots(start.subrange(i + 1, start.len() as int), new_ids@, added@.subrange(next as int, added@.len() as int));
            assert(lhs =~= slots@.subrange(0, i as int) + filled_slots(rest, new_ids@, adds));
        }
        i = i + 1;
    }
    let ghost tail = added@.subrange(next as int, added@.len() as int);
    assert(start.subrange(start.len() as int, start.len() as int) =~= Seq::<Option<DemuxId>>::empty());
    assert(slots@.subrange(0, start.len() as int) =~= slots@);
    while next < added.len()
        invariant
            next <= added@.len(),
            slots@ + tail.subrange(next - (added@.len() - tail.len()), tail.len() as int).map_values(|id: DemuxId| Some(id))
                == filled_slots(start, new_ids@, added@),
            tail.len() <= added@.len(),
            next >= added@.len() - tail.len(),
            forall|j: int| 0 <= j < tail.len() ==> tail[j] == added@[added@.len() - tail.len() + j],
        decreases added@.len() - next,
    {
        let ghost off = next - (added@.len() - tail.len());
        let ghost old_slots = slots@;
        slots.push(Some(added[next]));
        proof {
            let a = tail.subrange(off, tail.len() as int).map_values(|id: DemuxId| Some(id));
            let b = tail.subrange(off + 1, tail.len() as int).map_values(|id: DemuxId| Some(id));
            assert(old_slots + a =~= slots@ + b);
        }
        next = next + 1;
    }
    assert(tail.subrange(tail.len() as int, tail.len() as int).map_values(|id: DemuxId| Some(id)) =~= Seq::<Option<DemuxId>>::empty());
    assert(slots@ + Seq::<Option<DemuxId>>::empty() =~= slots@);
}

/// Every added demux ID gets a slot, and a slot whose demux ID is still in
/// the call keeps it at the same place.
pub proof fn law_added_demux_ids_get_transceivers(
    slots: Seq<Option<DemuxId>>,
    new_ids: Set<DemuxId>,
    added: Seq<DemuxId>,
)
    ensures
        forall|k: int| 0 <= k < added.len() ==> filled_slots(slots, new_ids, added).contains(Some(#[trigger] added[k])),
        filled_slots(slots, new_ids, added).len() >= slots.len(),
        forall|j: int| 0 <= j < slots.len() && !reusable(#[trigger] slots[j], new_ids)
            ==> filled_slots(slots, new_ids, added)[j] == slots[j],
    decreases slots.len(),
{
    let r = filled_slots(slots, new_ids, added);
    if slots.len() == 0 {
        assert forall|k: int| 0 <= k < added.len() implies r.contains(Some(#[trigger] added[k])) by {
            assert(r[k] == Some(added[k]));
        }
    } else {
        let tail = slots.drop_first();
        if reusable(slots[0], new_ids) && added.len() > 0 {
            let rest = added.drop_first();
            law_added_demux_ids_get_transceivers(tail, new_ids, rest);
            let rt = filled_slots(tail, new_ids, rest);
            assert forall|k: int| 0 <= k < added.len() implies r.contains(Some(#[trigger] added[k])) by {
                if k == 0 {
                    assert(r[0] == Some(added[0]));
                } else {
                    assert(rest[k - 1] == added[k]);
                    let j = choose|j: int| 0 <= j < rt.len() && rt[j] == Some(rest[k - 1]);
                    assert(r[j + 1] == rt[j]);
                }
            }
            assert forall|j: int| 0 <= j < slots.len() && !reusable(#[trigger] slots[j], new_ids)
                implies r[j] == slots[j] by {
                assert(tail[j - 1] == slots[j]);
            }
        } else {
            law_added_demux_ids_get_transceivers(tail, new_ids, added);
            let rt = filled_slots(tail, new_ids, added);
            assert forall|k: int| 0 <= k < added.len() implies r.contains(Some(#[trigger] added[k])) by {
                let j = choose|j: int| 0 <= j < rt.len() && rt[j] == Some(added[k]);
                assert(r[j + 1] == rt[j]);
            }
            assert forall|j: int| 0 <= j < slots.len() && !reusable(#[trigger] slots[j], new_ids)
                implies r[j] == slots[j] by {
                if j > 0 {
                    assert(tail[j - 1] == slots[j]);
                }
            }
        }
    }
}

/// After freeing, no slot holds a demux ID that left the call, and every
/// slot that held one still in the call keeps it.
pub proof fn law_cleared_slots_hold_only_current_demux_ids(slots: Seq<Option<DemuxId>>, new_ids: Set<DemuxId>)
    ensures
        cleared_slots(slots, new_ids).len() == slots.len(),
        forall|j: int| 0 <= j < slots.len() ==> !slot_left(#[trigger] cleared_slots(slots, new_ids)[j], new_ids),
        forall|j: int| 0 <= j < slots.len() && !slot_left(#[trigger] slots[j], new_ids)
            ==> cleared_slots(slots, new_ids)[j] == slots[j],
{
}

} // verus!
