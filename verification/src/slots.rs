//! Reusable small integer handles over a vector of optional values.
//!
//! A slot is a position in a vector that is either empty or holds one value.
//! A handle is the index of a slot. Allocation hands out the lowest empty
//! slot, which keeps the live handles dense and makes the sequence of handles
//! a function of the calls alone. Freeing the last slot shrinks the vector
//! past every trailing empty slot, so that a table does not stay as long as
//! it once was.

use vstd::prelude::*;

verus! {

/// A handle: the index of a slot in a table.
pub type SlotId = usize;

/// The slot under the handle `id`: empty for a handle outside the table.
pub open spec fn slot_at<V>(slots: Seq<Option<V>>, id: int) -> Option<V> {
    if 0 <= id < slots.len() {
        slots[id]
    } else {
        None
    }
}

/// `id` is the lowest empty slot of `slots`, or its length when none is empty.
pub open spec fn is_lowest_free<V>(slots: Seq<Option<V>>, id: int) -> bool {
    &&& 0 <= id <= slots.len()
    &&& id < slots.len() ==> slots[id] is None
    &&& forall|j: int| 0 <= j < id ==> (#[trigger] slots[j]) is Some
}

/// The lowest index at or after `from` whose slot is empty, or the length of
/// the table when every slot from `from` on is occupied.
pub open spec fn first_free_from<V>(slots: Seq<Option<V>>, from: int) -> int
    decreases slots.len() - from,
{
    if from < 0 || from >= slots.len() {
        slots.len() as int
    } else if slots[from] is None {
        from
    } else {
        first_free_from(slots, from + 1)
    }
}

/// The handle that the next allocation hands out: the lowest empty slot, or
/// the length of the table when no slot is empty.
pub open spec fn first_free<V>(slots: Seq<Option<V>>) -> int {
    first_free_from(slots, 0)
}

/// The table is empty or its last slot is occupied.
pub open spec fn compact<V>(slots: Seq<Option<V>>) -> bool {
    slots.len() > 0 ==> slots.last() is Some
}

/// The number of leading slots that remain once every trailing empty slot is
/// cut off.
pub open spec fn live_len<V>(slots: Seq<Option<V>>) -> nat
    decreases slots.len(),
{
    if slots.len() == 0 {
        0
    } else if slots.last() is Some {
        slots.len()
    } else {
        live_len(slots.drop_last())
    }
}

/// The table without its trailing empty slots.
pub open spec fn trimmed<V>(slots: Seq<Option<V>>) -> Seq<Option<V>> {
    slots.take(live_len(slots) as int)
}

/// The table after `slot` was put under the handle `id`: a slot of the table
/// is overwritten, the slot just past its end is appended.
pub open spec fn stored<V>(slots: Seq<Option<V>>, id: int, slot: Option<V>) -> Seq<Option<V>> {
    if 0 <= id < slots.len() {
        slots.update(id, slot)
    } else if id == slots.len() {
        slots.push(slot)
    } else {
        slots
    }
}

/// The table after the handle `id` was freed. A handle outside the table
/// changes nothing; the last slot is cut off together with every empty slot
/// before it; any other slot is emptied in place.
pub open spec fn freed<V>(slots: Seq<Option<V>>, id: int) -> Seq<Option<V>> {
    if id < 0 || id >= slots.len() {
        slots
    } else if id == slots.len() - 1 {
        trimmed(slots.drop_last())
    } else {
        slots.update(id, None)
    }
}

/// The number of occupied slots.
pub open spec fn occupied_count<V>(slots: Seq<Option<V>>) -> nat
    decreases slots.len(),
{
    if slots.len() == 0 {
        0
    } else if slots.last() is Some {
        occupied_count(slots.drop_last()) + 1
    } else {
        occupied_count(slots.drop_last())
    }
}

/// The smaller of two handles.
pub open spec fn lower(a: int, b: int) -> int {
    if a <= b {
        a
    } else {
        b
    }
}

/// The slot that holds `f` of what `slot` holds.
pub open spec fn map_slot<A, B>(slot: Option<A>, f: spec_fn(A) -> B) -> Option<B> {
    match slot {
        Some(value) => Some(f(value)),
        None => None,
    }
}

/// The table whose occupied slots hold `f` of what those of `slots` hold.
pub open spec fn map_slots<A, B>(slots: Seq<Option<A>>, f: spec_fn(A) -> B) -> Seq<Option<B>> {
    Seq::new(slots.len(), |i: int| map_slot(slots[i], f))
}

/// Hands out the lowest empty slot of `elements`, appending a fresh empty slot
/// when none is empty. Returns the handle together with the slot itself,
/// which is empty and which the caller fills.
pub fn alloc_slot<V>(elements: &mut Vec<Option<V>>) -> (r: (SlotId, &mut Option<V>))
    ensures
        r.0 == first_free(old(elements)@),
        is_lowest_free(old(elements)@, r.0 as int),
        *r.1 is None,
        final(elements)@ == stored(old(elements)@, r.0 as int, *final(r.1)),
{
    let n = elements.len();
    let mut i: usize = 0;
    while i < n && elements[i].is_some()
        invariant
            n == elements@.len(),
            elements@ == old(elements)@,
            i <= n,
            first_free_from(elements@, i as int) == first_free(elements@),
        decreases n - i,
    {
        i = i + 1;
    }
    proof {
        lemma_first_free_is_lowest(elements@, i as int);
    }
    if i == n {
        elements.push(None);
    }
    (i, &mut elements[i])
}

/// Frees the handle `id`. A handle outside the table changes nothing. Freeing
/// the last slot removes it and every empty slot before it; freeing any other
/// slot empties it in place.
pub fn free_slot<V>(elements: &mut Vec<Option<V>>, id: SlotId)
    ensures
        final(elements)@ == freed(old(elements)@, id as int),
{
    let n = elements.len();
    if id >= n {
        return ;
    }
    if id + 1 < n {
        elements[id] = None;
        return ;
    }
    elements.pop();
    while elements.len() > 0 && elements[elements.len() - 1].is_none()
        invariant
            elements@.len() < old(elements)@.len(),
            elements@ == old(elements)@.drop_last().take(elements@.len() as int),
            live_len(elements@) == live_len(old(elements)@.drop_last()),
        decreases elements@.len(),
    {
        elements.pop();
    }
}

/// A table of reusable handles: a vector of slots, each empty or holding one
/// value, addressed by index.
pub struct SlotTable<V> {
    slots: Vec<Option<V>>,
}

impl<V> SlotTable<V> {
    /// The slots of the table, by handle.
    pub closed spec fn view(&self) -> Seq<Option<V>> {
        self.slots@
    }

    /// The table holds no trailing empty slot. The table made by `new` is so,
    /// and every method keeps it so.
    pub open spec fn wf(&self) -> bool {
        compact(self@)
    }

    /// The empty table.
    pub fn new() -> (table: Self)
        ensures
            table@ == Seq::<Option<V>>::empty(),
            table.wf(),
    {
        SlotTable { slots: Vec::new() }
    }

    /// Stores `value` in the lowest empty slot, appending a slot when none is
    /// empty, and returns the handle of that slot.
    pub fn allocate(&mut self, value: V) -> (id: SlotId)
        ensures
            id == first_free(old(self)@),
            is_lowest_free(old(self)@, id as int),
            final(self)@ == stored(old(self)@, id as int, Some(value)),
            old(self).wf() ==> final(self).wf(),
    {
        let (id, slot) = alloc_slot(&mut self.slots);
        *slot = Some(value);
        id
    }

    /// Frees the handle `id`, dropping the value it stood for. A handle
    /// outside the table changes nothing; with the last slot every empty slot
    /// before it leaves the table too.
    pub fn free(&mut self, id: SlotId)
        ensures
            final(self)@ == freed(old(self)@, id as int),
            old(self).wf() ==> final(self).wf(),
    {
        free_slot(&mut self.slots, id);
        proof {
            law_table_shrinks_from_the_end(old(self)@, id as int);
        }
    }

    /// The value that the handle `id` stands for, or `None` for a handle
    /// that is stale or was never handed out.
    pub fn resolve(&self, id: SlotId) -> (value: Option<&V>)
        ensures
            match value {
                Some(v) => slot_at(self@, id as int) == Some(*v),
                None => slot_at(self@, id as int) is None,
            },
    {
        if id < self.slots.len() {
            self.slots[id].as_ref()
        } else {
            None
        }
    }

    /// The value that the handle `id` stands for, to be changed in place, or
    /// `None` for a handle that is stale or was never handed out. No other
    /// slot changes, and the slot stays occupied.
    pub fn resolve_mut(&mut self, id: SlotId) -> (value: Option<&mut V>)
        ensures
            match value {
                Some(v) => {
                    &&& slot_at(old(self)@, id as int) == Some(*v)
                    &&& final(self)@ == old(self)@.update(id as int, Some(*final(v)))
                },
                None => slot_at(old(self)@, id as int) is None && final(self)@ == old(self)@,
            },
            old(self).wf() ==> final(self).wf(),
    {
        if id < self.slots.len() {
            self.slots[id].as_mut()
        } else {
            None
        }
    }

    /// Whether the handle `id` stands for a value.
    pub fn contains(&self, id: SlotId) -> (live: bool)
        ensures
            live == (slot_at(self@, id as int) is Some),
    {
        id < self.slots.len() && self.slots[id].is_some()
    }

    /// The number of slots of the table, empty ones included.
    pub fn len(&self) -> (n: usize)
        ensures
            n == self@.len(),
    {
        self.slots.len()
    }

    /// The number of occupied slots.
    pub fn occupied(&self) -> (n: usize)
        ensures
            n == occupied_count(self@),
    {
        let mut n: usize = 0;
        let mut i: usize = 0;
        while i < self.slots.len()
            invariant
                i <= self.slots@.len(),
                n == occupied_count(self.slots@.take(i as int)),
                n <= i,
            decreases self.slots@.len() - i,
        {
            proof {
                assert(self.slots@.take(i + 1).drop_last() =~= self.slots@.take(i as int));
            }
            if self.slots[i].is_some() {
                n = n + 1;
            }
            i = i + 1;
        }
        proof {
            assert(self.slots@.take(i as int) =~= self.slots@);
        }
        n
    }
}

/// An allocation fills one slot: storing a value under the next handle puts
/// it there and changes no other slot, keeps a table without trailing empty
/// slots so, and adds one to the number of occupied slots.
pub proof fn law_alloc_fills_one_slot<V>(slots: Seq<Option<V>>, value: V)
    ensures
        compact(slots) ==> compact(stored(slots, first_free(slots), Some(value))),
        slot_at(stored(slots, first_free(slots), Some(value)), first_free(slots)) == Some(value),
        forall|j: int|
            j != first_free(slots) ==> #[trigger] slot_at(
                stored(slots, first_free(slots), Some(value)),
                j,
            ) == slot_at(slots, j),
        occupied_count(stored(slots, first_free(slots), Some(value))) == occupied_count(slots) + 1,
{
    let id = first_free(slots);
    lemma_first_free_is_lowest(slots, id);
    lemma_occupied_count_stored(slots, id, value);
}

/// Freeing a handle empties one slot: no value stands under the handle
/// afterwards, every other handle stands for what it stood for before, and
/// the number of occupied slots is one less if the handle stood for a value.
pub proof fn law_free_empties_one_slot<V>(slots: Seq<Option<V>>, id: int)
    ensures
        slot_at(freed(slots, id), id) is None,
        forall|j: int| j != id ==> #[trigger] slot_at(freed(slots, id), j) == slot_at(slots, j),
        occupied_count(freed(slots, id)) == occupied_count(slots) - (if slot_at(slots, id) is Some {
            1int
        } else {
            0int
        }),
{
    law_table_shrinks_from_the_end(slots, id);
    if 0 <= id < slots.len() {
        if id == slots.len() - 1 {
            lemma_occupied_count_trimmed(slots.drop_last());
        } else {
            lemma_occupied_count_emptied(slots, id);
        }
    }
}

/// After the handle `id` of the table was freed, the next handle handed out
/// is `id` or the handle that was next before, whichever is lower.
pub proof fn law_next_handle_after_free<V>(slots: Seq<Option<V>>, id: int)
    requires
        0 <= id < slots.len(),
    ensures
        first_free(freed(slots, id)) == lower(first_free(slots), id),
{
    let after = freed(slots, id);
    let next = lower(first_free(slots), id);
    lemma_first_free_is_lowest(slots, next);
    lemma_trimmed(slots.drop_last());
    if id == slots.len() - 1 && after.len() < next {
        // a slot below the next handle is occupied, a slot that was cut off is not
        assert(slots.drop_last()[after.len() as int] is None);
    }
    lemma_first_free_is_lowest(after, next);
}

/// Freeing the highest handle of a table without empty slots below it and
/// allocating again hands out the same handle.
pub proof fn law_highest_handle_is_reused<V>(slots: Seq<Option<V>>)
    requires
        slots.len() > 0,
        forall|j: int| 0 <= j < slots.len() - 1 ==> (#[trigger] slots[j]) is Some,
    ensures
        first_free(freed(slots, slots.len() - 1)) == slots.len() - 1,
{
    let id = slots.len() - 1;
    law_next_handle_after_free(slots, id);
    lemma_first_free_is_lowest(slots, id);
}

/// The table shrinks from its end only. Freeing any handle but the last
/// keeps the length of the table, so the emptied slot stays in it until every
/// higher slot has been freed too; freeing the last handle cuts the table
/// down to its last occupied slot. No other slot changes, and a table without
/// trailing empty slots stays so.
pub proof fn law_table_shrinks_from_the_end<V>(slots: Seq<Option<V>>, id: int)
    ensures
        id != slots.len() - 1 ==> freed(slots, id).len() == slots.len(),
        0 <= id < slots.len() - 1 ==> freed(slots, id)[id] is None,
        0 <= id == slots.len() - 1 ==> freed(slots, id).len() <= id && compact(freed(slots, id)),
        forall|j: int|
            0 <= j < freed(slots, id).len() && j != id ==> freed(slots, id)[j] == slots[j],
        forall|j: int|
            freed(slots, id).len() <= j < slots.len() && j != id ==> (#[trigger] slots[j]) is None,
        compact(slots) ==> compact(freed(slots, id)),
{
    if 0 <= id == slots.len() - 1 {
        lemma_trimmed(slots.drop_last());
        assert forall|j: int|
            freed(slots, id).len() <= j < slots.len() && j != id implies (#[trigger] slots[j])
            is None by {
            assert(slots.drop_last()[j] is None);
        }
    }
}

/// Storing a value under the next handle and freeing that handle again
/// leaves a table without trailing empty slots as it was, so that the same
/// handle is the next one again.
pub proof fn law_alloc_then_free_restores<V>(slots: Seq<Option<V>>, value: V)
    requires
        compact(slots),
    ensures
        freed(stored(slots, first_free(slots), Some(value)), first_free(slots)) == slots,
{
    lemma_first_free_is_lowest(slots, first_free(slots));
}

/// `first_free` is the one handle that `is_lowest_free` describes.
pub proof fn lemma_first_free_is_lowest<V>(slots: Seq<Option<V>>, id: int)
    ensures
        is_lowest_free(slots, first_free(slots)),
        is_lowest_free(slots, id) ==> id == first_free(slots),
{
    lemma_first_free_from(slots, 0);
}

/// What trimming keeps: a beginning of the table that has no trailing empty
/// slot, after which every slot of the table was empty. A table without
/// trailing empty slots is kept whole.
pub proof fn lemma_trimmed<V>(slots: Seq<Option<V>>)
    ensures
        live_len(slots) <= slots.len(),
        compact(trimmed(slots)),
        forall|j: int| live_len(slots) <= j < slots.len() ==> (#[trigger] slots[j]) is None,
        compact(slots) ==> trimmed(slots) == slots,
    decreases slots.len(),
{
    if slots.len() > 0 && slots.last() is None {
        lemma_trimmed(slots.drop_last());
        assert forall|j: int| live_len(slots) <= j < slots.len() implies (#[trigger] slots[j])
            is None by {
            if j < slots.len() - 1 {
                assert(slots.drop_last()[j] is None);
            }
        }
    }
}

/// Which slots are occupied decides the next handle, the trimmed length and
/// the number of occupied slots: mapping the values changes none of them, and
/// storing and freeing go through the mapping.
pub proof fn lemma_map_slots<A, B>(slots: Seq<Option<A>>, f: spec_fn(A) -> B)
    ensures
        first_free(map_slots(slots, f)) == first_free(slots),
        compact(map_slots(slots, f)) == compact(slots),
        occupied_count(map_slots(slots, f)) == occupied_count(slots),
        forall|id: int| #[trigger] freed(map_slots(slots, f), id) == map_slots(freed(slots, id), f),
        forall|id: int, slot: Option<A>| #[trigger]
            stored(map_slots(slots, f), id, map_slot(slot, f)) == map_slots(
                stored(slots, id, slot),
                f,
            ),
        forall|id: int| #[trigger]
            slot_at(map_slots(slots, f), id) == map_slot(slot_at(slots, id), f),
{
    let mapped = map_slots(slots, f);
    lemma_map_slots_first_free(slots, f, 0);
    lemma_map_slots_counts(slots, f);
    assert forall|id: int| #[trigger] freed(mapped, id) == map_slots(freed(slots, id), f) by {
        if 0 <= id < slots.len() {
            if id == slots.len() - 1 {
                assert(mapped.drop_last() =~= map_slots(slots.drop_last(), f));
                lemma_map_slots_counts(slots.drop_last(), f);
                lemma_trimmed(slots.drop_last());
            }
        }
    }
}

/// `first_free_from` returns an empty slot at or after `from` with only
/// occupied slots between, or the length of the table.
proof fn lemma_first_free_from<V>(slots: Seq<Option<V>>, from: int)
    requires
        0 <= from <= slots.len(),
    ensures
        from <= first_free_from(slots, from) <= slots.len(),
        first_free_from(slots, from) < slots.len() ==> slots[first_free_from(slots, from)] is None,
        forall|j: int| from <= j < first_free_from(slots, from) ==> (#[trigger] slots[j]) is Some,
    decreases slots.len() - from,
{
    if from < slots.len() && slots[from] is Some {
        lemma_first_free_from(slots, from + 1);
    }
}

/// Filling an empty slot, or appending an occupied one, adds one to the
/// number of occupied slots.
proof fn lemma_occupied_count_stored<V>(slots: Seq<Option<V>>, id: int, value: V)
    requires
        0 <= id <= slots.len(),
        id < slots.len() ==> slots[id] is None,
    ensures
        occupied_count(stored(slots, id, Some(value))) == occupied_count(slots) + 1,
    decreases slots.len(),
{
    let filled = stored(slots, id, Some(value));
    if id == slots.len() {
        assert(filled.drop_last() =~= slots);
    } else if id == slots.len() - 1 {
        assert(filled.drop_last() =~= slots.drop_last());
    } else {
        assert(filled.drop_last() =~= stored(slots.drop_last(), id, Some(value)));
        lemma_occupied_count_stored(slots.drop_last(), id, value);
    }
}

/// Cutting off trailing empty slots keeps the number of occupied slots.
proof fn lemma_occupied_count_trimmed<V>(slots: Seq<Option<V>>)
    ensures
        occupied_count(trimmed(slots)) == occupied_count(slots),
    decreases slots.len(),
{
    if slots.len() > 0 && slots.last() is None {
        lemma_occupied_count_trimmed(slots.drop_last());
        lemma_trimmed(slots.drop_last());
        assert(trimmed(slots) =~= trimmed(slots.drop_last()));
    } else {
        assert(trimmed(slots) =~= slots);
    }
}

/// Emptying a slot takes one from the number of occupied slots if the slot
/// was occupied.
proof fn lemma_occupied_count_emptied<V>(slots: Seq<Option<V>>, id: int)
    requires
        0 <= id < slots.len(),
    ensures
        occupied_count(slots.update(id, None)) == occupied_count(slots) - (if slots[id] is Some {
            1int
        } else {
            0int
        }),
    decreases slots.len(),
{
    let emptied = slots.update(id, None);
    if id == slots.len() - 1 {
        assert(emptied.drop_last() =~= slots.drop_last());
    } else {
        assert(emptied.drop_last() =~= slots.drop_last().update(id, None));
        lemma_occupied_count_emptied(slots.drop_last(), id);
    }
}

/// Mapping the values keeps the lowest empty slot at or after `from`.
proof fn lemma_map_slots_first_free<A, B>(slots: Seq<Option<A>>, f: spec_fn(A) -> B, from: int)
    requires
        0 <= from <= slots.len(),
    ensures
        first_free_from(map_slots(slots, f), from) == first_free_from(slots, from),
    decreases slots.len() - from,
{
    if from < slots.len() && slots[from] is Some {
        lemma_map_slots_first_free(slots, f, from + 1);
    }
}

/// Mapping the values keeps the trimmed length, whether the last slot is
/// occupied, and the number of occupied slots.
proof fn lemma_map_slots_counts<A, B>(slots: Seq<Option<A>>, f: spec_fn(A) -> B)
    ensures
        live_len(map_slots(slots, f)) == live_len(slots),
        compact(map_slots(slots, f)) == compact(slots),
        occupied_count(map_slots(slots, f)) == occupied_count(slots),
    decreases slots.len(),
{
    if slots.len() > 0 {
        assert(map_slots(slots, f).drop_last() =~= map_slots(slots.drop_last(), f));
        lemma_map_slots_counts(slots.drop_last(), f);
    }
}

} // verus!
