use vstd::prelude::*;
use crate::item::{Item, Type, get_free, item_wf, is_free_sentinel};

verus! {

/// Fixed capacity of every backpack.
pub const BACKPACK_SIZE: usize = 20;

/// A bounded, ordered inventory. Occupied slots are contiguous at the front;
/// the `Nothing` sentinel fills every slot behind them. Removal compacts by
/// shifting the tail left, insertion shifts right and silently drops whatever
/// falls off the last slot.
pub struct Backpack {
    pub items: Vec<Item>,
}

/// A slot holding the `Nothing` sentinel counts as free.
pub open spec fn slot_free(item: Item) -> bool {
    item.item_type == Type::Nothing
}

/// Length of the occupied prefix: the number of items the backpack holds.
pub open spec fn count_items(s: Seq<Item>) -> int
    decreases s.len(),
{
    if s.len() == 0 {
        0
    } else if slot_free(s[0]) {
        0
    } else {
        1 + count_items(s.drop_first())
    }
}

pub proof fn lemma_count_le_len(s: Seq<Item>)
    ensures
        0 <= count_items(s) <= s.len(),
    decreases s.len(),
{
    if s.len() > 0 && !slot_free(s[0]) {
        lemma_count_le_len(s.drop_first());
    }
}

/// Every slot before the occupied-prefix length is occupied.
pub proof fn lemma_count_prefix_occupied(s: Seq<Item>, i: int)
    requires
        0 <= i < count_items(s),
    ensures
        !slot_free(s[i]),
    decreases s.len(),
{
    lemma_count_le_len(s);
    if i > 0 {
        lemma_count_prefix_occupied(s.drop_first(), i - 1);
    }
}

/// The slot right after the occupied prefix, if any, is free.
pub proof fn lemma_count_boundary(s: Seq<Item>)
    requires
        count_items(s) < s.len(),
    ensures
        slot_free(s[count_items(s)]),
    decreases s.len(),
{
    lemma_count_le_len(s);
    if s.len() > 0 && !slot_free(s[0]) {
        let d = s.drop_first();
        lemma_count_le_len(d);
        lemma_count_boundary(d);
        assert(count_items(s) == 1 + count_items(d));
        assert(d[count_items(d)] == s[count_items(d) + 1]);
    }
}

/// A free slot can only sit at or after the occupied prefix.
pub proof fn lemma_free_at_or_after_count(s: Seq<Item>, i: int)
    requires
        0 <= i < s.len(),
        slot_free(s[i]),
    ensures
        count_items(s) <= i,
    decreases s.len(),
{
    if i > 0 && !slot_free(s[0]) {
        lemma_free_at_or_after_count(s.drop_first(), i - 1);
    }
}

/// If no slot is free, the occupied prefix spans the whole sequence.
pub proof fn lemma_all_occupied_full(s: Seq<Item>)
    requires
        forall|i: int| 0 <= i < s.len() ==> !slot_free(#[trigger] s[i]),
    ensures
        count_items(s) == s.len(),
    decreases s.len(),
{
    if s.len() > 0 {
        assert(forall|i: int| 0 <= i < s.drop_first().len() ==> s.drop_first()[i] == s[i + 1]);
        lemma_all_occupied_full(s.drop_first());
    }
}

impl Backpack {
    /// Well-formed backpack: exactly `BACKPACK_SIZE` slots, occupied slots
    /// contiguous from the front, every item in bounds.
    pub open spec fn wf(&self) -> bool {
        &&& self.items@.len() == BACKPACK_SIZE
        &&& forall|i: int, j: int|
            0 <= i < j < self.items@.len() && slot_free(#[trigger] self.items@[i])
                ==> slot_free(#[trigger] self.items@[j])
        &&& forall|i: int| 0 <= i < self.items@.len() ==> item_wf(#[trigger] self.items@[i])
    }

    /// The number of items held.
    pub open spec fn spec_size(&self) -> int {
        count_items(self.items@)
    }

    /// A fresh backpack: twenty slots, each holding the full free sentinel.
    pub fn new() -> (r: Backpack)
        ensures
            r.wf(),
            r.items@.len() == BACKPACK_SIZE,
            r.spec_size() == 0,
            forall|i: int| 0 <= i < BACKPACK_SIZE ==> is_free_sentinel(#[trigger] r.items@[i]),
            forall|i: int| 0 <= i < BACKPACK_SIZE ==> slot_free(#[trigger] r.items@[i]),
    {
        let mut items: Vec<Item> = Vec::new();
        let mut n: usize = 0;
        while n < BACKPACK_SIZE
            invariant
                0 <= n <= BACKPACK_SIZE,
                items@.len() == n,
                forall|i: int| 0 <= i < n ==> is_free_sentinel(#[trigger] items@[i]),
                forall|i: int| 0 <= i < n ==> slot_free(#[trigger] items@[i]),
                forall|i: int| 0 <= i < n ==> item_wf(#[trigger] items@[i]),
            decreases BACKPACK_SIZE - n,
        {
            items.push(get_free());
            n += 1;
        }
        Backpack { items }
    }

    /// Adds an item into the first free slot; hands the item back if the
    /// backpack is full, leaving the backpack unchanged.
    pub fn add_item(&mut self, new_item: Item) -> (r: Result<(), Item>)
        requires
            old(self).wf(),
            item_wf(new_item),
        ensures
            final(self).wf(),
            old(self).spec_size() < BACKPACK_SIZE ==> {
                &&& r == Result::<(), Item>::Ok(())
                &&& final(self).items@ =~= old(self).items@.update(old(self).spec_size(), new_item)
                &&& !slot_free(new_item) ==> final(self).spec_size() == old(self).spec_size() + 1
                &&& slot_free(new_item) ==> final(self).spec_size() == old(self).spec_size()
            },
            old(self).spec_size() == BACKPACK_SIZE ==> {
                &&& r == Result::<(), Item>::Err(new_item)
                &&& *final(self) == *old(self)
            },
    {
        proof {
            lemma_count_le_len(self.items@);
        }
        let mut free_index: usize = 0;

        while free_index < BACKPACK_SIZE && !self.empty_slot(free_index)
            invariant
                self.wf(),
                0 <= free_index <= BACKPACK_SIZE,
                forall|i: int| 0 <= i < free_index ==> !slot_free(#[trigger] self.items@[i]),
            decreases BACKPACK_SIZE - free_index,
        {
            free_index += 1;
        }

        if free_index >= BACKPACK_SIZE {
            proof {
                lemma_all_occupied_full(self.items@);
            }
            return Result::Err(new_item);
        }

        proof {
            lemma_free_at_or_after_count(self.items@, free_index as int);
            lemma_all_occupied_prefix(self.items@, free_index as int);
            assert(count_items(self.items@) == free_index);
        }

        self.items.set(free_index, new_item);

        proof {
            lemma_count_after_set(old(self).items@, self.items@, free_index as int, new_item);
        }

        Result::Ok(())
    }

    /// Re-inserts an item at a given slot, shifting the tail right; whatever
    /// occupied the last slot is dropped. This deliberate truncation is part
    /// of the inventory design.
    pub fn insert_item(&mut self, backpack_index: usize, old_item: Item)
        requires
            old(self).wf(),
            item_wf(old_item),
            !slot_free(old_item),
            backpack_index as int <= old(self).spec_size(),
            backpack_index < BACKPACK_SIZE,
        ensures
            final(self).wf(),
            final(self).items@ =~= old(self).items@.insert(backpack_index as int, old_item).take(
                BACKPACK_SIZE as int,
            ),
    {
        self.items.insert(backpack_index, old_item);
        let _ = self.items.remove(BACKPACK_SIZE);
        proof {
            let s = old(self).items@.insert(backpack_index as int, old_item);
            assert(self.items@ =~= s.take(BACKPACK_SIZE as int));
            lemma_count_le_len(old(self).items@);
            assert forall|i: int, j: int|
                0 <= i < j < self.items@.len() && slot_free(self.items@[i])
                    implies slot_free(self.items@[j]) by {
                if i < backpack_index {
                    lemma_count_prefix_occupied(old(self).items@, i);
                } else if j > backpack_index {
                    if slot_free(self.items@[i]) {
                        assert(slot_free(old(self).items@[i - 1]) || i == backpack_index);
                    }
                }
            }
        }
    }

    /// Removes the item at `index`, compacting by shifting the tail left and
    /// refilling the last slot with the free sentinel.
    pub fn remove_item(&mut self, index: usize)
        requires
            old(self).wf(),
            index < BACKPACK_SIZE,
        ensures
            final(self).wf(),
            final(self).items@.len() == BACKPACK_SIZE,
            forall|k: int| 0 <= k < index ==> final(self).items@[k] == old(self).items@[k],
            forall|k: int|
                index <= k < BACKPACK_SIZE - 1 ==> final(self).items@[k] == old(self).items@[k + 1],
            slot_free(final(self).items@[BACKPACK_SIZE - 1]),
            index < old(self).spec_size() ==> final(self).spec_size() == old(self).spec_size() - 1,
            index >= old(self).spec_size() ==> final(self).spec_size() == old(self).spec_size(),
    {
        let _ = self.items.remove(index);
        self.items.push(get_free());
        proof {
            lemma_count_le_len(old(self).items@);
            assert forall|i: int, j: int|
                0 <= i < j < self.items@.len() && slot_free(self.items@[i])
                    implies slot_free(self.items@[j]) by {
                if j < BACKPACK_SIZE - 1 {
                    if i < index {
                        if j < index {
                        } else {
                            assert(slot_free(old(self).items@[i]));
                            assert(self.items@[j] == old(self).items@[j + 1]);
                        }
                    } else {
                        assert(slot_free(old(self).items@[i + 1]));
                        assert(self.items@[j] == old(self).items@[j + 1]);
                    }
                }
            }
            lemma_count_after_remove(old(self).items@, self.items@, index as int);
        }
    }

    /// Removes and returns the item at `index`, compacting like
    /// `remove_item`: the tail shifts left and the last slot is refilled
    /// with the free sentinel.
    pub fn take_item(&mut self, index: usize) -> (r: Item)
        requires
            old(self).wf(),
            index < BACKPACK_SIZE,
        ensures
            final(self).wf(),
            r == old(self).items@[index as int],
            final(self).items@.len() == BACKPACK_SIZE,
            forall|k: int| 0 <= k < index ==> final(self).items@[k] == old(self).items@[k],
            forall|k: int|
                index <= k < BACKPACK_SIZE - 1 ==> final(self).items@[k] == old(self).items@[k + 1],
            slot_free(final(self).items@[BACKPACK_SIZE - 1]),
            index < old(self).spec_size() ==> final(self).spec_size() == old(self).spec_size() - 1,
            index >= old(self).spec_size() ==> final(self).spec_size() == old(self).spec_size(),
    {
        let taken = self.items.remove(index);
        self.items.push(get_free());
        proof {
            lemma_count_le_len(old(self).items@);
            assert forall|i: int, j: int|
                0 <= i < j < self.items@.len() && slot_free(self.items@[i])
                    implies slot_free(self.items@[j]) by {
                if j < BACKPACK_SIZE - 1 {
                    if i < index {
                        if j < index {
                        } else {
                            assert(slot_free(old(self).items@[i]));
                            assert(self.items@[j] == old(self).items@[j + 1]);
                        }
                    } else {
                        assert(slot_free(old(self).items@[i + 1]));
                        assert(self.items@[j] == old(self).items@[j + 1]);
                    }
                }
            }
            lemma_count_after_remove(old(self).items@, self.items@, index as int);
        }
        taken
    }

    /// Whether at least one slot is free.
    pub fn has_space(&self) -> (r: bool)
        requires
            self.wf(),
        ensures
            r == (self.spec_size() < BACKPACK_SIZE),
    {
        let mut index: usize = 0;
        while index < BACKPACK_SIZE
            invariant
                self.wf(),
                0 <= index <= BACKPACK_SIZE,
                forall|i: int| 0 <= i < index ==> !slot_free(#[trigger] self.items@[i]),
            decreases BACKPACK_SIZE - index,
        {
            match self.items[index].item_type {
                Type::Nothing => {
                    proof {
                        lemma_free_at_or_after_count(self.items@, index as int);
                    }
                    return true;
                },
                _ => {},
            }
            index += 1;
        }
        proof {
            lemma_all_occupied_full(self.items@);
        }
        false
    }

    /// Whether `index` denotes a free slot; out-of-range indices are no slot.
    pub fn empty_slot(&self, index: usize) -> (r: bool)
        requires
            self.wf(),
        ensures
            r == (index < BACKPACK_SIZE && slot_free(self.items@[index as int])),
    {
        if index < BACKPACK_SIZE {
            return match self.items[index].item_type {
                Type::Nothing => true,
                _ => false,
            };
        }
        false
    }

    /// The number of items held: the length of the occupied prefix.
    pub fn size(&self) -> (r: usize)
        requires
            self.wf(),
        ensures
            r as int == self.spec_size(),
    {
        let mut counter: usize = 0;
        while counter < BACKPACK_SIZE
            invariant
                self.wf(),
                0 <= counter <= BACKPACK_SIZE,
                forall|i: int| 0 <= i < counter ==> !slot_free(#[trigger] self.items@[i]),
            decreases BACKPACK_SIZE - counter,
        {
            if self.empty_slot(counter) {
                proof {
                    lemma_free_at_or_after_count(self.items@, counter as int);
                    lemma_all_occupied_prefix(self.items@, counter as int);
                }
                return counter;
            }
            counter += 1;
        }
        proof {
            lemma_all_occupied_full(self.items@);
        }
        counter
    }
}

/// An occupied slot always lies inside the occupied prefix.
pub proof fn lemma_occupied_below_count(s: Seq<Item>, i: int)
    requires
        0 <= i < s.len(),
        !slot_free(s[i]),
        forall|a: int, b: int|
            0 <= a < b < s.len() && slot_free(#[trigger] s[a]) ==> slot_free(#[trigger] s[b]),
    ensures
        i < count_items(s),
{
    lemma_count_le_len(s);
    if i >= count_items(s) {
        lemma_count_boundary(s);
        if count_items(s) < i {
            assert(slot_free(s[count_items(s)]));
            assert(slot_free(s[i]));
        }
    }
}

/// If the first `i` slots are occupied, the occupied prefix is at least `i`.
pub proof fn lemma_all_occupied_prefix(s: Seq<Item>, i: int)
    requires
        0 <= i <= s.len(),
        forall|k: int| 0 <= k < i ==> !slot_free(#[trigger] s[k]),
    ensures
        count_items(s) >= i,
    decreases s.len(),
{
    lemma_count_le_len(s);
    if i > 0 {
        assert(!slot_free(s[0]));
        assert forall|k: int| 0 <= k < i - 1 implies !slot_free(#[trigger] s.drop_first()[k]) by {
            assert(s.drop_first()[k] == s[k + 1]);
        }
        lemma_all_occupied_prefix(s.drop_first(), i - 1);
        assert(count_items(s) == 1 + count_items(s.drop_first()));
    }
}

/// Overwriting the first free slot extends or keeps the occupied prefix,
/// depending on whether the written item is itself free.
proof fn lemma_count_after_set(s0: Seq<Item>, s1: Seq<Item>, i: int, item: Item)
    requires
        0 <= i < s0.len(),
        count_items(s0) == i,
        s1 =~= s0.update(i, item),
        forall|a: int, b: int|
            0 <= a < b < s0.len() && slot_free(#[trigger] s0[a]) ==> slot_free(#[trigger] s0[b]),
    ensures
        !slot_free(item) ==> count_items(s1) == i + 1,
        slot_free(item) ==> count_items(s1) == i,
        forall|a: int, b: int|
            0 <= a < b < s1.len() && slot_free(#[trigger] s1[a]) ==> slot_free(#[trigger] s1[b]),
    decreases s0.len(),
{
    lemma_count_le_len(s0);
    assert forall|a: int, b: int|
        0 <= a < b < s1.len() && slot_free(s1[a]) implies slot_free(s1[b]) by {
        if a != i && b != i {
            assert(slot_free(s0[a]));
        } else if b == i {
            if slot_free(s1[a]) {
                lemma_free_at_or_after_count(s0, a);
            }
        } else if a == i {
            if slot_free(s1[a]) {
                if i + 1 <= b < s0.len() {
                    lemma_count_boundary(s0);
                    if i < s0.len() - 1 {
                        assert(slot_free(s0[i]));
                    }
                }
            }
        }
    }
    assert forall|k: int| 0 <= k < i implies !slot_free(s1[k]) by {
        lemma_count_prefix_occupied(s0, k);
    }
    if !slot_free(item) {
        lemma_all_occupied_prefix(s1, i + 1);
        lemma_count_le_len(s1);
        if count_items(s1) > i + 1 {
            lemma_count_prefix_occupied(s1, i + 1);
            if i + 1 < s0.len() {
                lemma_count_boundary(s0);
                assert(slot_free(s0[i]));
                assert(slot_free(s0[i + 1]));
            }
        } else if i + 1 < s1.len() {
            lemma_count_boundary(s0);
            assert(slot_free(s0[i]));
            assert(slot_free(s0[i + 1]));
            assert(slot_free(s1[i + 1]));
            lemma_free_at_or_after_count(s1, i + 1);
        }
    } else {
        lemma_all_occupied_prefix(s1, i);
        lemma_free_at_or_after_count(s1, i);
    }
}

/// Removing one slot and appending a free sentinel shortens the occupied
/// prefix exactly when the removed slot was occupied.
proof fn lemma_count_after_remove(s0: Seq<Item>, s1: Seq<Item>, index: int)
    requires
        0 <= index < s0.len(),
        s1.len() == s0.len(),
        forall|k: int| 0 <= k < index ==> s1[k] == s0[k],
        forall|k: int| index <= k < s0.len() - 1 ==> s1[k] == s0[k + 1],
        slot_free(s1[s0.len() - 1]),
        forall|a: int, b: int|
            0 <= a < b < s0.len() && slot_free(#[trigger] s0[a]) ==> slot_free(#[trigger] s0[b]),
    ensures
        index < count_items(s0) ==> count_items(s1) == count_items(s0) - 1,
        index >= count_items(s0) ==> count_items(s1) == count_items(s0),
{
    lemma_count_le_len(s0);
    let c = count_items(s0);
    if index < c {
        assert forall|k: int| 0 <= k < c - 1 implies !slot_free(s1[k]) by {
            if k < index {
                lemma_count_prefix_occupied(s0, k);
            } else {
                lemma_count_prefix_occupied(s0, k + 1);
            }
        }
        lemma_all_occupied_prefix(s1, c - 1);
        if c - 1 < s1.len() {
            if c < s0.len() {
                lemma_count_boundary(s0);
                assert(slot_free(s1[c - 1]));
            } else {
                assert(c - 1 == s0.len() - 1);
            }
            lemma_free_at_or_after_count(s1, c - 1);
        }
    } else {
        assert forall|k: int| 0 <= k < c implies !slot_free(s1[k]) by {
            lemma_count_prefix_occupied(s0, k);
        }
        lemma_all_occupied_prefix(s1, c);
        if c < s1.len() {
            if c < s0.len() - 1 {
                lemma_count_boundary(s0);
                assert(slot_free(s0[c + 1]) || c + 1 >= s0.len());
                if index <= c {
                    assert(slot_free(s1[c]));
                }
            } else {
                assert(c == s0.len() - 1);
                assert(slot_free(s1[c]));
            }
            lemma_free_at_or_after_count(s1, c);
        }
    }
}

} // verus!
