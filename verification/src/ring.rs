//! A bounded circular buffer with free-running indices.
//!
//! The producer advances `tail`, the consumer advances `head`, and both indices
//! run through all of `u32` and wrap. The number of entries is a power of two,
//! so an index names the same slot before and after it wraps.

use vstd::prelude::*;
use vstd::arithmetic::div_mod::{
    lemma_fundamental_div_mod, lemma_mod_equivalence, lemma_mod_multiples_vanish, lemma_small_mod,
};
use vstd::wrapping::u32_specs::{wrapping_add, wrapping_sub};

verus! {

/// The number of values an index can take.
pub open spec fn index_space() -> int {
    0x1_0000_0000
}

/// Whether a buffer may have `entries` slots: a power of two that an index can count.
pub open spec fn is_ring_size(entries: int) -> bool {
    entries > 0 && index_space() % entries == 0
}

/// How many entries lie between `head` and `tail`.
pub open spec fn used(head: u32, tail: u32) -> int {
    wrapping_sub(tail, head) as int
}

/// The slot that holds the entry `i` places after `head`.
pub open spec fn slot(head: u32, i: int, entries: int) -> int {
    (head + i) % entries
}

/// An index names the slot that its distance from `head` gives.
pub proof fn lemma_slot_of_tail(head: u32, tail: u32, entries: int)
    requires
        is_ring_size(entries),
    ensures
        (tail as int) % entries == slot(head, used(head, tail), entries),
{
    if tail < head {
        let q = index_space() / entries;
        lemma_fundamental_div_mod(index_space(), entries);
        assert(index_space() == entries * q);
        lemma_mod_multiples_vanish(q, tail as int, entries);
        assert(head + used(head, tail) == entries * q + tail);
    }
}

/// Entries less than a full buffer apart lie in different slots.
pub proof fn lemma_slots_distinct(head: u32, i: int, j: int, entries: int)
    requires
        entries > 0,
        0 <= i < j < i + entries,
    ensures
        slot(head, i, entries) != slot(head, j, entries),
{
    lemma_mod_equivalence(head + j, head + i, entries);
    lemma_small_mod((j - i) as nat, entries as nat);
}

/// Advancing `head` by one moves every entry one place nearer to it.
pub proof fn lemma_slot_after_step(head: u32, i: int, entries: int)
    requires
        is_ring_size(entries),
    ensures
        slot(wrapping_add(head, 1), i, entries) == slot(head, i + 1, entries),
{
    if head == u32::MAX {
        let q = index_space() / entries;
        lemma_fundamental_div_mod(index_space(), entries);
        assert(index_space() == entries * q);
        lemma_mod_multiples_vanish(q, i, entries);
        assert(head + (i + 1) == entries * q + i);
    }
}

/// A bounded first-in, first-out buffer.
pub struct Ring<T> {
    head: u32,
    tail: u32,
    entries: u32,
    slots: Vec<T>,
}

impl<T> Ring<T> {
    #[verifier::type_invariant]
    spec fn well_formed(self) -> bool {
        &&& is_ring_size(self.entries as int)
        &&& self.slots.len() == self.entries
        &&& used(self.head, self.tail) <= self.entries
    }

    /// The entries in the buffer, oldest first.
    pub closed spec fn view(&self) -> Seq<T> {
        Seq::new(
            used(self.head, self.tail) as nat,
            |i: int| self.slots@[slot(self.head, i, self.entries as int)],
        )
    }

    /// The number of slots.
    pub closed spec fn capacity(&self) -> nat {
        self.entries as nat
    }

    /// The index of the oldest entry.
    pub closed spec fn spec_head(&self) -> u32 {
        self.head
    }

    /// The index after the newest entry.
    pub closed spec fn spec_tail(&self) -> u32 {
        self.tail
    }
}

impl<T: Copy> Ring<T> {
    /// An empty buffer of `entries` slots, or `None` where `entries` is no
    /// power of two. `fill` is what the slots hold until they are written.
    pub fn new(entries: u32, fill: T) -> (r: Option<Ring<T>>)
        ensures
            r is Some <==> is_ring_size(entries as int),
            r matches Some(ring) ==> ring@ == Seq::<T>::empty() && ring.capacity() == entries
                && ring.spec_head() == 0 && ring.spec_tail() == 0,
    {
        Self::starting_at(entries, fill, 0)
    }

    /// An empty buffer of `entries` slots whose indices both start at `start`,
    /// or `None` where `entries` is no power of two.
    pub fn starting_at(entries: u32, fill: T, start: u32) -> (r: Option<Ring<T>>)
        ensures
            r is Some <==> is_ring_size(entries as int),
            r matches Some(ring) ==> ring@ == Seq::<T>::empty() && ring.capacity() == entries
                && ring.spec_head() == start && ring.spec_tail() == start,
    {
        if entries == 0 || 0x1_0000_0000u64 % (entries as u64) != 0 {
            return None;
        }
        let mut slots: Vec<T> = Vec::new();
        let mut i: u32 = 0;
        while i < entries
            invariant
                i <= entries,
                slots.len() == i,
            decreases entries - i,
        {
            slots.push(fill);
            i = i + 1;
        }
        Some(Ring { head: start, tail: start, entries, slots })
    }

    /// The number of slots.
    pub fn entries(&self) -> (n: u32)
        ensures
            n == self.capacity(),
            is_ring_size(n as int),
    {
        proof {
            use_type_invariant(self);
        }
        self.entries
    }

    /// The index of the oldest entry.
    pub fn head(&self) -> (h: u32)
        ensures
            h == self.spec_head(),
    {
        self.head
    }

    /// The index after the newest entry. Its distance from the head is the
    /// number of entries in the buffer.
    pub fn tail(&self) -> (t: u32)
        ensures
            t == self.spec_tail(),
            used(self.spec_head(), t) == self@.len(),
            self@.len() <= self.capacity(),
    {
        proof {
            use_type_invariant(self);
        }
        self.tail
    }

    /// The number of entries in the buffer.
    pub fn len(&self) -> (n: u32)
        ensures
            n == self@.len(),
            n <= self.capacity(),
    {
        proof {
            use_type_invariant(self);
        }
        self.tail.wrapping_sub(self.head)
    }

    /// Claims the next free slot and hands it out to be written. What the slot
    /// holds when the borrow ends is the newest entry of the buffer.
    pub fn acquire(&mut self) -> (r: Option<&mut T>)
        ensures
            r is None <==> old(self)@.len() == old(self).capacity(),
            r is None ==> *final(self) == *old(self),
            r matches Some(s) ==> {
                &&& final(self)@ == old(self)@.push(*final(s))
                &&& final(self).capacity() == old(self).capacity()
                &&& final(self).spec_head() == old(self).spec_head()
                &&& final(self).spec_tail() == wrapping_add(old(self).spec_tail(), 1)
            },
    {
        proof {
            use_type_invariant(&*self);
        }
        let n = self.tail.wrapping_sub(self.head);
        if n < self.entries {
            let idx = (self.tail % self.entries) as usize;
            proof {
                let e = self.entries as int;
                lemma_slot_of_tail(self.head, self.tail, e);
                assert forall|i: int| 0 <= i < n implies slot(self.head, i, e) != idx as int by {
                    lemma_slots_distinct(self.head, i, n as int, e);
                }
            }
            self.tail = self.tail.wrapping_add(1);
            Some(&mut self.slots[idx])
        } else {
            None
        }
    }

    /// Appends `value` where a slot is free, and says whether one was.
    pub fn push(&mut self, value: T) -> (pushed: bool)
        ensures
            pushed <==> old(self)@.len() < old(self).capacity(),
            pushed ==> final(self)@ == old(self)@.push(value),
            !pushed ==> *final(self) == *old(self),
            final(self).capacity() == old(self).capacity(),
    {
        proof {
            use_type_invariant(&*self);
        }
        match self.acquire() {
            Some(s) => {
                *s = value;
                true
            },
            None => false,
        }
    }

    /// The oldest entry, which stays in the buffer.
    pub fn front(&self) -> (r: Option<T>)
        ensures
            r == if self@.len() > 0 { Some(self@[0]) } else { None::<T> },
    {
        proof {
            use_type_invariant(self);
        }
        if self.tail.wrapping_sub(self.head) == 0 {
            None
        } else {
            let idx = (self.head % self.entries) as usize;
            Some(self.slots[idx])
        }
    }

    /// The entry `i` places after the oldest, which stays in the buffer.
    pub fn get(&self, i: u32) -> (r: Option<T>)
        ensures
            r == if i < self@.len() { Some(self@[i as int]) } else { None::<T> },
    {
        proof {
            use_type_invariant(self);
        }
        if i < self.tail.wrapping_sub(self.head) {
            let at = self.head.wrapping_add(i);
            proof {
                lemma_slot_of_tail(self.head, at, self.entries as int);
            }
            let idx = (at % self.entries) as usize;
            Some(self.slots[idx])
        } else {
            None
        }
    }

    /// Takes the oldest entry out of the buffer.
    pub fn pop(&mut self) -> (r: Option<T>)
        ensures
            r == if old(self)@.len() > 0 { Some(old(self)@[0]) } else { None::<T> },
            final(self)@ == if old(self)@.len() > 0 { old(self)@.skip(1) } else { old(self)@ },
            final(self).capacity() == old(self).capacity(),
            final(self).spec_tail() == old(self).spec_tail(),
    {
        proof {
            use_type_invariant(&*self);
        }
        if self.tail.wrapping_sub(self.head) == 0 {
            None
        } else {
            let idx = (self.head % self.entries) as usize;
            let value = self.slots[idx];
            proof {
                let e = self.entries as int;
                assert forall|i: int| 0 <= i implies #[trigger] slot(wrapping_add(self.head, 1), i, e)
                    == slot(self.head, i + 1, e) by {
                    lemma_slot_after_step(self.head, i, e);
                }
            }
            self.head = self.head.wrapping_add(1);
            Some(value)
        }
    }
}

} // verus!
