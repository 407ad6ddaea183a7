//! Event values and the event-slot manager.
//!
//! An event value is an opaque 32-bit counter compared wrap-safely: the
//! signed interpretation of `(a - b) mod 2^32` orders two values. The
//! firmware advances a per-slot stamp through this space to signal
//! completion of commands.

use vstd::prelude::*;

verus! {

/// Distance travelled forward from `b` to reach `a` on the 32-bit circle.
pub open spec fn circ_diff(a: u32, b: u32) -> int {
    (a + 0x1_0000_0000 - b) % 0x1_0000_0000
}

/// Closed form of `circ_diff`.
pub proof fn lemma_circ_diff_closed(a: u32, b: u32)
    ensures
        circ_diff(a, b) == if a >= b { a - b } else { a + 0x1_0000_0000 - b },
        0 <= circ_diff(a, b) < 0x1_0000_0000,
{
    if a >= b {
        vstd::arithmetic::div_mod::lemma_mod_multiples_vanish(1, a - b, 0x1_0000_0000);
        vstd::arithmetic::div_mod::lemma_small_mod((a - b) as nat, 0x1_0000_0000);
    } else {
        vstd::arithmetic::div_mod::lemma_small_mod((a + 0x1_0000_0000 - b) as nat, 0x1_0000_0000);
    }
}

/// A value is at distance zero from itself.
pub proof fn lemma_circ_diff_self(a: u32)
    ensures
        circ_diff(a, a) == 0,
{
    lemma_circ_diff_closed(a, a);
}

/// Distances along a chain add up while they stay under one full turn.
pub proof fn lemma_circ_add(a: u32, b: u32, c: u32)
    requires
        circ_diff(b, c) + circ_diff(a, b) < 0x1_0000_0000,
    ensures
        circ_diff(a, c) == circ_diff(b, c) + circ_diff(a, b),
{
    lemma_circ_diff_closed(a, b);
    lemma_circ_diff_closed(b, c);
    lemma_circ_diff_closed(a, c);
}

/// Rebasing: for a point at least as far as `b` from the base `c`, the
/// distance from `b` is the difference of the distances from `c`.
pub proof fn lemma_circ_rebase(a: u32, b: u32, c: u32)
    requires
        circ_diff(b, c) <= circ_diff(a, c),
    ensures
        circ_diff(a, b) == circ_diff(a, c) - circ_diff(b, c),
{
    lemma_circ_diff_closed(a, b);
    lemma_circ_diff_closed(b, c);
    lemma_circ_diff_closed(a, c);
}

/// Stepping back by the distance from `b` lands on `b` again.
pub proof fn lemma_circ_sub_back(a: u32, b: u32, n: u32)
    requires
        circ_diff(a, b) == n,
    ensures
        (a + 0x1_0000_0000 - n) % 0x1_0000_0000 == b,
{
    lemma_circ_diff_closed(a, b);
    if a >= b {
        vstd::arithmetic::div_mod::lemma_mod_multiples_vanish(1, b as int, 0x1_0000_0000);
        vstd::arithmetic::div_mod::lemma_small_mod(b as nat, 0x1_0000_0000);
    } else {
        vstd::arithmetic::div_mod::lemma_small_mod(b as nat, 0x1_0000_0000);
    }
}

/// Stepping a value back by `n` shortens its distance from a base by
/// exactly `n`, while `n` stays inside that distance.
pub proof fn lemma_circ_diff_sub(a: u32, c: u32, n: u32)
    requires
        n <= circ_diff(a, c),
    ensures
        circ_diff(((a + 0x1_0000_0000 - n) % 0x1_0000_0000) as u32, c) == circ_diff(a, c) - n,
{
    let r = ((a + 0x1_0000_0000 - n) % 0x1_0000_0000) as u32;
    if a >= n {
        vstd::arithmetic::div_mod::lemma_mod_multiples_vanish(1, a - n, 0x1_0000_0000);
        vstd::arithmetic::div_mod::lemma_small_mod((a - n) as nat, 0x1_0000_0000);
    } else {
        vstd::arithmetic::div_mod::lemma_small_mod((a + 0x1_0000_0000 - n) as nat, 0x1_0000_0000);
    }
    lemma_circ_diff_closed(a, c);
    lemma_circ_diff_closed(r, c);
}

/// Distinct offsets within one ring lap land on distinct ring indices.
pub proof fn lemma_mod_index_distinct(a: int, j: int, k: int, s: int)
    requires
        0 <= j < k,
        k - j < s,
        0 < s,
    ensures
        (a + j) % s != (a + k) % s,
{
    vstd::arithmetic::div_mod::lemma_sub_mod_noop(a + k, a + j, s);
    vstd::arithmetic::div_mod::lemma_small_mod((k - j) as nat, s as nat);
    vstd::arithmetic::div_mod::lemma_small_mod(0, s as nat);
    if (a + j) % s == (a + k) % s {
        assert(((a + k) % s - (a + j) % s) % s == ((a + k) - (a + j)) % s);
        assert(0int % s == (k - j) % s);
    }
}

/// An opaque 32-bit completion counter with wrap-safe comparison.
#[derive(Clone, Copy, Debug, PartialEq, Eq, Structural)]
pub struct EventValue {
    pub raw: u32,
}

/// `a <= b` in wrap-respecting order: the signed delta from `a` to `b`
/// is non-negative.
pub open spec fn value_le(a: EventValue, b: EventValue) -> bool {
    circ_diff(b.raw, a.raw) < 0x8000_0000
}

impl EventValue {
    /// The value one step further around the circle.
    pub open spec fn spec_next(self) -> EventValue {
        EventValue { raw: ((self.raw + 1) % 0x1_0000_0000) as u32 }
    }

    /// The value `n` steps back around the circle.
    pub open spec fn spec_sub(self, n: u32) -> EventValue {
        EventValue { raw: ((self.raw + 0x1_0000_0000 - n) % 0x1_0000_0000) as u32 }
    }

    pub fn new(raw: u32) -> (r: EventValue)
        ensures
            r.raw == raw,
    {
        EventValue { raw }
    }

    /// Successor value.
    pub fn next(&self) -> (r: EventValue)
        ensures
            r == self.spec_next(),
            circ_diff(r.raw, self.raw) == 1,
    {
        proof {
            lemma_circ_diff_closed((if self.raw == 0xffff_ffff { 0u32 } else { (self.raw + 1) as u32 }), self.raw);
        }
        if self.raw == 0xffff_ffff {
            EventValue { raw: 0 }
        } else {
            EventValue { raw: self.raw + 1 }
        }
    }

    /// Advance by one step in place.
    pub fn increment(&mut self)
        ensures
            *final(self) == old(self).spec_next(),
            circ_diff(final(self).raw, old(self).raw) == 1,
    {
        *self = self.next();
    }

    /// Step back by `n` values in place (rolling back reserved events).
    pub fn sub(&mut self, n: u32)
        ensures
            *final(self) == old(self).spec_sub(n),
            circ_diff(old(self).raw, final(self).raw) == if n == 0 { 0int } else { n as int },
    {
        let r: u64 = ((self.raw as u64) + 0x1_0000_0000 - (n as u64)) % 0x1_0000_0000;
        proof {
            lemma_circ_diff_closed(self.raw, r as u32);
            if self.raw >= n {
                vstd::arithmetic::div_mod::lemma_mod_multiples_vanish(1, self.raw - n, 0x1_0000_0000);
                vstd::arithmetic::div_mod::lemma_small_mod((self.raw - n) as nat, 0x1_0000_0000);
            } else {
                vstd::arithmetic::div_mod::lemma_small_mod((self.raw + 0x1_0000_0000 - n) as nat, 0x1_0000_0000);
            }
        }
        *self = EventValue { raw: r as u32 };
    }

    /// Forward distance from `base` to this value.
    pub fn delta_from(&self, base: &EventValue) -> (r: u64)
        ensures
            r == circ_diff(self.raw, base.raw),
    {
        proof {
            lemma_circ_diff_closed(self.raw, base.raw);
        }
        ((self.raw as u64) + 0x1_0000_0000 - (base.raw as u64)) % 0x1_0000_0000
    }

    /// Wrap-respecting `self <= other`.
    pub fn le(&self, other: &EventValue) -> (r: bool)
        ensures
            r == value_le(*self, *other),
    {
        let d = other.delta_from(self);
        d < 0x8000_0000
    }
}

/// One occupied event slot together with its owning queue's id.
#[derive(Clone, Copy, Debug, PartialEq, Eq, Structural)]
pub struct SlotOwner {
    pub slot: u32,
    pub owner: u64,
}

/// The occupied slots of the first `n` entries of a table, each with
/// its owner, in ascending slot order.
pub open spec fn spec_owned_slots_upto(slots: Seq<SlotState>, n: int) -> Seq<SlotOwner>
    decreases n,
{
    if n <= 0 {
        Seq::empty()
    } else {
        let prefix = spec_owned_slots_upto(slots, n - 1);
        match slots[n - 1].owner {
            Some(o) => prefix.push(SlotOwner { slot: (n - 1) as u32, owner: o }),
            None => prefix,
        }
    }
}

/// The occupied slots of a whole table, each with its owner, in
/// ascending slot order.
pub open spec fn spec_owned_slots(slots: Seq<SlotState>) -> Seq<SlotOwner> {
    spec_owned_slots_upto(slots, slots.len() as int)
}

/// One event slot: its current firmware-visible stamp and the queue
/// that owns it, if any.
#[derive(Clone, Copy, Debug)]
pub struct SlotState {
    pub owner: Option<u64>,
    pub value: EventValue,
}

/// The fixed table of event slots. At most one work queue owns a slot
/// at a time; the firmware advances a slot's stamp to signal progress.
pub struct EventManager {
    pub slots: Vec<SlotState>,
}

impl EventManager {
    pub open spec fn slot_free(self, i: int) -> bool {
        self.slots@[i].owner is None
    }

    /// The slot table is small and fixed; slot numbers fit in 32 bits.
    pub open spec fn inv(self) -> bool {
        self.slots.len() <= u32::MAX
    }

    /// Build a manager with `num_slots` free slots, stamps at zero.
    pub fn new(num_slots: usize) -> (r: EventManager)
        requires
            num_slots <= u32::MAX,
        ensures
            r.inv(),
            r.slots.len() == num_slots,
            forall|i: int| 0 <= i < num_slots ==> #[trigger] r.slots@[i].owner is None,
            forall|i: int| 0 <= i < num_slots ==> (#[trigger] r.slots@[i].value).raw == 0,
    {
        let mut slots: Vec<SlotState> = Vec::new();
        let mut i: usize = 0;
        while i < num_slots
            invariant
                i <= num_slots,
                slots.len() == i,
                forall|j: int| 0 <= j < i ==> #[trigger] slots@[j].owner is None,
                forall|j: int| 0 <= j < i ==> (#[trigger] slots@[j].value).raw == 0,
            decreases num_slots - i,
        {
            slots.push(SlotState { owner: None, value: EventValue { raw: 0 } });
            i = i + 1;
        }
        EventManager { slots }
    }

    pub fn num_slots(&self) -> (r: usize)
        ensures
            r == self.slots.len(),
    {
        self.slots.len()
    }

    /// Acquire a free slot for `owner`. A still-free previous slot is
    /// preferred, preserving stamp locality across re-acquisition.
    /// Fails with `Busy` exactly when every slot is occupied.
    pub fn get(&mut self, prev: Option<u32>, owner: u64) -> (r: Result<(u32, EventValue), crate::DriverError>)
        requires
            old(self).inv(),
        ensures
            final(self).inv(),
            match r {
                Ok((slot, v)) => {
                    &&& (slot as int) < old(self).slots.len()
                    &&& old(self).slot_free(slot as int)
                    &&& v == old(self).slots@[slot as int].value
                    &&& final(self).slots@ == old(self).slots@.update(
                        slot as int,
                        (SlotState { owner: Some(owner), value: v }),
                    )
                },
                Err(e) => {
                    &&& e == crate::DriverError::Busy
                    &&& *final(self) == *old(self)
                    &&& forall|i: int| 0 <= i < old(self).slots.len() ==> !old(self).slot_free(i)
                },
            },
            (match prev {
                Some(p) => (p as int) < old(self).slots.len() && old(self).slot_free(p as int),
                None => false,
            }) ==> (r matches Ok((slot, _)) && prev == Some(slot)),
    {
        if let Some(p) = prev {
            if (p as usize) < self.slots.len() {
                if self.slots[p as usize].owner.is_none() {
                    let v = self.slots[p as usize].value;
                    self.slots.set(p as usize, SlotState { owner: Some(owner), value: v });
                    return Ok((p, v));
                }
            }
        }
        let mut i: usize = 0;
        while i < self.slots.len()
            invariant
                *self == *old(self),
                self.inv(),
                i <= self.slots.len(),
                forall|j: int| 0 <= j < i ==> !self.slot_free(j),
                match prev {
                    Some(p) => !((p as int) < old(self).slots.len() && old(self).slot_free(
                        p as int,
                    )),
                    None => true,
                },
            decreases self.slots.len() - i,
        {
            if self.slots[i].owner.is_none() {
                let v = self.slots[i].value;
                self.slots.set(i, SlotState { owner: Some(owner), value: v });
                return Ok((i as u32, v));
            }
            i = i + 1;
        }
        Err(crate::DriverError::Busy)
    }

    /// Release a slot after its owner drained.
    pub fn release(&mut self, slot: u32)
        requires
            (slot as int) < old(self).slots.len(),
        ensures
            final(self).slots@ == old(self).slots@.update(
                slot as int,
                (SlotState { owner: None, value: old(self).slots@[slot as int].value }),
            ),
    {
        let v = self.slots[slot as usize].value;
        self.slots.set(slot as usize, SlotState { owner: None, value: v });
    }

    /// The owner of a slot, for completion and error routing.
    pub fn get_owner(&self, slot: u32) -> (r: Option<u64>)
        requires
            (slot as int) < self.slots.len(),
        ensures
            r == self.slots@[slot as int].owner,
    {
        self.slots[slot as usize].owner
    }

    /// The slot's current firmware-visible stamp.
    pub fn current(&self, slot: u32) -> (r: EventValue)
        requires
            (slot as int) < self.slots.len(),
        ensures
            r == self.slots@[slot as int].value,
    {
        self.slots[slot as usize].value
    }

    /// Every occupied slot with its owner, in ascending slot order:
    /// the queues that must be told when every pending piece of work
    /// has to fail at once.
    pub fn owned_slots(&self) -> (r: Vec<SlotOwner>)
        requires
            self.inv(),
        ensures
            r@ == spec_owned_slots(self.slots@),
    {
        let mut r: Vec<SlotOwner> = Vec::new();
        let mut i: usize = 0;
        while i < self.slots.len()
            invariant
                self.inv(),
                i <= self.slots.len(),
                r@ == spec_owned_slots_upto(self.slots@, i as int),
            decreases self.slots.len() - i,
        {
            match self.slots[i].owner {
                Some(o) => {
                    r.push(SlotOwner { slot: i as u32, owner: o });
                },
                None => {},
            }
            i = i + 1;
        }
        r
    }

    /// Model of the firmware publishing a new stamp for a slot (driven
    /// from outside the library by whatever stands in for the firmware).
    pub fn fw_update_stamp(&mut self, slot: u32, value: EventValue)
        requires
            (slot as int) < old(self).slots.len(),
        ensures
            final(self).slots@ == old(self).slots@.update(
                slot as int,
                (SlotState { owner: old(self).slots@[slot as int].owner, value }),
            ),
    {
        let owner = self.slots[slot as usize].owner;
        self.slots.set(slot as usize, SlotState { owner, value });
    }
}

} // verus!
