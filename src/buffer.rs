use vstd::prelude::*;

use crate::resource::{Error, Resource};

verus! {

/// Input slots of a factory: items delivered to it, and slots promised to agents on their way.
#[derive(Clone, Copy, PartialEq, Eq, Structural, Debug)]
pub struct Input {
    pub resource: Resource,
    pub capacity: u16,
    pub num_items: u16,
    pub reserved_slots: u16,
}

/// Output items of a factory: items it holds, and items promised to agents on their way.
#[derive(Clone, Copy, PartialEq, Eq, Structural, Debug)]
pub struct Output {
    pub resource: Resource,
    pub capacity: u16,
    pub num_items: u16,
    pub reserved_items: u16,
}

/// Saturating decrement.
pub open spec fn dec(v: u16) -> u16 {
    if v == 0 {
        0
    } else {
        (v - 1) as u16
    }
}

impl Input {
    /// Items plus promised slots fill the capacity.
    pub open spec fn virtually_full(self) -> bool {
        self.num_items + self.reserved_slots >= self.capacity
    }

    pub open spec fn physically_full(self) -> bool {
        self.num_items >= self.capacity
    }

    /// Outcome of `reserve_slot`: the result and the new state.
    pub open spec fn spec_reserve_slot(self) -> (Result<(), Error>, Input) {
        if self.virtually_full() {
            (Err(Error::Full), self)
        } else {
            (Ok(()), Input { reserved_slots: (self.reserved_slots + 1) as u16, ..self })
        }
    }

    /// Outcome of `add_to`: one item more, and one promise fewer (saturating).
    pub open spec fn spec_add_to(self) -> (Result<(), Error>, Input) {
        if self.physically_full() {
            (Err(Error::Full), self)
        } else {
            (
                Ok(()),
                Input {
                    num_items: (self.num_items + 1) as u16,
                    reserved_slots: dec(self.reserved_slots),
                    ..self
                },
            )
        }
    }

    pub open spec fn spec_consume_items(self, n: u16) -> (Result<(), Error>, Input) {
        if self.num_items >= n {
            (Ok(()), Input { num_items: (self.num_items - n) as u16, ..self })
        } else {
            (Err(Error::Empty), self)
        }
    }

    pub fn new(resource: Resource, capacity: u16) -> (r: Input)
        ensures
            r == (Input { resource, capacity, num_items: 0, reserved_slots: 0 }),
    {
        Input { resource, capacity, num_items: 0, reserved_slots: 0 }
    }

    pub fn resource(&self) -> (r: Resource)
        ensures
            r == self.resource,
    {
        self.resource
    }

    pub fn is_empty(&self) -> (r: bool)
        ensures
            r == (self.num_items == 0),
    {
        self.num_items == 0
    }

    pub fn is_virtually_full(&self) -> (r: bool)
        ensures
            r == self.virtually_full(),
    {
        self.num_items as u32 + self.reserved_slots as u32 >= self.capacity as u32
    }

    pub fn is_physically_full(&self) -> (r: bool)
        ensures
            r == self.physically_full(),
    {
        self.num_items >= self.capacity
    }

    /// Promises one slot to an agent; fails with `Full` when items and promises fill the capacity.
    pub fn reserve_slot(&mut self) -> (r: Result<(), Error>)
        ensures
            (r, *final(self)) == old(self).spec_reserve_slot(),
    {
        if self.is_virtually_full() {
            Err(Error::Full)
        } else {
            self.reserved_slots = self.reserved_slots + 1;
            Ok(())
        }
    }

    /// Withdraws one promise; never below zero.
    pub fn unreserve_slot(&mut self)
        ensures
            *final(self) == (Input { reserved_slots: dec(old(self).reserved_slots), ..*old(self) }),
    {
        if self.reserved_slots > 0 {
            self.reserved_slots = self.reserved_slots - 1;
        }
    }

    /// Empties the buffer and forgets all promises.
    pub fn drain(&mut self)
        ensures
            *final(self) == (Input { num_items: 0, reserved_slots: 0, ..*old(self) }),
    {
        self.num_items = 0;
        self.reserved_slots = 0;
    }

    /// Puts one item in; fails with `Full` when the items alone fill the capacity.
    pub fn add_to(&mut self) -> (r: Result<(), Error>)
        ensures
            (r, *final(self)) == old(self).spec_add_to(),
    {
        if self.is_physically_full() {
            Err(Error::Full)
        } else {
            self.num_items = self.num_items + 1;
            self.unreserve_slot();
            Ok(())
        }
    }

    /// Takes `n` items out at once, or none at all (`Empty`).
    pub fn consume_items(&mut self, n: u16) -> (r: Result<(), Error>)
        ensures
            (r, *final(self)) == old(self).spec_consume_items(n),
    {
        if self.num_items >= n {
            self.num_items = self.num_items - n;
            Ok(())
        } else {
            Err(Error::Empty)
        }
    }
}

impl Output {
    pub open spec fn full(self) -> bool {
        self.num_items >= self.capacity
    }

    /// Every item held is already promised.
    pub open spec fn virtually_empty(self) -> bool {
        self.num_items <= self.reserved_items
    }

    /// Outcome of `reserve_item`; the count of promises never exceeds the capacity.
    pub open spec fn spec_reserve_item(self) -> (Result<(), Error>, Output) {
        if self.virtually_empty() {
            (Err(Error::Empty), self)
        } else {
            (
                Ok(()),
                Output {
                    reserved_items: if self.reserved_items + 1 > self.capacity {
                        self.capacity
                    } else {
                        (self.reserved_items + 1) as u16
                    },
                    ..self
                },
            )
        }
    }

    /// Outcome of `take_item`: one item fewer, and one promise fewer (saturating).
    pub open spec fn spec_take_item(self) -> (Result<(), Error>, Output) {
        if self.num_items == 0 {
            (Err(Error::Empty), self)
        } else {
            (
                Ok(()),
                Output {
                    num_items: (self.num_items - 1) as u16,
                    reserved_items: dec(self.reserved_items),
                    ..self
                },
            )
        }
    }

    pub open spec fn spec_produce_items(self, n: u16) -> (Result<(), Error>, Output) {
        if self.num_items + n <= self.capacity {
            (Ok(()), Output { num_items: (self.num_items + n) as u16, ..self })
        } else {
            (Err(Error::Full), self)
        }
    }

    pub fn new(resource: Resource, capacity: u16) -> (r: Output)
        ensures
            r == (Output { resource, capacity, num_items: 0, reserved_items: 0 }),
    {
        Output { resource, capacity, num_items: 0, reserved_items: 0 }
    }

    pub fn resource(&self) -> (r: Resource)
        ensures
            r == self.resource,
    {
        self.resource
    }

    pub fn is_full(&self) -> (r: bool)
        ensures
            r == self.full(),
    {
        self.num_items >= self.capacity
    }

    pub fn is_vitrually_empty(&self) -> (r: bool)
        ensures
            r == self.virtually_empty(),
    {
        self.num_items <= self.reserved_items
    }

    pub fn is_physically_empty(&self) -> (r: bool)
        ensures
            r == (self.num_items == 0),
    {
        self.num_items == 0
    }

    /// Promises one item to an agent; fails with `Empty` when every item is already promised.
    pub fn reserve_item(&mut self) -> (r: Result<(), Error>)
        ensures
            (r, *final(self)) == old(self).spec_reserve_item(),
    {
        if self.is_vitrually_empty() {
            Err(Error::Empty)
        } else {
            if self.reserved_items >= self.capacity {
                self.reserved_items = self.capacity;
            } else {
                self.reserved_items = self.reserved_items + 1;
            }
            Ok(())
        }
    }

    /// Withdraws one promise; never below zero.
    pub fn unreserve_item(&mut self)
        ensures
            *final(self) == (Output { reserved_items: dec(old(self).reserved_items), ..*old(self) }),
    {
        if self.reserved_items > 0 {
            self.reserved_items = self.reserved_items - 1;
        }
    }

    /// Takes one item out; fails with `Empty` when there is none.
    pub fn take_item(&mut self) -> (r: Result<(), Error>)
        ensures
            (r, *final(self)) == old(self).spec_take_item(),
    {
        if self.is_physically_empty() {
            Err(Error::Empty)
        } else {
            self.num_items = self.num_items - 1;
            self.unreserve_item();
            Ok(())
        }
    }

    /// Adds `n` items at once, or none at all (`Full`).
    pub fn produce_items(&mut self, n: u16) -> (r: Result<(), Error>)
        ensures
            (r, *final(self)) == old(self).spec_produce_items(n),
    {
        if self.num_items as u32 + n as u32 <= self.capacity as u32 {
            self.num_items = self.num_items + n;
            Ok(())
        } else {
            Err(Error::Full)
        }
    }

    /// Empties the buffer and forgets all promises.
    pub fn drain(&mut self)
        ensures
            *final(self) == (Output { num_items: 0, reserved_items: 0, ..*old(self) }),
    {
        self.num_items = 0;
        self.reserved_items = 0;
    }
}

/// The input after `k` successive `reserve_slot` calls.
pub open spec fn reserve_slots(b: Input, k: nat) -> Input
    decreases k,
{
    if k == 0 {
        b
    } else {
        reserve_slots(b, (k - 1) as nat).spec_reserve_slot().1
    }
}

/// The output after `k` successive `reserve_item` calls.
pub open spec fn reserve_items(b: Output, k: nat) -> Output
    decreases k,
{
    if k == 0 {
        b
    } else {
        reserve_items(b, (k - 1) as nat).spec_reserve_item().1
    }
}

/// The input after `k` successive `unreserve_slot` calls.
pub open spec fn unreserve_slots(b: Input, k: nat) -> Input
    decreases k,
{
    if k == 0 {
        b
    } else {
        let p = unreserve_slots(b, (k - 1) as nat);
        Input { reserved_slots: dec(p.reserved_slots), ..p }
    }
}

/// The output after `k` successive `unreserve_item` calls.
pub open spec fn unreserve_items(b: Output, k: nat) -> Output
    decreases k,
{
    if k == 0 {
        b
    } else {
        let p = unreserve_items(b, (k - 1) as nat);
        Output { reserved_items: dec(p.reserved_items), ..p }
    }
}

proof fn lemma_reserve_slots_count(b: Input, k: nat)
    requires
        forall|j: nat| j < k ==> (#[trigger] reserve_slots(b, j)).spec_reserve_slot().0 is Ok,
    ensures
        reserve_slots(b, k).reserved_slots == b.reserved_slots + k,
        reserve_slots(b, k).num_items == b.num_items,
        reserve_slots(b, k).capacity == b.capacity,
    decreases k,
{
    if k > 0 {
        lemma_reserve_slots_count(b, (k - 1) as nat);
        assert(reserve_slots(b, (k - 1) as nat).spec_reserve_slot().0 is Ok);
    }
}

/// An input slot cannot be promised more often than its capacity allows: after `capacity`
/// successful `reserve_slot` calls in a row, the next one fails with `Full`.
pub proof fn lemma_reserve_slot_exhausts(b: Input)
    requires
        forall|j: nat| j < b.capacity ==> (#[trigger] reserve_slots(b, j)).spec_reserve_slot().0 is Ok,
    ensures
        reserve_slots(b, b.capacity as nat).spec_reserve_slot().0 == Err::<(), Error>(Error::Full),
{
    lemma_reserve_slots_count(b, b.capacity as nat);
}

proof fn lemma_reserve_items_count(b: Output, k: nat)
    requires
        forall|j: nat| j < k ==> (#[trigger] reserve_items(b, j)).spec_reserve_item().0 is Ok,
    ensures
        reserve_items(b, k).num_items == b.num_items,
        reserve_items(b, k).capacity == b.capacity,
        reserve_items(b, k).reserved_items >= b.reserved_items + k || reserve_items(
            b,
            k,
        ).reserved_items == b.capacity,
    decreases k,
{
    if k > 0 {
        lemma_reserve_items_count(b, (k - 1) as nat);
        assert(reserve_items(b, (k - 1) as nat).spec_reserve_item().0 is Ok);
    }
}

/// An output item cannot be promised more often than the buffer can hold: for an output holding
/// no more than its capacity, after `capacity` successful `reserve_item` calls in a row, the next
/// one fails with `Empty`.
pub proof fn lemma_reserve_item_exhausts(b: Output)
    requires
        b.num_items <= b.capacity,
        forall|j: nat| j < b.capacity ==> (#[trigger] reserve_items(b, j)).spec_reserve_item().0 is Ok,
    ensures
        reserve_items(b, b.capacity as nat).spec_reserve_item().0 == Err::<(), Error>(Error::Empty),
{
    lemma_reserve_items_count(b, b.capacity as nat);
}

/// Withdrawing promises saturates: after `k` calls of `unreserve_slot` the count is the old one
/// less `k`, or zero, and nothing else changes.
pub proof fn lemma_unreserve_slot_saturates(b: Input, k: nat)
    ensures
        unreserve_slots(b, k).reserved_slots == (if k >= b.reserved_slots {
            0
        } else {
            b.reserved_slots - k
        }),
        unreserve_slots(b, k) == (Input { reserved_slots: unreserve_slots(b, k).reserved_slots, ..b }),
    decreases k,
{
    if k > 0 {
        lemma_unreserve_slot_saturates(b, (k - 1) as nat);
    }
}

/// Withdrawing promises saturates: after `k` calls of `unreserve_item` the count is the old one
/// less `k`, or zero, and nothing else changes.
pub proof fn lemma_unreserve_item_saturates(b: Output, k: nat)
    ensures
        unreserve_items(b, k).reserved_items == (if k >= b.reserved_items {
            0
        } else {
            b.reserved_items - k
        }),
        unreserve_items(b, k) == (Output { reserved_items: unreserve_items(b, k).reserved_items, ..b }),
    decreases k,
{
    if k > 0 {
        lemma_unreserve_item_saturates(b, (k - 1) as nat);
    }
}

} // verus!
