//! Generation-checked storage for assets (textures and materials).
//!
//! A `Handle` names a slot and the generation that the slot had when the
//! value was stored. Removing a value leaves the slot vacant; when a vacant
//! slot is taken again its generation goes up, so a handle to a removed
//! value never resolves to a later one.

use vstd::prelude::*;

verus! {

/// Reference to a value held by an `Arena`.
#[derive(Clone, Copy, Debug, PartialEq, Eq, Structural, Hash)]
pub struct Handle {
    pub index: usize,
    pub generation: u64,
}

/// One slot of an arena: its current generation and what it holds.
pub struct Slot<T> {
    pub generation: u64,
    pub value: Option<T>,
}

pub struct Arena<T> {
    slots: Vec<Slot<T>>,
}

/// The handle resolves to a value.
pub open spec fn slot_live<T>(s: Seq<Slot<T>>, h: Handle) -> bool {
    &&& h.index < s.len()
    &&& s[h.index as int].generation == h.generation
    &&& s[h.index as int].value.is_some()
}

/// The value a live handle resolves to.
pub open spec fn slot_value<T>(s: Seq<Slot<T>>, h: Handle) -> T {
    s[h.index as int].value.unwrap()
}

/// The handle may have been given out by the arena: its slot exists and
/// has reached its generation.
pub open spec fn slot_issued<T>(s: Seq<Slot<T>>, h: Handle) -> bool {
    &&& h.index < s.len()
    &&& h.generation <= s[h.index as int].generation
}

/// What the arena holds after `after` differs from `before` only at `h`.
pub open spec fn same_except<T>(before: Seq<Slot<T>>, after: Seq<Slot<T>>, h: Handle) -> bool {
    forall|g: Handle|
        g != h ==> (slot_live(after, g) <==> slot_live(before, g)) && (slot_live(before, g)
            ==> slot_value(after, g) == slot_value(before, g))
}

/// Every handle that was issued in `before` is still issued in `after`.
pub open spec fn issued_kept<T>(before: Seq<Slot<T>>, after: Seq<Slot<T>>) -> bool {
    forall|g: Handle| slot_issued(before, g) ==> #[trigger] slot_issued(after, g)
}

impl<T> View for Arena<T> {
    type V = Seq<Slot<T>>;

    closed spec fn view(&self) -> Seq<Slot<T>> {
        self.slots@
    }
}

impl<T> Arena<T> {
    pub fn new() -> (r: Arena<T>)
        ensures
            r@.len() == 0,
    {
        Arena { slots: Vec::new() }
    }

    /// Stores `value` under a handle that was never given out before.
    pub fn add(&mut self, value: T) -> (h: Handle)
        ensures
            !slot_issued(old(self)@, h),
            slot_live(final(self)@, h),
            slot_value(final(self)@, h) == value,
            same_except(old(self)@, final(self)@, h),
            issued_kept(old(self)@, final(self)@),
    {
        let n = self.slots.len();
        let mut i: usize = 0;
        while i < n
            invariant
                n == self.slots@.len(),
                self.slots@ == old(self).slots@,
                0 <= i <= n,
            decreases n - i,
        {
            let vacant = self.slots[i].value.is_none();
            let generation = self.slots[i].generation;
            if vacant && generation < u64::MAX {
                let h = Handle { index: i, generation: generation + 1 };
                self.slots.set(i, Slot { generation: generation + 1, value: Some(value) });
                assert(same_except(old(self)@, self@, h));
                assert forall|g: Handle| slot_issued(old(self)@, g) implies #[trigger] slot_issued(
                    self@,
                    g,
                ) by {}
                return h;
            }
            i += 1;
        }
        let h = Handle { index: n, generation: 0 };
        self.slots.push(Slot { generation: 0, value: Some(value) });
        assert(same_except(old(self)@, self@, h));
        assert forall|g: Handle| slot_issued(old(self)@, g) implies #[trigger] slot_issued(
            self@,
            g,
        ) by {}
        h
    }

    /// Looks a handle up; `None` when it is stale or was never issued.
    pub fn get(&self, h: Handle) -> (r: Option<&T>)
        ensures
            r.is_some() == slot_live(self@, h),
            r.is_some() ==> *r.unwrap() == slot_value(self@, h),
    {
        if h.index < self.slots.len() && self.slots[h.index].generation == h.generation {
            match &self.slots[h.index].value {
                Some(v) => Some(v),
                None => None,
            }
        } else {
            None
        }
    }

    /// Replaces the value of a live handle.
    pub fn replace(&mut self, h: Handle, value: T)
        requires
            slot_live(old(self)@, h),
        ensures
            slot_live(final(self)@, h),
            slot_value(final(self)@, h) == value,
            same_except(old(self)@, final(self)@, h),
            issued_kept(old(self)@, final(self)@),
            final(self)@.len() == old(self)@.len(),
            forall|i: int|
                0 <= i < final(self)@.len() ==> #[trigger] final(self)@[i].generation
                    == old(self)@[i].generation,
    {
        let generation = self.slots[h.index].generation;
        self.slots.set(h.index, Slot { generation, value: Some(value) });
    }

    /// Removes the value of a live handle; the handle is stale from then on.
    pub fn remove(&mut self, h: Handle) -> (r: Option<T>)
        ensures
            r.is_some() == slot_live(old(self)@, h),
            r.is_some() ==> r.unwrap() == slot_value(old(self)@, h),
            !slot_live(final(self)@, h),
            same_except(old(self)@, final(self)@, h),
            issued_kept(old(self)@, final(self)@),
            final(self)@.len() == old(self)@.len(),
            forall|i: int|
                0 <= i < final(self)@.len() ==> #[trigger] final(self)@[i].generation
                    == old(self)@[i].generation,
    {
        if h.index < self.slots.len() && self.slots[h.index].generation == h.generation {
            let generation = self.slots[h.index].generation;
            let mut slot = Slot { generation, value: None };
            self.slots.set_and_swap(h.index, &mut slot);
            slot.value
        } else {
            None
        }
    }
}

} // verus!
