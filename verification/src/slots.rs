use vstd::prelude::*;

verus! {

/// Selects the first slot of a list.
pub struct First;

/// Selects, in the rest of a list, the slot that `I` selects there.
pub struct Next<I> {
    pub inner: I,
}

/// The list without slots.
pub struct End;

/// A list of slots, one per payload type: the first slot, which is vacant or
/// holds a `V`, and the slots that follow.
///
/// The position of a slot stands for its payload type: a value is found by
/// its type alone, and no lookup can meet a value of another type.
pub struct Slot<V, Rest> {
    pub head: Option<V>,
    pub tail: Rest,
}

/// What holds of every list of slots, whatever its slots hold.
pub trait SlotList: Sized {
    /// The number of slots that are filled.
    spec fn filled(&self) -> nat;

    /// The number of slots, filled or vacant.
    spec fn width() -> nat;

    /// No more slots are filled than there are.
    proof fn lemma_filled_bound(&self)
        ensures
            self.filled() <= Self::width(),
    ;

    /// A list in which every slot is vacant.
    fn blank() -> (list: Self)
        ensures
            list.filled() == 0,
    ;

    /// Counts the filled slots.
    fn count_filled(&self) -> (n: usize)
        requires
            Self::width() <= usize::MAX,
        ensures
            n == self.filled(),
    ;
}

impl SlotList for End {
    open spec fn filled(&self) -> nat {
        0
    }

    open spec fn width() -> nat {
        0
    }

    proof fn lemma_filled_bound(&self) {
    }

    fn blank() -> (list: Self) {
        End
    }

    fn count_filled(&self) -> (n: usize) {
        0
    }
}

impl<V, Rest: SlotList> SlotList for Slot<V, Rest> {
    open spec fn filled(&self) -> nat {
        self.tail.filled() + if self.head is Some { 1nat } else { 0nat }
    }

    open spec fn width() -> nat {
        Rest::width() + 1
    }

    proof fn lemma_filled_bound(&self) {
        self.tail.lemma_filled_bound();
    }

    fn blank() -> (list: Self) {
        Slot { head: None, tail: Rest::blank() }
    }

    fn count_filled(&self) -> (n: usize) {
        proof {
            self.tail.lemma_filled_bound();
        }
        let below: usize = self.tail.count_filled();
        if self.head.is_some() {
            below + 1
        } else {
            below
        }
    }
}

/// A list that has a slot for payloads of type `V`, at the position `I`.
pub trait Select<V, I>: SlotList {
    /// What the selected slot holds.
    spec fn slot(&self) -> Option<V>;

    /// Every slot but the selected one holds in `self` what it holds in `other`.
    spec fn same_elsewhere(&self, other: &Self) -> bool;

    /// A list that differs from another in the selected slot alone has as many
    /// filled slots as the other, but for that slot.
    proof fn lemma_filled_elsewhere(&self, other: &Self)
        requires
            self.same_elsewhere(other),
        ensures
            self.filled() - (if self.slot() is Some { 1int } else { 0int }) == other.filled() - (
            if other.slot() is Some { 1int } else { 0int }),
    ;

    /// In a list without filled slots the selected slot is vacant.
    proof fn lemma_blank_slot(&self)
        requires
            self.filled() == 0,
        ensures
            self.slot() is None,
    ;

    /// Nothing differs from itself.
    proof fn lemma_same_elsewhere_refl(&self)
        ensures
            self.same_elsewhere(self),
    ;

    /// Two changes of the selected slot amount to one.
    proof fn lemma_same_elsewhere_trans(&self, middle: &Self, other: &Self)
        requires
            self.same_elsewhere(middle),
            middle.same_elsewhere(other),
        ensures
            self.same_elsewhere(other),
    ;

    fn slot_ref(&self) -> (r: &Option<V>)
        ensures
            *r == self.slot(),
    ;

    /// Exclusive access to the selected slot: what the caller leaves in it is
    /// what the list holds there afterwards, and no other slot changes.
    fn slot_mut(&mut self) -> (r: &mut Option<V>)
        ensures
            *r == old(self).slot(),
            final(self).slot() == *final(r),
            final(self).same_elsewhere(old(self)),
    ;
}

impl<V, Rest: SlotList> Select<V, First> for Slot<V, Rest> {
    open spec fn slot(&self) -> Option<V> {
        self.head
    }

    open spec fn same_elsewhere(&self, other: &Self) -> bool {
        self.tail == other.tail
    }

    proof fn lemma_filled_elsewhere(&self, other: &Self) {
    }

    proof fn lemma_blank_slot(&self) {
    }

    proof fn lemma_same_elsewhere_refl(&self) {
    }

    proof fn lemma_same_elsewhere_trans(&self, middle: &Self, other: &Self) {
    }

    fn slot_ref(&self) -> (r: &Option<V>) {
        &self.head
    }

    fn slot_mut(&mut self) -> (r: &mut Option<V>) {
        &mut self.head
    }
}

impl<V, H, I, Rest: Select<V, I>> Select<V, Next<I>> for Slot<H, Rest> {
    open spec fn slot(&self) -> Option<V> {
        self.tail.slot()
    }

    open spec fn same_elsewhere(&self, other: &Self) -> bool {
        self.head == other.head && self.tail.same_elsewhere(&other.tail)
    }

    proof fn lemma_filled_elsewhere(&self, other: &Self) {
        self.tail.lemma_filled_elsewhere(&other.tail);
    }

    proof fn lemma_blank_slot(&self) {
        self.tail.lemma_blank_slot();
    }

    proof fn lemma_same_elsewhere_refl(&self) {
        self.tail.lemma_same_elsewhere_refl();
    }

    proof fn lemma_same_elsewhere_trans(&self, middle: &Self, other: &Self) {
        self.tail.lemma_same_elsewhere_trans(&middle.tail, &other.tail);
    }

    fn slot_ref(&self) -> (r: &Option<V>) {
        self.tail.slot_ref()
    }

    fn slot_mut(&mut self) -> (r: &mut Option<V>) {
        self.tail.slot_mut()
    }
}

} // verus!
