use vstd::prelude::*;

verus! {

/// One slot of a pool of fixed size. A slot is either free or holds an
/// entity that is on the canvas.
pub trait Slot {
    /// Whether the slot holds an entity.
    spec fn active(&self) -> bool;
}

/// How many of the first `n` slots of `slots` hold an entity.
pub open spec fn active_before<T: Slot>(slots: Seq<T>, n: int) -> nat
    decreases n,
{
    if n <= 0 {
        0
    } else {
        active_before(slots, n - 1) + if slots[n - 1].active() {
            1nat
        } else {
            0nat
        }
    }
}

/// The first free slot of `slots` from slot `from` on, or the number of
/// slots if there is none.
pub open spec fn first_free<T: Slot>(slots: Seq<T>, from: int) -> int
    decreases slots.len() - from,
{
    if from >= slots.len() {
        slots.len() as int
    } else if !slots[from].active() {
        from
    } else {
        first_free(slots, from + 1)
    }
}

/// A pool never holds more entities than it has slots.
pub proof fn lemma_active_bound<T: Slot>(slots: Seq<T>, n: int)
    requires
        0 <= n <= slots.len(),
    ensures
        active_before(slots, n) <= n,
    decreases n,
{
    if n > 0 {
        lemma_active_bound(slots, n - 1);
    }
}

/// `first_free` finds a free slot if there is one from `from` on, and the
/// first of them.
pub proof fn lemma_first_free<T: Slot>(slots: Seq<T>, from: int)
    requires
        0 <= from <= slots.len(),
    ensures
        from <= first_free(slots, from) <= slots.len(),
        first_free(slots, from) < slots.len() ==> !slots[first_free(slots, from)].active(),
        forall|i: int| from <= i < first_free(slots, from) ==> (#[trigger] slots[i]).active(),
    decreases slots.len() - from,
{
    if from < slots.len() && slots[from].active() {
        lemma_first_free(slots, from + 1);
    }
}

} // verus!
