//! A single slot that keeps only the latest value published into it.
use vstd::prelude::*;

verus! {

/// The slot after `v` was published into it: whatever it held is gone.
pub open spec fn published<T>(slot: Option<T>, v: T) -> Option<T> {
    Some(v)
}

/// The slot after each value of `vs` was published in turn.
pub open spec fn published_all<T>(slot: Option<T>, vs: Seq<T>) -> Option<T>
    decreases vs.len(),
{
    if vs.len() == 0 {
        slot
    } else {
        published(published_all(slot, vs.drop_last()), vs.last())
    }
}

/// Holds at most one value; a publish overwrites, a take empties.
pub struct Mailbox<T> {
    slot: Option<T>,
}

impl<T> View for Mailbox<T> {
    type V = Option<T>;

    closed spec fn view(&self) -> Option<T> {
        self.slot
    }
}

impl<T> Mailbox<T> {
    pub fn new() -> (r: Self)
        ensures
            r@ is None,
    {
        Mailbox { slot: None }
    }

    /// Stores `value`, dropping any value not taken yet.
    pub fn publish(&mut self, value: T)
        ensures
            final(self)@ == published(old(self)@, value),
    {
        self.slot = Some(value);
    }

    /// Removes and returns the value, if there is one.
    pub fn take(&mut self) -> (r: Option<T>)
        ensures
            r == old(self)@,
            final(self)@ is None,
    {
        self.slot.take()
    }

    pub fn is_empty(&self) -> (r: bool)
        ensures
            r == (self@ is None),
    {
        self.slot.is_none()
    }
}

/// After a run of publishes with no take between them the slot holds the last
/// value alone: a take returns it, and none of the earlier ones is ever seen.
pub proof fn lemma_latest_value_wins<T>(slot: Option<T>, vs: Seq<T>)
    requires
        vs.len() > 0,
    ensures
        published_all(slot, vs) == Some(vs.last()),
{
}

} // verus!
