//! Single-slot, latest-wins broadcast.
//!
//! A writer overwrites the one slot unconditionally and never blocks; a
//! reader never blocks and sees the most recently published value, or
//! nothing if no value was ever published.  There is no queueing and no
//! delivery guarantee for individual values: a reader that has not
//! polled since the last write simply sees the newest value.

use vstd::prelude::*;

verus! {

/// The single slot.  `publish` overwrites it; `latest` reads it without
/// taking anything out.
pub struct Latest<T> {
    slot: Option<T>,
}

impl<T> Latest<T> {
    /// The slot's current content: the most recently published value, or
    /// `None` if nothing was ever published.
    pub closed spec fn current(&self) -> Option<T> {
        self.slot
    }

    /// A fresh slot holds nothing.
    pub fn empty() -> (r: Self)
        ensures
            r.current() == Option::<T>::None,
    {
        Latest { slot: None }
    }

    /// Overwrite the slot with `value`, whatever it held before.
    pub fn publish(&mut self, value: T)
        ensures
            final(self).current() == Some(value),
    {
        self.slot = Some(value);
    }

    /// The most recently published value, or `None` if nothing was ever
    /// published.  Read-only: the slot keeps its content.
    pub fn latest(&self) -> (r: Option<&T>)
        ensures
            match r {
                Some(v) => self.current() == Some(*v),
                None => self.current() is None,
            },
    {
        self.slot.as_ref()
    }
}

/// The slot content after publishing every value of `values` in order
/// into a slot that held `initial`.
pub open spec fn after_publishing<T>(initial: Option<T>, values: Seq<T>) -> Option<T>
    decreases values.len(),
{
    if values.len() == 0 {
        initial
    } else {
        after_publishing(Some(values[0]), values.drop_first())
    }
}

/// Latest-wins: after any non-empty sequence of publishes with no
/// intervening reads, the slot holds exactly the last published value,
/// regardless of what it held before.
pub proof fn lemma_latest_wins<T>(initial: Option<T>, values: Seq<T>)
    requires
        values.len() > 0,
    ensures
        after_publishing(initial, values) == Some(values.last()),
    decreases values.len(),
{
    if values.len() == 1 {
        assert(values.drop_first().len() == 0);
    } else {
        lemma_latest_wins(Some(values[0]), values.drop_first());
        assert(values.drop_first().last() == values.last());
    }
}

} // verus!
