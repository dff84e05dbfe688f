//! Per-entity mailbox from a widget to the application.

use vstd::prelude::*;

verus! {

/// Holds the most recent payload a widget handler produced this frame.
/// `None` means no event; handlers overwrite on every hit (last-write-wins),
/// and the application polls and clears the value itself.
#[derive(Clone, Copy, PartialEq, Eq, Structural, Debug)]
pub struct Callback<T> {
    pub value: Option<T>,
}

impl<T> Callback<T> {
    pub fn new() -> (r: Self)
        ensures
            r.value is None,
    {
        Callback { value: None }
    }

    /// Overwrites the mailbox with a fresh payload.
    pub fn set(&mut self, value: T)
        ensures
            final(self).value == Some(value),
    {
        self.value = Some(value);
    }

    /// Takes the pending payload, leaving the mailbox empty; how the
    /// application consumes and resets a callback.
    pub fn take(&mut self) -> (r: Option<T>)
        ensures
            r == old(self).value,
            final(self).value is None,
    {
        let mut taken: Option<T> = None;
        core::mem::swap(&mut taken, &mut self.value);
        taken
    }
}

} // verus!
