//! Single-slot mailbox for the file path the OS hands over when the process
//! is launched through a file association. A new open event overwrites any
//! unread value; the first read after a set consumes it.

use vstd::prelude::*;

verus! {

/// What one `take` does to a slot holding `s`: the first component is what
/// the caller receives, the second is what remains in the slot.
pub open spec fn take_model(s: Option<Seq<char>>) -> (Option<Seq<char>>, Option<
    Seq<char>,
>) {
    (s, None)
}

/// Holds at most one file path queued by an OS open event before the UI was
/// ready to receive it.
pub struct PendingFile {
    slot: Option<String>,
}

impl View for PendingFile {
    type V = Option<Seq<char>>;

    closed spec fn view(&self) -> Option<Seq<char>> {
        match self.slot {
            Some(p) => Some(p@),
            None => None,
        }
    }
}

impl PendingFile {
    /// The mailbox starts out empty.
    pub fn empty() -> (r: PendingFile)
        ensures
            r@ is None,
    {
        PendingFile { slot: None }
    }

    /// Unconditionally replaces the current value: last writer wins.
    pub fn set(&mut self, path: String)
        ensures
            final(self)@ == Some(path@),
    {
        self.slot = Some(path);
    }

    /// Reads and clears the slot in one step. Returns nothing when the slot
    /// is empty, and leaves it empty in every case.
    pub fn take(&mut self) -> (r: Option<String>)
        ensures
            final(self)@ == take_model(old(self)@).1,
            r is Some <==> take_model(old(self)@).0 is Some,
            r matches Some(p) ==> take_model(old(self)@).0 == Some(p@),
    {
        self.slot.take()
    }
}

/// A consuming `take` leaves the slot empty, so a second `take` issued before
/// any new `set` returns nothing: taking is idempotent.
pub proof fn lemma_take_idempotent(s: Option<Seq<char>>)
    ensures
        take_model(s).1 is None,
        take_model(take_model(s).1).0 is None,
{
}

} // verus!
