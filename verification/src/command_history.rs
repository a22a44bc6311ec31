//! The log of the commands that were accepted.

use crate::parsers::texts;
use vstd::prelude::*;

verus! {

/// The accepted commands in their canonical form, oldest first. Entries
/// are only ever added at the end.
pub struct CommandHistory {
    entries: Vec<String>,
}

impl View for CommandHistory {
    type V = Seq<Seq<char>>;

    closed spec fn view(&self) -> Seq<Seq<char>> {
        texts(self.entries@)
    }
}

impl CommandHistory {
    /// The empty log.
    pub fn new() -> (r: Self)
        ensures
            r@ == Seq::<Seq<char>>::empty(),
    {
        let r = CommandHistory { entries: Vec::new() };
        r
    }

    /// Adds an entry at the end; the earlier ones stay as they are.
    pub fn push(&mut self, serialized: String)
        ensures
            final(self)@ == old(self)@.push(serialized@),
    {
        self.entries.push(serialized);
    }

    /// The entries, oldest first.
    pub fn list(&self) -> (r: &[String])
        ensures
            texts(r@) == self@,
    {
        self.entries.as_slice()
    }
}

} // verus!
