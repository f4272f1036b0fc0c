//! Migration diagnostics.
//!
//! Diagnostics are collected in an explicit accumulator value that is threaded
//! through the conversion, never in shared state. A recoverable entry is a
//! warning; an unrecoverable one must suppress the final write, but collection
//! continues so that every problem is reported in one pass.

use vstd::prelude::*;

verus! {

pub struct MigrationError {
    pub error: String,
    pub recoverable: bool,
}

impl MigrationError {
    pub fn new(error: String, recoverable: bool) -> (r: MigrationError)
        ensures
            r.error@ == error@,
            r.recoverable == recoverable,
    {
        MigrationError { error, recoverable }
    }
}

/// The ordered list of diagnostics of one conversion run.
pub struct MigrationErrors {
    pub entries: Vec<MigrationError>,
}

impl View for MigrationErrors {
    type V = Seq<(Seq<char>, bool)>;

    open spec fn view(&self) -> Seq<(Seq<char>, bool)> {
        self.entries@.map_values(|e: MigrationError| (e.error@, e.recoverable))
    }
}

/// Whether any collected entry is unrecoverable.
pub open spec fn has_unrecoverable(m: Seq<(Seq<char>, bool)>) -> bool {
    exists|i: int| 0 <= i < m.len() && !m[i].1
}

impl MigrationErrors {
    pub fn new() -> (r: MigrationErrors)
        ensures
            r@ == Seq::<(Seq<char>, bool)>::empty(),
    {
        let r = MigrationErrors { entries: Vec::new() };
        proof {
            assert(r@ =~= Seq::<(Seq<char>, bool)>::empty());
        }
        r
    }

    pub fn len(&self) -> (r: usize)
        ensures
            r == self@.len(),
    {
        self.entries.len()
    }

    pub fn is_empty(&self) -> (r: bool)
        ensures
            r == (self@.len() == 0),
    {
        self.entries.len() == 0
    }

    pub fn message_at(&self, i: usize) -> (r: &String)
        requires
            i < self@.len(),
        ensures
            r@ == self@[i as int].0,
    {
        &self.entries[i].error
    }

    pub fn recoverable_at(&self, i: usize) -> (r: bool)
        requires
            i < self@.len(),
        ensures
            r == self@[i as int].1,
    {
        self.entries[i].recoverable
    }

    pub fn add_recoverable_error(&mut self, error: String)
        ensures
            final(self)@ == old(self)@.push((error@, true)),
    {
        let ghost m0 = self@;
        self.entries.push(MigrationError { error, recoverable: true });
        proof {
            assert(self@ =~= m0.push((self.entries@.last().error@, true)));
        }
    }

    pub fn add_unrecoverable_error(&mut self, error: String)
        ensures
            final(self)@ == old(self)@.push((error@, false)),
    {
        let ghost m0 = self@;
        self.entries.push(MigrationError { error, recoverable: false });
        proof {
            assert(self@ =~= m0.push((self.entries@.last().error@, false)));
        }
    }

    /// Whether an unrecoverable entry was collected, which must suppress the
    /// final write.
    pub fn any_unrecoverable(&self) -> (r: bool)
        ensures
            r == has_unrecoverable(self@),
    {
        let n = self.entries.len();
        let mut i: usize = 0;
        while i < n
            invariant
                0 <= i <= n,
                n == self@.len(),
                forall|k: int| 0 <= k < i ==> self@[k].1,
            decreases n - i,
        {
            if !self.entries[i].recoverable {
                proof {
                    assert(!self@[i as int].1);
                }
                return true;
            }
            i += 1;
        }
        false
    }
}

} // verus!
