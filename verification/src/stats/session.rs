//! A named history of solves sharing one puzzle family.

use vstd::prelude::*;

use crate::stats::stat::{Stat, StatV};

verus! {

/// The mathematical content of a [`Session`].
pub ghost struct SessionV {
    pub scramble_type: Seq<char>,
    pub stats: Seq<StatV>,
}

impl SessionV {
    /// Every recorded time is well-formed.
    pub open spec fn wf(self) -> bool {
        forall|i: int| 0 <= i < self.stats.len() ==> (#[trigger] self.stats[i]).wf()
    }
}

/// Session struct to store its stats and scramble type.
///
/// The stat list is kept in insertion order, which is chronological order.
#[derive(Debug, Clone)]
pub struct Session {
    pub scramble_type: String,
    pub stats: Vec<Stat>,
}

impl View for Session {
    type V = SessionV;

    open spec fn view(&self) -> SessionV {
        SessionV {
            scramble_type: self.scramble_type@,
            stats: Seq::new(self.stats@.len(), |i: int| self.stats@[i]@),
        }
    }
}

impl Session {
    /// Constructs a new, empty [`Session`] for the given scramble type.
    pub fn new(scramble_type: &str) -> (r: Session)
        ensures
            r@.scramble_type == scramble_type@,
            r@.stats =~= Seq::<StatV>::empty(),
    {
        Session { scramble_type: scramble_type.to_owned(), stats: Vec::new() }
    }

    /// Appends a [`Stat`] at the tail of the session's history.
    pub fn add(&mut self, stat: Stat)
        ensures
            final(self)@.scramble_type == old(self)@.scramble_type,
            final(self)@.stats =~= old(self)@.stats.push(stat@),
    {
        self.stats.push(stat);
    }

    /// Removes the indexed [`Stat`]; out-of-range indices are a no-op.
    pub fn remove(&mut self, index: usize)
        ensures
            index < old(self)@.stats.len() ==> final(self)@.stats =~= old(self)@.stats.remove(
                index as int,
            ),
            index >= old(self)@.stats.len() ==> final(self)@.stats =~= old(self)@.stats,
            final(self)@.scramble_type == old(self)@.scramble_type,
    {
        if index < self.stats.len() {
            self.stats.remove(index);
        }
    }
}

} // verus!
