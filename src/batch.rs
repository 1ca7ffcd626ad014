//! The confirmation gate and the tally of a batch of renames.
//!
//! The caller performs each rename that the batch hands out and reports
//! whether it worked; a failure does not stop the renames that follow.
use vstd::prelude::*;

use crate::plan::{copy_bytes, EntryView, RenameEntry};

verus! {

/// Whether a reply line confirms the plan: it is `y` in either case, and
/// nothing else.
pub open spec fn confirms(line: Seq<u8>) -> bool {
    line == seq![121u8] || line == seq![89u8]
}

/// Whether a reply confirms the plan; no reply (end of input, a read
/// error) never does.
pub open spec fn reply_confirms(reply: Option<&[u8]>) -> bool {
    match reply {
        Some(line) => confirms(line@),
        None => false,
    }
}

/// Returns whether `line` confirms the plan.
pub fn is_affirmative(line: &[u8]) -> (r: bool)
    ensures
        r == confirms(line@),
{
    if line.len() != 1 {
        assert(line@.len() != seq![121u8].len());
        assert(line@.len() != seq![89u8].len());
        return false;
    }
    let c = line[0];
    if c == 121u8 || c == 89u8 {
        assert(line@ =~= seq![c]);
        true
    } else {
        assert(line@[0] != seq![121u8][0]);
        assert(line@[0] != seq![89u8][0]);
        false
    }
}

/// The model of a [`RenameBatch`]: the renames to make, how many have been
/// attempted, and how many of those worked.
pub ghost struct BatchView {
    pub entries: Seq<EntryView>,
    pub attempted: nat,
    pub succeeded: nat,
}

/// A confirmed plan being carried out, one rename at a time.
pub struct RenameBatch {
    entries: Vec<RenameEntry>,
    attempted: usize,
    succeeded: usize,
}

impl View for RenameBatch {
    type V = BatchView;

    closed spec fn view(&self) -> BatchView {
        BatchView {
            entries: self.entries@.map_values(|e: RenameEntry| e@),
            attempted: self.attempted as nat,
            succeeded: self.succeeded as nat,
        }
    }
}

impl RenameBatch {
    /// No more renames attempted than planned, no more successes than attempts.
    pub closed spec fn wf(&self) -> bool {
        &&& self.attempted <= self.entries.len()
        &&& self.succeeded <= self.attempted
    }

    /// Starts a batch for `plan`, gated on the user's `reply`: unless the
    /// reply confirms, the batch is empty and nothing is ever renamed.
    pub fn new(plan: Vec<RenameEntry>, reply: Option<&[u8]>) -> (r: RenameBatch)
        ensures
            r.wf(),
            r@.attempted == 0,
            r@.succeeded == 0,
            reply_confirms(reply) ==> r@.entries == plan@.map_values(
                |e: RenameEntry| e@,
            ),
            !reply_confirms(reply) ==> r@.entries.len() == 0,
    {
        let confirmed = match reply {
            Some(line) => is_affirmative(line),
            None => false,
        };
        if confirmed {
            RenameBatch { entries: plan, attempted: 0, succeeded: 0 }
        } else {
            RenameBatch { entries: Vec::new(), attempted: 0, succeeded: 0 }
        }
    }

    /// Returns the next rename to attempt, or `None` once all have been.
    pub fn next_rename(&self) -> (r: Option<RenameEntry>)
        requires
            self.wf(),
        ensures
            match r {
                Some(e) => self@.attempted < self@.entries.len() && e@ == self@.entries[self@.attempted as int],
                None => self@.attempted == self@.entries.len(),
            },
    {
        if self.attempted < self.entries.len() {
            let e = &self.entries[self.attempted];
            Some(RenameEntry { from: copy_bytes(&e.from), to: copy_bytes(&e.to) })
        } else {
            None
        }
    }

    /// Records the outcome of the rename that `next_rename` handed out.
    pub fn record(&mut self, renamed: bool)
        requires
            old(self).wf(),
            old(self)@.attempted < old(self)@.entries.len(),
        ensures
            final(self).wf(),
            final(self)@.entries == old(self)@.entries,
            final(self)@.attempted == old(self)@.attempted + 1,
            final(self)@.succeeded == old(self)@.succeeded + if renamed { 1nat } else { 0nat },
    {
        self.attempted = self.attempted + 1;
        if renamed {
            self.succeeded = self.succeeded + 1;
        }
    }

    /// The number of renames that worked so far.
    pub fn succeeded(&self) -> (r: usize)
        ensures
            r == self@.succeeded,
    {
        self.succeeded
    }

    /// The number of renames in the batch.
    pub fn len(&self) -> (r: usize)
        ensures
            r == self@.entries.len(),
    {
        self.entries.len()
    }
}

} // verus!
