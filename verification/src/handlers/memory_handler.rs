use vstd::prelude::*;
use std::collections::VecDeque;

verus! {

/// Failures of the in-memory sink.
#[derive(Debug)]
pub enum MemoryHandlerError {
    LockError(String),
}

/// What appending to a full ring leaves behind: a ring at capacity evicts
/// its oldest line before the new one is appended.
pub open spec fn ring_push(logs: Seq<Seq<char>>, capacity: nat, line: Seq<char>) -> Seq<
    Seq<char>,
> {
    if logs.len() == capacity && logs.len() > 0 {
        logs.drop_first().push(line)
    } else {
        logs.push(line)
    }
}

/// A bounded in-memory ring of formatted lines: on overflow the oldest entry
/// is evicted before the new one is appended.
pub struct MemoryHandler {
    buffer: VecDeque<String>,
    capacity: usize,
}

impl MemoryHandler {
    /// The retained lines, oldest first.
    pub closed spec fn logs(self) -> Seq<Seq<char>> {
        Seq::new(self.buffer@.len(), |i: int| self.buffer@[i]@)
    }

    /// The configured ring capacity.
    pub closed spec fn capacity_spec(self) -> nat {
        self.capacity as nat
    }

    /// Builds an empty ring of the given capacity.
    pub fn new(capacity: usize) -> (r: MemoryHandler)
        ensures
            r.logs() == Seq::<Seq<char>>::empty(),
            r.capacity_spec() == capacity,
    {
        let r = MemoryHandler { buffer: VecDeque::with_capacity(capacity), capacity };
        proof {
            assert(r.logs() =~= Seq::<Seq<char>>::empty());
        }
        r
    }

    /// Appends a line; a full ring first evicts its oldest line. Never fails.
    pub fn emit(&mut self, formatted: &str) -> (r: Result<(), MemoryHandlerError>)
        ensures
            r is Ok,
            final(self).capacity_spec() == old(self).capacity_spec(),
            final(self).logs() == ring_push(
                old(self).logs(),
                old(self).capacity_spec(),
                formatted@,
            ),
    {
        if self.buffer.len() == self.capacity {
            let _ = self.buffer.pop_front();
        }
        self.buffer.push_back(formatted.to_owned());
        proof {
            let olds = old(self).logs();
            if olds.len() == old(self).capacity_spec() && olds.len() > 0 {
                assert(self.logs() =~= olds.drop_first().push(formatted@));
            } else {
                assert(self.logs() =~= olds.push(formatted@));
            }
        }
        Ok(())
    }

    /// A read-only snapshot of the retained lines, oldest first.
    pub fn get_logs(&self) -> (r: Vec<String>)
        ensures
            r@.len() == self.logs().len(),
            forall|i: int| 0 <= i < r@.len() ==> r@[i]@ == self.logs()[i],
    {
        let mut out: Vec<String> = Vec::new();
        let mut i: usize = 0;
        while i < self.buffer.len()
            invariant
                i <= self.buffer@.len(),
                out@.len() == i,
                forall|t: int| 0 <= t < i ==> out@[t]@ == self.logs()[t],
            decreases self.buffer@.len() - i,
        {
            out.push(self.buffer[i].clone());
            i = i + 1;
        }
        out
    }
}

} // verus!
