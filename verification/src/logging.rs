//! The in-memory ring of recent log lines shown by the settings UI's log
//! viewer. It keeps the newest lines up to a fixed capacity and forgets the
//! oldest ones first.

use std::collections::VecDeque;

use vstd::prelude::*;

verus! {

/// Smallest capacity a ring is ever given.
pub const MIN_RING_CAPACITY: usize = 16;

/// One captured log line for the in-app viewer.
#[derive(Debug, Clone)]
pub struct LogLine {
    pub level: String,
    pub target: String,
    pub message: String,
}

impl LogLine {
    /// Field-by-field copy whose result is known to equal the original.
    pub fn copy(&self) -> (r: LogLine)
        ensures
            r == *self,
    {
        LogLine {
            level: self.level.clone(),
            target: self.target.clone(),
            message: self.message.clone(),
        }
    }
}

/// Fixed-capacity ring buffer of log lines.
#[derive(Debug)]
pub struct LogRing {
    lines: VecDeque<LogLine>,
    capacity: usize,
}

/// The last `cap` elements of `s` (all of them when there are fewer).
pub open spec fn last_n(s: Seq<LogLine>, cap: nat) -> Seq<LogLine> {
    if s.len() <= cap {
        s
    } else {
        s.subrange(s.len() - cap, s.len() as int)
    }
}

impl LogRing {
    #[verifier::type_invariant]
    closed spec fn within_capacity(self) -> bool {
        &&& self.capacity >= MIN_RING_CAPACITY
        &&& self.lines@.len() <= self.capacity
    }

    /// The lines held, oldest first.
    pub closed spec fn lines(self) -> Seq<LogLine> {
        self.lines@
    }

    /// The number of lines the ring holds at most.
    pub closed spec fn cap(self) -> nat {
        self.capacity as nat
    }

    /// An empty ring holding at most `capacity` lines, but no fewer than
    /// the minimum.
    pub fn new(capacity: usize) -> (r: Self)
        ensures
            r.lines() == Seq::<LogLine>::empty(),
            r.cap() >= MIN_RING_CAPACITY,
            r.cap() == if capacity < MIN_RING_CAPACITY {
                MIN_RING_CAPACITY as nat
            } else {
                capacity as nat
            },
    {
        let cap = if capacity < MIN_RING_CAPACITY {
            MIN_RING_CAPACITY
        } else {
            capacity
        };
        LogRing { lines: VecDeque::new(), capacity: cap }
    }

    /// Append a line, dropping the oldest one when the ring is full.
    pub fn push(&mut self, line: LogLine)
        ensures
            final(self).cap() == old(self).cap(),
            final(self).lines().len() <= final(self).cap(),
            final(self).lines() == (if old(self).lines().len() >= old(self).cap() {
                old(self).lines().drop_first().push(line)
            } else {
                old(self).lines().push(line)
            }),
    {
        proof {
            use_type_invariant(&*self);
        }
        let mut lines: VecDeque<LogLine> = VecDeque::new();
        std::mem::swap(&mut lines, &mut self.lines);
        if lines.len() >= self.capacity {
            lines.pop_front();
        }
        lines.push_back(line);
        std::mem::swap(&mut lines, &mut self.lines);
    }

    /// A copy of the lines held, oldest first.
    pub fn snapshot(&self) -> (r: Vec<LogLine>)
        ensures
            r@ == self.lines(),
            r@.len() <= self.cap(),
    {
        proof {
            use_type_invariant(self);
        }
        let mut out: Vec<LogLine> = Vec::new();
        let n = self.lines.len();
        let mut i: usize = 0;
        while i < n
            invariant
                n == self.lines@.len(),
                i <= n,
                out@ == self.lines@.take(i as int),
            decreases n - i,
        {
            out.push(self.lines[i].copy());
            i += 1;
            assert(out@ =~= self.lines@.take(i as int));
        }
        assert(self.lines@.take(n as int) =~= self.lines@);
        out
    }

    /// Forget every line.
    pub fn clear(&mut self)
        ensures
            final(self).cap() == old(self).cap(),
            final(self).lines() == Seq::<LogLine>::empty(),
    {
        proof {
            use_type_invariant(&*self);
        }
        let mut lines: VecDeque<LogLine> = VecDeque::new();
        std::mem::swap(&mut lines, &mut self.lines);
    }
}

/// A ring that holds the last lines of a history still holds the last lines
/// of that history after one more push: the ring always shows the newest
/// `cap` lines written to it since it was created or cleared.
pub proof fn law_ring_keeps_newest(
    before: LogRing,
    after: LogRing,
    history: Seq<LogLine>,
    line: LogLine,
)
    requires
        before.cap() >= MIN_RING_CAPACITY,
        before.lines().len() <= before.cap(),
        before.lines() == last_n(history, before.cap()),
        after.cap() == before.cap(),
        after.lines() == (if before.lines().len() >= before.cap() {
            before.lines().drop_first().push(line)
        } else {
            before.lines().push(line)
        }),
    ensures
        after.lines() == last_n(history.push(line), after.cap()),
        after.lines().len() <= after.cap(),
{
    let cap = before.cap();
    let h2 = history.push(line);
    if history.len() < cap {
        assert(after.lines() =~= h2);
    } else {
        assert(before.lines() =~= history.subrange(history.len() - cap, history.len() as int))
            by {
            if history.len() == cap {
                assert(history.subrange(0, history.len() as int) =~= history);
            }
        }
        assert(after.lines() =~= h2.subrange(h2.len() - cap, h2.len() as int));
    }
}

} // verus!
