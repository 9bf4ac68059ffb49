//! The completion queue.
use std::collections::VecDeque;

use vstd::prelude::*;

use crate::queue::CompletionQueueEntry;

verus! {

/// Completions in the order in which their work requests ended, up to a fixed
/// number of them.
pub struct CompletionQueue {
    entries: VecDeque<CompletionQueueEntry>,
    capacity: usize,
}

impl View for CompletionQueue {
    type V = Seq<CompletionQueueEntry>;

    closed spec fn view(&self) -> Seq<CompletionQueueEntry> {
        self.entries@
    }
}

impl CompletionQueue {
    /// How many completions the queue holds at most.
    pub closed spec fn spec_capacity(self) -> nat {
        self.capacity as nat
    }

    /// The queue holds no more than its capacity.
    pub open spec fn wf(self) -> bool {
        self@.len() <= self.spec_capacity()
    }

    /// An empty queue for `capacity` completions.
    pub fn new(capacity: usize) -> (r: CompletionQueue)
        ensures
            r.wf(),
            r@ == Seq::<CompletionQueueEntry>::empty(),
            r.spec_capacity() == capacity,
    {
        CompletionQueue { entries: VecDeque::new(), capacity }
    }

    /// Appends `cqe`, unless the queue is full; says whether it did.
    pub fn push(&mut self, cqe: CompletionQueueEntry) -> (r: bool)
        requires
            old(self).wf(),
        ensures
            final(self).wf(),
            final(self).spec_capacity() == old(self).spec_capacity(),
            r == (old(self)@.len() < old(self).spec_capacity()),
            final(self)@ == if r {
                old(self)@.push(cqe)
            } else {
                old(self)@
            },
    {
        if self.entries.len() >= self.capacity {
            return false;
        }
        self.entries.push_back(cqe);
        true
    }

    /// Takes the oldest completions out, at most `max` of them.
    pub fn poll_cq(&mut self, max: usize) -> (r: Vec<CompletionQueueEntry>)
        requires
            old(self).wf(),
        ensures
            final(self).wf(),
            final(self).spec_capacity() == old(self).spec_capacity(),
            r@.len() == if max <= old(self)@.len() {
                max as nat
            } else {
                old(self)@.len()
            },
            r@ + final(self)@ == old(self)@,
    {
        let n = if max < self.entries.len() {
            max
        } else {
            self.entries.len()
        };
        let mut taken: Vec<CompletionQueueEntry> = Vec::new();
        while taken.len() < n
            invariant
                taken.len() <= n <= old(self)@.len(),
                taken@ + self@ == old(self)@,
                self.capacity == old(self).capacity,
            decreases n - taken.len(),
        {
            let ghost before = self@;
            proof {
                assert(before.len() == old(self)@.len() - taken@.len());
            }
            match self.entries.pop_front() {
                Some(cqe) => {
                    proof {
                        assert(taken@ + before =~= taken@.push(cqe) + self@);
                    }
                    taken.push(cqe);
                },
                None => {
                    return taken;
                },
            }
        }
        taken
    }

    /// How many completions wait in the queue.
    pub fn len(&self) -> (r: usize)
        ensures
            r == self@.len(),
    {
        self.entries.len()
    }

    /// Whether no completion waits.
    pub fn is_empty(&self) -> (r: bool)
        ensures
            r == (self@.len() == 0),
    {
        self.entries.len() == 0
    }

    /// Whether there is no room for another completion.
    pub fn is_full(&self) -> (r: bool)
        ensures
            r == (self@.len() >= self.spec_capacity()),
    {
        self.entries.len() >= self.capacity
    }
}

/// A new queue is empty and has as many places as asked for.
pub proof fn law_new_queue(capacity: usize, r: CompletionQueue)
    requires
        call_ensures(CompletionQueue::new, (capacity,), r),
    ensures
        r@.len() == 0,
        r.spec_capacity() == capacity,
{
}

/// `push` adds the completion behind the others exactly where there is room, and
/// says whether it did; the queue keeps its places.
pub proof fn law_push(q: &mut CompletionQueue, cqe: CompletionQueueEntry, r: bool)
    requires
        call_ensures(CompletionQueue::push, (q, cqe), r),
    ensures
        r <==> old(q)@.len() < old(q).spec_capacity(),
        r ==> final(q)@ == old(q)@ + seq![cqe],
        !r ==> final(q)@ == old(q)@,
        final(q).spec_capacity() == old(q).spec_capacity(),
{
    assert(old(q)@.push(cqe) =~= old(q)@ + seq![cqe]);
}

/// `poll_cq` takes as many completions as asked for, or all, from the front; the
/// others stay in their order.
pub proof fn law_poll(q: &mut CompletionQueue, max: usize, r: Vec<CompletionQueueEntry>)
    requires
        call_ensures(CompletionQueue::poll_cq, (q, max), r),
    ensures
        r@ + final(q)@ == old(q)@,
        r@.len() <= max,
        r@.len() == max || final(q)@.len() == 0,
        final(q).spec_capacity() == old(q).spec_capacity(),
{
}

/// `len`, `is_empty` and `is_full` tell how many completions wait.
pub proof fn law_counts(q: &CompletionQueue, len: usize, empty: bool, full: bool)
    requires
        call_ensures(CompletionQueue::len, (q,), len),
        call_ensures(CompletionQueue::is_empty, (q,), empty),
        call_ensures(CompletionQueue::is_full, (q,), full),
    ensures
        len == q@.len(),
        empty <==> q@.len() == 0,
        full <==> q@.len() >= q.spec_capacity(),
{
}

} // verus!
