//! The work queue: the slots whose requests wait for the worker, in the order of their arrival.
use vstd::prelude::*;

verus! {

/// The number of validation slots, and so of validations at a time.
pub const MAX_VALIDATION_SLOTS: usize = 100;

/// The number of places in the ring: one more than there are slots. That place stays free, so that
/// a full queue can be told from an empty one.
const RING_PLACES: usize = 101;

/// How many slot indices the queue holds at most: one for each slot.
pub open spec fn queue_capacity() -> nat {
    MAX_VALIDATION_SLOTS as nat
}

/// The queue after `slot_idx` has arrived; an arrival at a full queue is dropped.
pub open spec fn enqueued(queue: Seq<usize>, slot_idx: usize) -> Seq<usize> {
    if queue.len() < queue_capacity() {
        queue.push(slot_idx)
    } else {
        queue
    }
}

/// A ring of slot indices. It consists of plain values only, so that it can lie in shared memory;
/// who shares it guards it with a lock.
pub struct WorkQueue {
    pending: [usize; RING_PLACES],
    head: usize,
    tail: usize,
}

/// The place `offset` steps after `start` in the ring.
spec fn ring_place(start: usize, offset: int) -> int {
    if start + offset < RING_PLACES {
        start + offset
    } else {
        start + offset - RING_PLACES
    }
}

/// The place after `place` in the ring.
fn next_place(place: usize) -> (next: usize)
    requires
        place < RING_PLACES,
    ensures
        next < RING_PLACES,
        next == ring_place(place, 1),
{
    (place + 1) % RING_PLACES
}

impl View for WorkQueue {
    type V = Seq<usize>;

    closed spec fn view(&self) -> Seq<usize> {
        Seq::new(self.count(), |k: int| self.pending@[ring_place(self.head, k)])
    }
}

impl WorkQueue {
    /// Head and tail are places of the ring.
    pub closed spec fn wf(&self) -> bool {
        self.head < RING_PLACES && self.tail < RING_PLACES
    }

    /// How many indices are queued.
    spec fn count(&self) -> nat {
        if self.head <= self.tail {
            (self.tail - self.head) as nat
        } else {
            (self.tail + RING_PLACES - self.head) as nat
        }
    }

    /// An empty queue.
    pub fn new() -> (queue: WorkQueue)
        ensures
            queue.wf(),
            queue@ == Seq::<usize>::empty(),
    {
        WorkQueue { pending: [0usize; RING_PLACES], head: 0, tail: 0 }
    }

    /// Empties the queue, whatever it held before.
    pub fn init(&mut self)
        ensures
            final(self).wf(),
            final(self)@ == Seq::<usize>::empty(),
    {
        self.head = 0;
        self.tail = 0;
    }

    /// A well-formed queue never holds more than its capacity.
    pub proof fn lemma_within_capacity(&self)
        requires
            self.wf(),
        ensures
            self@.len() <= queue_capacity(),
    {
    }

    /// Puts a slot index at the end of the queue; a full queue stays as it is.
    pub fn enqueue(&mut self, slot_idx: usize)
        requires
            old(self).wf(),
        ensures
            final(self).wf(),
            final(self)@ == enqueued(old(self)@, slot_idx),
    {
        let next_tail: usize = next_place(self.tail);
        if next_tail != self.head {
            self.pending[self.tail] = slot_idx;
            self.tail = next_tail;
            assert(self@ == old(self)@.push(slot_idx));
        }
    }

    /// Whether a slot index is queued.
    pub fn contains(&self, slot_idx: usize) -> (found: bool)
        requires
            self.wf(),
        ensures
            found == self@.contains(slot_idx),
    {
        let mut place: usize = self.head;
        let ghost mut passed: int = 0;
        while place != self.tail
            invariant
                self.wf(),
                0 <= passed <= self@.len(),
                place == ring_place(self.head, passed),
                forall|k: int| 0 <= k < passed ==> self@[k] != slot_idx,
            decreases self@.len() - passed,
        {
            assert(self@[passed] == self.pending@[place as int]);
            if self.pending[place] == slot_idx {
                return true;
            }
            place = next_place(place);
            proof {
                passed = passed + 1;
            }
        }
        assert(passed == self@.len());
        false
    }

    /// Takes the slot index at the front of the queue, if there is one.
    pub fn dequeue(&mut self) -> (slot_idx: Option<usize>)
        requires
            old(self).wf(),
        ensures
            final(self).wf(),
            slot_idx is None <==> old(self)@.len() == 0,
            slot_idx is None ==> final(self)@ == old(self)@,
            slot_idx matches Some(slot_idx) ==> {
                &&& slot_idx == old(self)@.first()
                &&& final(self)@ == old(self)@.drop_first()
            },
    {
        if self.head == self.tail {
            None
        } else {
            let slot_idx: usize = self.pending[self.head];
            self.head = next_place(self.head);
            assert(self@ == old(self)@.drop_first());
            Some(slot_idx)
        }
    }
}

/// A sequence of indices below `bound`, none of them twice, is no longer than `bound`.
proof fn lemma_distinct_indices(indices: Seq<usize>, bound: nat)
    requires
        indices.no_duplicates(),
        forall|k: int| 0 <= k < indices.len() ==> indices[k] < bound,
    ensures
        indices.len() <= bound,
    decreases bound,
{
    if bound == 0 {
        if indices.len() > 0 {
            assert(indices[0] < bound);
        }
    } else {
        let top = (bound - 1) as nat;
        if exists|k: int| 0 <= k < indices.len() && indices[k] == top {
            let k = choose|k: int| 0 <= k < indices.len() && indices[k] == top;
            lemma_distinct_indices(indices.remove(k), top);
        } else {
            lemma_distinct_indices(indices, top);
        }
    }
}

/// The queue is never too full for the slots: as long as no slot is queued twice, there is room for
/// one that is not queued yet.
pub proof fn law_no_slot_is_dropped(queue: Seq<usize>, slot_idx: usize)
    requires
        queue.no_duplicates(),
        forall|k: int| 0 <= k < queue.len() ==> queue[k] < MAX_VALIDATION_SLOTS,
        slot_idx < MAX_VALIDATION_SLOTS,
        !queue.contains(slot_idx),
    ensures
        queue.len() < queue_capacity(),
        enqueued(queue, slot_idx) == queue.push(slot_idx),
        enqueued(queue, slot_idx).no_duplicates(),
{
    lemma_distinct_indices(queue.push(slot_idx), MAX_VALIDATION_SLOTS as nat);
}

} // verus!
