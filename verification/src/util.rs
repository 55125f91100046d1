//! A bounded first-in-first-out queue of events over a fixed ring of slots.

use crate::midi::{PmError, PmEvent};
use vstd::prelude::*;

verus! {

/// The abstract value of a queue: how many events it can hold, and the
/// events it holds, oldest first.
pub struct QueueView {
    pub capacity: nat,
    pub events: Seq<PmEvent>,
}

impl QueueView {
    /// A queue of the given capacity that holds nothing. With capacity 0 it
    /// stands for a queue without backing storage.
    pub open spec fn empty(capacity: nat) -> QueueView {
        QueueView { capacity, events: Seq::empty() }
    }

    /// No queue holds more than its capacity.
    pub open spec fn wf(self) -> bool {
        self.events.len() <= self.capacity
    }

    /// The queue holds no event.
    pub open spec fn is_empty(self) -> bool {
        self.events.len() == 0
    }

    /// The queue holds as many events as it has slots.
    pub open spec fn is_full(self) -> bool {
        self.events.len() == self.capacity
    }

    /// What an enqueue reports: an event is taken while there is room.
    pub open spec fn enqueue_status(self) -> PmError {
        if self.events.len() < self.capacity {
            PmError::PmNoError
        } else {
            PmError::PmBufferOverflow
        }
    }

    /// The queue after an enqueue: the event goes to the back while there
    /// is room, and is dropped otherwise.
    pub open spec fn enqueue(self, event: PmEvent) -> QueueView {
        if self.events.len() < self.capacity {
            QueueView { capacity: self.capacity, events: self.events.push(event) }
        } else {
            self
        }
    }

    /// What a dequeue returns: the oldest event, or `PmNoError` as the
    /// error when there is none.
    pub open spec fn dequeue_result(self) -> Result<PmEvent, PmError> {
        if self.events.len() > 0 {
            Ok(self.events.first())
        } else {
            Err(PmError::PmNoError)
        }
    }

    /// The queue after a dequeue: the oldest event is gone.
    pub open spec fn dequeue(self) -> QueueView {
        if self.events.len() > 0 {
            QueueView { capacity: self.capacity, events: self.events.drop_first() }
        } else {
            self
        }
    }

    /// The oldest event, if there is one.
    pub open spec fn peek(self) -> Option<PmEvent> {
        if self.events.len() > 0 {
            Some(self.events.first())
        } else {
            None
        }
    }

    /// What a destroy reports: there must be storage to release.
    pub open spec fn destroy_status(self) -> PmError {
        if self.capacity > 0 {
            PmError::PmNoError
        } else {
            PmError::PmBadPtr
        }
    }

    /// The queue after a destroy: no storage, no events.
    pub open spec fn destroy(self) -> QueueView {
        QueueView::empty(0)
    }
}

impl QueueView {
    /// The queue after enqueuing `events` one by one, first to last.
    pub open spec fn enqueue_all(self, events: Seq<PmEvent>) -> QueueView
        decreases events.len(),
    {
        if events.len() == 0 {
            self
        } else {
            self.enqueue_all(events.drop_last()).enqueue(events.last())
        }
    }

    /// The queue after `n` dequeues in a row.
    pub open spec fn dequeue_n(self, n: nat) -> QueueView
        decreases n,
    {
        if n == 0 {
            self
        } else {
            self.dequeue_n((n - 1) as nat).dequeue()
        }
    }

    /// Events that all fit are appended in the order they were given.
    pub proof fn lemma_enqueue_all_appends(self, events: Seq<PmEvent>)
        requires
            self.events.len() + events.len() <= self.capacity,
        ensures
            self.enqueue_all(events).capacity == self.capacity,
            self.enqueue_all(events).events == self.events + events,
        decreases events.len(),
    {
        if events.len() == 0 {
            assert(self.events + events =~= self.events);
        } else {
            self.lemma_enqueue_all_appends(events.drop_last());
            assert(self.events + events =~= (self.events + events.drop_last()).push(
                events.last(),
            ));
        }
    }

    /// `n` dequeues remove the `n` oldest events and nothing else.
    pub proof fn lemma_dequeue_n_skips(self, n: nat)
        requires
            n <= self.events.len(),
        ensures
            self.dequeue_n(n).capacity == self.capacity,
            self.dequeue_n(n).events == self.events.skip(n as int),
        decreases n,
    {
        if n == 0 {
            assert(self.events.skip(0) =~= self.events);
        } else {
            self.lemma_dequeue_n_skips((n - 1) as nat);
            assert(self.events.skip(n as int) =~= self.events.skip(n - 1).drop_first());
        }
    }

    /// A queue created with a capacity of at least 1 takes exactly that
    /// many events: each of the first `capacity` enqueues succeeds, the
    /// next one reports `PmBufferOverflow`, and it leaves the queue, and so
    /// the number of events held, as it was.
    pub proof fn lemma_accepts_exactly_capacity(
        capacity: nat,
        events: Seq<PmEvent>,
        extra: PmEvent,
    )
        requires
            capacity >= 1,
            events.len() == capacity,
        ensures
            forall|k: int|
                0 <= k < capacity ==> (#[trigger] QueueView::empty(capacity).enqueue_all(
                    events.take(k),
                )).enqueue_status() == PmError::PmNoError,
            QueueView::empty(capacity).enqueue_all(events).enqueue_status()
                == PmError::PmBufferOverflow,
            QueueView::empty(capacity).enqueue_all(events).enqueue(extra) == QueueView::empty(
                capacity,
            ).enqueue_all(events),
            QueueView::empty(capacity).enqueue_all(events).enqueue(extra).events.len()
                == capacity,
    {
        let fresh = QueueView::empty(capacity);
        assert forall|k: int| 0 <= k < capacity implies (#[trigger] fresh.enqueue_all(
            events.take(k),
        )).enqueue_status() == PmError::PmNoError by {
            fresh.lemma_enqueue_all_appends(events.take(k));
        }
        fresh.lemma_enqueue_all_appends(events);
    }

    /// First in, first out: after any number of events that fit have been
    /// enqueued on a fresh queue, as many dequeues return them in the order
    /// of their arrival and leave the queue empty.
    pub proof fn lemma_dequeues_in_arrival_order(capacity: nat, events: Seq<PmEvent>)
        requires
            events.len() <= capacity,
        ensures
            forall|i: int|
                0 <= i < events.len() ==> (#[trigger] QueueView::empty(capacity).enqueue_all(
                    events,
                ).dequeue_n(i as nat)).dequeue_result() == Ok::<PmEvent, PmError>(events[i]),
            QueueView::empty(capacity).enqueue_all(events).dequeue_n(events.len()).is_empty(),
    {
        let filled = QueueView::empty(capacity).enqueue_all(events);
        QueueView::empty(capacity).lemma_enqueue_all_appends(events);
        assert(filled.events =~= events);
        assert forall|i: int| 0 <= i < events.len() implies (#[trigger] filled.dequeue_n(
            i as nat,
        )).dequeue_result() == Ok::<PmEvent, PmError>(events[i]) by {
            filled.lemma_dequeue_n_skips(i as nat);
        }
        filled.lemma_dequeue_n_skips(events.len());
    }

    /// A peek shows exactly what the next dequeue returns, and shows
    /// nothing exactly when the dequeue finds the queue empty.
    pub proof fn lemma_peek_shows_next_dequeue(self)
        ensures
            self.peek() matches Some(event) ==> self.dequeue_result() == Ok::<PmEvent, PmError>(
                event,
            ),
            self.peek() is None <==> self.dequeue_result() == Err::<PmEvent, PmError>(
                PmError::PmNoError,
            ),
    {
    }

    /// A destroyed queue cannot be destroyed again: the second attempt
    /// reports `PmBadPtr`.
    pub proof fn lemma_destroy_is_single_use(self)
        ensures
            self.destroy().destroy_status() == PmError::PmBadPtr,
            self.destroy().destroy() == self.destroy(),
    {
    }
}

/// The slot `steps` places after `start` in a ring of `len` slots: the
/// indices wrap modulo the length.
spec fn ring_slot(start: int, steps: int, len: int) -> int {
    (start + steps) % len
}

/// Going round the ring at most once takes at most one subtraction.
proof fn lemma_ring_slot_wraps_once(start: int, steps: int, len: int)
    by (nonlinear_arith)
    requires
        0 <= start < len,
        0 <= steps <= len,
    ensures
        ring_slot(start, steps, len) == if start + steps < len {
            start + steps
        } else {
            start + steps - len
        },
{
}

/// The slots reached from `start` in up to `len` steps, written without a
/// remainder.
proof fn lemma_ring_slots_from(start: int, len: int)
    requires
        0 <= start < len,
    ensures
        forall|steps: int|
            0 <= steps <= len ==> #[trigger] ring_slot(start, steps, len) == if start + steps
                < len {
                start + steps
            } else {
                start + steps - len
            },
{
    assert forall|steps: int| 0 <= steps <= len implies #[trigger] ring_slot(start, steps, len)
        == if start + steps < len {
        start + steps
    } else {
        start + steps - len
    } by {
        lemma_ring_slot_wraps_once(start, steps, len);
    }
}

/// A fixed-capacity ring of event slots. `head` is the slot of the oldest
/// event, `tail` the slot the next event goes to, `count` the number of
/// events held.
pub struct PmQueue {
    storage: Vec<PmEvent>,
    head: usize,
    tail: usize,
    count: usize,
}

impl View for PmQueue {
    type V = QueueView;

    closed spec fn view(&self) -> QueueView {
        QueueView {
            capacity: self.storage.len() as nat,
            events: Seq::new(
                self.count as nat,
                |i: int| self.storage@[ring_slot(self.head as int, i, self.storage.len() as int)],
            ),
        }
    }
}

impl PmQueue {
    /// The representation invariant: the indices stay inside the ring and
    /// `tail` is `count` slots after `head`.
    pub closed spec fn wf(&self) -> bool {
        &&& self.count <= self.storage.len()
        &&& self.storage.len() == 0 ==> self.head == 0 && self.tail == 0
        &&& self.storage.len() > 0 ==> {
            &&& self.head < self.storage.len()
            &&& self.tail == ring_slot(
                self.head as int,
                self.count as int,
                self.storage.len() as int,
            )
        }
    }

    /// A well-formed queue never holds more than its capacity.
    pub proof fn lemma_view_wf(&self)
        requires
            self.wf(),
        ensures
            self@.wf(),
    {
    }

    /// A queue without backing storage. It is empty and full at once until
    /// `create` gives it slots.
    pub fn new() -> (queue: PmQueue)
        ensures
            queue.wf(),
            queue@ == QueueView::empty(0),
    {
        let queue = PmQueue { storage: Vec::new(), head: 0, tail: 0, count: 0 };
        assert(queue@.events =~= Seq::empty());
        queue
    }

    /// Gives the queue `capacity` fresh slots, dropping what it held. A
    /// capacity of 0 is refused with `PmBadData`; where the allocator has
    /// no room for the slots the answer is `PmInsufficientMemory`. Either
    /// refusal leaves the queue as it was.
    pub fn create(&mut self, capacity: usize) -> (status: PmError)
        requires
            old(self).wf(),
        ensures
            final(self).wf(),
            capacity == 0 <==> status == PmError::PmBadData,
            capacity >= 1 ==> status == PmError::PmNoError || status
                == PmError::PmInsufficientMemory,
            status == PmError::PmNoError ==> final(self)@ == QueueView::empty(capacity as nat),
            status != PmError::PmNoError ==> final(self)@ == old(self)@,
    {
        if capacity == 0 {
            return PmError::PmBadData;
        }
        let mut storage: Vec<PmEvent> = Vec::new();
        let granted = storage.try_reserve(capacity).is_ok();
        self.install(storage, capacity, granted)
    }

    /// What `create` does once the allocator has answered: with room
    /// granted the queue gets `capacity` blank slots in `storage` and is
    /// empty; without, it stays as it was.
    fn install(
        &mut self,
        storage: Vec<PmEvent>,
        capacity: usize,
        granted: bool,
    ) -> (status: PmError)
        requires
            old(self).wf(),
            capacity >= 1,
            storage@.len() == 0,
        ensures
            final(self).wf(),
            granted ==> status == PmError::PmNoError && final(self)@ == QueueView::empty(
                capacity as nat,
            ),
            !granted ==> status == PmError::PmInsufficientMemory && final(self)@ == old(self)@,
    {
        if !granted {
            return PmError::PmInsufficientMemory;
        }
        let blank = PmEvent { status: 0, data1: 0, data2: 0, timestamp: 0 };
        let mut storage = storage;
        let mut filled: usize = 0;
        while filled < capacity
            invariant
                filled <= capacity,
                storage.len() == filled,
            decreases capacity - filled,
        {
            storage.push(blank);
            filled = filled + 1;
        }
        self.storage = storage;
        self.head = 0;
        self.tail = 0;
        self.count = 0;
        proof {
            lemma_ring_slots_from(0, capacity as int);
            assert(self@.events =~= Seq::empty());
        }
        PmError::PmNoError
    }

    /// Appends `event` behind the events already held, or drops it and
    /// reports `PmBufferOverflow` when every slot is taken.
    pub fn enqueue(&mut self, event: PmEvent) -> (status: PmError)
        requires
            old(self).wf(),
        ensures
            final(self).wf(),
            status == old(self)@.enqueue_status(),
            final(self)@ == old(self)@.enqueue(event),
    {
        let len = self.storage.len();
        if self.count == len {
            return PmError::PmBufferOverflow;
        }
        proof {
            lemma_ring_slots_from(self.head as int, len as int);
        }
        self.storage.set(self.tail, event);
        self.tail = if self.tail + 1 == len {
            0
        } else {
            self.tail + 1
        };
        self.count = self.count + 1;
        assert(self@.events =~= old(self)@.events.push(event));
        PmError::PmNoError
    }

    /// Removes and returns the oldest event. An empty queue gives
    /// `Err(PmNoError)`: there was nothing to read, which is no failure.
    pub fn dequeue(&mut self) -> (result: Result<PmEvent, PmError>)
        requires
            old(self).wf(),
        ensures
            final(self).wf(),
            result == old(self)@.dequeue_result(),
            final(self)@ == old(self)@.dequeue(),
    {
        if self.count == 0 {
            return Err(PmError::PmNoError);
        }
        let event = self.storage[self.head];
        self.head = if self.head + 1 == self.storage.len() {
            0
        } else {
            self.head + 1
        };
        self.count = self.count - 1;
        proof {
            lemma_ring_slots_from(old(self).head as int, self.storage.len() as int);
            lemma_ring_slots_from(self.head as int, self.storage.len() as int);
            assert(self@.events =~= old(self)@.events.drop_first());
        }
        Ok(event)
    }

    /// Returns a copy of the oldest event and leaves the queue untouched.
    pub fn peek(&self) -> (event: Option<PmEvent>)
        requires
            self.wf(),
        ensures
            event == self@.peek(),
    {
        if self.count == 0 {
            None
        } else {
            proof {
                lemma_ring_slots_from(self.head as int, self.storage.len() as int);
            }
            Some(self.storage[self.head])
        }
    }

    /// Whether the queue holds no event.
    pub fn is_empty(&self) -> (empty: bool)
        requires
            self.wf(),
        ensures
            empty == self@.is_empty(),
    {
        self.count == 0
    }

    /// Whether every slot is taken, so that the next enqueue is refused.
    pub fn is_full(&self) -> (full: bool)
        requires
            self.wf(),
        ensures
            full == self@.is_full(),
    {
        self.count == self.storage.len()
    }

    /// Releases the slots. A queue that has none, because it was never
    /// created or was destroyed before, reports `PmBadPtr`.
    pub fn destroy(&mut self) -> (status: PmError)
        requires
            old(self).wf(),
        ensures
            final(self).wf(),
            status == old(self)@.destroy_status(),
            final(self)@ == old(self)@.destroy(),
    {
        if self.storage.len() == 0 {
            assert(self@.events =~= Seq::empty());
            return PmError::PmBadPtr;
        }
        self.storage = Vec::new();
        self.head = 0;
        self.tail = 0;
        self.count = 0;
        assert(self@.events =~= Seq::empty());
        PmError::PmNoError
    }
}

} // verus!
