//! The queue of each thread, and the reader that goes round them.
use super::slot::{captured, strings_are_captured_in_full, Slot, SlotFormatterFn};
use crate::text::bytes_view;
use vstd::prelude::*;

verus! {

/// How many threads have a queue.
pub const MAX_THREADS: usize = 128;

/// How many slots a queue has.
pub const QUEUE_SIZE: usize = 1024;

/// How many events of a queue are taken before the reader goes on to the next.
pub const BATCH: usize = 64;

/// The queue of one thread. The thread writes at `write_head`; the reader keeps the position at
/// which it reads. A slot is handed over by its flag in `ready`.
#[derive(Debug)]
pub struct ThreadQueue {
    pub ready: Vec<u8>,
    pub slots: Vec<Slot>,
    pub write_head: usize,
}

/// Whether `slot` holds this event.
pub open spec fn holds_event(
    slot: Slot,
    timestamp: u64,
    formatter: SlotFormatterFn,
    args: [u64; 6],
    str1: Option<Seq<u8>>,
    str2: Option<Seq<u8>>,
) -> bool {
    &&& slot.wf()
    &&& slot.timestamp == timestamp
    &&& slot.formatter == Some(formatter)
    &&& slot.args == args
    &&& slot.str1() == captured(str1)
    &&& slot.str2() == captured(str2)
}

/// Where the position `head` lies in a queue.
pub open spec fn slot_index(head: int) -> int {
    head % QUEUE_SIZE as int
}

/// What capturing an event does to a queue: nothing where the slot at which the thread writes has
/// not been handed back; otherwise that slot is filled and handed over.
pub open spec fn capture_step(before: ThreadQueue, after: ThreadQueue) -> bool {
    let i = slot_index(before.write_head as int);
    if before.ready@[i] != 0 {
        after == before
    } else {
        &&& after.write_head == before.write_head + 1
        &&& after.ready@ == before.ready@.update(i, 1)
        &&& after.slots@ == before.slots@.update(i, after.slots@[i])
    }
}

/// What handing the slot at position `head` back does to a queue.
pub open spec fn release_step(before: ThreadQueue, after: ThreadQueue, head: nat) -> bool {
    &&& after.ready@ == before.ready@.update(slot_index(head as int), 0)
    &&& after.slots == before.slots
    &&& after.write_head == before.write_head
}

impl ThreadQueue {
    /// Whether every slot has its flag and holds its strings.
    pub open spec fn shaped(self) -> bool {
        &&& self.ready@.len() == QUEUE_SIZE
        &&& self.slots@.len() == QUEUE_SIZE
        &&& forall|i: int| 0 <= i < QUEUE_SIZE ==> (#[trigger] self.slots@[i]).wf()
    }

    /// Whether the slots that are handed over and not yet handed back are those from `head` on,
    /// up to where the thread writes.
    pub open spec fn wf(self, head: nat) -> bool {
        &&& self.shaped()
        &&& head <= self.write_head <= head + QUEUE_SIZE
        &&& forall|p: int|
            head <= p < head + QUEUE_SIZE ==> (#[trigger] self.ready@[slot_index(p)] != 0 <==> p
                < self.write_head)
    }

    /// The events that are waiting, the oldest first.
    pub open spec fn pending(self, head: nat) -> Seq<Slot> {
        Seq::new((self.write_head - head) as nat, |k: int| self.slots@[slot_index(head + k)])
    }

    /// An empty queue.
    pub fn new() -> (r: ThreadQueue)
        ensures
            r.wf(0),
            r.pending(0) == Seq::<Slot>::empty(),
            r.write_head == 0,
    {
        let mut ready: Vec<u8> = Vec::new();
        let mut slots: Vec<Slot> = Vec::new();
        let mut i: usize = 0;
        while i < QUEUE_SIZE
            invariant
                i <= QUEUE_SIZE,
                ready@.len() == i,
                slots@.len() == i,
                forall|j: int| 0 <= j < i ==> ready@[j] == 0,
                forall|j: int| 0 <= j < i ==> (#[trigger] slots@[j]).wf(),
            decreases QUEUE_SIZE - i,
        {
            ready.push(0);
            slots.push(Slot::new());
            i += 1;
        }
        let r = ThreadQueue { ready, slots, write_head: 0 };
        assert(r.pending(0) =~= Seq::<Slot>::empty());
        r
    }

    /// Captures an event. Where the reader has not handed the slot back the queue is full, and
    /// the event is dropped.
    pub fn push_binary_event(
        &mut self,
        timestamp: u64,
        formatter: SlotFormatterFn,
        args: [u64; 6],
        str1: Option<&[u8]>,
        str2: Option<&[u8]>,
    )
        requires
            old(self).shaped(),
            old(self).write_head < usize::MAX,
        ensures
            final(self).shaped(),
            capture_step(*old(self), *final(self)),
            old(self).ready@[slot_index(old(self).write_head as int)] == 0 ==> holds_event(
                final(self).slots@[slot_index(old(self).write_head as int)],
                timestamp,
                formatter,
                args,
                bytes_view(str1),
                bytes_view(str2),
            ),
    {
        let i: usize = self.write_head % QUEUE_SIZE;
        if self.ready[i] != 0 {
            return;
        }
        let mut slot: Slot = self.slots[i];
        slot.fill(timestamp, formatter, args, str1, str2);
        self.slots.set(i, slot);
        self.write_head = self.write_head + 1;
        self.ready.set(i, 1);
        assert(self.slots@ =~= old(self).slots@.update(i as int, slot));
    }

    /// The event at position `head`, where it has been handed over.
    pub fn next_event(&self, head: usize) -> (r: Option<&Slot>)
        requires
            self.shaped(),
        ensures
            r is Some <==> self.ready@[slot_index(head as int)] != 0,
            r matches Some(slot) ==> *slot == self.slots@[slot_index(head as int)] && slot.wf(),
    {
        let i: usize = head % QUEUE_SIZE;
        if self.ready[i] == 0 {
            None
        } else {
            Some(&self.slots[i])
        }
    }

    /// Hands the slot at position `head` back.
    pub fn release(&mut self, head: usize)
        requires
            old(self).shaped(),
        ensures
            final(self).shaped(),
            release_step(*old(self), *final(self), head as nat),
    {
        let i: usize = head % QUEUE_SIZE;
        self.ready.set(i, 0);
    }
}

proof fn lemma_index_apart(p: int, q: int, head: int)
    requires
        head <= p < head + QUEUE_SIZE,
        head <= q < head + QUEUE_SIZE,
        0 <= head,
        slot_index(p) == slot_index(q),
    ensures
        p == q,
{
}

/// Events wait in the order in which they were captured: one that is captured comes last, behind
/// all that wait already, and one is dropped exactly where the queue is full.
pub proof fn captured_events_come_last(before: ThreadQueue, after: ThreadQueue, head: nat)
    requires
        before.wf(head),
        after.shaped(),
        capture_step(before, after),
    ensures
        after.wf(head),
        before.pending(head).len() == QUEUE_SIZE ==> after == before,
        before.pending(head).len() < QUEUE_SIZE ==> after.pending(head) == before.pending(
            head,
        ).push(after.slots@[slot_index(before.write_head as int)]),
{
    let w = before.write_head as int;
    let i = slot_index(w);
    if w == head + QUEUE_SIZE {
        assert(slot_index(w) == slot_index(head as int));
        assert(before.ready@[slot_index(head as int)] != 0);
    } else {
        assert(before.ready@[slot_index(w)] == 0);
        assert forall|p: int| head <= p < head + QUEUE_SIZE implies (#[trigger] after.ready@[slot_index(
            p,
        )] != 0 <==> p < after.write_head) by {
            if slot_index(p) == i {
                lemma_index_apart(p, w, head as int);
            }
        }
        assert forall|k: int| 0 <= k < before.pending(head).len() implies #[trigger] after.pending(
            head,
        )[k] == before.pending(head)[k] by {
            if slot_index(head + k) == i {
                lemma_index_apart(head + k, w, head as int);
            }
        }
        assert(after.pending(head) =~= before.pending(head).push(after.slots@[i]));
    }
}

/// The reader takes the oldest event: what it finds at its position is the first that waits, it
/// finds nothing exactly where none waits, and when it hands the slot back the others wait in
/// the same order.
pub proof fn oldest_event_is_taken(before: ThreadQueue, after: ThreadQueue, head: nat)
    requires
        before.wf(head),
        after.shaped(),
        release_step(before, after, head),
    ensures
        before.ready@[slot_index(head as int)] != 0 <==> before.pending(head).len() > 0,
        before.pending(head).len() > 0 ==> {
            &&& before.pending(head)[0] == before.slots@[slot_index(head as int)]
            &&& after.wf(head + 1)
            &&& after.pending(head + 1) == before.pending(head).drop_first()
        },
{
    assert(before.ready@[slot_index(head as int)] != 0 <==> head < before.write_head);
    if before.pending(head).len() > 0 {
        let h = (head + 1) as nat;
        assert forall|p: int| h <= p < h + QUEUE_SIZE implies (#[trigger] after.ready@[slot_index(
            p,
        )] != 0 <==> p < after.write_head) by {
            if p == head + QUEUE_SIZE {
                assert(slot_index(p) == slot_index(head as int));
            } else {
                if slot_index(p) == slot_index(head as int) {
                    lemma_index_apart(p, head as int, head as int);
                }
                assert(before.ready@[slot_index(p)] != 0 <==> p < before.write_head);
            }
        }
        assert(after.pending(h) =~= before.pending(head).drop_first());
    }
}

/// How many queues are in use.
#[derive(Debug)]
pub struct QueueClaims {
    pub active: usize,
}

impl QueueClaims {
    /// Whether there are no more than there is room for.
    pub open spec fn wf(self) -> bool {
        self.active <= MAX_THREADS
    }

    /// No queue in use.
    pub fn new() -> (r: QueueClaims)
        ensures
            r.wf(),
            r.active == 0,
    {
        QueueClaims { active: 0 }
    }

    /// Claims the next queue, for a thread that has none.
    pub fn claim(&mut self) -> (r: Option<usize>)
        requires
            old(self).wf(),
        ensures
            final(self).wf(),
            old(self).active < MAX_THREADS ==> r == Some(old(self).active) && final(self).active
                == old(self).active + 1,
            old(self).active == MAX_THREADS ==> r is None && final(self).active == old(self).active,
    {
        if self.active >= MAX_THREADS {
            return None;
        }
        let index: usize = self.active;
        self.active = index + 1;
        Some(index)
    }
}

/// How long the reader sleeps when it has found nothing.
pub const IDLE_SLEEP_MS: u64 = 1;

/// What the reader does after a pass.
#[derive(Debug, Clone, Copy, PartialEq, Eq, Structural)]
pub enum AfterPass {
    /// Begin the next.
    Again,
    /// Sleep, then begin the next.
    Sleep,
    /// End.
    Stop,
}

/// The reader: its position in each queue, the queue that it is at, how many events of that it
/// has taken, and whether it has found none in this pass.
#[derive(Debug)]
pub struct Reader {
    pub heads: Vec<usize>,
    pub queue: usize,
    pub taken: usize,
    pub idle: bool,
}

impl Reader {
    pub open spec fn wf(self) -> bool {
        &&& self.heads@.len() == MAX_THREADS
        &&& self.queue <= MAX_THREADS
        &&& self.taken < BATCH
    }

    /// How much of a pass over `active` queues is left, at most.
    pub open spec fn left(self, active: int) -> int {
        (active - self.queue) * BATCH - self.taken
    }

    /// A reader at the start of every queue.
    pub fn new() -> (r: Reader)
        ensures
            r.wf(),
            r.heads@ == Seq::new(MAX_THREADS as nat, |i: int| 0usize),
            r.queue == 0,
            r.taken == 0,
            r.idle,
    {
        let mut heads: Vec<usize> = Vec::new();
        let mut i: usize = 0;
        while i < MAX_THREADS
            invariant
                i <= MAX_THREADS,
                heads@ =~= Seq::new(i as nat, |j: int| 0usize),
            decreases MAX_THREADS - i,
        {
            heads.push(0);
            i += 1;
        }
        Reader { heads, queue: 0, taken: 0, idle: true }
    }

    /// Begins a pass.
    pub fn begin_pass(&mut self)
        requires
            old(self).wf(),
        ensures
            final(self).wf(),
            final(self).heads == old(self).heads,
            final(self).queue == 0,
            final(self).taken == 0,
            final(self).idle,
    {
        self.queue = 0;
        self.taken = 0;
        self.idle = true;
    }

    /// Where to look next in a pass over `active` queues: the queue, and the position in it.
    pub fn target(&self, active: usize) -> (r: Option<(usize, usize)>)
        requires
            self.wf(),
            active <= MAX_THREADS,
        ensures
            r == (if self.queue < active {
                Some((self.queue, self.heads@[self.queue as int]))
            } else {
                None
            }),
    {
        if self.queue < active {
            Some((self.queue, self.heads[self.queue]))
        } else {
            None
        }
    }

    /// There was no event: go on to the next queue.
    pub fn found_none(&mut self)
        requires
            old(self).wf(),
            old(self).queue < MAX_THREADS,
        ensures
            final(self).wf(),
            final(self).heads == old(self).heads,
            final(self).queue == old(self).queue + 1,
            final(self).taken == 0,
            final(self).idle == old(self).idle,
            forall|active: int| #[trigger] final(self).left(active) < old(self).left(active),
    {
        self.queue = self.queue + 1;
        self.taken = 0;
    }

    /// What to do after a pass. A reader that is to end does so once it finds nothing more.
    pub fn after_pass(&self, shutdown: bool) -> (r: AfterPass)
        ensures
            r == (if !self.idle {
                AfterPass::Again
            } else if shutdown {
                AfterPass::Stop
            } else {
                AfterPass::Sleep
            }),
    {
        if !self.idle {
            AfterPass::Again
        } else if shutdown {
            AfterPass::Stop
        } else {
            AfterPass::Sleep
        }
    }

    /// An event was written out and its slot handed back. After a batch the next queue has its
    /// turn.
    pub fn took_event(&mut self)
        requires
            old(self).wf(),
            old(self).queue < MAX_THREADS,
            old(self).heads@[old(self).queue as int] < usize::MAX,
        ensures
            final(self).wf(),
            final(self).heads@ == old(self).heads@.update(
                old(self).queue as int,
                (old(self).heads@[old(self).queue as int] + 1) as usize,
            ),
            old(self).taken + 1 < BATCH ==> final(self).queue == old(self).queue && final(self).taken == old(self).taken + 1,
            old(self).taken + 1 == BATCH ==> final(self).queue == old(self).queue + 1 && final(self).taken == 0,
            !final(self).idle,
            forall|active: int| #[trigger] final(self).left(active) < old(self).left(active),
    {
        let queue: usize = self.queue;
        self.idle = false;
        let head: usize = self.heads[queue];
        self.heads.set(queue, head + 1);
        self.taken = self.taken + 1;
        if self.taken == BATCH {
            self.queue = queue + 1;
            self.taken = 0;
        }
    }
}

/// A queue is a ring of 1024 slots: positions share a slot exactly where they are whole rounds
/// apart.
pub proof fn queues_are_rings(p: int, q: int)
    requires
        0 <= p,
        0 <= q,
    ensures
        0 <= slot_index(p) < 1024,
        slot_index(p) == slot_index(q) <==> (p - q) % 1024 == 0,
        p < 1024 ==> slot_index(p) == p,
{
}

/// A slot that holds an event holds every part of it: its time, how it is written out, its six
/// arguments, and the captured bytes of both its strings, each in its place.
pub proof fn held_events_are_whole(
    slot: Slot,
    timestamp: u64,
    formatter: SlotFormatterFn,
    args: [u64; 6],
    str1: Option<Seq<u8>>,
    str2: Option<Seq<u8>>,
)
    requires
        holds_event(slot, timestamp, formatter, args, str1, str2),
    ensures
        slot.timestamp == timestamp,
        slot.formatter == Some(formatter),
        forall|i: int| 0 <= i < 6 ==> #[trigger] slot.args@[i] == args@[i],
        slot.str1_len == captured(str1).len(),
        slot.str2_len == captured(str2).len(),
        forall|i: int|
            0 <= i < captured(str1).len() ==> #[trigger] captured(str1)[i] == slot.str_data@[i],
        forall|i: int|
            0 <= i < captured(str2).len() ==> #[trigger] captured(str2)[i]
                == slot.str_data@[captured(str1).len() + i],
{
    strings_are_captured_in_full(Seq::empty(), slot);
    assert(slot.str1().len() == slot.str1_len);
    assert forall|i: int| 0 <= i < captured(str1).len() implies #[trigger] captured(str1)[i]
        == slot.str_data@[i] by {
        assert(slot.str1()[i] == slot.str_data@[i]);
    }
    assert forall|i: int| 0 <= i < captured(str2).len() implies #[trigger] captured(str2)[i]
        == slot.str_data@[captured(str1).len() + i] by {
        assert(slot.str2()[i] == slot.str_data@[slot.str1_len + i]);
    }
}

/// No more than 128 threads have a queue, each of 1024 slots, of which the reader takes 64 at a time;
/// when there is nothing it sleeps for a millisecond.
pub proof fn queues_have_their_limits(claims: QueueClaims, q: ThreadQueue)
    ensures
        claims.wf() <==> claims.active <= 128,
        q.shaped() ==> q.slots@.len() == 1024 && q.ready@.len() == 1024,
        BATCH == 64,
        IDLE_SLEEP_MS == 1,
{
}

} // verus!
