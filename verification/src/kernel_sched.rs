//! Cooperative scheduling for the boot kernel: time slices, a round-robin
//! task order, and fixed-capacity message channels.

use vstd::prelude::*;

verus! {

/// Most tasks the scheduler runs.
pub const MAX_TASKS: usize = 8;

/// Messages a channel holds at most.
pub const CHANNEL_CAPACITY: usize = 8;

/// Identifier of a kernel task: its slot.
#[derive(Debug, Clone, Copy, PartialEq, Eq, Structural)]
pub struct TaskId(pub u32);

/// A task's share of ticks before it should yield.
#[derive(Debug, Clone, Copy, PartialEq, Eq, Structural)]
pub struct TimeSlice {
    pub quantum_ticks: u64,
    pub used_ticks: u64,
}

impl TimeSlice {
    /// A fresh slice of `quantum_ticks` ticks.
    pub fn new(quantum_ticks: u64) -> (r: Self)
        ensures
            r == (TimeSlice { quantum_ticks, used_ticks: 0 }),
    {
        TimeSlice { quantum_ticks, used_ticks: 0 }
    }

    /// Counts ticks as used (saturating).
    pub fn advance(&mut self, ticks: u64)
        ensures
            final(self).quantum_ticks == old(self).quantum_ticks,
            final(self).used_ticks == if old(self).used_ticks + ticks > u64::MAX {
                u64::MAX
            } else {
                (old(self).used_ticks + ticks) as u64
            },
    {
        self.used_ticks = self.used_ticks.saturating_add(ticks);
    }

    /// Whether the slice is used up (never for a zero quantum).
    pub fn should_preempt(&self) -> (r: bool)
        ensures
            r == (self.quantum_ticks > 0 && self.used_ticks >= self.quantum_ticks),
    {
        self.quantum_ticks > 0 && self.used_ticks >= self.quantum_ticks
    }

    /// Starts the slice over.
    pub fn reset(&mut self)
        ensures
            *final(self) == (TimeSlice { quantum_ticks: old(self).quantum_ticks, used_ticks: 0 }),
    {
        self.used_ticks = 0;
    }
}

/// Runs tasks in turn, in the order they were added.
#[derive(Debug)]
pub struct CooperativeScheduler {
    order: Vec<TaskId>,
    cursor: usize,
}

impl CooperativeScheduler {
    /// The turn order holds at most its capacity and the cursor points into
    /// it.
    pub closed spec fn wf(&self) -> bool {
        &&& self.order@.len() <= MAX_TASKS
        &&& (self.order@.len() == 0 ==> self.cursor == 0)
        &&& (self.order@.len() > 0 ==> self.cursor < self.order@.len())
    }

    /// The tasks, in turn order.
    pub closed spec fn order_spec(&self) -> Seq<TaskId> {
        self.order@
    }

    /// The position of the task whose turn is next.
    pub closed spec fn cursor_spec(&self) -> nat {
        self.cursor as nat
    }

    /// A scheduler with no tasks.
    pub fn new() -> (r: Self)
        ensures
            r.wf(),
            r.order_spec() == Seq::<TaskId>::empty(),
            r.cursor_spec() == 0,
    {
        CooperativeScheduler { order: Vec::new(), cursor: 0 }
    }

    /// Adds a task at the end of the turn order, unless the scheduler is
    /// full.
    pub fn add_task(&mut self, id: TaskId)
        requires
            old(self).wf(),
        ensures
            final(self).wf(),
            old(self).order_spec().len() < MAX_TASKS ==> final(self).order_spec() == old(
                self,
            ).order_spec().push(id),
            old(self).order_spec().len() >= MAX_TASKS ==> final(self).order_spec() == old(self).order_spec(),
            final(self).cursor_spec() == old(self).cursor_spec(),
    {
        if self.order.len() < MAX_TASKS {
            self.order.push(id);
        }
    }

    /// The task whose turn it is, moving the turn on (cyclically); None
    /// without tasks.
    pub fn next_task(&mut self) -> (r: Option<TaskId>)
        requires
            old(self).wf(),
        ensures
            final(self).wf(),
            final(self).order_spec() == old(self).order_spec(),
            old(self).order_spec().len() == 0 ==> r is None && final(self).cursor_spec() == old(
                self,
            ).cursor_spec(),
            old(self).order_spec().len() > 0 ==> r == Some(old(self).order_spec()[old(self).cursor_spec() as int])
                && final(self).cursor_spec() == (old(self).cursor_spec() + 1) % old(self).order_spec().len(),
    {
        if self.order.len() == 0 {
            return None;
        }
        let id = self.order[self.cursor];
        self.cursor = (self.cursor + 1) % self.order.len();
        Some(id)
    }
}

/// A channel cannot take another message.
#[derive(Debug, Clone, Copy, PartialEq, Eq, Structural)]
pub enum ChannelError {
    Full,
}

/// A bounded first-in first-out queue of messages, kept in a ring.
#[derive(Debug)]
pub struct Channel<T: Copy> {
    queue: Vec<T>,
    head: usize,
    tail: usize,
    full: bool,
}

impl<T: Copy> Channel<T> {
    /// The ring is well formed.
    pub closed spec fn wf(&self) -> bool {
        &&& self.queue@.len() == CHANNEL_CAPACITY
        &&& self.head < CHANNEL_CAPACITY
        &&& self.tail < CHANNEL_CAPACITY
        &&& (self.full ==> self.head == self.tail)
    }

    /// The number of messages held.
    spec fn count(&self) -> nat {
        if self.full {
            CHANNEL_CAPACITY as nat
        } else {
            ((self.tail + CHANNEL_CAPACITY - self.head) % (CHANNEL_CAPACITY as int)) as nat
        }
    }

    /// The messages held, the oldest first.
    pub closed spec fn messages(&self) -> Seq<T> {
        Seq::new(self.count(), |i: int| self.queue@[(self.head + i) % (CHANNEL_CAPACITY as int)])
    }

    /// An empty channel whose slots hold `filler`.
    pub fn new(filler: T) -> (r: Self)
        ensures
            r.wf(),
            r.messages() == Seq::<T>::empty(),
    {
        let mut queue: Vec<T> = Vec::new();
        let mut i: usize = 0;
        while i < CHANNEL_CAPACITY
            invariant
                i <= CHANNEL_CAPACITY,
                queue@.len() == i,
            decreases CHANNEL_CAPACITY - i,
        {
            queue.push(filler);
            i = i + 1;
        }
        let r = Channel { queue, head: 0, tail: 0, full: false };
        assert(r.messages() =~= Seq::<T>::empty());
        r
    }

    /// Empties the channel.
    pub fn reset(&mut self, filler: T)
        ensures
            final(self).wf(),
            final(self).messages() == Seq::<T>::empty(),
    {
        *self = Self::new(filler);
    }

    /// Adds a message at the back, unless the channel is full.
    pub fn send(&mut self, msg: T) -> (r: Result<(), ChannelError>)
        requires
            old(self).wf(),
        ensures
            final(self).wf(),
            old(self).messages().len() >= CHANNEL_CAPACITY ==> r == Err::<(), ChannelError>(ChannelError::Full)
                && final(self).messages() == old(self).messages(),
            old(self).messages().len() < CHANNEL_CAPACITY ==> r is Ok && final(self).messages() == old(
                self,
            ).messages().push(msg),
    {
        if self.full {
            return Err(ChannelError::Full);
        }
        let ghost before = self.messages();
        let t = self.tail;
        self.queue.set(t, msg);
        let next = (t + 1) % CHANNEL_CAPACITY;
        let full = next == self.head;
        self.tail = next;
        self.full = full;
        assert(self.messages() =~= before.push(msg));
        Ok(())
    }

    /// Takes the oldest message, if any.
    pub fn recv(&mut self) -> (r: Option<T>)
        requires
            old(self).wf(),
        ensures
            final(self).wf(),
            old(self).messages().len() == 0 ==> r is None && final(self).messages() == old(self).messages(),
            old(self).messages().len() > 0 ==> r == Some(old(self).messages()[0]) && final(self).messages()
                == old(self).messages().drop_first(),
    {
        if self.is_empty() {
            return None;
        }
        let ghost before = self.messages();
        let msg = self.queue[self.head];
        self.head = (self.head + 1) % CHANNEL_CAPACITY;
        self.full = false;
        assert(self.messages() =~= before.drop_first());
        Some(msg)
    }

    /// Whether the channel holds no message.
    pub fn is_empty(&self) -> (r: bool)
        requires
            self.wf(),
        ensures
            r == (self.messages().len() == 0),
    {
        !self.full && self.head == self.tail
    }
}

/// A channel hands messages out in the order they were sent: sending to a
/// channel that holds fewer than its capacity and then receiving until the
/// new message comes out gives back every message in order.
pub proof fn lemma_channel_fifo<T>(held: Seq<T>, msg: T)
    requires
        held.len() < CHANNEL_CAPACITY,
    ensures
        held.push(msg).len() == held.len() + 1,
        held.len() > 0 ==> held.push(msg)[0] == held[0] && held.push(msg).drop_first() == held.drop_first().push(
            msg,
        ),
        held.len() == 0 ==> held.push(msg)[0] == msg && held.push(msg).drop_first() == Seq::<T>::empty(),
{
    if held.len() > 0 {
        assert(held.push(msg).drop_first() =~= held.drop_first().push(msg));
    } else {
        assert(held.push(msg).drop_first() =~= Seq::<T>::empty());
    }
}

} // verus!
