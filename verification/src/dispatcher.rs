use vstd::prelude::*;
use crate::twitter::{MentionView, TwitterError, TwitterMention};

verus! {

/// How many mentions are served at the same time, at most.
pub const MAX_CONCURRENT_REQUESTS: usize = 10;

/// How long the dispatcher rests after a failed poll, in seconds.
pub const POLL_RETRY_SECS: u64 = 5;

/// Where the control loop stands.
#[derive(Clone, Copy, Debug, PartialEq, Eq, Structural)]
pub enum DispatcherState {
    /// Waiting for the mention source to answer a poll.
    Polling,
    /// Handing the mentions of a batch to tasks, one after another.
    Dispatching,
    /// Resting after a poll that failed.
    Backoff,
}

/// What the outside world reports to the control loop.
pub enum DispatcherEvent {
    /// A poll returned: the mentions that passed the filter, or the error.
    Polled(Result<Vec<TwitterMention>, TwitterError>),
    /// The task for the mention last handed out was started.
    Spawned,
    /// The rest after a failed poll is over.
    BackoffElapsed,
}

/// What the control loop asks the outside world to do next.
#[derive(Debug)]
pub enum DispatcherAction {
    /// Poll the mention source and filter what it gives.
    Poll,
    /// Start a task that serves this mention.
    Spawn(TwitterMention),
    /// Rest for so many seconds.
    Sleep(u64),
}

/// An event as plain values. A failed poll counts alike whatever the error.
pub enum EventView {
    PollSucceeded(Seq<MentionView>),
    PollFailed,
    Spawned,
    BackoffElapsed,
}

/// An action as plain values.
pub enum ActionView {
    Poll,
    Spawn(MentionView),
    Sleep(u64),
}

impl View for DispatcherEvent {
    type V = EventView;

    open spec fn view(&self) -> EventView {
        match self {
            DispatcherEvent::Polled(Ok(mentions)) => EventView::PollSucceeded(mentions.deep_view()),
            DispatcherEvent::Polled(Err(_)) => EventView::PollFailed,
            DispatcherEvent::Spawned => EventView::Spawned,
            DispatcherEvent::BackoffElapsed => EventView::BackoffElapsed,
        }
    }
}

impl View for DispatcherAction {
    type V = ActionView;

    open spec fn view(&self) -> ActionView {
        match self {
            DispatcherAction::Poll => ActionView::Poll,
            DispatcherAction::Spawn(mention) => ActionView::Spawn(mention@),
            DispatcherAction::Sleep(seconds) => ActionView::Sleep(*seconds),
        }
    }
}

/// The control loop as plain values: its state, and the mentions of the
/// current batch that still wait for a task, the next one first.
pub struct DispatcherView {
    pub state: DispatcherState,
    pub queue: Seq<MentionView>,
}

impl DispatcherView {
    /// The loop dispatches exactly while mentions wait for a task.
    pub open spec fn consistent(self) -> bool {
        self.state is Dispatching <==> self.queue.len() > 0
    }

    /// What the loop is waiting for the outside world to do.
    pub open spec fn awaited(self) -> ActionView {
        match self.state {
            DispatcherState::Polling => ActionView::Poll,
            DispatcherState::Dispatching => ActionView::Spawn(self.queue[0]),
            DispatcherState::Backoff => ActionView::Sleep(POLL_RETRY_SECS),
        }
    }

    /// The loop after an event. An event that does not answer what the
    /// loop is waiting for changes nothing.
    pub open spec fn after(self, event: EventView) -> DispatcherView {
        match (self.state, event) {
            (DispatcherState::Polling, EventView::PollSucceeded(mentions)) => if mentions.len() > 0 {
                DispatcherView { state: DispatcherState::Dispatching, queue: mentions }
            } else {
                self
            },
            (DispatcherState::Polling, EventView::PollFailed) => DispatcherView {
                state: DispatcherState::Backoff,
                queue: self.queue,
            },
            (DispatcherState::Backoff, EventView::BackoffElapsed) => DispatcherView {
                state: DispatcherState::Polling,
                queue: self.queue,
            },
            (DispatcherState::Dispatching, EventView::Spawned) => if self.queue.len() > 1 {
                DispatcherView { state: DispatcherState::Dispatching, queue: self.queue.drop_first() }
            } else {
                DispatcherView { state: DispatcherState::Polling, queue: Seq::empty() }
            },
            _ => self,
        }
    }

    /// The loop after `count` tasks were reported as started.
    pub open spec fn after_spawns(self, count: nat) -> DispatcherView
        decreases count,
    {
        if count == 0 {
            self
        } else {
            self.after_spawns((count - 1) as nat).after(EventView::Spawned)
        }
    }
}

/// No event brings the loop out of step: it dispatches exactly while
/// mentions wait, whatever is reported to it.
pub proof fn lemma_loop_stays_consistent(view: DispatcherView, event: EventView)
    requires
        view.consistent(),
    ensures
        view.after(event).consistent(),
{
}

/// A failed poll makes the loop rest for `POLL_RETRY_SECS` seconds, and the
/// end of the rest makes it poll again.
pub proof fn lemma_failed_poll_is_retried(view: DispatcherView)
    requires
        view.state is Polling,
    ensures
        view.after(EventView::PollFailed).state is Backoff,
        view.after(EventView::PollFailed).awaited() == ActionView::Sleep(POLL_RETRY_SECS),
        view.after(EventView::PollFailed).after(EventView::BackoffElapsed).state is Polling,
        view.after(EventView::PollFailed).after(EventView::BackoffElapsed).awaited() == ActionView::Poll,
{
}

proof fn lemma_queue_after_spawns(view: DispatcherView, count: nat)
    requires
        view.state is Dispatching,
        count < view.queue.len(),
    ensures
        view.after_spawns(count).state is Dispatching,
        view.after_spawns(count).queue == view.queue.skip(count as int),
    decreases count,
{
    if count == 0 {
        assert(view.queue.skip(0) =~= view.queue);
    } else {
        lemma_queue_after_spawns(view, (count - 1) as nat);
        let before = view.after_spawns((count - 1) as nat);
        assert(before.queue.drop_first() =~= view.queue.skip(count as int));
    }
}

/// Every mention of a polled batch is handed out once, in the order of the
/// batch, and after the last one the loop polls again.
pub proof fn lemma_batch_is_spawned_in_order(view: DispatcherView, mentions: Seq<MentionView>, index: int)
    requires
        view.state is Polling,
        0 <= index < mentions.len(),
    ensures
        view.after(EventView::PollSucceeded(mentions)).after_spawns(index as nat).awaited()
            == ActionView::Spawn(mentions[index]),
        view.after(EventView::PollSucceeded(mentions)).after_spawns(mentions.len()).state is Polling,
        view.after(EventView::PollSucceeded(mentions)).after_spawns(mentions.len()).awaited()
            == ActionView::Poll,
{
    let started = view.after(EventView::PollSucceeded(mentions));
    lemma_queue_after_spawns(started, index as nat);
    lemma_queue_after_spawns(started, (mentions.len() - 1) as nat);
}

/// The control loop of the bot: it polls for mentions, hands each mention
/// of a batch to a task, rests after a failed poll, and never ends.
pub struct Dispatcher {
    state: DispatcherState,
    batch: Vec<TwitterMention>,
    next: usize,
}

impl View for Dispatcher {
    type V = DispatcherView;

    closed spec fn view(&self) -> DispatcherView {
        DispatcherView { state: self.state, queue: self.batch.deep_view().skip(self.next as int) }
    }
}

impl Dispatcher {
    #[verifier::type_invariant]
    spec fn well_formed(&self) -> bool {
        self.next <= self.batch@.len() && (self.state is Dispatching <==> self.next < self.batch@.len())
    }

    /// A loop that is about to poll.
    pub fn new() -> (dispatcher: Self)
        ensures
            dispatcher@ == (DispatcherView { state: DispatcherState::Polling, queue: Seq::empty() }),
            dispatcher@.consistent(),
    {
        let dispatcher = Dispatcher { state: DispatcherState::Polling, batch: Vec::new(), next: 0 };
        assert(dispatcher@.queue =~= Seq::<MentionView>::empty());
        dispatcher
    }

    /// Where the loop stands.
    pub fn state(&self) -> (state: DispatcherState)
        ensures
            state == self@.state,
            self@.consistent(),
    {
        proof {
            use_type_invariant(self);
        }
        self.state
    }

    /// What the loop is waiting for the outside world to do.
    pub fn next_action(&self) -> (action: DispatcherAction)
        ensures
            action@ == self@.awaited(),
    {
        proof {
            use_type_invariant(self);
        }
        match self.state {
            DispatcherState::Polling => DispatcherAction::Poll,
            DispatcherState::Dispatching => DispatcherAction::Spawn(self.batch[self.next].clone()),
            DispatcherState::Backoff => DispatcherAction::Sleep(POLL_RETRY_SECS),
        }
    }

    /// Takes note of an event.
    pub fn handle(&mut self, event: DispatcherEvent)
        ensures
            final(self)@ == old(self)@.after(event@),
            final(self)@.consistent(),
    {
        proof {
            use_type_invariant(&*self);
        }
        let mut taken = Dispatcher { state: DispatcherState::Polling, batch: Vec::new(), next: 0 };
        std::mem::swap(self, &mut taken);
        let Dispatcher { state, batch, next } = taken;
        let ghost queue = batch.deep_view().skip(next as int);
        match (state, event) {
            (DispatcherState::Polling, DispatcherEvent::Polled(Ok(mentions))) => {
                if mentions.len() > 0 {
                    assert(mentions.deep_view().skip(0) =~= mentions.deep_view());
                    *self = Dispatcher { state: DispatcherState::Dispatching, batch: mentions, next: 0 };
                } else {
                    *self = Dispatcher { state, batch, next };
                }
            },
            (DispatcherState::Polling, DispatcherEvent::Polled(Err(_))) => {
                *self = Dispatcher { state: DispatcherState::Backoff, batch, next };
            },
            (DispatcherState::Backoff, DispatcherEvent::BackoffElapsed) => {
                *self = Dispatcher { state: DispatcherState::Polling, batch, next };
            },
            (DispatcherState::Dispatching, DispatcherEvent::Spawned) => {
                if batch.len() - next > 1 {
                    assert(queue.drop_first() =~= batch.deep_view().skip(next + 1));
                    *self = Dispatcher { state: DispatcherState::Dispatching, batch, next: next + 1 };
                } else {
                    let done = Dispatcher { state: DispatcherState::Polling, batch: Vec::new(), next: 0 };
                    assert(done@.queue =~= Seq::<MentionView>::empty());
                    *self = done;
                }
            },
            _ => {
                *self = Dispatcher { state, batch, next };
            },
        }
    }

    /// Takes note of an event and tells what to do next.
    pub fn step(&mut self, event: DispatcherEvent) -> (action: DispatcherAction)
        ensures
            final(self)@ == old(self)@.after(event@),
            action@ == old(self)@.after(event@).awaited(),
    {
        self.handle(event);
        self.next_action()
    }
}

/// The tickets that bound how many mentions are served at once: a task
/// takes one before it starts and gives it back when it ends.
pub struct TicketPool {
    capacity: usize,
    in_use: usize,
}

impl TicketPool {
    #[verifier::type_invariant]
    spec fn well_formed(&self) -> bool {
        self.in_use <= self.capacity
    }

    /// How many tickets there are.
    pub closed spec fn capacity_spec(&self) -> nat {
        self.capacity as nat
    }

    /// How many tickets are out.
    pub closed spec fn in_use_spec(&self) -> nat {
        self.in_use as nat
    }

    /// A pool of `capacity` tickets, none of them out.
    pub fn new(capacity: usize) -> (pool: Self)
        ensures
            pool.capacity_spec() == capacity,
            pool.in_use_spec() == 0,
    {
        TicketPool { capacity, in_use: 0 }
    }

    /// A pool of `MAX_CONCURRENT_REQUESTS` tickets.
    pub fn with_default_capacity() -> (pool: Self)
        ensures
            pool.capacity_spec() == MAX_CONCURRENT_REQUESTS,
            pool.in_use_spec() == 0,
    {
        TicketPool::new(MAX_CONCURRENT_REQUESTS)
    }

    /// How many tickets there are.
    pub fn capacity(&self) -> (capacity: usize)
        ensures
            capacity == self.capacity_spec(),
    {
        self.capacity
    }

    /// How many tickets are out: never more than there are.
    pub fn in_use(&self) -> (in_use: usize)
        ensures
            in_use == self.in_use_spec(),
            in_use <= self.capacity_spec(),
    {
        proof {
            use_type_invariant(self);
        }
        self.in_use
    }

    /// Takes a ticket if one is left.
    pub fn try_acquire(&mut self) -> (taken: bool)
        ensures
            taken == (old(self).in_use_spec() < old(self).capacity_spec()),
            final(self).capacity_spec() == old(self).capacity_spec(),
            final(self).in_use_spec() == tickets_out(old(self).capacity_spec(), old(self).in_use_spec(), true),
            final(self).in_use_spec() <= final(self).capacity_spec(),
    {
        proof {
            use_type_invariant(&*self);
        }
        if self.in_use < self.capacity {
            self.in_use = self.in_use + 1;
            true
        } else {
            false
        }
    }

    /// Gives a ticket back. Where none is out, nothing changes.
    pub fn release(&mut self)
        ensures
            final(self).capacity_spec() == old(self).capacity_spec(),
            final(self).in_use_spec() == tickets_out(old(self).capacity_spec(), old(self).in_use_spec(), false),
            final(self).in_use_spec() <= final(self).capacity_spec(),
    {
        proof {
            use_type_invariant(&*self);
        }
        if self.in_use > 0 {
            self.in_use = self.in_use - 1;
        }
    }
}

/// How many tickets are out after one request on a pool: `take` asks for a
/// ticket, which is given if one is left; otherwise one is given back, if
/// one is out.
pub open spec fn tickets_out(capacity: nat, in_use: nat, take: bool) -> nat {
    if take {
        if in_use < capacity {
            in_use + 1
        } else {
            in_use
        }
    } else {
        if in_use > 0 {
            (in_use - 1) as nat
        } else {
            in_use
        }
    }
}

/// How many tickets are out after a series of requests on a pool that
/// begins with none out.
pub open spec fn tickets_out_after(capacity: nat, requests: Seq<bool>) -> nat
    decreases requests.len(),
{
    if requests.len() == 0 {
        0
    } else {
        tickets_out(capacity, tickets_out_after(capacity, requests.drop_last()), requests.last())
    }
}

/// Whatever is asked of a pool and in whatever order, no more tickets are
/// out than the pool has: no more tasks run at once than there are tickets.
pub proof fn lemma_tickets_never_exceed_capacity(capacity: nat, requests: Seq<bool>)
    ensures
        tickets_out_after(capacity, requests) <= capacity,
    decreases requests.len(),
{
    if requests.len() > 0 {
        lemma_tickets_never_exceed_capacity(capacity, requests.drop_last());
    }
}

} // verus!
