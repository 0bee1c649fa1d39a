//! One invocation of the worker event loop: the wait for a first event, the
//! non-blocking growth of the batch, and the processing of the batch with its
//! checkpoints.

use vstd::prelude::*;

use crate::chan::try_receive;
use crate::task_queue::{drain_lanes, pop_lanes, QueuedTask, TaskQueue};

verus! {

/// What the worker's handler is given.
pub enum Event<C, W, D> {
    Control(C),
    Worker(W),
    Devtools(D),
    Timer,
}

/// The four sources of the initial wait.
#[derive(Clone, Copy, Debug, PartialEq, Eq, Structural)]
pub enum Source {
    Control,
    TaskQueue,
    Devtools,
    Timer,
}

/// Which sources have something to give.
#[derive(Clone, Copy, Debug, PartialEq, Eq, Structural)]
pub struct Readiness {
    pub control: bool,
    pub task_queue: bool,
    pub devtools: bool,
    pub timer: bool,
}

/// The ready sources, in a fixed order.
pub open spec fn ready_sources(r: Readiness) -> Seq<Source> {
    (if r.control { seq![Source::Control] } else { seq![] })
        + (if r.task_queue { seq![Source::TaskQueue] } else { seq![] })
        + (if r.devtools { seq![Source::Devtools] } else { seq![] })
        + (if r.timer { seq![Source::Timer] } else { seq![] })
}

/// The source that the initial wait takes: among the ready ones, the one that
/// `tie` selects, so that no source has a fixed precedence over another.
pub fn pick_source(ready: Readiness, tie: u64) -> (r: Option<Source>)
    ensures
        ready_sources(ready).len() == 0 ==> r.is_none(),
        ready_sources(ready).len() > 0 ==> r == Some(
            ready_sources(ready)[(tie % (ready_sources(ready).len() as u64)) as int],
        ),
{
    let mut list: Vec<Source> = Vec::new();
    if ready.control {
        list.push(Source::Control);
    }
    if ready.task_queue {
        list.push(Source::TaskQueue);
    }
    if ready.devtools {
        list.push(Source::Devtools);
    }
    if ready.timer {
        list.push(Source::Timer);
    }
    assert(list@ =~= ready_sources(ready));
    if list.len() == 0 {
        None
    } else {
        let i = (tie % (list.len() as u64)) as usize;
        Some(list[i])
    }
}

/// What the initial wait received from the source that it took; `None` stands
/// for a disconnected channel.
pub enum Woken<C, W, D> {
    Control(Option<C>),
    TaskQueue(Option<QueuedTask<W>>),
    Devtools(Option<D>),
    Timer,
}

/// A call on the worker that the loop's rules govern. A handled event carries
/// the handler's answer: `false` asks for shutdown.
pub enum Call<E> {
    DispatchTimers,
    Handle(E, bool),
    MicrotaskCheckpoint,
    GcCheckpoint,
}

/// The calls for the first `k` events of `batch`, each handled with the answer
/// `true` and followed by its microtask checkpoint.
pub open spec fn handled_calls<E>(batch: Seq<E>, k: nat) -> Seq<Call<E>> {
    Seq::new(
        2 * k,
        |j: int|
            if j % 2 == 0 {
                Call::Handle(batch[j / 2], true)
            } else {
                Call::MicrotaskCheckpoint
            },
    )
}

/// The calls for `batch`: with `stop == Some(k)` the handler answered `false` on
/// event `k`, and nothing follows; with `None` every event was handled and one
/// garbage-collection checkpoint ends the batch.
pub open spec fn batch_calls<E>(batch: Seq<E>, stop: Option<nat>) -> Seq<Call<E>> {
    match stop {
        Some(k) => handled_calls(batch, k).push(Call::Handle(batch[k as int], false)),
        None => handled_calls(batch, batch.len()).push(Call::GcCheckpoint),
    }
}

/// The event where the handler stopped lies in the batch.
pub open spec fn stop_in(batch_len: nat, stop: Option<nat>) -> bool {
    match stop {
        Some(k) => k < batch_len,
        None => true,
    }
}

/// Every event that the handler let through is followed at once by exactly one
/// microtask checkpoint, and the call after that checkpoint is the next event or
/// the trailing garbage-collection checkpoint.
pub proof fn lemma_checkpoint_follows_each_event<E>(batch: Seq<E>, stop: Option<nat>, i: nat)
    requires
        match stop {
            Some(k) => k < batch.len() && i < k,
            None => i < batch.len(),
        },
    ensures
        batch_calls(batch, stop)[2 * i as int] == Call::Handle(batch[i as int], true),
        batch_calls(batch, stop)[(2 * i + 1) as int] == Call::<E>::MicrotaskCheckpoint,
        (batch_calls(batch, stop)[(2 * i + 2) as int] is Handle && batch_calls(batch, stop)[(2 * i
            + 2) as int]->Handle_0 == batch[(i + 1) as int]) || (stop.is_none() && i + 1 == batch.len()
            && batch_calls(batch, stop)[(2 * i + 2) as int] is GcCheckpoint),
{
    let k = match stop {
        Some(k) => k,
        None => batch.len(),
    };
    assert(batch_calls(batch, stop)[2 * i as int] == handled_calls(batch, k)[2 * i as int]);
    assert(batch_calls(batch, stop)[(2 * i + 1) as int] == handled_calls(batch, k)[(2 * i + 1) as int]);
    if i + 1 < k {
        assert(batch_calls(batch, stop)[(2 * i + 2) as int] == handled_calls(batch, k)[(2 * i
            + 2) as int]);
    }
}

/// When the handler answers `false` on event `k`, events `0..=k` are handled in
/// order and no later one is, `k` microtask checkpoints run (none after event
/// `k`), and no garbage-collection checkpoint runs.
pub proof fn lemma_shutdown_truncates<E>(batch: Seq<E>, k: nat)
    requires
        k < batch.len(),
    ensures
        batch_calls(batch, Some(k)).len() == 2 * k + 1,
        batch_calls(batch, Some(k)).last() == Call::Handle(batch[k as int], false),
        forall|j: int|
            0 <= j < batch_calls(batch, Some(k)).len() ==> match #[trigger] batch_calls(batch, Some(k))[j] {
                Call::Handle(e, _) => j % 2 == 0 && e == batch[j / 2] && j / 2 <= k,
                Call::MicrotaskCheckpoint => j < 2 * k,
                Call::GcCheckpoint => false,
                Call::DispatchTimers => false,
            },
{
    assert forall|j: int| 0 <= j < batch_calls(batch, Some(k)).len() implies match #[trigger] batch_calls(
        batch,
        Some(k),
    )[j] {
        Call::Handle(e, _) => j % 2 == 0 && e == batch[j / 2] && j / 2 <= k,
        Call::MicrotaskCheckpoint => j < 2 * k,
        Call::GcCheckpoint => false,
        Call::DispatchTimers => false,
    } by {
        if j < 2 * k {
            assert(batch_calls(batch, Some(k))[j] == handled_calls(batch, k)[j]);
        }
    }
}

/// A batch handled to its end runs the garbage-collection checkpoint exactly
/// once, as its last call, and every event is handled exactly once, in the order
/// of the batch, each followed by its microtask checkpoint.
pub proof fn lemma_full_batch<E>(batch: Seq<E>)
    ensures
        batch_calls(batch, None).len() == 2 * batch.len() + 1,
        batch_calls(batch, None).last() is GcCheckpoint,
        forall|j: int|
            0 <= j < 2 * batch.len() ==> match #[trigger] batch_calls(batch, None)[j] {
                Call::Handle(e, answer) => j % 2 == 0 && e == batch[j / 2] && answer,
                Call::MicrotaskCheckpoint => j % 2 == 1,
                Call::GcCheckpoint => false,
                Call::DispatchTimers => false,
            },
{
    assert forall|j: int| 0 <= j < 2 * batch.len() implies match #[trigger] batch_calls(batch, None)[j] {
        Call::Handle(e, answer) => j % 2 == 0 && e == batch[j / 2] && answer,
        Call::MicrotaskCheckpoint => j % 2 == 1,
        Call::GcCheckpoint => false,
        Call::DispatchTimers => false,
    } by {
        assert(batch_calls(batch, None)[j] == handled_calls(batch, batch.len())[j]);
    }
}

/// Whichever source woke the initial wait, an invocation dispatches the
/// completed timers exactly once, before any event is handled.
pub proof fn lemma_timers_dispatched_once<E>(batch: Seq<E>, stop: Option<nat>)
    requires
        stop_in(batch.len(), stop),
    ensures
        (seq![Call::DispatchTimers] + batch_calls(batch, stop))[0] is DispatchTimers,
        forall|j: int|
            0 < j < (seq![Call::DispatchTimers] + batch_calls(batch, stop)).len() ==> !((seq![
                Call::DispatchTimers] + #[trigger] batch_calls(batch, stop))[j] is DispatchTimers),
{
    let all = seq![Call::DispatchTimers] + batch_calls(batch, stop);
    assert forall|j: int| 0 < j < all.len() implies !(all[j] is DispatchTimers) by {
        assert(all[j] == batch_calls(batch, stop)[j - 1]);
        let k = match stop {
            Some(k) => k,
            None => batch.len(),
        };
        if j - 1 < 2 * k {
            assert(batch_calls(batch, stop)[j - 1] == handled_calls(batch, k)[j - 1]);
        }
    }
}

/// The collaborators of the loop, as the worker implements them; the caller of
/// `Invocation::next_call` performs each call it asks for on them.
pub trait WorkerEventLoopMethods<E> {
    /// Handles one event inside the worker's realm; `false` asks for shutdown.
    fn handle_event(&mut self, event: E) -> bool;

    /// Marks the worker as executing, after a handled event.
    fn handle_worker_post_event(&mut self);

    /// Releases the mark of `handle_worker_post_event`.
    fn release_worker_post_event(&mut self);

    fn perform_a_microtask_checkpoint(&mut self);

    fn perform_a_dom_garbage_collection_checkpoint(&mut self);

    fn dispatch_completed_timers(&mut self);
}

/// The next call that an invocation asks its caller to make on the worker.
pub enum Action<E> {
    DispatchTimers,
    /// Hand this event to the handler, and pass its answer to the next
    /// `next_call`.
    Handle(E),
    /// Run a microtask checkpoint, inside the post-event mark when `post_event`.
    MicrotaskCheckpoint { post_event: bool },
    GcCheckpoint,
    /// The handler asked for shutdown: the invocation ends.
    Return,
}

/// Where an invocation stands.
#[derive(Clone, Copy, Debug, PartialEq, Eq, Structural)]
pub enum Phase {
    /// The completed timers are to be dispatched.
    Dispatch,
    /// The batch grows, without blocking.
    Draining,
    /// The batch is handed out event by event.
    Processing,
    Done,
}

/// The event that the initial wait gives, or `None` where the source it took
/// was disconnected.
pub fn first_event<C, W, D>(woken: Woken<C, W, D>, queue: &mut TaskQueue<W>) -> (r: Option<
    Event<C, W, D>,
>)
    requires
        old(queue).wf(),
    ensures
        final(queue).wf(),
        final(queue).bound() == old(queue).bound(),
        match woken {
            Woken::Control(Some(c)) => r == Some(Event::<C, W, D>::Control(c)) && final(queue).lanes()
                == old(queue).lanes(),
            Woken::Devtools(Some(d)) => r == Some(Event::<C, W, D>::Devtools(d))
                && final(queue).lanes() == old(queue).lanes(),
            Woken::Timer => r == Some(Event::<C, W, D>::Timer) && final(queue).lanes() == old(
                queue,
            ).lanes(),
            Woken::TaskQueue(Some(q)) => exists|later: Seq<QueuedTask<W>>|
                {
                    let (lanes, t) = pop_lanes(
                        #[trigger] drain_lanes(old(queue).lanes(), old(queue).bound(), seq![q] + later),
                    );
                    &&& final(queue).lanes() == lanes
                    &&& t.is_some()
                    &&& r == Some(Event::<C, W, D>::Worker(t.unwrap()))
                },
            _ => r.is_none() && final(queue).lanes() == old(queue).lanes(),
        },
{
    match woken {
        Woken::Control(Some(c)) => Some(Event::Control(c)),
        Woken::Devtools(Some(d)) => Some(Event::Devtools(d)),
        Woken::Timer => Some(Event::Timer),
        Woken::TaskQueue(Some(q)) => {
            queue.take_tasks(q);
            let t = queue.recv();
            match t {
                Some(w) => Some(Event::Worker(w)),
                None => None,
            }
        },
        _ => None,
    }
}

/// One invocation of the loop: the batch gathered from the initial wait and the
/// drain, handed out event by event; it asks its caller for each call on the
/// worker and is told the handler's answers.
pub struct Invocation<C, W, D> {
    events: Vec<Event<C, W, D>>,
    phase: Phase,
    handled: usize,
    awaiting: bool,
    post_event: bool,
    disconnected: bool,
    stop: Option<usize>,
    gathered: Ghost<Seq<Event<C, W, D>>>,
    log: Ghost<Seq<Call<Event<C, W, D>>>>,
}

impl<C, W, D> Invocation<C, W, D> {
    pub closed spec fn phase(&self) -> Phase {
        self.phase
    }

    /// The batch: every event gathered by the initial wait and the drain.
    pub closed spec fn batch(&self) -> Seq<Event<C, W, D>> {
        self.gathered@
    }

    /// The calls asked for so far, each handled event with the answer given.
    pub closed spec fn calls(&self) -> Seq<Call<Event<C, W, D>>> {
        self.log@
    }

    /// How many events have been handed out.
    pub closed spec fn handed_out(&self) -> nat {
        self.handled as nat
    }

    /// An event was handed out and its answer is due.
    pub closed spec fn awaiting_answer(&self) -> bool {
        self.awaiting
    }

    pub closed spec fn post_event(&self) -> bool {
        self.post_event
    }

    /// The initial wait ended on a disconnected channel: nothing is processed.
    pub closed spec fn disconnected(&self) -> bool {
        self.disconnected
    }

    /// The event on which the handler asked for shutdown, if it did.
    pub closed spec fn stopped_at(&self) -> Option<nat> {
        match self.stop {
            Some(k) => Some(k as nat),
            None => None,
        }
    }

    pub closed spec fn wf(&self) -> bool {
        &&& self.disconnected ==> self.gathered@.len() == 0
        &&& self.gathered@.len() <= usize::MAX
        &&& self.stop.is_some() ==> self.phase == Phase::Done
        &&& match self.phase {
            Phase::Dispatch => self.log@ == Seq::<Call<Event<C, W, D>>>::empty() && self.handled == 0
                && self.events@ == self.gathered@ && !self.awaiting,
            Phase::Draining => self.log@ == seq![Call::<Event<C, W, D>>::DispatchTimers]
                && !self.disconnected && self.handled == 0 && self.events@ == self.gathered@
                && !self.awaiting,
            Phase::Processing => {
                &&& !self.disconnected
                &&& self.handled <= self.gathered@.len()
                &&& self.events@ == self.gathered@.subrange(
                    self.handled as int,
                    self.gathered@.len() as int,
                )
                &&& self.awaiting ==> self.handled >= 1 && self.log@ == seq![Call::DispatchTimers]
                    + handled_calls(self.gathered@, (self.handled - 1) as nat)
                &&& !self.awaiting ==> self.log@ == seq![Call::DispatchTimers] + handled_calls(
                    self.gathered@,
                    self.handled as nat,
                )
            },
            Phase::Done => if self.disconnected {
                self.log@ == seq![Call::<Event<C, W, D>>::DispatchTimers]
            } else {
                &&& self.stop matches Some(k) ==> k < self.gathered@.len()
                &&& self.log@ == seq![Call::DispatchTimers] + batch_calls(
                    self.gathered@,
                    self.stopped_at(),
                )
            },
        }
    }

    /// Starts an invocation from what the initial wait received. Its first call,
    /// whichever source woke the wait, is the dispatch of the completed timers.
    pub fn begin(woken: Woken<C, W, D>, queue: &mut TaskQueue<W>, post_event: bool) -> (r: Self)
        requires
            old(queue).wf(),
        ensures
            r.wf(),
            r.phase() == Phase::Dispatch,
            r.calls().len() == 0,
            r.post_event() == post_event,
            r.stopped_at().is_none(),
            final(queue).wf(),
            final(queue).bound() == old(queue).bound(),
            match woken {
                Woken::Control(Some(c)) => r.batch() == seq![Event::<C, W, D>::Control(c)],
                Woken::Devtools(Some(d)) => r.batch() == seq![Event::<C, W, D>::Devtools(d)],
                Woken::Timer => r.batch() == seq![Event::<C, W, D>::Timer],
                Woken::TaskQueue(Some(q)) => exists|later: Seq<QueuedTask<W>>|
                    {
                        let (lanes, t) = pop_lanes(
                            #[trigger] drain_lanes(old(queue).lanes(), old(queue).bound(), seq![q] + later),
                        );
                        &&& final(queue).lanes() == lanes
                        &&& t.is_some()
                        &&& r.batch() == seq![Event::<C, W, D>::Worker(t.unwrap())]
                    },
                _ => true,
            },
            r.disconnected() <==> match woken {
                Woken::Control(None) | Woken::TaskQueue(None) | Woken::Devtools(None) => true,
                _ => false,
            },
            r.disconnected() ==> r.batch().len() == 0 && final(queue).lanes() == old(queue).lanes(),
            !r.disconnected() ==> r.batch().len() == 1,
    {
        let first = first_event(woken, queue);
        let (events, disconnected) = match first {
            Some(e) => (vec![e], false),
            None => (Vec::new(), true),
        };
        Invocation {
            gathered: Ghost(events@),
            events,
            phase: Phase::Dispatch,
            handled: 0,
            awaiting: false,
            post_event,
            disconnected,
            stop: None,
            log: Ghost(Seq::empty()),
        }
    }

    /// Whether the invocation has ended.
    pub fn is_done(&self) -> (r: bool)
        ensures
            r == (self.phase() == Phase::Done),
    {
        self.phase == Phase::Done
    }

    /// The event on which the handler asked for shutdown, if it did.
    pub fn shutdown_at(&self) -> (r: Option<usize>)
        ensures
            r matches Some(k) ==> self.stopped_at() == Some(k as nat),
            r.is_none() ==> self.stopped_at().is_none(),
    {
        self.stop
    }

    /// One round of the batch's growth: a task from the queue (after a
    /// non-blocking drain of its channel), else one message of the devtools
    /// channel. `false` ends the growth and starts the processing; the control
    /// channel and the timers wait for the next invocation, and the closing flag
    /// is read only between invocations. Once the invocation is done, nothing
    /// changes.
    pub fn drain_once(
        &mut self,
        queue: &mut TaskQueue<W>,
        devtools: &crossbeam_channel::Receiver<D>,
    ) -> (r: bool)
        requires
            old(self).wf(),
            old(self).phase() == Phase::Draining || old(self).phase() == Phase::Done,
            old(queue).wf(),
        ensures
            final(self).wf(),
            final(queue).wf(),
            final(queue).bound() == old(queue).bound(),
            final(self).calls() == old(self).calls(),
            final(self).post_event() == old(self).post_event(),
            final(self).disconnected() == old(self).disconnected(),
            final(self).stopped_at() == old(self).stopped_at(),
            old(self).phase() == Phase::Done ==> !r && *final(self) == *old(self)
                && final(queue).lanes() == old(queue).lanes(),
            old(self).phase() == Phase::Draining ==> {
                &&& r ==> final(self).phase() == Phase::Draining
                &&& !r ==> final(self).phase() == Phase::Processing && final(self).handed_out() == 0
                    && !final(self).awaiting_answer() && final(self).batch() == old(self).batch()
                &&& exists|incoming: Seq<QueuedTask<W>>|
                    {
                        let (lanes, t) = pop_lanes(
                            #[trigger] drain_lanes(old(queue).lanes(), old(queue).bound(), incoming),
                        );
                        &&& final(queue).lanes() == lanes
                        &&& match t {
                            Some(w) => r && final(self).batch() == old(self).batch().push(
                                Event::<C, W, D>::Worker(w),
                            ),
                            None => if r {
                                &&& final(self).batch() == old(self).batch().push(final(self).batch().last())
                                &&& final(self).batch().last() is Devtools
                            } else {
                                final(self).batch() == old(self).batch()
                            },
                        }
                    }
            },
    {
        if self.phase == Phase::Done {
            return false;
        }
        match queue.take_tasks_and_recv() {
            Some(w) => {
                self.events.push(Event::Worker(w));
                self.gathered = Ghost(self.events@);
                assert(self.events@.len() == self.events.len());
                true
            },
            None => match try_receive(devtools) {
                Some(d) => {
                    self.events.push(Event::Devtools(d));
                    self.gathered = Ghost(self.events@);
                    assert(self.events@.len() == self.events.len());
                    true
                },
                None => {
                    self.phase = Phase::Processing;
                    proof {
                        assert(seq![Call::DispatchTimers] + handled_calls(self.gathered@, 0) =~= seq![
                            Call::<Event<C, W, D>>::DispatchTimers]);
                        assert(self.events@ =~= self.gathered@.subrange(0, self.gathered@.len() as int));
                    }
                    false
                },
            },
        }
    }
    /// The next call to make on the worker. `answer` is the handler's answer to
    /// the event handed out last, and is read only while one is due. Every event
    /// is handed out in the order of the batch; an answer `true` is followed by a
    /// microtask checkpoint, an answer `false` ends the invocation, and a batch
    /// handed out to its end is followed by one garbage-collection checkpoint.
    pub fn next_call(&mut self, answer: bool) -> (r: Action<Event<C, W, D>>)
        requires
            old(self).wf(),
            old(self).phase() == Phase::Dispatch || old(self).phase() == Phase::Processing,
        ensures
            final(self).wf(),
            final(self).batch() == old(self).batch(),
            final(self).post_event() == old(self).post_event(),
            final(self).disconnected() == old(self).disconnected(),
            old(self).phase() == Phase::Dispatch ==> {
                &&& r is DispatchTimers
                &&& final(self).calls() == old(self).calls().push(Call::DispatchTimers)
                &&& final(self).phase() == if old(self).disconnected() {
                    Phase::Done
                } else {
                    Phase::Draining
                }
                &&& final(self).stopped_at().is_none()
            },
            old(self).phase() == Phase::Processing && old(self).awaiting_answer() && !answer ==> {
                &&& r is Return
                &&& final(self).phase() == Phase::Done
                &&& final(self).stopped_at() == Some((old(self).handed_out() - 1) as nat)
                &&& final(self).calls() == old(self).calls().push(
                    Call::Handle(old(self).batch()[old(self).handed_out() - 1], false),
                )
            },
            old(self).phase() == Phase::Processing && old(self).awaiting_answer() && answer ==> {
                &&& r == Action::<Event<C, W, D>>::MicrotaskCheckpoint { post_event: old(self).post_event() }
                &&& final(self).phase() == Phase::Processing
                &&& !final(self).awaiting_answer()
                &&& final(self).handed_out() == old(self).handed_out()
                &&& final(self).calls() == old(self).calls().push(
                    Call::Handle(old(self).batch()[old(self).handed_out() - 1], true),
                ).push(Call::MicrotaskCheckpoint)
            },
            old(self).phase() == Phase::Processing && !old(self).awaiting_answer()
                && old(self).handed_out() < old(self).batch().len() ==> {
                &&& r == Action::Handle(old(self).batch()[old(self).handed_out() as int])
                &&& final(self).phase() == Phase::Processing
                &&& final(self).awaiting_answer()
                &&& final(self).handed_out() == old(self).handed_out() + 1
                &&& final(self).calls() == old(self).calls()
            },
            old(self).phase() == Phase::Processing && !old(self).awaiting_answer()
                && old(self).handed_out() >= old(self).batch().len() ==> {
                &&& r is GcCheckpoint
                &&& final(self).phase() == Phase::Done
                &&& final(self).stopped_at().is_none()
                &&& final(self).calls() == old(self).calls().push(Call::GcCheckpoint)
            },
            final(self).phase() == Phase::Done && !final(self).disconnected() ==> stop_in(
                final(self).batch().len(),
                final(self).stopped_at(),
            ) && final(self).calls() == seq![Call::DispatchTimers] + batch_calls(
                final(self).batch(),
                final(self).stopped_at(),
            ),
            final(self).phase() == Phase::Done && final(self).disconnected() ==> final(self).calls()
                == seq![Call::<Event<C, W, D>>::DispatchTimers],
    {
        let ghost g = self.gathered@;
        if self.phase == Phase::Dispatch {
            self.log = Ghost(self.log@.push(Call::DispatchTimers));
            self.phase = if self.disconnected {
                Phase::Done
            } else {
                Phase::Draining
            };
            proof {
                assert(self.log@ =~= seq![Call::<Event<C, W, D>>::DispatchTimers]);
            }
            return Action::DispatchTimers;
        }
        if self.awaiting {
            let ghost h = self.handled as nat;
            self.awaiting = false;
            if !answer {
                self.stop = Some(self.handled - 1);
                self.phase = Phase::Done;
                self.log = Ghost(self.log@.push(Call::Handle(g[h - 1], false)));
                proof {
                    assert(self.log@ =~= seq![Call::DispatchTimers] + batch_calls(g, Some((h - 1) as nat)));
                }
                Action::Return
            } else {
                self.log = Ghost(self.log@.push(Call::Handle(g[h - 1], true)).push(Call::MicrotaskCheckpoint));
                proof {
                    assert(handled_calls(g, h) =~= handled_calls(g, (h - 1) as nat).push(
                        Call::Handle(g[h - 1], true),
                    ).push(Call::MicrotaskCheckpoint));
                    assert(self.log@ =~= seq![Call::DispatchTimers] + handled_calls(g, h));
                }
                Action::MicrotaskCheckpoint { post_event: self.post_event }
            }
        } else if self.events.len() > 0 {
            let e = self.events.remove(0);
            proof {
                assert(e == g[self.handled as int]);
                assert(self.events@ =~= g.subrange(self.handled + 1, g.len() as int));
            }
            self.handled = self.handled + 1;
            self.awaiting = true;
            Action::Handle(e)
        } else {
            self.phase = Phase::Done;
            self.log = Ghost(self.log@.push(Call::GcCheckpoint));
            proof {
                assert(self.handled == g.len());
                assert(self.log@ =~= seq![Call::DispatchTimers] + batch_calls(g, None));
            }
            Action::GcCheckpoint
        }
    }
}

} // verus!
