//! The task queue of one worker: a priority lane, a throttled lane of bounded
//! length, and the non-priority tasks deferred to a later drain.

use vstd::prelude::*;

use crate::chan::take_available;

verus! {

/// A message as it travels on the worker's task channel: the payload and whether
/// it belongs to the priority class.
pub struct QueuedTask<T> {
    pub priority: bool,
    pub task: T,
}

/// The contents of a task queue, lane by lane, each in the order of arrival.
pub ghost struct Lanes<T> {
    pub priority: Seq<T>,
    pub normal: Seq<T>,
    pub deferred: Seq<T>,
}

/// Where one arriving task goes: a priority task always joins the priority lane;
/// another joins the throttled lane while it is shorter than `bound`, and is
/// deferred otherwise.
pub open spec fn accept_one<T>(l: Lanes<T>, bound: nat, q: QueuedTask<T>) -> Lanes<T> {
    if q.priority {
        Lanes { priority: l.priority.push(q.task), ..l }
    } else if l.normal.len() < bound {
        Lanes { normal: l.normal.push(q.task), ..l }
    } else {
        Lanes { deferred: l.deferred.push(q.task), ..l }
    }
}

/// The lanes after the tasks `qs` arrive one after another.
pub open spec fn accept_all<T>(l: Lanes<T>, bound: nat, qs: Seq<QueuedTask<T>>) -> Lanes<T>
    decreases qs.len(),
{
    if qs.len() == 0 {
        l
    } else {
        accept_one(accept_all(l, bound, qs.drop_last()), bound, qs.last())
    }
}

/// The tasks of `qs` whose class is `priority`, in order.
pub open spec fn of_class<T>(qs: Seq<QueuedTask<T>>, priority: bool) -> Seq<T>
    decreases qs.len(),
{
    if qs.len() == 0 {
        Seq::empty()
    } else if qs.last().priority == priority {
        of_class(qs.drop_last(), priority).push(qs.last().task)
    } else {
        of_class(qs.drop_last(), priority)
    }
}

/// Deferred tasks, taken up again as non-priority arrivals.
pub open spec fn as_normal<T>(ts: Seq<T>) -> Seq<QueuedTask<T>> {
    ts.map_values(|t: T| QueuedTask { priority: false, task: t })
}

/// A drain: the deferred tasks come back first, then the new arrivals.
pub open spec fn drain_lanes<T>(l: Lanes<T>, bound: nat, incoming: Seq<QueuedTask<T>>) -> Lanes<T> {
    accept_all(
        Lanes { deferred: Seq::empty(), ..l },
        bound,
        as_normal(l.deferred) + incoming,
    )
}

/// The lanes after a pop, and the task it gives: the head of the priority lane,
/// else the head of the throttled lane; deferred tasks wait for a drain.
pub open spec fn pop_lanes<T>(l: Lanes<T>) -> (Lanes<T>, Option<T>) {
    if l.priority.len() > 0 {
        (Lanes { priority: l.priority.drop_first(), ..l }, Some(l.priority[0]))
    } else if l.normal.len() > 0 {
        (Lanes { normal: l.normal.drop_first(), ..l }, Some(l.normal[0]))
    } else {
        (l, None)
    }
}

proof fn lemma_of_class_append<T>(a: Seq<QueuedTask<T>>, b: Seq<QueuedTask<T>>, p: bool)
    ensures
        of_class(a + b, p) == of_class(a, p) + of_class(b, p),
    decreases b.len(),
{
    if b.len() == 0 {
        assert(a + b =~= a);
        assert(of_class(a, p) + of_class(b, p) =~= of_class(a, p));
    } else {
        lemma_of_class_append(a, b.drop_last(), p);
        assert((a + b).drop_last() =~= a + b.drop_last());
        assert((a + b).last() == b.last());
        if b.last().priority == p {
            assert(of_class(a, p) + of_class(b.drop_last(), p).push(b.last().task) =~= (
            of_class(a, p) + of_class(b.drop_last(), p)).push(b.last().task));
        }
    }
}

proof fn lemma_of_class_as_normal<T>(d: Seq<T>)
    ensures
        of_class(as_normal(d), false) == d,
        of_class(as_normal(d), true) == Seq::<T>::empty(),
    decreases d.len(),
{
    if d.len() == 0 {
        assert(as_normal(d) =~= Seq::<QueuedTask<T>>::empty());
    } else {
        lemma_of_class_as_normal(d.drop_last());
        assert(as_normal(d).drop_last() =~= as_normal(d.drop_last()));
        assert(d.drop_last().push(d.last()) =~= d);
    }
}

proof fn lemma_accept_all_keeps_order<T>(l: Lanes<T>, bound: nat, qs: Seq<QueuedTask<T>>)
    requires
        l.deferred.len() > 0 ==> l.normal.len() >= bound,
    ensures
        ({
            let r = accept_all(l, bound, qs);
            &&& r.priority == l.priority + of_class(qs, true)
            &&& r.normal + r.deferred == l.normal + l.deferred + of_class(qs, false)
            &&& r.deferred.len() > 0 ==> r.normal.len() >= bound
        }),
    decreases qs.len(),
{
    if qs.len() == 0 {
        assert(l.priority + of_class(qs, true) =~= l.priority);
        assert(l.normal + l.deferred + of_class(qs, false) =~= l.normal + l.deferred);
    } else {
        lemma_accept_all_keeps_order(l, bound, qs.drop_last());
        let m = accept_all(l, bound, qs.drop_last());
        let q = qs.last();
        if q.priority {
            assert(m.priority.push(q.task) =~= l.priority + of_class(qs, true));
        } else if m.normal.len() < bound {
            assert(m.deferred.len() == 0);
            assert(m.normal.push(q.task) + m.deferred =~= (m.normal + m.deferred).push(q.task));
        } else {
            assert(m.normal + m.deferred.push(q.task) =~= (m.normal + m.deferred).push(q.task));
        }
    }
}

/// A drain loses no task and duplicates none: the priority lane gains exactly the
/// arriving priority tasks, and the throttled lane followed by the deferred tasks
/// holds the earlier non-priority tasks and then the arriving ones, each class in
/// the order in which it arrived.
pub proof fn lemma_drain_keeps_every_task<T>(l: Lanes<T>, bound: nat, incoming: Seq<QueuedTask<T>>)
    ensures
        ({
            let r = drain_lanes(l, bound, incoming);
            &&& r.priority == l.priority + of_class(incoming, true)
            &&& r.normal + r.deferred == l.normal + l.deferred + of_class(incoming, false)
        }),
{
    let start = Lanes { deferred: Seq::<T>::empty(), ..l };
    let all = as_normal(l.deferred) + incoming;
    lemma_accept_all_keeps_order(start, bound, all);
    lemma_of_class_append(as_normal(l.deferred), incoming, true);
    lemma_of_class_append(as_normal(l.deferred), incoming, false);
    lemma_of_class_as_normal(l.deferred);
    assert(Seq::<T>::empty() + of_class(incoming, true) =~= of_class(incoming, true));
    assert(start.normal + start.deferred =~= l.normal);
    assert(l.normal + (l.deferred + of_class(incoming, false)) =~= l.normal + l.deferred + of_class(
        incoming,
        false,
    ));
}

/// A drain holds back only non-priority tasks, and only once the throttled lane
/// is full.
pub proof fn lemma_drain_throttles_only_when_full<T>(l: Lanes<T>, bound: nat, incoming: Seq<QueuedTask<T>>)
    ensures
        drain_lanes(l, bound, incoming).deferred.len() > 0 ==> drain_lanes(l, bound, incoming).normal.len() >= bound,
{
    let start = Lanes { deferred: Seq::<T>::empty(), ..l };
    lemma_accept_all_keeps_order(start, bound, as_normal(l.deferred) + incoming);
}

/// A pop gives the task at the head of the first non-empty lane and keeps the
/// rest: the popped task followed by the lanes after it are the lanes before it.
pub proof fn lemma_pop_takes_exactly_one<T>(l: Lanes<T>)
    ensures
        ({
            let (r, t) = pop_lanes(l);
            &&& t.is_none() <==> (l.priority.len() == 0 && l.normal.len() == 0)
            &&& t.is_none() ==> r == l
            &&& l.priority.len() > 0 ==> t == Some(l.priority[0]) && seq![l.priority[0]] + r.priority == l.priority && r.normal == l.normal
            &&& l.priority.len() == 0 && l.normal.len() > 0 ==> t == Some(l.normal[0]) && seq![l.normal[0]] + r.normal == l.normal && r.priority == l.priority
            &&& r.deferred == l.deferred
        }),
{
    if l.priority.len() > 0 {
        assert(seq![l.priority[0]] + l.priority.drop_first() =~= l.priority);
    } else if l.normal.len() > 0 {
        assert(seq![l.normal[0]] + l.normal.drop_first() =~= l.normal);
    }
}

/// The buffered task queue of a worker, fed by the receiving end of its channel.
#[verifier::reject_recursive_types(T)]
pub struct TaskQueue<T> {
    port: crossbeam_channel::Receiver<QueuedTask<T>>,
    priority: std::collections::VecDeque<T>,
    normal: std::collections::VecDeque<T>,
    deferred: std::collections::VecDeque<T>,
    bound: usize,
}

impl<T> TaskQueue<T> {
    pub closed spec fn lanes(&self) -> Lanes<T> {
        Lanes { priority: self.priority@, normal: self.normal@, deferred: self.deferred@ }
    }

    /// The longest that the throttled lane may grow.
    pub closed spec fn bound(&self) -> nat {
        self.bound as nat
    }

    /// The throttled lane never outgrows its bound.
    pub closed spec fn wf(&self) -> bool {
        &&& self.bound >= 1
        &&& self.normal@.len() <= self.bound
    }

    /// An empty queue over `port`, whose throttled lane holds at most `bound` tasks.
    pub fn new(port: crossbeam_channel::Receiver<QueuedTask<T>>, bound: usize) -> (r: Self)
        requires
            bound >= 1,
        ensures
            r.wf(),
            r.bound() == bound,
            r.lanes() == (Lanes::<T> { priority: seq![], normal: seq![], deferred: seq![] }),
    {
        TaskQueue {
            port,
            priority: std::collections::VecDeque::new(),
            normal: std::collections::VecDeque::new(),
            deferred: std::collections::VecDeque::new(),
            bound,
        }
    }

    /// The receiving end, to wait on until a task may be available.
    pub fn select(&self) -> (r: &crossbeam_channel::Receiver<QueuedTask<T>>) {
        &self.port
    }

    fn accept(&mut self, q: QueuedTask<T>)
        requires
            old(self).wf(),
        ensures
            final(self).wf(),
            final(self).bound() == old(self).bound(),
            final(self).lanes() == accept_one(old(self).lanes(), old(self).bound(), q),
    {
        if q.priority {
            self.priority.push_back(q.task);
        } else if self.normal.len() < self.bound {
            self.normal.push_back(q.task);
        } else {
            self.deferred.push_back(q.task);
        }
    }

    /// Takes the deferred tasks back, then every task of `incoming`, in order.
    pub fn take_tasks_from(&mut self, incoming: Vec<QueuedTask<T>>)
        requires
            old(self).wf(),
        ensures
            final(self).wf(),
            final(self).bound() == old(self).bound(),
            final(self).lanes() == drain_lanes(old(self).lanes(), old(self).bound(), incoming@),
            incoming@.len() > 0 ==> final(self).lanes().priority.len() + final(self).lanes().normal.len() > 0,
    {
        let ghost start = Lanes { deferred: Seq::<T>::empty(), ..self.lanes() };
        let ghost back = as_normal(self.deferred@);
        let ghost all = back + incoming@;
        let mut waiting = std::collections::VecDeque::new();
        std::mem::swap(&mut waiting, &mut self.deferred);
        let ghost w0 = waiting@;
        let wlen = waiting.len();
        let mut i: usize = 0;
        while i < wlen
            invariant
                self.wf(),
                self.bound == old(self).bound,
                0 <= i <= wlen,
                wlen == w0.len(),
                w0 == old(self).deferred@,
                back == as_normal(w0),
                all == back + incoming@,
                waiting@ == w0.subrange(i as int, w0.len() as int),
                self.lanes() == accept_all(start, self.bound as nat, all.take(i as int)),
            decreases wlen - i,
        {
            let t = waiting.pop_front().unwrap();
            proof {
                assert(all.take(i + 1).drop_last() =~= all.take(i as int));
                assert(all.take(i + 1).last() == QueuedTask { priority: false, task: t });
            }
            self.accept(QueuedTask { priority: false, task: t });
            i = i + 1;
        }
        let mut arriving = incoming;
        let ghost n = back.len();
        let mut j: usize = 0;
        let len = arriving.len();
        proof {
            assert(arriving@.subrange(0, len as int) =~= incoming@);
        }
        while j < len
            invariant
                self.wf(),
                self.bound == old(self).bound,
                0 <= j <= len,
                len == incoming@.len(),
                n == back.len(),
                all == back + incoming@,
                arriving@ == incoming@.subrange(j as int, len as int),
                j > 0 ==> self.priority@.len() + self.normal@.len() > 0,
                self.lanes() == accept_all(start, self.bound as nat, all.take(n + j)),
            decreases len - j,
        {
            let q = arriving.remove(0);
            proof {
                assert(all.take(n + j + 1).drop_last() =~= all.take(n + j));
                assert(all.take(n + j + 1).last() == q);
                assert(arriving@ =~= incoming@.subrange(j + 1, len as int));
            }
            self.accept(q);
            j = j + 1;
        }
        proof {
            assert(all.take(n + len) =~= all);
        }
    }

    /// Takes `first` and every task that the channel holds now.
    pub fn take_tasks(&mut self, first: QueuedTask<T>)
        requires
            old(self).wf(),
        ensures
            final(self).wf(),
            final(self).bound() == old(self).bound(),
            exists|later: Seq<QueuedTask<T>>|
                final(self).lanes() == drain_lanes(old(self).lanes(), old(self).bound(), seq![first] + later),
            final(self).lanes().priority.len() + final(self).lanes().normal.len() > 0,
    {
        let mut incoming = vec![first];
        let mut later = take_available(&self.port);
        let ghost l = later@;
        incoming.append(&mut later);
        self.take_tasks_from(incoming);
        assert(incoming@ =~= seq![first] + l);
    }

    /// The next buffered task: priority tasks first, each lane in arrival order.
    pub fn recv(&mut self) -> (r: Option<T>)
        requires
            old(self).wf(),
        ensures
            final(self).wf(),
            final(self).bound() == old(self).bound(),
            (final(self).lanes(), r) == pop_lanes(old(self).lanes()),
    {
        if self.priority.len() > 0 {
            self.priority.pop_front()
        } else {
            self.normal.pop_front()
        }
    }

    /// A non-blocking drain of the channel, then a pop; `None` when nothing is
    /// buffered, whether the channel is empty or disconnected.
    pub fn take_tasks_and_recv(&mut self) -> (r: Option<T>)
        requires
            old(self).wf(),
        ensures
            final(self).wf(),
            final(self).bound() == old(self).bound(),
            exists|incoming: Seq<QueuedTask<T>>|
                (final(self).lanes(), r) == pop_lanes(
                    drain_lanes(old(self).lanes(), old(self).bound(), incoming),
                ),
    {
        let incoming = take_available(&self.port);
        self.take_tasks_from(incoming);
        self.recv()
    }
}

} // verus!
