use crossbeam_channel::{never, unbounded, Receiver};
use worker_event_loop::event_loop::{
    first_event, pick_source, Action, Event, Invocation, Readiness, Source,
    WorkerEventLoopMethods, Woken,
};
use worker_event_loop::task_queue::{QueuedTask, TaskQueue};

type Ev = Event<&'static str, &'static str, &'static str>;

struct Recorder {
    calls: Vec<String>,
    refuse_at: Option<usize>,
    handled: usize,
}

impl Recorder {
    fn new(refuse_at: Option<usize>) -> Recorder {
        Recorder { calls: Vec::new(), refuse_at, handled: 0 }
    }
}

fn name(e: &Ev) -> String {
    match e {
        Event::Control(c) => format!("control:{}", c),
        Event::Worker(w) => format!("task:{}", w),
        Event::Devtools(d) => format!("devtools:{}", d),
        Event::Timer => "timer".to_string(),
    }
}

impl WorkerEventLoopMethods<Ev> for Recorder {
    fn handle_event(&mut self, event: Ev) -> bool {
        self.calls.push(name(&event));
        let k = self.handled;
        self.handled += 1;
        self.refuse_at != Some(k)
    }
    fn handle_worker_post_event(&mut self) {
        self.calls.push("post".to_string());
    }
    fn release_worker_post_event(&mut self) {
        self.calls.push("release".to_string());
    }
    fn perform_a_microtask_checkpoint(&mut self) {
        self.calls.push("microtask".to_string());
    }
    fn perform_a_dom_garbage_collection_checkpoint(&mut self) {
        self.calls.push("gc".to_string());
    }
    fn dispatch_completed_timers(&mut self) {
        self.calls.push("timers".to_string());
    }
}

fn task(t: &'static str) -> QueuedTask<&'static str> {
    QueuedTask { priority: false, task: t }
}

struct Outcome {
    shutdown_at: Option<usize>,
}

fn invoke(
    worker: &mut Recorder,
    woken: Woken<&'static str, &'static str, &'static str>,
    queue: &mut TaskQueue<&'static str>,
    devtools: &Receiver<&'static str>,
    post_event: bool,
) -> Outcome {
    let mut inv = Invocation::begin(woken, queue, post_event);
    let mut answer = true;
    while !inv.is_done() {
        match inv.next_call(answer) {
            Action::DispatchTimers => {
                worker.dispatch_completed_timers();
                while inv.drain_once(queue, devtools) {}
            },
            Action::Handle(e) => answer = worker.handle_event(e),
            Action::MicrotaskCheckpoint { post_event } => {
                if post_event {
                    worker.handle_worker_post_event();
                }
                worker.perform_a_microtask_checkpoint();
                if post_event {
                    worker.release_worker_post_event();
                }
            },
            Action::GcCheckpoint => worker.perform_a_dom_garbage_collection_checkpoint(),
            Action::Return => {},
        }
    }
    Outcome { shutdown_at: inv.shutdown_at() }
}

fn handled(worker: &Recorder) -> Vec<String> {
    worker
        .calls
        .iter()
        .filter(|c| c.starts_with("task") || c.starts_with("control") || c.starts_with("devtools") || c.as_str() == "timer")
        .cloned()
        .collect()
}

#[test]
fn control_first_then_tasks_in_order() {
    let (ctl_tx, ctl_rx) = unbounded();
    let (tx, rx) = unbounded();
    ctl_tx.send("M1").unwrap();
    tx.send(task("T1")).unwrap();
    tx.send(task("T2")).unwrap();
    let mut queue = TaskQueue::new(rx, 8);
    let devtools = never();
    let ready = Readiness { control: true, task_queue: true, devtools: false, timer: false };
    assert_eq!(pick_source(ready, 0), Some(Source::Control));
    let woken = Woken::Control(ctl_rx.try_recv().ok());
    let mut w = Recorder::new(None);
    let out = invoke(&mut w, woken, &mut queue, &devtools, false);
    assert_eq!(handled(&w), vec!["control:M1", "task:T1", "task:T2"]);
    assert_eq!(out.shutdown_at, None);
    assert_eq!(w.calls.len(), 1 + 2 * 3 + 1);
}

#[test]
fn task_first_leaves_control_for_next_invocation() {
    let (ctl_tx, ctl_rx) = unbounded::<&'static str>();
    let (tx, rx) = unbounded();
    ctl_tx.send("M1").unwrap();
    tx.send(task("T1")).unwrap();
    tx.send(task("T2")).unwrap();
    let mut queue = TaskQueue::new(rx, 8);
    let devtools = never();
    let ready = Readiness { control: true, task_queue: true, devtools: false, timer: false };
    assert_eq!(pick_source(ready, 1), Some(Source::TaskQueue));
    let woken = Woken::TaskQueue(queue.select().try_recv().ok());
    let mut w = Recorder::new(None);
    invoke(&mut w, woken, &mut queue, &devtools, false);
    assert_eq!(handled(&w), vec!["task:T1", "task:T2"]);
    assert_eq!(ctl_rx.len(), 1);
    let mut w2 = Recorder::new(None);
    invoke(&mut w2, Woken::Control(ctl_rx.try_recv().ok()), &mut queue, &devtools, false);
    assert_eq!(handled(&w2), vec!["control:M1"]);
}

#[test]
fn shutdown_on_second_of_four_tasks() {
    let (tx, rx) = unbounded();
    for t in ["E1", "E2", "E3", "E4"] {
        tx.send(task(t)).unwrap();
    }
    let mut queue = TaskQueue::new(rx, 8);
    let devtools = never();
    let woken = Woken::TaskQueue(queue.select().try_recv().ok());
    let mut w = Recorder::new(Some(1));
    let out = invoke(&mut w, woken, &mut queue, &devtools, false);
    assert_eq!(out.shutdown_at, Some(1));
    assert_eq!(w.calls, vec!["timers", "task:E1", "microtask", "task:E2"]);
    assert_eq!(queue.take_tasks_and_recv(), None);
}

#[test]
fn invocation_asks_for_each_call_in_turn() {
    let (tx, rx) = unbounded();
    tx.send(task("T1")).unwrap();
    let mut queue = TaskQueue::new(rx, 8);
    let devtools = never();
    let mut inv: Invocation<&str, &str, &str> = Invocation::begin(Woken::Timer, &mut queue, true);
    assert!(matches!(inv.next_call(true), Action::DispatchTimers));
    assert!(inv.drain_once(&mut queue, &devtools));
    assert!(!inv.drain_once(&mut queue, &devtools));
    assert!(matches!(inv.next_call(true), Action::Handle(Event::Timer)));
    assert!(matches!(inv.next_call(true), Action::MicrotaskCheckpoint { post_event: true }));
    assert!(matches!(inv.next_call(true), Action::Handle(Event::Worker("T1"))));
    assert!(matches!(inv.next_call(false), Action::Return));
    assert!(inv.is_done());
    assert_eq!(inv.shutdown_at(), Some(1));
}

#[test]
fn items_queued_before_closing_are_delivered() {
    let (tx, rx) = unbounded();
    tx.send(task("A")).unwrap();
    tx.send(task("B")).unwrap();
    // The worker closes now; its owner refuses any further enqueue, so "C" never
    // reaches the channel.
    let closing = true;
    if !closing {
        tx.send(task("C")).unwrap();
    }
    let mut queue = TaskQueue::new(rx, 8);
    let devtools = never();
    let woken = Woken::TaskQueue(queue.select().try_recv().ok());
    let mut w = Recorder::new(None);
    let out = invoke(&mut w, woken, &mut queue, &devtools, false);
    assert_eq!(handled(&w), vec!["task:A", "task:B"]);
    assert_eq!(out.shutdown_at, None);
}

#[test]
fn checkpoint_after_each_event_and_one_gc() {
    let (tx, rx) = unbounded();
    tx.send(task("T1")).unwrap();
    tx.send(task("T2")).unwrap();
    let mut queue = TaskQueue::new(rx, 8);
    let devtools = never();
    let mut w = Recorder::new(None);
    let out = invoke(&mut w, Woken::Timer, &mut queue, &devtools, true);
    assert_eq!(
        w.calls,
        vec![
            "timers", "timer", "post", "microtask", "release", "task:T1", "post", "microtask",
            "release", "task:T2", "post", "microtask", "release", "gc"
        ]
    );
    assert_eq!(out.shutdown_at, None);
}

#[test]
fn timers_dispatched_once_whatever_woke_the_wait() {
    let devtools_none = never();
    let wakes: Vec<Woken<&'static str, &'static str, &'static str>> = vec![
        Woken::Control(Some("M")),
        Woken::Devtools(Some("D")),
        Woken::Timer,
        Woken::TaskQueue(Some(task("T"))),
        Woken::Control(None),
    ];
    for woken in wakes {
        let (_tx, rx) = unbounded();
        let mut queue = TaskQueue::new(rx, 8);
        let mut w = Recorder::new(None);
        invoke(&mut w, woken, &mut queue, &devtools_none, false);
        assert_eq!(w.calls.iter().filter(|c| c.as_str() == "timers").count(), 1);
        assert_eq!(w.calls[0], "timers");
    }
}

#[test]
fn disconnection_returns_without_processing() {
    let (_tx, rx) = unbounded();
    let mut queue = TaskQueue::new(rx, 8);
    let devtools = never();
    let mut w = Recorder::new(None);
    let out = invoke(&mut w, Woken::TaskQueue(None), &mut queue, &devtools, false);
    assert_eq!(w.calls, vec!["timers"]);
    assert_eq!(out.shutdown_at, None);
}

#[test]
fn devtools_drained_after_task_queue() {
    let (tx, rx) = unbounded();
    let (dtx, drx) = unbounded();
    tx.send(task("T1")).unwrap();
    dtx.send("D1").unwrap();
    dtx.send("D2").unwrap();
    let mut queue = TaskQueue::new(rx, 8);
    let mut w = Recorder::new(None);
    invoke(&mut w, Woken::Control(Some("M")), &mut queue, &drx, false);
    assert_eq!(handled(&w), vec!["control:M", "task:T1", "devtools:D1", "devtools:D2"]);
}

#[test]
fn each_queued_message_delivered_exactly_once() {
    let (tx, rx) = unbounded();
    for i in 0..20 {
        tx.send(QueuedTask { priority: i % 3 == 0, task: i }).unwrap();
    }
    let mut queue = TaskQueue::new(rx, 4);
    let mut seen = Vec::new();
    let first = queue.select().try_recv().unwrap();
    let ev: Option<Event<(), i32, ()>> = first_event(Woken::TaskQueue(Some(first)), &mut queue);
    match ev {
        Some(Event::Worker(t)) => seen.push(t),
        _ => panic!("expected a task"),
    }
    while let Some(t) = queue.take_tasks_and_recv() {
        seen.push(t);
    }
    let mut sorted = seen.clone();
    sorted.sort();
    assert_eq!(sorted, (0..20).collect::<Vec<i32>>());
    let prio: Vec<i32> = seen.iter().copied().filter(|t| t % 3 == 0).collect();
    let rest: Vec<i32> = seen.iter().copied().filter(|t| t % 3 != 0).collect();
    assert_eq!(prio, vec![0, 3, 6, 9, 12, 15, 18]);
    assert_eq!(rest, vec![1, 2, 4, 5, 7, 8, 10, 11, 13, 14, 16, 17, 19]);
}

#[test]
fn pick_source_exact_choices() {
    let none = Readiness { control: false, task_queue: false, devtools: false, timer: false };
    assert_eq!(pick_source(none, 7), None);
    let all = Readiness { control: true, task_queue: true, devtools: true, timer: true };
    assert_eq!(pick_source(all, 0), Some(Source::Control));
    assert_eq!(pick_source(all, 1), Some(Source::TaskQueue));
    assert_eq!(pick_source(all, 2), Some(Source::Devtools));
    assert_eq!(pick_source(all, 7), Some(Source::Timer));
    let two = Readiness { control: false, task_queue: true, devtools: false, timer: true };
    assert_eq!(pick_source(two, 4), Some(Source::TaskQueue));
    assert_eq!(pick_source(two, 5), Some(Source::Timer));
    assert_eq!(pick_source(two, u64::MAX), Some(Source::Timer));
}
