//! The queue with its workers taking turns on one thread.

use std::cell::{Cell, RefCell};
use std::rc::Rc;
use std::time::{Duration, Instant};
use task_queue::{
    worker_loop, DrainStep, JoinStep, Priority, TaskError, TaskHandle, TaskQueue, TaskQueueStats,
    WorkerAction, WorkerEvent,
};

/// A task, which returns `None` where a thread would have caught a panic.
type Task<T> = Box<dyn FnOnce() -> Option<T>>;
type Callback = Box<dyn Fn(bool, Duration)>;

/// A task that a worker has been given and has not executed yet.
struct Started<T> {
    worker: usize,
    task: Task<T>,
    enqueued_at: Instant,
}

/// A queue and its workers.
struct Pool<T> {
    queue: TaskQueue<Task<T>, T, Callback>,
}

impl<T> Pool<T> {
    fn new(concurrency: usize) -> Self {
        Pool { queue: TaskQueue::new(concurrency) }
    }

    fn with_capacity(concurrency: usize, max_queued: usize) -> Self {
        Pool { queue: TaskQueue::with_capacity(concurrency, max_queued) }
    }

    fn submit<F: FnOnce() -> T + 'static>(&mut self, task: F) -> TaskHandle<T> {
        self.submit_with_priority(Priority::Normal, task)
    }

    fn submit_with_priority<F: FnOnce() -> T + 'static>(
        &mut self,
        priority: Priority,
        task: F,
    ) -> TaskHandle<T> {
        assert!(!self.queue.is_exhausted());
        self.queue.submit_with_priority(priority, Box::new(move || Some(task()))).0
    }

    fn submit_panicking(&mut self) -> TaskHandle<T> {
        assert!(!self.queue.is_exhausted());
        self.queue.submit(Box::new(|| None)).0
    }

    fn on_complete<G: Fn(bool, Duration) + 'static>(&mut self, callback: G) {
        self.queue.on_complete(Box::new(callback));
    }

    /// Lets an idle worker ask for a task.
    fn start(&mut self, worker: usize) -> Option<Started<T>> {
        match worker_loop(&mut self.queue, worker, WorkerEvent::Ready) {
            WorkerAction::Run { task, enqueued_at } => Some(Started { worker, task, enqueued_at }),
            WorkerAction::Wait | WorkerAction::Exit => None,
            _ => panic!("an idle worker was asked to report"),
        }
    }

    /// Executes what a worker was given, up to the handover of the outcome.
    fn execute(&mut self, started: Started<T>) {
        let started_at = Instant::now();
        assert!(started.enqueued_at <= started_at);
        let returned = (started.task)();
        let finished_at = Instant::now();
        let event = WorkerEvent::Finished { returned, started_at, finished_at };
        match worker_loop(&mut self.queue, started.worker, event) {
            WorkerAction::Report { success, elapsed } => {
                if let Some(callback) = self.queue.callback() {
                    callback(success, elapsed);
                }
            }
            _ => panic!("a finished task was not to be reported"),
        }
    }

    /// Hands over the outcome of what a worker has executed.
    fn deliver(&mut self, worker: usize) -> Option<Result<T, TaskError>> {
        match worker_loop(&mut self.queue, worker, WorkerEvent::Reported) {
            WorkerAction::Continue { unclaimed } => unclaimed,
            _ => panic!("a reported task was not the end of it"),
        }
    }

    /// Lets an idle worker take and finish a task, if there is one for it.
    fn run_one(&mut self, worker: usize) -> bool {
        match self.start(worker) {
            Some(started) => {
                self.execute(started);
                self.deliver(worker);
                true
            }
            None => false,
        }
    }

    /// Lets one worker finish all tasks that there are for it.
    fn run_all(&mut self, worker: usize) {
        while self.run_one(worker) {}
    }

    /// Waits for the result, with worker 0 at work.
    fn join(&mut self, handle: TaskHandle<T>) -> Result<T, TaskError> {
        let mut handle = handle;
        loop {
            match handle.join(&mut self.queue) {
                JoinStep::Done(result) => return result,
                JoinStep::Wait(again) => handle = again,
            }
            assert!(self.run_one(0), "nothing is left to wait for");
        }
    }

    /// Drains the queue, with worker 0 at work.
    fn drain(&mut self) {
        loop {
            match self.queue.drain() {
                DrainStep::Stop => return,
                DrainStep::Wait => assert!(self.run_one(0), "nothing is left to wait for"),
            }
        }
    }
}

fn spend(time: Duration) {
    let begin = Instant::now();
    while begin.elapsed() < time {}
}

#[test]
fn submit_and_join() {
    let mut pool = Pool::new(1);
    let handle = pool.submit(|| 42);
    assert_eq!(pool.join(handle).unwrap(), 42);
    pool.queue.shutdown();
}

#[test]
fn submit_multiple_tasks_all_complete() {
    let mut pool = Pool::new(2);
    let mut handles = Vec::new();
    for i in 0..10usize {
        handles.push(pool.submit(move || i * 2));
    }
    for (i, handle) in handles.into_iter().enumerate() {
        assert_eq!(pool.join(handle).unwrap(), i * 2);
    }
    pool.queue.shutdown();
}

#[test]
fn priority_ordering() {
    let mut pool = Pool::new(1);
    let order = Rc::new(RefCell::new(Vec::new()));

    pool.submit(|| ());
    let blocking = pool.start(0).unwrap();

    let o = order.clone();
    let h_low = pool.submit_with_priority(Priority::Low, move || o.borrow_mut().push("low"));
    let o = order.clone();
    let h_high = pool.submit_with_priority(Priority::High, move || o.borrow_mut().push("high"));
    let o = order.clone();
    let h_normal =
        pool.submit_with_priority(Priority::Normal, move || o.borrow_mut().push("normal"));

    pool.execute(blocking);
    pool.deliver(0);

    pool.join(h_low).unwrap();
    pool.join(h_high).unwrap();
    pool.join(h_normal).unwrap();

    assert_eq!(*order.borrow(), vec!["high", "normal", "low"]);
    pool.queue.shutdown();
}

#[test]
fn is_done_returns_false_then_true() {
    let mut pool = Pool::new(1);
    let handle = pool.submit(|| 99);
    assert!(!handle.is_done(&pool.queue));
    let blocked = pool.start(0).unwrap();
    assert!(!handle.is_done(&pool.queue));

    pool.execute(blocked);
    assert!(!handle.is_done(&pool.queue));
    pool.deliver(0);
    assert!(handle.is_done(&pool.queue));

    assert_eq!(pool.join(handle).unwrap(), 99);
    pool.queue.shutdown();
}

#[test]
fn shutdown_completes_running_tasks() {
    let mut pool = Pool::new(1);
    let sent = Rc::new(Cell::new(false));
    let s = sent.clone();
    let handle = pool.submit(move || s.set(true));
    let running = pool.start(0).unwrap();

    assert!(pool.queue.shutdown().is_empty());
    assert!(!handle.is_done(&pool.queue));

    pool.execute(running);
    pool.deliver(0);
    assert!(sent.get());
    assert!(matches!(pool.join(handle), Ok(())));
    assert!(matches!(worker_loop(&mut pool.queue, 0, WorkerEvent::Ready), WorkerAction::Exit));
}

#[test]
fn panicking_task_returns_panicked_error() {
    let mut pool = Pool::new(1);
    let handle = pool.submit_panicking();
    match pool.join(handle) {
        Err(TaskError::Panicked) => {}
        other => panic!("expected TaskError::Panicked, got {:?}", other.err()),
    }

    let handle = pool.submit(|| 123);
    assert_eq!(pool.join(handle).unwrap(), 123);
    pool.queue.shutdown();
}

#[test]
fn concurrency_limit_is_respected() {
    let concurrency = 3;
    let mut pool = Pool::new(concurrency);
    let mut handles = Vec::new();
    for _ in 0..concurrency * 2 {
        handles.push(pool.submit(|| ()));
    }

    let mut observed_max = 0;
    for _ in 0..2 {
        let mut running = Vec::new();
        for worker in 0..concurrency {
            running.push(pool.start(worker).unwrap());
            observed_max = observed_max.max(pool.queue.stats().in_flight);
        }
        for started in running {
            let worker = started.worker;
            pool.execute(started);
            pool.deliver(worker);
        }
    }
    for handle in handles {
        pool.join(handle).unwrap();
    }
    assert!(
        observed_max <= concurrency as u64,
        "max concurrent tasks ({observed_max}) exceeded concurrency limit ({concurrency})"
    );
    assert_eq!(observed_max, 3);
    assert_eq!(pool.queue.stats().in_flight, 0);
    pool.queue.shutdown();
}

#[test]
fn stats_tracks_submitted_and_completed() {
    let mut pool = Pool::new(2);
    let mut handles = Vec::new();
    for i in 0..5 {
        handles.push(pool.submit(move || i));
    }
    for handle in handles {
        pool.join(handle).unwrap();
    }

    let s = pool.queue.stats();
    assert_eq!(s.total_submitted, 5);
    assert_eq!(s.completed, 5);
    assert_eq!(s.failed, 0);
    assert_eq!(s.in_flight, 0);
    pool.queue.shutdown();
}

#[test]
fn stats_tracks_failures() {
    let mut pool = Pool::new(1);
    let h1 = pool.submit_panicking();
    assert!(pool.join(h1).is_err());
    let h2 = pool.submit(|| 42);
    assert_eq!(pool.join(h2).unwrap(), 42);

    let s = pool.queue.stats();
    assert_eq!(s.total_submitted, 2);
    assert_eq!(s.completed, 1);
    assert_eq!(s.failed, 1);
    pool.queue.shutdown();
}

#[test]
fn drain_completes_all_pending_tasks() {
    let mut pool = Pool::new(1);
    let counter = Rc::new(Cell::new(0));
    for _ in 0..10 {
        let c = counter.clone();
        pool.submit(move || c.set(c.get() + 1));
    }

    pool.drain();
    assert_eq!(counter.get(), 10);
}

#[test]
fn drain_rejects_new_submissions() {
    let mut pool = Pool::new(1);
    pool.submit(|| ());
    let blocking = pool.start(0).unwrap();

    let counter = Rc::new(Cell::new(0));
    let c = counter.clone();
    pool.submit(move || c.set(c.get() + 1));

    assert!(matches!(pool.queue.drain(), DrainStep::Wait));
    let c = counter.clone();
    let late = pool.submit(move || c.set(c.get() + 100));
    assert!(late.is_done(&pool.queue));
    assert!(matches!(pool.join(late), Err(TaskError::Cancelled)));

    pool.execute(blocking);
    pool.deliver(0);
    pool.drain();
    assert_eq!(counter.get(), 1);
}

#[test]
fn on_complete_callback_fires_on_success() {
    let mut pool = Pool::new(1);
    let call_count = Rc::new(Cell::new(0));
    let success_count = Rc::new(Cell::new(0));
    let cc = call_count.clone();
    let sc = success_count.clone();
    pool.on_complete(move |success, dur| {
        cc.set(cc.get() + 1);
        if success {
            sc.set(sc.get() + 1);
        }
        assert!(dur.as_nanos() > 0);
    });

    let handle = pool.submit(|| {
        spend(Duration::from_micros(1));
        42
    });
    assert_eq!(pool.join(handle).unwrap(), 42);

    assert_eq!(call_count.get(), 1);
    assert_eq!(success_count.get(), 1);
    pool.queue.shutdown();
}

#[test]
fn on_complete_callback_fires_on_failure() {
    let mut pool: Pool<()> = Pool::new(1);
    let failure_count = Rc::new(Cell::new(0));
    let fc = failure_count.clone();
    pool.on_complete(move |success, _dur| {
        if !success {
            fc.set(fc.get() + 1);
        }
    });

    let handle = pool.submit_panicking();
    assert!(pool.join(handle).is_err());
    assert_eq!(failure_count.get(), 1);
    pool.queue.shutdown();
}

#[test]
fn on_complete_callback_reports_duration() {
    let mut pool = Pool::new(1);
    let observed_duration = Rc::new(Cell::new(Duration::ZERO));
    let od = observed_duration.clone();
    pool.on_complete(move |_success, dur| od.set(dur));

    let handle = pool.submit(|| spend(Duration::from_millis(50)));
    pool.join(handle).unwrap();

    let dur = observed_duration.get();
    assert!(dur >= Duration::from_millis(40), "duration was {dur:?}");
    pool.queue.shutdown();
}

#[test]
fn replacing_callback() {
    let mut pool = Pool::new(1);
    let first_count = Rc::new(Cell::new(0));
    let second_count = Rc::new(Cell::new(0));

    let fc = first_count.clone();
    pool.on_complete(move |_, _| fc.set(fc.get() + 1));
    let handle = pool.submit(|| ());
    pool.join(handle).unwrap();

    let sc = second_count.clone();
    pool.on_complete(move |_, _| sc.set(sc.get() + 1));
    let handle = pool.submit(|| ());
    pool.join(handle).unwrap();

    assert_eq!(first_count.get(), 1);
    assert_eq!(second_count.get(), 1);
    pool.queue.shutdown();
}

#[test]
fn test_with_capacity_rejects_when_full() {
    let mut pool = Pool::with_capacity(1, 2);
    pool.queue.pause();

    let h1 = pool.submit(|| 1);
    let h2 = pool.submit(|| 2);
    let h3 = pool.submit(|| 3);

    pool.queue.resume();
    assert!(matches!(pool.join(h3), Err(TaskError::QueueFull)));
    assert!(pool.join(h1).is_ok());
    assert!(pool.join(h2).is_ok());
    pool.queue.shutdown();
}

#[test]
fn test_with_capacity_allows_within_limit() {
    let mut pool = Pool::with_capacity(2, 10);
    let mut handles = Vec::new();
    for i in 0..10usize {
        handles.push(pool.submit(move || i));
    }
    for (i, handle) in handles.into_iter().enumerate() {
        assert_eq!(pool.join(handle).unwrap(), i);
    }
    pool.queue.shutdown();
}

#[test]
fn test_pause_and_resume() {
    let mut pool = Pool::new(2);
    pool.queue.pause();

    let counter = Rc::new(Cell::new(0));
    let c = counter.clone();
    pool.submit(move || c.set(c.get() + 1));

    assert!(!pool.run_one(0));
    assert!(!pool.run_one(1));
    assert_eq!(counter.get(), 0);

    pool.queue.resume();
    pool.run_all(0);
    assert_eq!(counter.get(), 1);
    pool.queue.shutdown();
}

#[test]
fn test_is_paused() {
    let mut pool: Pool<()> = Pool::new(1);
    assert!(!pool.queue.is_paused());
    pool.queue.pause();
    assert!(pool.queue.is_paused());
    pool.queue.resume();
    assert!(!pool.queue.is_paused());
    pool.queue.shutdown();
}

#[test]
fn test_drain_overrides_pause() {
    let mut pool = Pool::new(2);
    pool.queue.pause();

    let counter = Rc::new(Cell::new(0));
    for _ in 0..5 {
        let c = counter.clone();
        pool.submit(move || c.set(c.get() + 1));
    }

    pool.drain();
    assert_eq!(counter.get(), 5);
}

#[test]
fn test_pending_count() {
    let mut pool = Pool::new(1);
    pool.queue.pause();

    assert_eq!(pool.queue.pending_count(), 0);
    pool.submit(|| 1);
    pool.submit(|| 2);
    assert_eq!(pool.queue.pending_count(), 2);

    pool.queue.resume();
    pool.run_all(0);
    assert_eq!(pool.queue.pending_count(), 0);
    pool.queue.shutdown();
}

#[test]
fn test_queue_full_error_display() {
    assert_eq!(TaskError::QueueFull.to_string(), "task rejected: queue is full");
}

#[test]
fn concurrent_enqueue_and_drain_completes_every_task() {
    let mut pool = Pool::new(4);
    let counter = Rc::new(Cell::new(0));
    let mut handles = Vec::new();
    for round in 0..25 {
        for _ in 0..8 {
            let c = counter.clone();
            handles.push(pool.submit(move || c.set(c.get() + 1)));
        }
        pool.run_one(round % 4);
    }
    for handle in handles {
        pool.join(handle).expect("task should succeed");
    }

    pool.drain();
    assert_eq!(counter.get(), 8 * 25);
}

#[test]
fn capacity_exhaustion_returns_queue_full() {
    let mut pool = Pool::with_capacity(1, 2);
    let blocker = pool.submit(|| 0);
    let blocked = pool.start(0).unwrap();

    let _h1 = pool.submit(|| 1);
    let _h2 = pool.submit(|| 2);

    let rejected = pool.submit(|| 3);
    match pool.join(rejected) {
        Err(TaskError::QueueFull) => {}
        other => panic!("expected QueueFull, got {other:?}"),
    }

    pool.execute(blocked);
    pool.deliver(0);
    assert_eq!(pool.join(blocker).unwrap(), 0);
    pool.drain();
}

#[test]
fn pause_blocks_processing_until_resume() {
    let mut pool = Pool::new(2);
    pool.queue.pause();
    assert!(pool.queue.is_paused());

    let counter = Rc::new(Cell::new(0));
    let mut handles = Vec::new();
    for _ in 0..5 {
        let c = counter.clone();
        handles.push(pool.submit(move || c.set(c.get() + 1)));
    }

    assert!(!pool.run_one(0));
    assert!(!pool.run_one(1));
    assert_eq!(counter.get(), 0);
    assert_eq!(pool.queue.pending_count(), 5);

    pool.queue.resume();
    assert!(!pool.queue.is_paused());
    for handle in handles {
        pool.join(handle).expect("task should run after resume");
    }
    assert_eq!(counter.get(), 5);
    pool.queue.shutdown();
}

#[test]
fn average_latency_is_some_after_work_completes() {
    let mut pool = Pool::new(2);
    assert!(pool.queue.stats().average_latency().is_none());

    let mut handles = Vec::new();
    for i in 0..6 {
        handles.push(pool.submit(move || {
            spend(Duration::from_millis(5));
            i
        }));
    }
    for handle in handles {
        pool.join(handle).unwrap();
    }

    let stats = pool.queue.stats();
    assert_eq!(stats.completed, 6);
    assert_eq!(stats.completed_latency_samples, 6);
    assert!(stats.total_latency_nanos > 0);
    let avg = stats.average_latency().expect("should have an average now");
    assert!(avg > Duration::from_nanos(0));
    pool.queue.shutdown();
}

#[test]
fn equal_priorities_run_in_order_of_submission() {
    let mut pool = Pool::new(1);
    let order = Rc::new(RefCell::new(Vec::new()));
    let submitted = [
        (Priority::Normal, 0),
        (Priority::High, 1),
        (Priority::Low, 2),
        (Priority::Normal, 3),
        (Priority::High, 4),
        (Priority::Low, 5),
        (Priority::High, 6),
    ];
    for (priority, number) in submitted {
        let o = order.clone();
        pool.submit_with_priority(priority, move || o.borrow_mut().push(number));
    }
    pool.run_all(0);
    assert_eq!(*order.borrow(), vec![1, 4, 6, 0, 3, 2, 5]);
}

#[test]
fn an_urgent_task_overtakes_waiting_ones_only() {
    let mut pool = Pool::new(1);
    let order = Rc::new(RefCell::new(Vec::new()));
    for name in ["first", "second"] {
        let o = order.clone();
        pool.submit_with_priority(Priority::Low, move || o.borrow_mut().push(name));
    }
    let running = pool.start(0).unwrap();
    let o = order.clone();
    pool.submit_with_priority(Priority::High, move || o.borrow_mut().push("urgent"));
    pool.execute(running);
    pool.deliver(0);
    pool.run_all(0);
    assert_eq!(*order.borrow(), vec!["first", "urgent", "second"]);
}

#[test]
fn refused_task_comes_back_unexecuted() {
    let mut queue: TaskQueue<u32, u32, ()> = TaskQueue::with_capacity(1, 0);
    let (handle, back) = queue.submit(7);
    assert_eq!(back, Some(7));
    assert!(handle.is_done(&queue));
    assert_eq!(queue.stats().total_submitted, 0);
    assert_eq!(queue.pending_count(), 0);
    assert!(matches!(handle.join(&mut queue), JoinStep::Done(Err(TaskError::QueueFull))));
}

#[test]
fn closing_wins_over_a_full_queue() {
    let mut queue: TaskQueue<u32, u32, ()> = TaskQueue::with_capacity(1, 1);
    let (first, back) = queue.submit(1);
    assert!(back.is_none());
    assert!(matches!(queue.drain(), DrainStep::Wait));
    let (second, back) = queue.submit(2);
    assert_eq!(back, Some(2));
    assert!(matches!(second.join(&mut queue), JoinStep::Done(Err(TaskError::Cancelled))));
    assert!(matches!(first.join(&mut queue), JoinStep::Wait(_)));
}

#[test]
fn a_freed_place_takes_the_next_task() {
    let mut pool = Pool::with_capacity(1, 1);
    let h1 = pool.submit(|| 1);
    let h2 = pool.submit(|| 2);
    assert!(matches!(pool.join(h2), Err(TaskError::QueueFull)));
    let running = pool.start(0).unwrap();
    let h3 = pool.submit(|| 3);
    assert!(!h3.is_done(&pool.queue));
    pool.execute(running);
    pool.deliver(0);
    assert_eq!(pool.join(h1).unwrap(), 1);
    assert_eq!(pool.join(h3).unwrap(), 3);
}

#[test]
fn shutdown_cancels_waiting_tasks_in_order() {
    let mut queue: TaskQueue<&str, u32, ()> = TaskQueue::new(2);
    let (running, _) = queue.submit("running");
    assert!(matches!(
        worker_loop(&mut queue, 1, WorkerEvent::Ready),
        WorkerAction::Run { task: "running", .. }
    ));
    let (low, _) = queue.submit_with_priority(Priority::Low, "low");
    let (high, _) = queue.submit_with_priority(Priority::High, "high");

    assert_eq!(queue.shutdown(), vec!["high", "low"]);
    assert_eq!(queue.pending_count(), 0);
    assert!(matches!(low.join(&mut queue), JoinStep::Done(Err(TaskError::Cancelled))));
    assert!(matches!(high.join(&mut queue), JoinStep::Done(Err(TaskError::Cancelled))));
    assert!(!running.is_done(&queue));

    assert!(matches!(worker_loop(&mut queue, 0, WorkerEvent::Ready), WorkerAction::Exit));
    finish(&mut queue, 1, Some(5));
    assert!(matches!(worker_loop(&mut queue, 1, WorkerEvent::Ready), WorkerAction::Exit));
    assert!(matches!(running.join(&mut queue), JoinStep::Done(Ok(5))));

    let s = queue.stats();
    assert_eq!((s.total_submitted, s.completed, s.failed, s.in_flight), (3, 1, 0, 0));
    assert!(queue.shutdown().is_empty());
    assert!(queue.abandon().is_empty());
}

#[test]
fn abandoning_cancels_waiting_tasks() {
    let mut queue: TaskQueue<&str, u32, ()> = TaskQueue::new(1);
    let (handle, _) = queue.submit("waiting");
    assert_eq!(queue.abandon(), vec!["waiting"]);
    assert!(matches!(handle.join(&mut queue), JoinStep::Done(Err(TaskError::Cancelled))));
    assert!(matches!(worker_loop(&mut queue, 0, WorkerEvent::Ready), WorkerAction::Exit));
}

#[test]
fn abandoning_a_draining_queue_keeps_its_tasks() {
    let mut queue: TaskQueue<&str, u32, ()> = TaskQueue::new(1);
    let (handle, _) = queue.submit("waiting");
    queue.pause();
    assert!(matches!(queue.drain(), DrainStep::Wait));
    assert!(queue.abandon().is_empty());
    assert!(!handle.is_done(&queue));
    assert!(matches!(
        worker_loop(&mut queue, 0, WorkerEvent::Ready),
        WorkerAction::Run { task: "waiting", .. }
    ));
    finish(&mut queue, 0, Some(8));
    assert!(matches!(handle.join(&mut queue), JoinStep::Done(Ok(8))));
    assert!(matches!(worker_loop(&mut queue, 0, WorkerEvent::Ready), WorkerAction::Exit));
}

#[test]
fn drain_waits_for_executing_tasks() {
    let mut queue: TaskQueue<&str, u32, ()> = TaskQueue::new(2);
    let (handle, _) = queue.submit("slow");
    assert!(matches!(worker_loop(&mut queue, 0, WorkerEvent::Ready), WorkerAction::Run { .. }));
    assert!(matches!(queue.drain(), DrainStep::Wait));
    assert!(matches!(worker_loop(&mut queue, 1, WorkerEvent::Ready), WorkerAction::Exit));
    assert!(matches!(queue.drain(), DrainStep::Wait));
    finish(&mut queue, 0, None);
    assert!(matches!(queue.drain(), DrainStep::Stop));
    assert!(matches!(worker_loop(&mut queue, 0, WorkerEvent::Ready), WorkerAction::Exit));
    assert!(matches!(handle.join(&mut queue), JoinStep::Done(Err(TaskError::Panicked))));
    let s = queue.stats();
    assert_eq!(s.total_submitted, s.completed + s.failed);
}

#[test]
fn a_draining_queue_takes_a_known_number_of_rounds() {
    let mut queue: TaskQueue<u32, u32, ()> = TaskQueue::new(2);
    for number in 0..3 {
        queue.submit(number);
    }
    assert!(matches!(queue.drain(), DrainStep::Wait));
    let mut rounds = 0;
    for worker in [0, 1] {
        loop {
            rounds += 1;
            match worker_loop(&mut queue, worker, WorkerEvent::Ready) {
                WorkerAction::Run { task, .. } => {
                    finish(&mut queue, worker, Some(task));
                    rounds += 2;
                }
                WorkerAction::Exit => break,
                _ => panic!("a draining queue makes nobody wait"),
            }
        }
    }
    assert_eq!(rounds, 3 * 3 + 2);
}

#[test]
fn statistics_and_callback_come_before_the_result() {
    let mut queue: TaskQueue<u32, u32, &str> = TaskQueue::new(1);
    assert!(queue.callback().is_none());
    assert!(queue.on_complete("first").is_none());
    assert_eq!(queue.on_complete("second"), Some("first"));
    assert_eq!(queue.callback(), Some(&"second"));

    let (handle, _) = queue.submit(1);
    let enqueued_at = take(&mut queue, 0);
    assert_eq!(queue.stats().in_flight, 1);
    let event = WorkerEvent::Finished {
        returned: None,
        started_at: enqueued_at + Duration::from_nanos(2),
        finished_at: enqueued_at + Duration::from_nanos(5),
    };
    match worker_loop(&mut queue, 0, event) {
        WorkerAction::Report { success, elapsed } => {
            assert!(!success);
            assert_eq!(elapsed, Duration::from_nanos(3));
        }
        _ => panic!("a finished task was not to be reported"),
    }
    let s = queue.stats();
    assert_eq!((s.completed, s.failed, s.in_flight), (0, 1, 0));
    assert_eq!((s.total_latency_nanos, s.completed_latency_samples), (5, 1));
    assert!(!handle.is_done(&queue));
    worker_loop(&mut queue, 0, WorkerEvent::Reported);
    assert!(handle.is_done(&queue));
}

#[test]
fn the_entry_carries_the_time_of_submission() {
    let mut queue: TaskQueue<u32, u32, ()> = TaskQueue::new(1);
    let before = Instant::now();
    queue.submit(1);
    let after = Instant::now();
    match worker_loop(&mut queue, 0, WorkerEvent::Ready) {
        WorkerAction::Run { task, enqueued_at } => {
            assert_eq!(task, 1);
            assert!(before <= enqueued_at && enqueued_at <= after);
        }
        _ => panic!("a waiting task was not given out"),
    }
}

#[test]
fn latencies_add_up_to_an_average() {
    let mut queue: TaskQueue<u32, u32, ()> = TaskQueue::new(1);
    for nanos in [10, 20, 31] {
        queue.submit(0);
        let enqueued_at = take(&mut queue, 0);
        let event = WorkerEvent::Finished {
            returned: Some(0),
            started_at: enqueued_at,
            finished_at: enqueued_at + Duration::from_nanos(nanos),
        };
        worker_loop(&mut queue, 0, event);
        worker_loop(&mut queue, 0, WorkerEvent::Reported);
    }
    let s: TaskQueueStats = queue.stats();
    assert_eq!(s.total_latency_nanos, 61);
    assert_eq!(s.completed_latency_samples, 3);
    assert_eq!(s.average_latency(), Some(Duration::from_nanos(20)));
}

#[test]
fn detached_results_are_not_kept() {
    let mut pool = Pool::new(1);
    let early = pool.submit(|| 1);
    let late = pool.submit(|| 2);
    assert!(early.detach(&mut pool.queue).is_none());

    let started = pool.start(0).unwrap();
    pool.execute(started);
    assert!(matches!(pool.deliver(0), Some(Ok(1))));

    let started = pool.start(0).unwrap();
    pool.execute(started);
    assert!(pool.deliver(0).is_none());
    assert!(matches!(late.detach(&mut pool.queue), Some(Ok(2))));
}

#[test]
fn detached_tasks_are_still_cancelled_and_counted() {
    let mut queue: TaskQueue<&str, u32, ()> = TaskQueue::new(1);
    let (handle, _) = queue.submit("forgotten");
    assert!(handle.detach(&mut queue).is_none());
    assert_eq!(queue.pending_count(), 1);
    assert_eq!(queue.shutdown(), vec!["forgotten"]);
    assert_eq!(queue.stats().total_submitted, 1);
}

#[test]
fn outcomes_survive_whatever_follows() {
    let mut queue: TaskQueue<u32, u32, ()> = TaskQueue::new(1);
    let (done, _) = queue.submit(1);
    let (other, _) = queue.submit(2);
    worker_loop(&mut queue, 0, WorkerEvent::Ready);
    finish(&mut queue, 0, Some(11));
    queue.pause();
    queue.resume();
    assert_eq!(queue.shutdown(), vec![2]);
    queue.abandon();
    assert!(matches!(other.join(&mut queue), JoinStep::Done(Err(TaskError::Cancelled))));
    assert!(matches!(done.join(&mut queue), JoinStep::Done(Ok(11))));
}

#[test]
fn pausing_leaves_running_tasks_alone() {
    let mut pool = Pool::new(1);
    let handle = pool.submit(|| 4);
    let waiting = pool.submit(|| 5);
    let started = pool.start(0).unwrap();
    pool.queue.pause();
    pool.execute(started);
    pool.deliver(0);
    assert_eq!(pool.join(handle).unwrap(), 4);
    assert!(!pool.run_one(0));
    assert!(!waiting.is_done(&pool.queue));
    pool.queue.resume();
    assert_eq!(pool.join(waiting).unwrap(), 5);
}

#[test]
fn a_paused_queue_that_shuts_down_dismisses_its_workers() {
    let mut queue: TaskQueue<u32, u32, ()> = TaskQueue::new(1);
    queue.pause();
    queue.submit(1);
    assert!(matches!(worker_loop(&mut queue, 0, WorkerEvent::Ready), WorkerAction::Wait));
    assert_eq!(queue.shutdown(), vec![1]);
    assert!(matches!(worker_loop(&mut queue, 0, WorkerEvent::Ready), WorkerAction::Exit));
}

#[test]
fn the_number_of_workers_is_fixed() {
    let mut queue: TaskQueue<u32, u32, ()> = TaskQueue::with_capacity(3, 9);
    assert_eq!(queue.concurrency(), 3);
    queue.shutdown();
    worker_loop(&mut queue, 2, WorkerEvent::Ready);
    assert_eq!(queue.concurrency(), 3);
}

#[test]
fn every_submitted_task_is_accounted_for() {
    let mut queue: TaskQueue<u32, u32, ()> = TaskQueue::new(2);
    for number in 0..6 {
        queue.submit(number);
    }
    worker_loop(&mut queue, 0, WorkerEvent::Ready);
    finish(&mut queue, 0, Some(0));
    worker_loop(&mut queue, 0, WorkerEvent::Ready);
    finish(&mut queue, 0, None);
    worker_loop(&mut queue, 1, WorkerEvent::Ready);
    let s = queue.stats();
    let waiting = queue.pending_count() as u64;
    assert_eq!((s.completed, s.failed, s.in_flight, waiting), (1, 1, 1, 3));
    assert_eq!(s.total_submitted, s.completed + s.failed + s.in_flight + waiting);
    assert_eq!(queue.shutdown().len(), 3);
}

#[test]
fn handles_get_their_own_results_in_any_order() {
    let mut queue: TaskQueue<u32, u32, ()> = TaskQueue::new(2);
    let (first, _) = queue.submit(10);
    let (second, _) = queue.submit(20);
    for (worker, expected) in [(1, 10), (0, 20)] {
        match worker_loop(&mut queue, worker, WorkerEvent::Ready) {
            WorkerAction::Run { task, .. } => assert_eq!(task, expected),
            _ => panic!("a waiting task was not given out"),
        }
    }
    finish(&mut queue, 0, Some(200));
    assert!(second.is_done(&queue));
    assert!(!first.is_done(&queue));
    let (third, _) = queue.submit(30);
    finish(&mut queue, 1, Some(100));
    assert!(!third.is_done(&queue));
    assert!(matches!(first.join(&mut queue), JoinStep::Done(Ok(100))));
    assert!(matches!(second.join(&mut queue), JoinStep::Done(Ok(200))));
}

#[test]
fn a_task_runs_once() {
    let mut pool = Pool::new(2);
    let counter = Rc::new(Cell::new(0));
    let c = counter.clone();
    let handle = pool.submit(move || c.set(c.get() + 1));
    let started = pool.start(1).unwrap();
    assert!(!pool.run_one(0));
    pool.execute(started);
    pool.deliver(1);
    assert!(!pool.run_one(0));
    assert!(!pool.run_one(1));
    pool.join(handle).unwrap();
    assert_eq!(counter.get(), 1);
}

#[test]
fn waiting_leaves_the_handle_good() {
    let mut queue: TaskQueue<u32, u32, ()> = TaskQueue::new(1);
    let (handle, _) = queue.submit(1);
    let handle = match handle.join(&mut queue) {
        JoinStep::Wait(again) => again,
        JoinStep::Done(_) => panic!("a waiting task has no result"),
    };
    worker_loop(&mut queue, 0, WorkerEvent::Ready);
    let handle = match handle.join(&mut queue) {
        JoinStep::Wait(again) => again,
        JoinStep::Done(_) => panic!("a running task has no result"),
    };
    finish(&mut queue, 0, Some(6));
    assert!(matches!(handle.join(&mut queue), JoinStep::Done(Ok(6))));
}

#[test]
fn latency_is_waiting_and_execution_together() {
    let mut queue: TaskQueue<u32, u32, ()> = TaskQueue::new(1);
    queue.submit(0);
    let enqueued_at = take(&mut queue, 0);
    let waited = Duration::from_millis(7);
    let executed = Duration::from_nanos(13);
    let event = WorkerEvent::Finished {
        returned: Some(0),
        started_at: enqueued_at + waited,
        finished_at: enqueued_at + waited + executed,
    };
    match worker_loop(&mut queue, 0, event) {
        WorkerAction::Report { success, elapsed } => {
            assert!(success);
            assert_eq!(elapsed, executed);
        }
        _ => panic!("a finished task was not to be reported"),
    }
    assert_eq!(queue.stats().total_latency_nanos, 7_000_013);
}

#[test]
fn a_clock_that_goes_back_measures_nothing() {
    let mut queue: TaskQueue<u32, u32, ()> = TaskQueue::new(1);
    let early = Instant::now();
    spend(Duration::from_micros(1));
    queue.submit(0);
    let enqueued_at = take(&mut queue, 0);
    assert!(early < enqueued_at);
    let event =
        WorkerEvent::Finished { returned: None, started_at: enqueued_at, finished_at: early };
    match worker_loop(&mut queue, 0, event) {
        WorkerAction::Report { elapsed, .. } => assert_eq!(elapsed, Duration::ZERO),
        _ => panic!("a finished task was not to be reported"),
    }
    assert_eq!(queue.stats().total_latency_nanos, 0);
    assert_eq!(queue.stats().completed_latency_samples, 1);
}

#[test]
fn a_closed_queue_comes_to_rest_whatever_else_happens() {
    let mut queue: TaskQueue<u32, u32, ()> = TaskQueue::new(1);
    let (first, _) = queue.submit(1);
    let (second, _) = queue.submit(2);
    assert!(matches!(queue.do_drain(), DrainStep::Wait));
    take(&mut queue, 0);
    assert!(second.detach(&mut queue).is_none());
    finish(&mut queue, 0, Some(10));
    assert_eq!(queue.submit(3).1, Some(3));
    queue.pause();
    assert!(matches!(first.join(&mut queue), JoinStep::Done(Ok(10))));
    take(&mut queue, 0);
    assert!(queue.abandon().is_empty());
    finish(&mut queue, 0, Some(20));
    assert!(matches!(worker_loop(&mut queue, 0, WorkerEvent::Ready), WorkerAction::Exit));
    assert!(matches!(queue.do_drain(), DrainStep::Stop));
    assert!(queue.do_shutdown().is_empty());
}

#[test]
fn a_paused_queue_stays_paused_until_resumed() {
    let mut queue: TaskQueue<u32, u32, ()> = TaskQueue::new(2);
    queue.submit(1);
    take(&mut queue, 1);
    queue.pause();
    queue.submit(2);
    finish(&mut queue, 1, Some(1));
    queue.pause();
    queue.submit(3);
    assert!(queue.is_paused());
    for worker in [0, 1] {
        assert!(matches!(worker_loop(&mut queue, worker, WorkerEvent::Ready), WorkerAction::Wait));
    }
    assert_eq!(queue.stats().in_flight, 0);
    assert_eq!(queue.pending_count(), 2);
    queue.resume();
    take(&mut queue, 0);
}

#[test]
fn outcomes_tell_what_happened_to_each_task() {
    let mut queue: TaskQueue<u32, u32, ()> = TaskQueue::new(3);
    let (returned, _) = queue.submit(1);
    let (panicked, _) = queue.submit(2);
    let (running, _) = queue.submit(3);
    let (waiting, _) = queue.submit(4);
    for worker in [0, 1, 2] {
        take(&mut queue, worker);
    }
    finish(&mut queue, 0, Some(5));
    finish(&mut queue, 1, None);
    queue.shutdown();
    finish(&mut queue, 2, Some(6));
    assert!(matches!(returned.join(&mut queue), JoinStep::Done(Ok(5))));
    assert!(matches!(panicked.join(&mut queue), JoinStep::Done(Err(TaskError::Panicked))));
    assert!(matches!(running.join(&mut queue), JoinStep::Done(Ok(6))));
    assert!(matches!(waiting.join(&mut queue), JoinStep::Done(Err(TaskError::Cancelled))));
}

/// Lets an idle worker take a task, and returns when that was submitted.
fn take<F, T, C>(queue: &mut TaskQueue<F, T, C>, worker: usize) -> Instant {
    match worker_loop(queue, worker, WorkerEvent::Ready) {
        WorkerAction::Run { enqueued_at, .. } => enqueued_at,
        _ => panic!("a waiting task was not given out"),
    }
}

/// Lets a worker come back from the task that it executes.
fn finish<F, T, C>(queue: &mut TaskQueue<F, T, C>, worker: usize, returned: Option<T>) {
    let now = Instant::now();
    let event = WorkerEvent::Finished { returned, started_at: now, finished_at: now };
    assert!(matches!(worker_loop(queue, worker, event), WorkerAction::Report { .. }));
    assert!(matches!(
        worker_loop(queue, worker, WorkerEvent::Reported),
        WorkerAction::Continue { .. }
    ));
}
