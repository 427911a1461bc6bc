# task_queue

An in-process task queue with priorities, a fixed number of workers, an optional
limit on waiting tasks, pausing, draining and shutdown, verified with Verus.

The library in `src/` is the queue as a state machine. It holds the tasks and
their outcomes and decides what runs when, what is refused and what is
cancelled; it starts no thread and calls no task. The threads in `app/` share
one queue behind a mutex: each worker asks the queue what to do through
`worker_loop`, does it, and comes back with what happened.

- `model` describes the state of a queue and what each operation makes of it;
  `preservation` proves that every operation keeps what holds of every state.
- `queue`, `worker` and `handle` are the executable queue. Their contracts say
  that they do exactly what the model says.
- `priority`, `error`, `entry`, `slot` and `stats` are the parts they are made
  of, and `clock` declares what is taken from `std::time`.
- `history` and `laws` state and prove what the queue promises over any sequence
  of operations: order, capacity, concurrency, what draining and shutting down
  do, and what each handle yields.
