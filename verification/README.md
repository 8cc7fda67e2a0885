# switchyard

A real time compute focused async executor. Jobs (futures) are spawned with a
priority onto a pool of worker threads; a worker always runs the job of highest
priority it can see, first from its own queue of thread-local jobs, then from the
shared queue.

- `src/` is the verified library: the thread allocation helpers, the checks made
  when a yard is created, and the scheduler that takes every decision of the
  yard (which job runs next, when a worker sleeps or exits, what a wake-up does,
  which jobs are in flight). Its contracts and the laws that relate its
  operations are proved by Verus.
- `app/` is the executor around it: worker threads, futures, wakers, locks,
  condition variables and the join handles. It performs the actions the
  scheduler returns and reports back what happened.
- `tests/` exercise the library on concrete values.

All workers share one queue of futures, and each worker has a queue of the
thread-local jobs tied to it. There are no separate job pools: a yard is
created with a thread allocation only, and `spawn` and `spawn_local` take a
priority and the future, with no pool argument.
