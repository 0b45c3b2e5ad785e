# sync_lab

Synchronisation primitives and small concurrent computations, with their
decision logic verified by Verus.

Each primitive (semaphores, latches, barriers, exchangers, bounded channels, a
delayed queue, executors, a cache, a dispatcher, ...) is split in two:

- `src/` holds the state of the primitive as a plain value and, for every
  operation, a verified step function: given the state, it either performs the
  operation (`Poll::Ready`) or says that the caller has to wait
  (`Poll::Pending`), and its contract states the new state. Where the outcome
  is decided by other threads (what a channel delivers, whether a receiver is
  still there), the contract states what holds whatever comes back, and a
  separate verified function states exactly what is done with each reply.
- `app/` wraps those states in `Mutex`/`Condvar` monitors, channels and threads,
  runs the waiting loops, and holds the demonstration programs.

The computations (the digit/operator expressions, the parallel letter count,
the sensor round) keep their combinatorics, splitting and counting in `src/`;
floating-point evaluation, randomness and printing stay in `app/`.

`tests/` exercises the library on concrete values.
