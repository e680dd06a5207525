# ying-profiler

Ying is a native Rust sampling memory profiler which tracks retained memory and allocations.  What it
does is decided by a library that is proved with [Verus](https://github.com/verus-lang/verus).

* `src/` is the library: which allocations are sampled, what is recorded of them, how stack traces are
  hashed, shown and ranked, when and what is reported.  Every function states what it does, and
  `src/laws.rs` and the `law_` functions next to what they are about state what holds across calls.
  Calls into other crates stand behind small functions whose contracts are believed.
* `tests/` runs the library with these crates.
* `app/` is the profiler as a global allocator: threads, locks, atomics, the clock's updates, floating
  point figures, files and the reporting thread.

## Two rules

Ying is the global allocator, so everything Ying allocates re-enters Ying.

1. The per-thread re-entrancy guard is checked before any profiler state is touched.  Three things are
   proved: a thread inside the profiler never enters it again; what it allocates, frees or resizes
   there changes nothing but the total of retained bytes; and the library touches the state only
   while the thread's guard is held.
2. The lock around the profiler's state must not allocate.  `app/` uses `std::sync::RwLock`.

## Limits of the proof

The library works one call at a time.  Counters wrap around at the end of their range.  What
backtraces hold, what the clock says, and how the `regex`, `wyhash` and `inferno` crates compute what
they compute is not proved.
