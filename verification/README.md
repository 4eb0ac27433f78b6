# cordis_core

The core of an in-process reactive runtime: scoped services, dependency injection, plugin life
cycles, owned resources, events, a log and diagnostics. The library is written in Verus: the
functions of `src/` carry contracts, and Verus proves them. What is taken on trust are a few calls
into `std` (comparison and rendering of text, type identifiers, the clock); they stand in `text`,
`tag` and `logger`, each with what is claimed of it.

## Layout

- `src/` is the verified library. It holds the state of a runtime and takes all decisions.
  - `runtime`, `context`: the entry points, `Runtime` and `Context`.
  - `view`, `provider`, `service`, `config`, `isolation`: what a view sees.
  - `registry`: providers, injections, listeners, fibers and groups; activation, life-cycle
    operations, the scheduler and diagnostics.
  - `effect`: scopes, who owns what, and the order of release.
  - `event`: listeners and dispatches.
  - `fiber`, `injection`, `plugin`, `completion`, `logger`, `diagnostics`, `error`: the records
    behind them.
  - `table`, `names`, `text`, `tag`: small tools.
  - `laws`: what holds of the library as a whole.
- `tests/` runs the library under a host that does everything on one thread.
- `app/` is a host on tokio. It keeps service objects, callbacks, plugins and tasks under handles,
  runs them, and reports the outcome to the library.

## How a host works with the library

Of user code the library calls the exporters of its log and nothing else. Where something has to be
run or awaited, it says so and takes the outcome:

- `Disposal` walks a scope tree and names each clean-up; its `Coordinator` names what has to be
  awaited: the scopes below first, then disposers, the last one first, then tasks.
- `Registry::take_batch` and `RecomputeBatch::next` name the work of a scheduler round.
- `Registry::begin_activation` and `finish_activation` enclose the application of a plugin;
  `LifecycleOp` orders the stages of a restart or a replacement. All stages come between
  `start_lifecycle` and `finish_lifecycle`; so does `offer_handle` after the first activation.
- `Emission`, `Next` and `ParallelDispatch` name the filters and handlers of an event.

A scope that is dropped without being disposed runs its clean-ups; asynchronous disposers start
only in a controlled release.
