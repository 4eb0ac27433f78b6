//! Events: who hears them, in what order, and what comes back.

use cordis_core::effect::disposal::DisposeStep;
use cordis_core::effect::dispose::CoordinatorAction;
use cordis_core::event::dispatch::{Arrival, Dispatch, EmissionStep, ErasedPayload};
use cordis_core::runtime::CleanupTask;
use cordis_core::{
    Context, CoreError, EffectContext, EventKey, ListenOptions, Next, ParallelKey, Runtime,
    SerialKey, WaterfallKey,
};
use std::cell::{Cell, RefCell};
use std::collections::HashMap;
use std::rc::Rc;

#[derive(Debug, Clone, PartialEq, Eq)]
struct Ping(u32);

#[derive(Debug, Clone, PartialEq, Eq)]
struct Pong(u32);

#[derive(Debug, Clone, PartialEq, Eq)]
struct Decision(String);

fn ping() -> EventKey<Ping> {
    EventKey::new("test.ping@1")
}

fn transform() -> WaterfallKey<Ping> {
    WaterfallKey::new("test.transform@1")
}

fn decide() -> SerialKey<Ping, Decision> {
    SerialKey::new("test.decide@1")
}

fn fanout() -> ParallelKey<Ping> {
    ParallelKey::new("test.fanout@1")
}

type Handler = Rc<dyn Fn(&Ping) -> Result<(), CoreError>>;
type Answer = Rc<dyn Fn(&Ping) -> Result<Option<Decision>, CoreError>>;
type Filter = Rc<dyn Fn(&Ping) -> Result<bool, CoreError>>;
type Stage = Rc<dyn Fn(&mut Host, &Dispatch, Ping, Next<Ping>) -> Result<Ping, CoreError>>;

struct Host {
    runtime: Runtime,
    next: u64,
    handlers: HashMap<u64, Handler>,
    answers: HashMap<u64, Answer>,
    filters: HashMap<u64, Filter>,
    stages: HashMap<u64, Stage>,
    decisions: Vec<Decision>,
}

impl Host {
    fn new() -> Host {
        Host {
            runtime: Runtime::new(1, true).unwrap(),
            next: 0,
            handlers: HashMap::new(),
            answers: HashMap::new(),
            filters: HashMap::new(),
            stages: HashMap::new(),
            decisions: Vec::new(),
        }
    }

    fn handle(&mut self) -> u64 {
        self.next += 1;
        self.next
    }

    fn handler(&mut self, handler: impl Fn(&Ping) -> Result<(), CoreError> + 'static) -> u64 {
        let handle = self.handle();
        self.handlers.insert(handle, Rc::new(handler));
        handle
    }

    fn filter(&mut self, filter: impl Fn(&Ping) -> Result<bool, CoreError> + 'static) -> u64 {
        let handle = self.handle();
        self.filters.insert(handle, Rc::new(filter));
        handle
    }

    fn stage(
        &mut self,
        stage: impl Fn(&mut Host, &Dispatch, Ping, Next<Ping>) -> Result<Ping, CoreError> + 'static,
    ) -> u64 {
        let handle = self.handle();
        self.stages.insert(handle, Rc::new(stage));
        handle
    }

    fn on(&mut self, ctx: &Context, handler: impl Fn(&Ping) -> Result<(), CoreError> + 'static) {
        let handle = self.handler(handler);
        ctx.on(&mut self.runtime, ping(), handle).unwrap();
    }

    fn emit(&mut self, ctx: &Context, payload: Ping) -> Result<(), CoreError> {
        let mut emission = ctx.emit(&mut self.runtime, ping())?;
        loop {
            match emission.next(&mut self.runtime.registry) {
                EmissionStep::Filter(filter) => {
                    let verdict = self.filters[&filter].clone()(&payload);
                    emission.filtered(verdict)?;
                }
                EmissionStep::Invoke(handler) => {
                    let outcome = self.handlers[&handler].clone()(&payload);
                    emission.handled(outcome)?;
                }
                EmissionStep::Done => return Ok(()),
            }
        }
    }

    fn serial(&mut self, ctx: &Context, payload: Ping) -> Result<Option<Decision>, CoreError> {
        let mut emission = ctx.serial(&mut self.runtime, decide())?;
        loop {
            match emission.next(&mut self.runtime.registry) {
                EmissionStep::Filter(filter) => {
                    let verdict = self.filters[&filter].clone()(&payload);
                    emission.filtered(verdict)?;
                }
                EmissionStep::Invoke(handler) => {
                    let outcome = self.answers[&handler].clone()(&payload);
                    let erased = match outcome {
                        Ok(Some(decision)) => {
                            self.decisions.push(decision);
                            Ok(Some(ErasedPayload {
                                tag: decide().answer_type_id(),
                                value: (self.decisions.len() - 1) as u64,
                            }))
                        }
                        Ok(None) => Ok(None),
                        Err(error) => Err(error),
                    };
                    if let Some(value) = emission.answered(decide().answer_type_id(), erased)? {
                        return Ok(Some(self.decisions[value as usize].clone()));
                    }
                }
                EmissionStep::Done => return Ok(None),
            }
        }
    }

    fn waterfall(
        &mut self,
        ctx: &Context,
        key: WaterfallKey<Ping>,
        payload: Ping,
    ) -> Result<Ping, CoreError> {
        let dispatch = ctx.waterfall(&mut self.runtime, key)?;
        self.call(Next::new(0), &dispatch, payload)
    }

    fn call(
        &mut self,
        next: Next<Ping>,
        dispatch: &Dispatch,
        payload: Ping,
    ) -> Result<Ping, CoreError> {
        let mut arrival = next.call(dispatch, &mut self.runtime.registry);
        loop {
            match arrival {
                Arrival::Filter { at, filter } => {
                    let verdict = self.filters[&filter].clone()(&payload);
                    arrival = Next::<Ping>::filtered(
                        at,
                        verdict,
                        dispatch,
                        &mut self.runtime.registry,
                    )?;
                }
                Arrival::Invoke { at, handler } => {
                    let stage = self.stages[&handler].clone();
                    return stage(self, dispatch, payload, Next::new(at + 1));
                }
                Arrival::End => return Ok(payload),
            }
        }
    }

    fn parallel(
        &mut self,
        ctx: &Context,
        key: ParallelKey<Ping>,
        payload: Ping,
    ) -> Result<(), CoreError> {
        let mut dispatch = ctx.parallel(&mut self.runtime, key)?;
        while let Some(filter) = dispatch.next_filter() {
            let verdict = self.filters[&filter].clone()(&payload);
            dispatch.filtered(verdict)?;
        }
        let handlers = dispatch.claim(&mut self.runtime.registry);
        let outcomes = handlers
            .into_iter()
            .map(|handler| self.handlers[&handler].clone()(&payload))
            .collect();
        dispatch.join(outcomes)
    }

    fn dispose(&mut self, effect: &EffectContext) {
        let mut disposal = effect.dispose(&mut self.runtime);
        loop {
            match disposal.step(&mut self.runtime.scopes) {
                DisposeStep::Run { cleanup, .. } => {
                    assert!(matches!(self.runtime.run_cleanup(cleanup), CleanupTask::Nothing));
                }
                DisposeStep::Coordinate(mut coordinator) => match coordinator.next() {
                    CoordinatorAction::Finish(errors) => {
                        self.runtime.scopes.finish(coordinator.scope(), errors);
                    }
                    _ => unreachable!(),
                },
                DisposeStep::Done => break,
                _ => {}
            }
        }
    }
}

fn counter() -> (Rc<Cell<usize>>, Rc<Cell<usize>>) {
    let cell = Rc::new(Cell::new(0));
    (cell.clone(), cell)
}

fn blocked() -> CoreError {
    CoreError::EventListener("blocked".to_string())
}

#[test]
fn event_events_preserve_order_and_propagate_errors() {
    let mut host = Host::new();
    let root = host.runtime.root();
    let recorded = Rc::new(RefCell::new(Vec::new()));
    let sink = recorded.clone();
    host.on(&root, move |ping| {
        sink.borrow_mut().push(ping.clone());
        Ok(())
    });
    host.on(&root, |ping| {
        if ping.0 == 2 {
            return Err(CoreError::EventListener("stop".to_string()));
        }
        Ok(())
    });
    host.emit(&root, Ping(1)).unwrap();
    assert_eq!(*recorded.borrow(), vec![Ping(1)]);
    let error = host.emit(&root, Ping(2)).unwrap_err();
    assert!(matches!(error, CoreError::EventListener(message) if message == "stop"));
}

#[test]
fn event_event_unsubscribes_when_scope_disposes() {
    let mut host = Host::new();
    let root = host.runtime.root();
    let effect = root.effect(&mut host.runtime).unwrap();
    let (hits, seen) = counter();
    host.on(effect.as_context(), move |_| {
        seen.set(seen.get() + 1);
        Ok(())
    });
    host.dispose(&effect);
    host.emit(&root, Ping(1)).unwrap();
    assert_eq!(hits.get(), 0);
}

#[test]
fn event_waterfall_rewrites_and_short_circuits() {
    let mut host = Host::new();
    let root = host.runtime.root();
    let (inner, seen) = counter();
    let outer = host.stage(|host, dispatch, value, next| {
        let mut value = host.call(next, dispatch, value)?;
        value.0 *= 10;
        Ok(value)
    });
    root.on_waterfall(&mut host.runtime, transform(), outer).unwrap();
    let second = host.stage(move |host, dispatch, value, next| {
        seen.set(1);
        host.call(next, dispatch, Ping(value.0 + 1))
    });
    root.on_waterfall(&mut host.runtime, transform(), second).unwrap();
    assert_eq!(host.waterfall(&root, transform(), Ping(3)).unwrap(), Ping(40));
    assert_eq!(inner.get(), 1);

    let short = WaterfallKey::<Ping>::new("test.short@1");
    let (skipped, flag) = counter();
    let stop = host.stage(|_, _, _, _| Ok(Ping(99)));
    root.on_waterfall(&mut host.runtime, short, stop).unwrap();
    let never = host.stage(move |host, dispatch, value, next| {
        flag.set(1);
        host.call(next, dispatch, value)
    });
    root.on_waterfall(&mut host.runtime, short, never).unwrap();
    assert_eq!(host.waterfall(&root, short, Ping(1)).unwrap(), Ping(99));
    assert_eq!(skipped.get(), 0);
}

#[test]
fn event_serial_returns_first_some() {
    let mut host = Host::new();
    let root = host.runtime.root();
    for answer in [0, 1, 2] {
        let handle = host.handle();
        let decide_one: Answer = match answer {
            0 => Rc::new(|_| Ok(None)),
            1 => Rc::new(|ping| Ok(Some(Decision(format!("hit-{}", ping.0))))),
            _ => Rc::new(|_| Ok(Some(Decision("should-not-run".to_string())))),
        };
        host.answers.insert(handle, decide_one);
        root.on_serial(&mut host.runtime, decide(), handle).unwrap();
    }
    assert_eq!(
        host.serial(&root, Ping(7)).unwrap(),
        Some(Decision("hit-7".to_string()))
    );
}

#[test]
fn event_parallel_runs_all_and_aggregates_errors() {
    let mut host = Host::new();
    let root = host.runtime.root();
    let (hits, seen) = counter();
    let a = seen.clone();
    let first = host.handler(move |_| {
        a.set(a.get() + 1);
        Ok(())
    });
    root.on_parallel(&mut host.runtime, fanout(), first).unwrap();
    let second = host.handler(move |_| {
        seen.set(seen.get() + 1);
        Err(CoreError::EventListener("boom".to_string()))
    });
    root.on_parallel(&mut host.runtime, fanout(), second).unwrap();
    let error = host.parallel(&root, fanout(), Ping(1)).unwrap_err();
    assert_eq!(error.message(), "并行事件 test.fanout@1 分发失败: [\"boom\"]");
    assert!(matches!(
        error,
        CoreError::ParallelDispatchFailed { errors, .. } if errors.len() == 1
    ));
    assert_eq!(hits.get(), 2);
}

#[test]
fn event_event_mode_and_answer_conflicts() {
    let mut host = Host::new();
    let root = host.runtime.root();
    root.on_waterfall(&mut host.runtime, transform(), 1).unwrap();
    let as_observe: EventKey<Ping> = EventKey::new("test.transform@1");
    assert!(matches!(
        root.on(&mut host.runtime, as_observe, 2),
        Err(CoreError::EventModeMismatch { .. })
    ));
    root.on_serial(&mut host.runtime, decide(), 3).unwrap();
    let wrong_answer: SerialKey<Ping, Pong> = SerialKey::new("test.decide@1");
    assert!(matches!(
        root.on_serial(&mut host.runtime, wrong_answer, 4),
        Err(CoreError::EventAnswerTypeConflict { .. })
    ));
}

#[test]
fn event_async_event_unsubscribes_when_scope_disposes() {
    let mut host = Host::new();
    let root = host.runtime.root();
    let effect = root.effect(&mut host.runtime).unwrap();
    let (hits, seen) = counter();
    let handler = host.handler(move |_| {
        seen.set(1);
        Ok(())
    });
    effect.on_parallel(&mut host.runtime, fanout(), handler).unwrap();
    host.dispose(&effect);
    host.parallel(&root, fanout(), Ping(1)).unwrap();
    assert_eq!(hits.get(), 0);
}

#[test]
fn event_waterfall_short_circuit_does_not_evaluate_downstream_metadata() {
    let mut host = Host::new();
    let root = host.runtime.root();
    let key = WaterfallKey::<Ping>::new("test.waterfall.short-metadata@1");
    let (delegate, flag) = counter();
    let first = host.stage(move |host, dispatch, value, next| {
        if flag.get() == 1 {
            host.call(next, dispatch, value)
        } else {
            Ok(Ping(99))
        }
    });
    root.on_waterfall(&mut host.runtime, key, first).unwrap();
    let filter = host.filter(|_| Err(blocked()));
    let second = host.stage(|_, _, _, _| Ok(Ping(0)));
    let options = ListenOptions::new().filter(filter);
    root.on_waterfall_with_options(&mut host.runtime, key, options, second).unwrap();
    assert_eq!(host.waterfall(&root, key, Ping(1)).unwrap(), Ping(99));
    delegate.set(1);
    assert!(matches!(
        host.waterfall(&root, key, Ping(1)),
        Err(CoreError::EventListener(message)) if message == "blocked"
    ));
}

#[test]
fn event_waterfall_once_is_claimed_only_when_listener_runs() {
    let mut host = Host::new();
    let root = host.runtime.root();
    let key = WaterfallKey::<Ping>::new("test.waterfall.once-at-invocation@1");
    let (delegate, flag) = counter();
    let (hits, seen) = counter();
    let first = host.stage(move |host, dispatch, value, next| {
        if flag.get() == 1 {
            host.call(next, dispatch, value)
        } else {
            Ok(value)
        }
    });
    root.on_waterfall(&mut host.runtime, key, first).unwrap();
    let second = host.stage(move |host, dispatch, value, next| {
        seen.set(seen.get() + 1);
        host.call(next, dispatch, value)
    });
    root.on_waterfall_with_options(&mut host.runtime, key, ListenOptions::new().once(), second)
        .unwrap();
    host.waterfall(&root, key, Ping(1)).unwrap();
    assert_eq!(hits.get(), 0);
    delegate.set(1);
    host.waterfall(&root, key, Ping(1)).unwrap();
    host.waterfall(&root, key, Ping(1)).unwrap();
    assert_eq!(hits.get(), 1);
}

#[test]
fn event_waterfall_filter_receives_transformed_payload() {
    let mut host = Host::new();
    let root = host.runtime.root();
    let key = WaterfallKey::<Ping>::new("test.waterfall.transformed-filter@1");
    let (hits, seen) = counter();
    let first =
        host.stage(|host, dispatch, value, next| host.call(next, dispatch, Ping(value.0 + 1)));
    root.on_waterfall(&mut host.runtime, key, first).unwrap();
    let filter = host.filter(|value| Ok(value.0 == 2));
    let second = host.stage(move |host, dispatch, value, next| {
        seen.set(seen.get() + 1);
        host.call(next, dispatch, value)
    });
    let options = ListenOptions::new().filter(filter);
    root.on_waterfall_with_options(&mut host.runtime, key, options, second).unwrap();
    assert_eq!(host.waterfall(&root, key, Ping(1)).unwrap(), Ping(2));
    assert_eq!(hits.get(), 1);
}

#[test]
fn event_parallel_filter_error_prevents_all_handlers_and_skipped_once_remains_available() {
    let mut host = Host::new();
    let root = host.runtime.root();
    let rejected = ParallelKey::<Ping>::new("test.parallel.filter-error@1");
    let (ran, seen) = counter();
    let filter = host.filter(|_| Err(blocked()));
    let first = host.handler(|_| Ok(()));
    let options = ListenOptions::new().filter(filter);
    root.on_parallel_with_options(&mut host.runtime, rejected, options, first).unwrap();
    let second = host.handler(move |_| {
        seen.set(seen.get() + 1);
        Ok(())
    });
    root.on_parallel(&mut host.runtime, rejected, second).unwrap();
    assert!(matches!(
        host.parallel(&root, rejected, Ping(1)),
        Err(CoreError::EventListener(message)) if message == "blocked"
    ));
    assert_eq!(ran.get(), 0);

    let once_key = ParallelKey::<Ping>::new("test.parallel.skipped-once@1");
    let (once_hits, seen) = counter();
    let filter = host.filter(|value| Ok(value.0 == 2));
    let third = host.handler(move |_| {
        seen.set(seen.get() + 1);
        Ok(())
    });
    let options = ListenOptions::new().once().filter(filter);
    root.on_parallel_with_options(&mut host.runtime, once_key, options, third).unwrap();
    host.parallel(&root, once_key, Ping(1)).unwrap();
    host.parallel(&root, once_key, Ping(2)).unwrap();
    host.parallel(&root, once_key, Ping(2)).unwrap();
    assert_eq!(once_hits.get(), 1);
}

#[test]
fn event_event_filter_skip_and_error() {
    let mut host = Host::new();
    let root = host.runtime.root();
    let (hits, seen) = counter();
    let filter = host.filter(|ping| {
        if ping.0 == 99 {
            return Err(CoreError::EventListener("bad".to_string()));
        }
        Ok(ping.0 % 2 == 1)
    });
    let handler = host.handler(move |_| {
        seen.set(seen.get() + 1);
        Ok(())
    });
    let options = ListenOptions::<Ping>::new().filter(filter);
    root.on_with_options(&mut host.runtime, ping(), options, handler).unwrap();
    host.emit(&root, Ping(1)).unwrap();
    host.emit(&root, Ping(2)).unwrap();
    assert_eq!(hits.get(), 1);
    let error = host.emit(&root, Ping(99)).unwrap_err();
    assert!(matches!(error, CoreError::EventListener(_)));
    assert_eq!(hits.get(), 1);
}

#[test]
fn event_event_once_runs_at_most_once_under_concurrent_emit() {
    let mut host = Host::new();
    let root = host.runtime.root();
    let options = ListenOptions::new().once();
    root.on_with_options(&mut host.runtime, ping(), options, 5).unwrap();
    // All emissions are under way before the first of them gets to the listener.
    let mut emissions: Vec<_> =
        (0..32).map(|_| root.emit(&mut host.runtime, ping()).unwrap()).collect();
    let mut hits = 0;
    for emission in &mut emissions {
        if let EmissionStep::Invoke(handler) = emission.next(&mut host.runtime.registry) {
            assert_eq!(handler, 5);
            hits += 1;
        }
    }
    assert_eq!(hits, 1);
    host.emit(&root, Ping(2)).unwrap();
}

#[test]
fn event_event_prepend_orders_newest_first_then_normal() {
    let mut host = Host::new();
    let root = host.runtime.root();
    let order = Rc::new(RefCell::new(Vec::new()));
    for (label, prepend) in
        [("normal-a", false), ("pre-1", true), ("normal-b", false), ("pre-2", true)]
    {
        let sink = order.clone();
        let handler = host.handler(move |_| {
            sink.borrow_mut().push(label);
            Ok(())
        });
        let options = if prepend { ListenOptions::new().prepend() } else { ListenOptions::new() };
        root.on_with_options(&mut host.runtime, ping(), options, handler).unwrap();
    }
    host.emit(&root, Ping(1)).unwrap();
    assert_eq!(*order.borrow(), vec!["pre-2", "pre-1", "normal-a", "normal-b"]);
}

#[test]
fn event_event_global_crosses_sibling_contexts_local_does_not() {
    let mut host = Host::new();
    let root = host.runtime.root();
    let left = root.extend(&mut host.runtime).unwrap();
    let right = root.extend(&mut host.runtime).unwrap();
    let (local, seen_local) = counter();
    let (global, seen_global) = counter();
    host.on(&left, move |_| {
        seen_local.set(seen_local.get() + 1);
        Ok(())
    });
    let handler = host.handler(move |_| {
        seen_global.set(seen_global.get() + 1);
        Ok(())
    });
    left.on_with_options(&mut host.runtime, ping(), ListenOptions::new().global(), handler)
        .unwrap();
    host.emit(&right, Ping(1)).unwrap();
    assert_eq!(local.get(), 0);
    assert_eq!(global.get(), 1);
    host.emit(&left, Ping(2)).unwrap();
    assert_eq!(local.get(), 1);
    assert_eq!(global.get(), 2);
}

#[test]
fn global_listeners_run_before_local_ones() {
    let mut host = Host::new();
    let root = host.runtime.root();
    let order = Rc::new(RefCell::new(Vec::new()));
    for (label, global) in [("local", false), ("global", true)] {
        let sink = order.clone();
        let handler = host.handler(move |_| {
            sink.borrow_mut().push(label);
            Ok(())
        });
        let options = if global { ListenOptions::new().global() } else { ListenOptions::new() };
        root.on_with_options(&mut host.runtime, ping(), options, handler).unwrap();
    }
    host.emit(&root, Ping(1)).unwrap();
    assert_eq!(*order.borrow(), vec!["global", "local"]);
}

#[test]
fn listeners_of_a_view_hear_its_descendants_but_not_its_ancestors() {
    let mut host = Host::new();
    let root = host.runtime.root();
    let child = root.extend(&mut host.runtime).unwrap();
    let (hits, seen) = counter();
    let at_child = seen.clone();
    host.on(&root, move |_| {
        seen.set(seen.get() + 1);
        Ok(())
    });
    host.on(&child, move |_| {
        at_child.set(at_child.get() + 10);
        Ok(())
    });
    host.emit(&root, Ping(1)).unwrap();
    assert_eq!(hits.get(), 1);
    host.emit(&child, Ping(1)).unwrap();
    assert_eq!(hits.get(), 12);
}

#[test]
fn unsubscribe_removes_one_listener() {
    let mut host = Host::new();
    let root = host.runtime.root();
    let (hits, seen) = counter();
    let other = seen.clone();
    let handler = host.handler(move |_| {
        seen.set(seen.get() + 1);
        Ok(())
    });
    let subscription = root.on(&mut host.runtime, ping(), handler).unwrap();
    host.on(&root, move |_| {
        other.set(other.get() + 10);
        Ok(())
    });
    subscription.dispose(&mut host.runtime);
    host.emit(&root, Ping(1)).unwrap();
    assert_eq!(hits.get(), 10);
}

#[test]
fn a_failing_listener_is_reported_as_such() {
    let mut host = Host::new();
    let root = host.runtime.root();
    host.on(&root, |_| Err(CoreError::ContextDisposed));
    assert!(matches!(
        host.emit(&root, Ping(1)),
        Err(CoreError::EventListener(message)) if message == "Context 已释放"
    ));
}

#[test]
fn an_answer_of_another_type_is_refused() {
    let mut host = Host::new();
    let root = host.runtime.root();
    root.on_serial(&mut host.runtime, decide(), 1).unwrap();
    let mut emission = root.serial(&mut host.runtime, decide()).unwrap();
    assert!(matches!(
        emission.next(&mut host.runtime.registry),
        EmissionStep::Invoke(1)
    ));
    let wrong = ErasedPayload { tag: ping().type_id(), value: 0 };
    assert!(matches!(
        emission.answered(decide().answer_type_id(), Ok(Some(wrong))),
        Err(CoreError::EventTypeMismatch { .. })
    ));
}

#[test]
fn events_of_a_disposed_context_are_refused() {
    let mut host = Host::new();
    let root = host.runtime.root();
    let effect = root.effect(&mut host.runtime).unwrap();
    host.dispose(&effect);
    assert!(matches!(
        effect.on(&mut host.runtime, ping(), 1),
        Err(CoreError::ContextDisposed)
    ));
    assert!(matches!(
        effect.emit(&mut host.runtime, ping()),
        Err(CoreError::ContextDisposed)
    ));
}
