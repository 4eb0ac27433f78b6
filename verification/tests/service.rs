//! Services: resolution, injections that follow their providers, and availability.

#![allow(dead_code)]

use cordis_core::effect::disposal::{Disposal, DisposeStep};
use cordis_core::effect::dispose::{Coordinator, CoordinatorAction, DisposePolicy};
use cordis_core::fiber::ProviderRevision;
use cordis_core::registry::activate::ActivationStart;
use cordis_core::registry::groups::UnmountTally;
use cordis_core::registry::lifecycle::{
    LifecycleOp, LifecycleStage, ObservedDispose, TerminalRelease, UnloadStart,
};
use cordis_core::registry::scheduler::{BatchStep, RoundEnd, SettleStep};
use cordis_core::runtime::{CleanupTask, ShutdownRole};
use cordis_core::{
    Context, CoreError, EffectContext, EventKey, Fiber, InjectionHandle, PluginKey, Runtime,
    ServiceId, ServiceKey, Services,
};
use std::collections::{HashMap, HashSet};
use std::rc::Rc;
use cordis_core::{FiberState, InjectionState, ProviderAvailability};
use std::cell::{Cell, RefCell};

#[derive(Debug, Clone)]
struct Number(usize);

#[derive(Debug)]
struct Other;

#[derive(Debug, Clone, PartialEq, Eq)]
struct Ping(u32);

#[derive(Debug, Clone, PartialEq, Eq)]
struct Pong(u32);

fn number() -> ServiceKey<Number> {
    ServiceKey::new("test.number@1")
}

fn other_number() -> ServiceKey<Other> {
    ServiceKey::new("test.number@1")
}

fn derived() -> ServiceKey<Number> {
    ServiceKey::new("test.derived@1")
}

fn ping() -> EventKey<Ping> {
    EventKey::new("test.ping@1")
}

fn pong_as_ping() -> EventKey<Pong> {
    EventKey::new("test.ping@1")
}

type Callback = Rc<dyn Fn(&mut Host) -> Result<(), String>>;
type Disposer = Rc<dyn Fn(&mut Host) -> Result<(), CoreError>>;
type Apply = Rc<dyn Fn(&mut Host, &Context) -> Result<(), CoreError>>;
type Injected = Rc<dyn Fn(&mut Host, &Services, &EffectContext) -> Result<(), CoreError>>;

#[derive(Clone)]
struct TestPlugin {
    key: &'static str,
    dependencies: Vec<ServiceId>,
    apply: Apply,
}

fn plugin(
    key: &'static str,
    dependencies: Vec<ServiceId>,
    apply: impl Fn(&mut Host, &Context) -> Result<(), CoreError> + 'static,
) -> TestPlugin {
    TestPlugin { key, dependencies, apply: Rc::new(apply) }
}

/// A host that does everything on the caller's thread. Handles in `gated` block whoever
/// waits for them.
struct Host {
    runtime: Runtime,
    next: u64,
    numbers: Vec<usize>,
    callbacks: HashMap<u64, Callback>,
    disposers: HashMap<u64, Disposer>,
    tasks: HashMap<u64, Callback>,
    plugins: HashMap<u64, TestPlugin>,
    mounts: HashMap<u64, Context>,
    injected: HashMap<u64, (Context, Injected)>,
    gated: HashSet<u64>,
    coordinators: Vec<(Coordinator, Option<CoordinatorAction>)>,
    releases: Vec<(u64, u64)>,
    aborted: Vec<u64>,
    recomputing: bool,
}

impl Host {
    fn new() -> Host {
        Host::with_identity(1)
    }

    fn with_identity(identity: u64) -> Host {
        Host {
            runtime: Runtime::new(identity, true).unwrap(),
            next: 1,
            numbers: Vec::new(),
            callbacks: HashMap::new(),
            disposers: HashMap::new(),
            tasks: HashMap::new(),
            plugins: HashMap::new(),
            mounts: HashMap::new(),
            injected: HashMap::new(),
            gated: HashSet::new(),
            coordinators: Vec::new(),
            releases: Vec::new(),
            aborted: Vec::new(),
            recomputing: false,
        }
    }

    fn root(&self) -> Context {
        self.runtime.root()
    }

    fn handle(&mut self) -> u64 {
        self.next += 1;
        self.next
    }

    fn number(&mut self, value: usize) -> u64 {
        self.numbers.push(value);
        (self.numbers.len() - 1) as u64
    }

    fn provide(
        &mut self,
        ctx: &Context,
        key: ServiceKey<Number>,
        value: usize,
    ) -> Result<(), CoreError> {
        let object = self.number(value);
        ctx.provide(&mut self.runtime, key, object)
    }

    fn get(&self, ctx: &Context, key: ServiceKey<Number>) -> Result<usize, CoreError> {
        ctx.get(&self.runtime, key).map(|object| self.numbers[object as usize])
    }

    fn effect(&mut self, ctx: &Context) -> EffectContext {
        ctx.effect(&mut self.runtime).unwrap()
    }

    fn named(&mut self, ctx: &Context, name: &str) -> EffectContext {
        ctx.effect_named(&mut self.runtime, name.to_string()).unwrap()
    }

    fn on_dispose(
        &mut self,
        effect: &EffectContext,
        callback: impl Fn(&mut Host) -> Result<(), String> + 'static,
    ) {
        let handle = self.handle();
        if effect.on_dispose(&mut self.runtime, handle) {
            self.callbacks.insert(handle, Rc::new(callback));
        } else {
            callback(self).unwrap();
        }
    }

    fn on_dispose_async(
        &mut self,
        effect: &EffectContext,
        disposer: impl Fn(&mut Host) -> Result<(), CoreError> + 'static,
    ) -> Result<u64, CoreError> {
        let handle = self.handle();
        effect.on_dispose_async(&mut self.runtime, handle)?;
        self.disposers.insert(handle, Rc::new(disposer));
        Ok(handle)
    }

    /// A task that runs until it is cancelled and then runs `at_end`.
    fn spawn(
        &mut self,
        effect: &EffectContext,
        at_end: impl Fn(&mut Host) -> Result<(), String> + 'static,
    ) -> Result<u64, CoreError> {
        let handle = self.handle();
        effect.spawn(&mut self.runtime, handle)?;
        self.tasks.insert(handle, Rc::new(at_end));
        Ok(handle)
    }

    fn inject(
        &mut self,
        ctx: &Context,
        dependencies: Vec<ServiceId>,
        callback: impl Fn(&mut Host, &Services, &EffectContext) -> Result<(), CoreError> + 'static,
    ) -> Result<InjectionHandle, CoreError> {
        let handle = self.handle();
        let injection = ctx.inject(&mut self.runtime, dependencies, handle)?;
        self.injected.insert(handle, (ctx.clone(), Rc::new(callback)));
        Ok(injection)
    }

    // The release of scopes.

    fn run_disposal(&mut self, mut disposal: Disposal) {
        loop {
            match disposal.step(&mut self.runtime.scopes) {
                DisposeStep::Entered(_) | DisposeStep::Skipped(_) => {}
                DisposeStep::Run { cleanup, .. } => match self.runtime.run_cleanup(cleanup) {
                    CleanupTask::Nothing => {}
                    CleanupTask::DisposeScope(scope) => {
                        self.dispose_scope(scope, DisposePolicy::HoistToParent)
                    }
                    CleanupTask::ReleaseFiber { fiber, release } => self.release(fiber, release),
                    CleanupTask::RunCallback(handle) => {
                        let callback = self.callbacks.remove(&handle).unwrap();
                        if let Err(message) = callback(self) {
                            disposal.cleanup_failed(message);
                        }
                    }
                },
                DisposeStep::Coordinate(coordinator) => self.coordinators.push((coordinator, None)),
                DisposeStep::Abort { tasks, .. } => self.aborted.extend(tasks),
                DisposeStep::Done => break,
            }
        }
        self.pump();
    }

    fn dispose_scope(&mut self, scope: u64, policy: DisposePolicy) {
        let disposal = Disposal::start(&mut self.runtime.scopes, scope, policy);
        self.run_disposal(disposal);
    }

    fn dispose(&mut self, effect: &EffectContext) {
        let disposal = effect.dispose(&mut self.runtime);
        self.run_disposal(disposal);
    }

    /// Disposes and waits; nothing while a gate holds the release up.
    fn dispose_wait(&mut self, effect: &EffectContext) -> Option<Result<(), CoreError>> {
        let disposal = effect.dispose_wait(&mut self.runtime);
        self.run_disposal(disposal);
        self.outcome(effect)
    }

    fn outcome(&self, effect: &EffectContext) -> Option<Result<(), CoreError>> {
        self.runtime.scopes.outcome(effect.as_context().scope())
    }

    fn open(&mut self, gate: u64) {
        self.gated.remove(&gate);
        self.pump();
    }

    /// Carries all releases on as far as no gate holds them up.
    fn pump(&mut self) {
        let mut progress = true;
        while progress {
            progress = false;
            let mut waiting = Vec::new();
            for (mut coordinator, stored) in std::mem::take(&mut self.coordinators) {
                let mut action = stored;
                loop {
                    let current = match action.take() {
                        Some(current) => current,
                        None => coordinator.next(),
                    };
                    match current {
                        CoordinatorAction::AwaitChild(child) => {
                            if self.runtime.scopes.is_releasing(child) {
                                waiting.push((coordinator, Some(current)));
                                break;
                            }
                            if let Some(Err(CoreError::DisposeFailed { errors })) =
                                self.runtime.scopes.outcome(child)
                            {
                                coordinator.child_failed(errors);
                            }
                        }
                        CoordinatorAction::RunDisposer(handle) => {
                            if self.gated.contains(&handle) {
                                waiting.push((coordinator, Some(current)));
                                break;
                            }
                            let disposer = self.disposers.remove(&handle).unwrap();
                            if let Err(error) = disposer(self) {
                                coordinator.disposer_failed(error.message());
                            }
                        }
                        CoordinatorAction::AwaitTask(handle) => {
                            if self.gated.contains(&handle) {
                                waiting.push((coordinator, Some(current)));
                                break;
                            }
                            let task = self.tasks.remove(&handle).unwrap();
                            if let Err(message) = task(self) {
                                coordinator.task_join_failed(&message);
                            }
                        }
                        CoordinatorAction::Finish(errors) => {
                            self.runtime.scopes.finish(coordinator.scope(), errors);
                            progress = true;
                            break;
                        }
                    }
                }
            }
            waiting.extend(std::mem::take(&mut self.coordinators));
            self.coordinators = waiting;
            for (fiber, scope) in std::mem::take(&mut self.releases) {
                if self.runtime.scopes.is_releasing(scope) {
                    self.releases.push((fiber, scope));
                } else {
                    let errors = self.errors_of(scope);
                    let _ = self.runtime.registry.finalize_terminal_release(fiber, scope, errors);
                    progress = true;
                }
            }
        }
    }

    fn errors_of(&self, scope: u64) -> Vec<String> {
        match self.runtime.scopes.outcome(scope) {
            Some(Err(CoreError::DisposeFailed { errors })) => errors,
            _ => Vec::new(),
        }
    }

    // Plugins.

    fn release(&mut self, fiber: u64, release: TerminalRelease) {
        match release {
            TerminalRelease::Run(scope) => {
                self.releases.push((fiber, scope));
                self.dispose_scope(scope, DisposePolicy::HoistToParent);
                self.runtime.registry.mark_release_started(fiber, scope);
            }
            TerminalRelease::Join(scope) => self.releases.push((fiber, scope)),
            TerminalRelease::Vacant | TerminalRelease::Observe => {}
        }
        self.pump();
    }

    fn dispose_fiber(&mut self, fiber: &Fiber) {
        let release = fiber.dispose(&mut self.runtime);
        self.release(fiber.id(), release);
    }

    fn dispose_fiber_wait(&mut self, fiber: &Fiber) -> Option<Result<(), CoreError>> {
        let release = fiber.dispose_wait(&mut self.runtime);
        self.release(fiber.id(), release);
        match self.runtime.registry.observe_dispose_result(fiber.id()) {
            ObservedDispose::Known(result) => Some(result),
            ObservedDispose::Wait(_) => None,
        }
    }

    fn unload(&mut self, id: u64) -> Result<(), CoreError> {
        match self.runtime.registry.begin_unload(id) {
            UnloadStart::Over(result) => result,
            UnloadStart::Release(scope) => {
                self.dispose_scope(scope, DisposePolicy::AwaitLocal);
                let errors = self.errors_of(scope);
                self.runtime.registry.finish_unload(id, scope, errors)
            }
            UnloadStart::ReleaseOnly(scope) => {
                self.dispose_scope(scope, DisposePolicy::AwaitLocal);
                Err(CoreError::FiberDisposed)
            }
        }
    }

    fn activate(&mut self, id: u64, initial_mount: bool) -> Result<(), CoreError> {
        match self.runtime.registry.begin_activation(&mut self.runtime.scopes, id, initial_mount) {
            ActivationStart::Refused(error) => Err(error),
            ActivationStart::Revoked(scope) => {
                if let Some(scope) = scope {
                    self.dispose_scope(scope, DisposePolicy::HoistToParent);
                }
                Err(CoreError::FiberDisposed)
            }
            ActivationStart::Idle => Ok(()),
            ActivationStart::Apply { scope, plugin, providers } => {
                let applied = self.plugins[&plugin].clone();
                let ctx = self.mounts[&id].with_scope_and_log_source(
                    scope,
                    id,
                    PluginKey::new(applied.key),
                );
                let outcome = (applied.apply)(self, &ctx).map_err(|error| error.message());
                self.end_activation(id, initial_mount, scope, providers, outcome)
            }
        }
    }

    fn end_activation(
        &mut self,
        id: u64,
        initial_mount: bool,
        scope: u64,
        providers: Vec<ProviderRevision>,
        outcome: Result<(), String>,
    ) -> Result<(), CoreError> {
        let end = self.runtime.registry.finish_activation(
            &self.runtime.scopes,
            id,
            initial_mount,
            scope,
            providers,
            outcome,
        );
        for scope in end.dispose.into_iter().chain(end.withdrawn) {
            self.dispose_scope(scope, DisposePolicy::HoistToParent);
        }
        end.result
    }

    fn run_op(
        &mut self,
        id: u64,
        op: LifecycleOp,
        replacement: Option<u64>,
    ) -> Result<(), CoreError> {
        let mut stage = op.first_stage();
        let mut result = Ok(());
        loop {
            result = match stage {
                LifecycleStage::Unload => self.unload(id),
                LifecycleStage::Install => {
                    let handle = replacement.unwrap();
                    let dependencies = self.plugins[&handle].dependencies.clone();
                    self.runtime.registry.install_replacement(id, handle, dependencies)
                }
                LifecycleStage::Activate { initial_mount } => self.activate(id, initial_mount),
                LifecycleStage::Done => break,
            };
            stage = op.next_stage(stage, result.is_ok());
        }
        if let LifecycleOp::Activate { initial_mount: true } = op {
            self.runtime.registry.offer_handle(id);
        }
        self.close_op(id);
        result
    }

    fn close_op(&mut self, id: u64) {
        if let Some(scope) = self.runtime.registry.finish_lifecycle(id) {
            self.dispose_scope(scope, DisposePolicy::HoistToParent);
        }
    }

    fn mount(&mut self, ctx: &Context, plugin: TestPlugin) -> Result<Fiber, CoreError> {
        let handle = self.handle();
        let key = PluginKey::new(plugin.key);
        let dependencies = plugin.dependencies.clone();
        self.plugins.insert(handle, plugin);
        let fiber = ctx.plugin(&mut self.runtime, key, handle, dependencies)?;
        self.mounts.insert(fiber.id(), ctx.clone());
        self.runtime.registry.start_lifecycle(fiber.id()).unwrap();
        let first = LifecycleOp::Activate { initial_mount: true };
        let _ = self.run_op(fiber.id(), first, None);
        assert!(self.runtime.registry.claim_handle(fiber.id()));
        Ok(fiber)
    }

    fn restart(&mut self, fiber: &Fiber) -> Result<(), CoreError> {
        fiber.restart(&mut self.runtime)?;
        self.run_op(fiber.id(), LifecycleOp::Restart, None)
    }

    fn replace(&mut self, fiber: &Fiber, plugin: TestPlugin) -> Result<(), CoreError> {
        let handle = self.handle();
        let key = PluginKey::new(plugin.key);
        self.plugins.insert(handle, plugin);
        fiber.replace(&mut self.runtime, key)?;
        self.run_op(fiber.id(), LifecycleOp::Replace, Some(handle))
    }

    fn unmount(&mut self, key: &'static str) -> Result<usize, CoreError> {
        let (fibers, token) = self.runtime.unmount(PluginKey::new(key))?;
        let mut tally = UnmountTally::new(fibers.len());
        for id in fibers {
            let result = self.dispose_fiber_wait(&Fiber::from_id(id)).unwrap();
            tally.released(result);
        }
        self.runtime.registry.finish_plugin_unmount(PluginKey::new(key), token);
        tally.finish()
    }

    // The scheduler.

    fn run_injection(&mut self, id: u64) {
        let snapshot = match self.runtime.registry.snapshot_injection(id) {
            Some(snapshot) => snapshot,
            None => return,
        };
        let child = self.runtime.scopes.child(snapshot.parent);
        let (ctx, callback) = self.injected[&snapshot.callback].clone();
        let effect = EffectContext::from_context(ctx.with_scope(child));
        let outcome = callback(self, &snapshot.services, &effect).map_err(|error| error.message());
        if self.runtime.registry.finish_injection(
            &self.runtime.scopes,
            id,
            child,
            snapshot.providers,
            outcome,
        ) {
            self.dispose_scope(child, DisposePolicy::HoistToParent);
        }
    }

    fn run_started(&mut self, id: u64, op: LifecycleOp) {
        if self.runtime.registry.start_lifecycle(id).is_ok() {
            let _ = self.run_op(id, op, None);
        }
    }

    fn settle(&mut self) {
        match self.runtime.registry.settle_step(self.recomputing) {
            SettleStep::Return => return,
            SettleStep::Recompute | SettleStep::Wait => {}
        }
        if !self.runtime.registry.begin_recompute() {
            return;
        }
        self.recomputing = true;
        loop {
            let mut batch = self.runtime.registry.take_batch(&self.runtime.scopes);
            if batch.is_empty() {
                match self.runtime.registry.close_round(batch.epoch) {
                    RoundEnd::Continue => continue,
                    RoundEnd::Quiescent => break,
                }
            }
            loop {
                match batch.next() {
                    BatchStep::Dispose(scope) => {
                        self.dispose_scope(scope, DisposePolicy::HoistToParent)
                    }
                    BatchStep::Unload(id) => self.run_started(id, LifecycleOp::Unload),
                    BatchStep::Inject(id) => self.run_injection(id),
                    BatchStep::Activate(id) => {
                        self.run_started(id, LifecycleOp::Activate { initial_mount: false })
                    }
                    BatchStep::End => break,
                }
            }
        }
        self.recomputing = false;
    }

    fn shutdown(&mut self) -> Option<Result<(), CoreError>> {
        if self.runtime.shutdown(false).unwrap() == ShutdownRole::Run {
            let scope = self.root().scope();
            self.dispose_scope(scope, DisposePolicy::AwaitLocal);
        }
        self.end_shutdown()
    }

    fn end_shutdown(&mut self) -> Option<Result<(), CoreError>> {
        let scope = self.root().scope();
        if self.runtime.shutdown_result().is_none() && !self.runtime.scopes.is_releasing(scope) {
            let errors = self.errors_of(scope);
            self.settle();
            self.runtime.finish_shutdown(errors);
        }
        self.runtime.shutdown_result()
    }
}

fn contains(result: &Result<(), CoreError>, text: &str) -> usize {
    match result {
        Err(CoreError::DisposeFailed { errors }) => {
            errors.iter().filter(|error| error.contains(text)).count()
        }
        other => panic!("unexpected: {other:?}"),
    }
}

fn counter() -> (Rc<Cell<usize>>, Rc<Cell<usize>>) {
    let cell = Rc::new(Cell::new(0));
    (cell.clone(), cell)
}

fn not_ready() -> ProviderAvailability {
    ProviderAvailability::Unavailable { reason: "connector is not ready".to_string() }
}

#[test]
fn service_late_provider_activates_consumer_without_manual_settle() {
    let mut host = Host::new();
    let root = host.root();
    let (runs, seen) = counter();
    let handle = host
        .inject(&root, vec![number().id()], move |host, services, _| {
            let object = services.get(number())?;
            assert_eq!(host.numbers[object as usize], 7);
            assert_eq!(services.clone().get(number())?, object);
            seen.set(seen.get() + 1);
            Ok(())
        })
        .unwrap();
    host.settle();
    assert_eq!(handle.state(&host.runtime), InjectionState::Pending);
    host.provide(&root, number(), 7).unwrap();
    assert!(host.runtime.registry.wants_wake());
    host.settle();
    assert_eq!(handle.state(&host.runtime), InjectionState::Active);
    assert_eq!(runs.get(), 1);
}

#[test]
fn scheduler_injection_calling_settle_does_not_deadlock() {
    let mut host = Host::new();
    let root = host.root();
    let (runs, seen) = counter();
    let handle = host
        .inject(&root, vec![number().id()], move |host, services, _| {
            host.settle();
            let object = services.get(number())?;
            assert_eq!(host.numbers[object as usize], 7);
            seen.set(seen.get() + 1);
            Ok(())
        })
        .unwrap();
    assert_eq!(handle.state(&host.runtime), InjectionState::Pending);
    let effect = host.effect(&root);
    host.provide(effect.as_context(), number(), 7).unwrap();
    host.settle();
    assert_eq!(handle.state(&host.runtime), InjectionState::Active);
    assert_eq!(runs.get(), 1);
    host.shutdown().unwrap().unwrap();
}

#[test]
fn injection_callback_panic_fails_only_that_injection_and_scheduler_continues() {
    let mut host = Host::new();
    let root = host.root();
    let failed = host
        .inject(&root, vec![number().id()], |_, _, _| {
            Err(CoreError::EventListener("injection callback boom".to_string()))
        })
        .unwrap();
    let (runs, seen) = counter();
    let healthy = host
        .inject(&root, vec![number().id()], move |_, _, _| {
            seen.set(seen.get() + 1);
            Ok(())
        })
        .unwrap();
    let effect = host.effect(&root);
    host.provide(effect.as_context(), number(), 1).unwrap();
    host.settle();
    assert_eq!(failed.state(&host.runtime), InjectionState::Failed);
    assert_eq!(healthy.state(&host.runtime), InjectionState::Active);
    assert_eq!(runs.get(), 1);
    host.settle();
    assert_eq!(failed.state(&host.runtime), InjectionState::Failed);
    let shown = host.runtime.diagnostics();
    let message = shown.inject_fibers[0].last_error.as_ref().unwrap();
    assert!(message.contains("injection callback boom"));
    host.shutdown().unwrap().unwrap();
}

#[test]
fn service_provider_removal_disposes_consumer_and_reactivation_rebuilds_it() {
    let mut host = Host::new();
    let root = host.root();
    let (disposed, seen) = counter();
    let handle = host
        .inject(&root, vec![number().id()], move |host, _, effect| {
            let seen = seen.clone();
            host.on_dispose(effect, move |_| {
                seen.set(seen.get() + 1);
                Ok(())
            });
            Ok(())
        })
        .unwrap();
    let provider = host.effect(&root);
    host.provide(provider.as_context(), number(), 1).unwrap();
    host.settle();
    assert_eq!(handle.state(&host.runtime), InjectionState::Active);
    host.dispose(&provider);
    host.settle();
    assert_eq!(handle.state(&host.runtime), InjectionState::Pending);
    assert_eq!(disposed.get(), 1);
    let replacement = host.effect(&root);
    host.provide(replacement.as_context(), number(), 2).unwrap();
    host.settle();
    assert_eq!(handle.state(&host.runtime), InjectionState::Active);
}

#[test]
fn service_rejects_conflicts_and_type_mismatch() {
    let mut host = Host::new();
    let root = host.root();
    host.provide(&root, number(), 1).unwrap();
    assert!(matches!(
        host.provide(&root, number(), 2),
        Err(CoreError::ServiceConflict { .. })
    ));
    assert!(matches!(
        root.get(&host.runtime, other_number()),
        Err(CoreError::ServiceTypeMismatch { .. })
    ));
}

#[test]
fn service_nested_inject_and_failed_callback_follow_dependency_changes() {
    let mut host = Host::new();
    let root = host.root();
    let (leaf_runs, seen) = counter();
    host.inject(&root, vec![number().id()], move |host, services, effect| {
        let source = host.numbers[services.get(number())? as usize];
        host.provide(effect.as_context(), derived(), source + 1)?;
        let seen = seen.clone();
        host.inject(effect.as_context(), vec![derived().id()], move |host, services, _| {
            assert_eq!(host.numbers[services.get(derived())? as usize], 2);
            seen.set(seen.get() + 1);
            Ok(())
        })?;
        Ok(())
    })
    .unwrap();
    let provider = host.effect(&root);
    host.provide(provider.as_context(), number(), 1).unwrap();
    host.settle();
    assert_eq!(leaf_runs.get(), 1);
    let failed = host
        .inject(&root, vec![derived().id()], |_, _, _| {
            Err(CoreError::ServiceUnavailable { service: derived().id() })
        })
        .unwrap();
    host.settle();
    assert_eq!(failed.state(&host.runtime), InjectionState::Failed);
}

#[test]
fn service_cyclic_injections_stay_pending_with_missing_deps_only() {
    let mut host = Host::new();
    let root = host.root();
    let a = host
        .inject(&root, vec![derived().id()], |host, services, effect| {
            let value = host.numbers[services.get(derived())? as usize];
            host.provide(effect.as_context(), number(), value)
        })
        .unwrap();
    let b = host
        .inject(&root, vec![number().id()], |host, services, effect| {
            let value = host.numbers[services.get(number())? as usize];
            host.provide(effect.as_context(), derived(), value)
        })
        .unwrap();
    host.settle();
    assert_eq!(a.state(&host.runtime), InjectionState::Pending);
    assert_eq!(b.state(&host.runtime), InjectionState::Pending);
    let snapshot = host.runtime.diagnostics();
    assert!(snapshot.inject_fibers.iter().any(|fiber| !fiber.missing_dependencies.is_empty()));
    assert!(!format!("{snapshot:?}").contains("cycles"));
}

#[test]
fn service_concurrent_provide_and_dispose_converge() {
    let mut host = Host::new();
    let root = host.root();
    let (runs, seen) = counter();
    let handle = host
        .inject(&root, vec![number().id()], move |_, _, _| {
            seen.set(seen.get() + 1);
            Ok(())
        })
        .unwrap();
    let mut current: Option<EffectContext> = None;
    for value in 0..8 {
        if let Some(previous) = current.take() {
            host.dispose(&previous);
        }
        let effect = host.effect(&root);
        host.provide(effect.as_context(), number(), value).unwrap();
        current = Some(effect);
        host.settle();
    }
    assert_eq!(handle.state(&host.runtime), InjectionState::Active);
    assert!(runs.get() >= 1);
    host.dispose(&current.take().unwrap());
    host.settle();
    assert_eq!(handle.state(&host.runtime), InjectionState::Pending);
}

#[test]
fn service_service_and_event_key_types_are_globally_locked() {
    let mut host = Host::new();
    let root = host.root();
    host.provide(&root, number(), 1).unwrap();
    let child = root.extend(&mut host.runtime).unwrap();
    assert!(matches!(
        child.provide(&mut host.runtime, other_number(), 0),
        Err(CoreError::ServiceKeyTypeConflict { .. })
    ));
    let owner = host.effect(&root);
    let scoped = owner.extend(&mut host.runtime).unwrap();
    host.provide(&scoped, number(), 2).unwrap();
    host.dispose(&owner);
    let again = root.extend(&mut host.runtime).unwrap();
    assert!(matches!(
        again.provide(&mut host.runtime, other_number(), 0),
        Err(CoreError::ServiceKeyTypeConflict { .. })
    ));
    root.on(&mut host.runtime, ping(), 1).unwrap();
    assert!(matches!(
        root.on(&mut host.runtime, pong_as_ping(), 2),
        Err(CoreError::EventKeyTypeConflict { .. })
    ));
    assert!(matches!(
        root.emit(&mut host.runtime, pong_as_ping()),
        Err(CoreError::EventKeyTypeConflict { .. })
    ));
}

#[test]
fn service_key_type_conflict_across_plugins() {
    let mut host = Host::new();
    let root = host.root();
    let first = plugin("test.plugin", vec![], |host, ctx| host.provide(ctx, number(), 1));
    let a = host.mount(&root, first).unwrap();
    host.dispose_fiber(&a);
    let other = plugin("test.otherplugin", vec![], |host, ctx| {
        ctx.provide(&mut host.runtime, other_number(), 0)
    });
    let fiber = host.mount(&root, other).unwrap();
    assert_eq!(fiber.state(&host.runtime), FiberState::Failed);
    assert!(fiber.last_error(&host.runtime).is_some_and(|message| message.contains("类型")));
}

#[test]
fn checked_provider_is_registered_but_strictly_unavailable_until_refreshed() {
    let mut host = Host::new();
    let root = host.root();
    let object = host.number(7);
    let handle =
        root.provide_checked(&mut host.runtime, number(), object, not_ready()).unwrap();
    assert!(matches!(host.get(&root, number()), Err(CoreError::ServiceUnavailable { .. })));
    let snapshot = host.runtime.diagnostics();
    let provider = snapshot
        .providers
        .iter()
        .find(|provider| provider.service == number().id().as_str())
        .unwrap();
    assert!(matches!(
        &provider.availability,
        ProviderAvailability::Unavailable { reason } if reason == "connector is not ready"
    ));
    handle.check(&host.runtime).unwrap();
    handle.refresh(&mut host.runtime, Ok(ProviderAvailability::Ready)).unwrap();
    assert_eq!(host.get(&root, number()).unwrap(), 7);
    host.shutdown().unwrap().unwrap();
}

#[test]
fn checked_provider_rebuilds_injection_across_unavailable_ready_flip() {
    let mut host = Host::new();
    let root = host.root();
    let object = host.number(7);
    let provider =
        root.provide_checked(&mut host.runtime, number(), object, not_ready()).unwrap();
    let (runs, seen) = counter();
    let injection = host
        .inject(&root, vec![number().id()], move |host, services, _| {
            assert_eq!(host.numbers[services.get(number())? as usize], 7);
            seen.set(seen.get() + 1);
            Ok(())
        })
        .unwrap();
    host.settle();
    assert_eq!(injection.state(&host.runtime), InjectionState::Pending);
    provider.refresh(&mut host.runtime, Ok(ProviderAvailability::Ready)).unwrap();
    host.settle();
    assert_eq!(injection.state(&host.runtime), InjectionState::Active);
    assert_eq!(runs.get(), 1);
    // Without a round in between: the revision tells the flip.
    provider.refresh(&mut host.runtime, Ok(not_ready())).unwrap();
    provider.refresh(&mut host.runtime, Ok(ProviderAvailability::Ready)).unwrap();
    host.settle();
    assert_eq!(runs.get(), 2);
    assert_eq!(injection.state(&host.runtime), InjectionState::Active);
    provider.refresh(&mut host.runtime, Ok(not_ready())).unwrap();
    host.settle();
    assert_eq!(injection.state(&host.runtime), InjectionState::Pending);
    host.shutdown().unwrap().unwrap();
}

#[test]
fn unavailable_local_provider_shadows_ready_parent_without_fallback() {
    let mut host = Host::new();
    let root = host.root();
    host.provide(&root, number(), 1).unwrap();
    let child = root.extend(&mut host.runtime).unwrap();
    let object = host.number(2);
    child.provide_checked(&mut host.runtime, number(), object, not_ready()).unwrap();
    assert!(matches!(host.get(&child, number()), Err(CoreError::ServiceUnavailable { .. })));
    assert_eq!(host.get(&root, number()).unwrap(), 1);
    host.shutdown().unwrap().unwrap();
}

#[test]
fn checked_provider_handle_fails_after_owner_scope_is_disposed() {
    let mut host = Host::new();
    let root = host.root();
    let effect = host.effect(&root);
    let object = host.number(7);
    let provider = effect
        .provide_checked(&mut host.runtime, number(), object, ProviderAvailability::Ready)
        .unwrap();
    host.dispose(&effect);
    assert!(matches!(provider.check(&host.runtime), Err(CoreError::ProviderDisposed { .. })));
    assert!(matches!(
        provider.refresh(&mut host.runtime, Ok(ProviderAvailability::Ready)),
        Err(CoreError::ProviderDisposed { .. })
    ));
    host.shutdown().unwrap().unwrap();
}

#[test]
fn provider_from_loading_plugin_is_only_available_after_plugin_becomes_active() {
    let mut host = Host::new();
    let root = host.root();
    let providing = plugin("test.self-providing@1", vec![], |host, ctx| {
        host.provide(ctx, number(), 7)?;
        assert!(matches!(host.get(ctx, number()), Err(CoreError::ServiceUnavailable { .. })));
        Ok(())
    });
    host.mount(&root, providing).unwrap();
    assert_eq!(host.get(&root, number()).unwrap(), 7);
    host.shutdown().unwrap().unwrap();
}

#[test]
fn refresh_check_panic_marks_provider_unavailable_without_stopping_runtime() {
    let mut host = Host::new();
    let root = host.root();
    let object = host.number(7);
    let provider = root
        .provide_checked(&mut host.runtime, number(), object, ProviderAvailability::Ready)
        .unwrap();
    assert_eq!(host.get(&root, number()).unwrap(), 7);
    let boom = "provider check panicked: health state corrupted".to_string();
    assert!(matches!(
        provider.refresh(&mut host.runtime, Err(boom)),
        Err(CoreError::ProviderCheck(_))
    ));
    assert!(matches!(host.get(&root, number()), Err(CoreError::ServiceUnavailable { .. })));
    assert!(matches!(
        &host.runtime.diagnostics().providers[0].availability,
        ProviderAvailability::Unavailable { reason } if reason.contains("health state corrupted")
    ));
    host.settle();
    host.shutdown().unwrap().unwrap();
}

#[test]
fn checked_provider_drives_plugin_pending_unload_and_reactivation() {
    let mut host = Host::new();
    let root = host.root();
    let object = host.number(7);
    let provider =
        root.provide_checked(&mut host.runtime, number(), object, not_ready()).unwrap();
    let (runs, seen) = counter();
    let key = "test.checked-provider-consumer@1";
    let consumer = plugin(key, vec![number().id()], move |host, ctx| {
        assert_eq!(host.get(ctx, number())?, 7);
        seen.set(seen.get() + 1);
        Ok(())
    });
    let fiber = host.mount(&root, consumer).unwrap();
    assert_eq!(fiber.state(&host.runtime), FiberState::Pending);
    assert_eq!(fiber.snapshot(&host.runtime).unwrap().unavailable_dependencies.len(), 1);
    let changes = host.runtime.registry.drain_changes();
    assert_eq!(changes[0].fiber_id, fiber.id());
    assert_eq!(changes[0].current, FiberState::Pending);
    assert_eq!(changes[0].unavailable_dependencies.len(), 1);
    assert_eq!(changes[0].unavailable_dependencies[0].reason, "connector is not ready");
    provider.refresh(&mut host.runtime, Ok(ProviderAvailability::Ready)).unwrap();
    host.settle();
    assert_eq!(fiber.state(&host.runtime), FiberState::Active);
    assert_eq!(runs.get(), 1);
    provider.refresh(&mut host.runtime, Ok(not_ready())).unwrap();
    host.settle();
    assert_eq!(fiber.state(&host.runtime), FiberState::Pending);
    assert_eq!(fiber.snapshot(&host.runtime).unwrap().unavailable_dependencies.len(), 1);
    host.shutdown().unwrap().unwrap();
}

#[test]
fn empty_dependencies_are_refused() {
    let mut host = Host::new();
    let root = host.root();
    assert!(matches!(
        host.inject(&root, vec![], |_, _, _| Ok(())),
        Err(CoreError::EmptyInjection)
    ));
}

#[test]
fn injection_disposes_with_its_context() {
    let mut host = Host::new();
    let root = host.root();
    host.provide(&root, number(), 1).unwrap();
    let owner = host.effect(&root);
    let (disposed, seen) = counter();
    let handle = host
        .inject(owner.as_context(), vec![number().id()], move |host, _, effect| {
            let seen = seen.clone();
            host.on_dispose(effect, move |_| {
                seen.set(seen.get() + 1);
                Ok(())
            });
            Ok(())
        })
        .unwrap();
    host.settle();
    assert_eq!(handle.state(&host.runtime), InjectionState::Active);
    host.dispose(&owner);
    assert_eq!(handle.state(&host.runtime), InjectionState::Disposed);
    assert_eq!(disposed.get(), 1);
}

#[test]
fn settled_consumers_follow_their_providers() {
    let mut host = Host::new();
    let root = host.root();
    let seen = Rc::new(RefCell::new(Vec::new()));
    let log = seen.clone();
    let first = host
        .inject(&root, vec![number().id()], move |_, services, _| {
            log.borrow_mut().push(services.get(number())?);
            Ok(())
        })
        .unwrap();
    let second = host.inject(&root, vec![number().id(), derived().id()], |_, _, _| Ok(())).unwrap();
    host.settle();
    assert_eq!(first.state(&host.runtime), InjectionState::Pending);
    assert_eq!(second.state(&host.runtime), InjectionState::Pending);
    let effect = host.effect(&root);
    host.provide(effect.as_context(), number(), 1).unwrap();
    assert_eq!(first.state(&host.runtime), InjectionState::Pending);
    host.settle();
    assert!(host.runtime.registry.settle_step(false) == SettleStep::Return);
    assert_eq!(first.state(&host.runtime), InjectionState::Active);
    assert_eq!(second.state(&host.runtime), InjectionState::Pending);
    host.provide(&root, derived(), 2).unwrap();
    host.settle();
    assert_eq!(second.state(&host.runtime), InjectionState::Active);
    host.dispose(&effect);
    assert!(host.runtime.registry.settle_step(false) != SettleStep::Return);
    host.settle();
    assert_eq!(first.state(&host.runtime), InjectionState::Pending);
    assert_eq!(second.state(&host.runtime), InjectionState::Pending);
    assert_eq!(seen.borrow().len(), 1);
}
