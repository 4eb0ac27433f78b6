//! Plugins and their fibers: mounting, restarts, replacement, unmounting.

#![allow(dead_code)]

use cordis_core::effect::disposal::{Disposal, DisposeStep};
use cordis_core::effect::dispose::{Coordinator, CoordinatorAction, DisposePolicy};
use cordis_core::fiber::ProviderRevision;
use cordis_core::registry::activate::ActivationStart;
use cordis_core::registry::groups::UnmountTally;
use cordis_core::registry::lifecycle::{
    LifecycleOp, LifecycleStage, ObservedDispose, TerminalRelease, UnloadStart,
};
use cordis_core::registry::scheduler::{BatchStep, RoundEnd, SettleStep};
use cordis_core::runtime::{CleanupTask, ShutdownRole};
use cordis_core::{
    Context, CoreError, EffectContext, EventKey, Fiber, InjectionHandle, PluginKey, Runtime,
    ServiceId, ServiceKey, Services,
};
use std::collections::{HashMap, HashSet};
use std::rc::Rc;
use cordis_core::completion::Completion;
use cordis_core::fiber::{EffectOwnership, HandleHandoff};
use cordis_core::registry::lifecycle::AbortRecovery;
use cordis_core::{FiberState, FiberStateSnapshot, LogExporter, LogRecord};
use std::cell::Cell;
use std::sync::{Arc, Mutex};

#[derive(Debug, Clone)]
struct Number(usize);

#[derive(Debug)]
struct Other;

#[derive(Debug, Clone, PartialEq, Eq)]
struct Ping(u32);

#[derive(Debug, Clone, PartialEq, Eq)]
struct Pong(u32);

fn number() -> ServiceKey<Number> {
    ServiceKey::new("test.number@1")
}

fn other_number() -> ServiceKey<Other> {
    ServiceKey::new("test.number@1")
}

fn derived() -> ServiceKey<Number> {
    ServiceKey::new("test.derived@1")
}

fn ping() -> EventKey<Ping> {
    EventKey::new("test.ping@1")
}

fn pong_as_ping() -> EventKey<Pong> {
    EventKey::new("test.ping@1")
}

type Callback = Rc<dyn Fn(&mut Host) -> Result<(), String>>;
type Disposer = Rc<dyn Fn(&mut Host) -> Result<(), CoreError>>;
type Apply = Rc<dyn Fn(&mut Host, &Context) -> Result<(), CoreError>>;
type Injected = Rc<dyn Fn(&mut Host, &Services, &EffectContext) -> Result<(), CoreError>>;

#[derive(Clone)]
struct TestPlugin {
    key: &'static str,
    dependencies: Vec<ServiceId>,
    apply: Apply,
}

fn plugin(
    key: &'static str,
    dependencies: Vec<ServiceId>,
    apply: impl Fn(&mut Host, &Context) -> Result<(), CoreError> + 'static,
) -> TestPlugin {
    TestPlugin { key, dependencies, apply: Rc::new(apply) }
}

/// A host that does everything on the caller's thread. Handles in `gated` block whoever
/// waits for them.
struct Host {
    runtime: Runtime,
    next: u64,
    numbers: Vec<usize>,
    callbacks: HashMap<u64, Callback>,
    disposers: HashMap<u64, Disposer>,
    tasks: HashMap<u64, Callback>,
    plugins: HashMap<u64, TestPlugin>,
    mounts: HashMap<u64, Context>,
    injected: HashMap<u64, (Context, Injected)>,
    gated: HashSet<u64>,
    coordinators: Vec<(Coordinator, Option<CoordinatorAction>)>,
    releases: Vec<(u64, u64)>,
    aborted: Vec<u64>,
    recomputing: bool,
}

impl Host {
    fn new() -> Host {
        Host::with_identity(1)
    }

    fn with_identity(identity: u64) -> Host {
        Host {
            runtime: Runtime::new(identity, true).unwrap(),
            next: 1,
            numbers: Vec::new(),
            callbacks: HashMap::new(),
            disposers: HashMap::new(),
            tasks: HashMap::new(),
            plugins: HashMap::new(),
            mounts: HashMap::new(),
            injected: HashMap::new(),
            gated: HashSet::new(),
            coordinators: Vec::new(),
            releases: Vec::new(),
            aborted: Vec::new(),
            recomputing: false,
        }
    }

    fn root(&self) -> Context {
        self.runtime.root()
    }

    fn handle(&mut self) -> u64 {
        self.next += 1;
        self.next
    }

    fn number(&mut self, value: usize) -> u64 {
        self.numbers.push(value);
        (self.numbers.len() - 1) as u64
    }

    fn provide(
        &mut self,
        ctx: &Context,
        key: ServiceKey<Number>,
        value: usize,
    ) -> Result<(), CoreError> {
        let object = self.number(value);
        ctx.provide(&mut self.runtime, key, object)
    }

    fn get(&self, ctx: &Context, key: ServiceKey<Number>) -> Result<usize, CoreError> {
        ctx.get(&self.runtime, key).map(|object| self.numbers[object as usize])
    }

    fn effect(&mut self, ctx: &Context) -> EffectContext {
        ctx.effect(&mut self.runtime).unwrap()
    }

    fn named(&mut self, ctx: &Context, name: &str) -> EffectContext {
        ctx.effect_named(&mut self.runtime, name.to_string()).unwrap()
    }

    fn on_dispose(
        &mut self,
        effect: &EffectContext,
        callback: impl Fn(&mut Host) -> Result<(), String> + 'static,
    ) {
        let handle = self.handle();
        if effect.on_dispose(&mut self.runtime, handle) {
            self.callbacks.insert(handle, Rc::new(callback));
        } else {
            callback(self).unwrap();
        }
    }

    fn on_dispose_async(
        &mut self,
        effect: &EffectContext,
        disposer: impl Fn(&mut Host) -> Result<(), CoreError> + 'static,
    ) -> Result<u64, CoreError> {
        let handle = self.handle();
        effect.on_dispose_async(&mut self.runtime, handle)?;
        self.disposers.insert(handle, Rc::new(disposer));
        Ok(handle)
    }

    /// A task that runs until it is cancelled and then runs `at_end`.
    fn spawn(
        &mut self,
        effect: &EffectContext,
        at_end: impl Fn(&mut Host) -> Result<(), String> + 'static,
    ) -> Result<u64, CoreError> {
        let handle = self.handle();
        effect.spawn(&mut self.runtime, handle)?;
        self.tasks.insert(handle, Rc::new(at_end));
        Ok(handle)
    }

    fn inject(
        &mut self,
        ctx: &Context,
        dependencies: Vec<ServiceId>,
        callback: impl Fn(&mut Host, &Services, &EffectContext) -> Result<(), CoreError> + 'static,
    ) -> Result<InjectionHandle, CoreError> {
        let handle = self.handle();
        let injection = ctx.inject(&mut self.runtime, dependencies, handle)?;
        self.injected.insert(handle, (ctx.clone(), Rc::new(callback)));
        Ok(injection)
    }

    // The release of scopes.

    fn run_disposal(&mut self, mut disposal: Disposal) {
        loop {
            match disposal.step(&mut self.runtime.scopes) {
                DisposeStep::Entered(_) | DisposeStep::Skipped(_) => {}
                DisposeStep::Run { cleanup, .. } => match self.runtime.run_cleanup(cleanup) {
                    CleanupTask::Nothing => {}
                    CleanupTask::DisposeScope(scope) => {
                        self.dispose_scope(scope, DisposePolicy::HoistToParent)
                    }
                    CleanupTask::ReleaseFiber { fiber, release } => self.release(fiber, release),
                    CleanupTask::RunCallback(handle) => {
                        let callback = self.callbacks.remove(&handle).unwrap();
                        if let Err(message) = callback(self) {
                            disposal.cleanup_failed(message);
                        }
                    }
                },
                DisposeStep::Coordinate(coordinator) => self.coordinators.push((coordinator, None)),
                DisposeStep::Abort { tasks, .. } => self.aborted.extend(tasks),
                DisposeStep::Done => break,
            }
        }
        self.pump();
    }

    fn dispose_scope(&mut self, scope: u64, policy: DisposePolicy) {
        let disposal = Disposal::start(&mut self.runtime.scopes, scope, policy);
        self.run_disposal(disposal);
    }

    fn dispose(&mut self, effect: &EffectContext) {
        let disposal = effect.dispose(&mut self.runtime);
        self.run_disposal(disposal);
    }

    /// Disposes and waits; nothing while a gate holds the release up.
    fn dispose_wait(&mut self, effect: &EffectContext) -> Option<Result<(), CoreError>> {
        let disposal = effect.dispose_wait(&mut self.runtime);
        self.run_disposal(disposal);
        self.outcome(effect)
    }

    fn outcome(&self, effect: &EffectContext) -> Option<Result<(), CoreError>> {
        self.runtime.scopes.outcome(effect.as_context().scope())
    }

    fn open(&mut self, gate: u64) {
        self.gated.remove(&gate);
        self.pump();
    }

    /// Carries all releases on as far as no gate holds them up.
    fn pump(&mut self) {
        let mut progress = true;
        while progress {
            progress = false;
            let mut waiting = Vec::new();
            for (mut coordinator, stored) in std::mem::take(&mut self.coordinators) {
                let mut action = stored;
                loop {
                    let current = match action.take() {
                        Some(current) => current,
                        None => coordinator.next(),
                    };
                    match current {
                        CoordinatorAction::AwaitChild(child) => {
                            if self.runtime.scopes.is_releasing(child) {
                                waiting.push((coordinator, Some(current)));
                                break;
                            }
                            if let Some(Err(CoreError::DisposeFailed { errors })) =
                                self.runtime.scopes.outcome(child)
                            {
                                coordinator.child_failed(errors);
                            }
                        }
                        CoordinatorAction::RunDisposer(handle) => {
                            if self.gated.contains(&handle) {
                                waiting.push((coordinator, Some(current)));
                                break;
                            }
                            let disposer = self.disposers.remove(&handle).unwrap();
                            if let Err(error) = disposer(self) {
                                coordinator.disposer_failed(error.message());
                            }
                        }
                        CoordinatorAction::AwaitTask(handle) => {
                            if self.gated.contains(&handle) {
                                waiting.push((coordinator, Some(current)));
                                break;
                            }
                            let task = self.tasks.remove(&handle).unwrap();
                            if let Err(message) = task(self) {
                                coordinator.task_join_failed(&message);
                            }
                        }
                        CoordinatorAction::Finish(errors) => {
                            self.runtime.scopes.finish(coordinator.scope(), errors);
                            progress = true;
                            break;
                        }
                    }
                }
            }
            waiting.extend(std::mem::take(&mut self.coordinators));
            self.coordinators = waiting;
            for (fiber, scope) in std::mem::take(&mut self.releases) {
                if self.runtime.scopes.is_releasing(scope) {
                    self.releases.push((fiber, scope));
                } else {
                    let errors = self.errors_of(scope);
                    let _ = self.runtime.registry.finalize_terminal_release(fiber, scope, errors);
                    progress = true;
                }
            }
        }
    }

    fn errors_of(&self, scope: u64) -> Vec<String> {
        match self.runtime.scopes.outcome(scope) {
            Some(Err(CoreError::DisposeFailed { errors })) => errors,
            _ => Vec::new(),
        }
    }

    // Plugins.

    fn release(&mut self, fiber: u64, release: TerminalRelease) {
        match release {
            TerminalRelease::Run(scope) => {
                self.releases.push((fiber, scope));
                self.dispose_scope(scope, DisposePolicy::HoistToParent);
                self.runtime.registry.mark_release_started(fiber, scope);
            }
            TerminalRelease::Join(scope) => self.releases.push((fiber, scope)),
            TerminalRelease::Vacant | TerminalRelease::Observe => {}
        }
        self.pump();
    }

    fn dispose_fiber(&mut self, fiber: &Fiber) {
        let release = fiber.dispose(&mut self.runtime);
        self.release(fiber.id(), release);
    }

    fn dispose_fiber_wait(&mut self, fiber: &Fiber) -> Option<Result<(), CoreError>> {
        let release = fiber.dispose_wait(&mut self.runtime);
        self.release(fiber.id(), release);
        match self.runtime.registry.observe_dispose_result(fiber.id()) {
            ObservedDispose::Known(result) => Some(result),
            ObservedDispose::Wait(_) => None,
        }
    }

    fn unload(&mut self, id: u64) -> Result<(), CoreError> {
        match self.runtime.registry.begin_unload(id) {
            UnloadStart::Over(result) => result,
            UnloadStart::Release(scope) => {
                self.dispose_scope(scope, DisposePolicy::AwaitLocal);
                let errors = self.errors_of(scope);
                self.runtime.registry.finish_unload(id, scope, errors)
            }
            UnloadStart::ReleaseOnly(scope) => {
                self.dispose_scope(scope, DisposePolicy::AwaitLocal);
                Err(CoreError::FiberDisposed)
            }
        }
    }

    fn activate(&mut self, id: u64, initial_mount: bool) -> Result<(), CoreError> {
        match self.runtime.registry.begin_activation(&mut self.runtime.scopes, id, initial_mount) {
            ActivationStart::Refused(error) => Err(error),
            ActivationStart::Revoked(scope) => {
                if let Some(scope) = scope {
                    self.dispose_scope(scope, DisposePolicy::HoistToParent);
                }
                Err(CoreError::FiberDisposed)
            }
            ActivationStart::Idle => Ok(()),
            ActivationStart::Apply { scope, plugin, providers } => {
                let applied = self.plugins[&plugin].clone();
                let ctx = self.mounts[&id].with_scope_and_log_source(
                    scope,
                    id,
                    PluginKey::new(applied.key),
                );
                let outcome = (applied.apply)(self, &ctx).map_err(|error| error.message());
                self.end_activation(id, initial_mount, scope, providers, outcome)
            }
        }
    }

    fn end_activation(
        &mut self,
        id: u64,
        initial_mount: bool,
        scope: u64,
        providers: Vec<ProviderRevision>,
        outcome: Result<(), String>,
    ) -> Result<(), CoreError> {
        let end = self.runtime.registry.finish_activation(
            &self.runtime.scopes,
            id,
            initial_mount,
            scope,
            providers,
            outcome,
        );
        for scope in end.dispose.into_iter().chain(end.withdrawn) {
            self.dispose_scope(scope, DisposePolicy::HoistToParent);
        }
        end.result
    }

    fn run_op(
        &mut self,
        id: u64,
        op: LifecycleOp,
        replacement: Option<u64>,
    ) -> Result<(), CoreError> {
        let mut stage = op.first_stage();
        let mut result = Ok(());
        loop {
            result = match stage {
                LifecycleStage::Unload => self.unload(id),
                LifecycleStage::Install => {
                    let handle = replacement.unwrap();
                    let dependencies = self.plugins[&handle].dependencies.clone();
                    self.runtime.registry.install_replacement(id, handle, dependencies)
                }
                LifecycleStage::Activate { initial_mount } => self.activate(id, initial_mount),
                LifecycleStage::Done => break,
            };
            stage = op.next_stage(stage, result.is_ok());
        }
        if let LifecycleOp::Activate { initial_mount: true } = op {
            self.runtime.registry.offer_handle(id);
        }
        self.close_op(id);
        result
    }

    fn close_op(&mut self, id: u64) {
        if let Some(scope) = self.runtime.registry.finish_lifecycle(id) {
            self.dispose_scope(scope, DisposePolicy::HoistToParent);
        }
    }

    fn mount(&mut self, ctx: &Context, plugin: TestPlugin) -> Result<Fiber, CoreError> {
        let handle = self.handle();
        let key = PluginKey::new(plugin.key);
        let dependencies = plugin.dependencies.clone();
        self.plugins.insert(handle, plugin);
        let fiber = ctx.plugin(&mut self.runtime, key, handle, dependencies)?;
        self.mounts.insert(fiber.id(), ctx.clone());
        self.runtime.registry.start_lifecycle(fiber.id()).unwrap();
        let first = LifecycleOp::Activate { initial_mount: true };
        let _ = self.run_op(fiber.id(), first, None);
        assert!(self.runtime.registry.claim_handle(fiber.id()));
        Ok(fiber)
    }

    fn restart(&mut self, fiber: &Fiber) -> Result<(), CoreError> {
        fiber.restart(&mut self.runtime)?;
        self.run_op(fiber.id(), LifecycleOp::Restart, None)
    }

    fn replace(&mut self, fiber: &Fiber, plugin: TestPlugin) -> Result<(), CoreError> {
        let handle = self.handle();
        let key = PluginKey::new(plugin.key);
        self.plugins.insert(handle, plugin);
        fiber.replace(&mut self.runtime, key)?;
        self.run_op(fiber.id(), LifecycleOp::Replace, Some(handle))
    }

    fn unmount(&mut self, key: &'static str) -> Result<usize, CoreError> {
        let (fibers, token) = self.runtime.unmount(PluginKey::new(key))?;
        let mut tally = UnmountTally::new(fibers.len());
        for id in fibers {
            let result = self.dispose_fiber_wait(&Fiber::from_id(id)).unwrap();
            tally.released(result);
        }
        self.runtime.registry.finish_plugin_unmount(PluginKey::new(key), token);
        tally.finish()
    }

    // The scheduler.

    fn run_injection(&mut self, id: u64) {
        let snapshot = match self.runtime.registry.snapshot_injection(id) {
            Some(snapshot) => snapshot,
            None => return,
        };
        let child = self.runtime.scopes.child(snapshot.parent);
        let (ctx, callback) = self.injected[&snapshot.callback].clone();
        let effect = EffectContext::from_context(ctx.with_scope(child));
        let outcome = callback(self, &snapshot.services, &effect).map_err(|error| error.message());
        if self.runtime.registry.finish_injection(
            &self.runtime.scopes,
            id,
            child,
            snapshot.providers,
            outcome,
        ) {
            self.dispose_scope(child, DisposePolicy::HoistToParent);
        }
    }

    fn run_started(&mut self, id: u64, op: LifecycleOp) {
        if self.runtime.registry.start_lifecycle(id).is_ok() {
            let _ = self.run_op(id, op, None);
        }
    }

    fn settle(&mut self) {
        match self.runtime.registry.settle_step(self.recomputing) {
            SettleStep::Return => return,
            SettleStep::Recompute | SettleStep::Wait => {}
        }
        if !self.runtime.registry.begin_recompute() {
            return;
        }
        self.recomputing = true;
        loop {
            let mut batch = self.runtime.registry.take_batch(&self.runtime.scopes);
            if batch.is_empty() {
                match self.runtime.registry.close_round(batch.epoch) {
                    RoundEnd::Continue => continue,
                    RoundEnd::Quiescent => break,
                }
            }
            loop {
                match batch.next() {
                    BatchStep::Dispose(scope) => {
                        self.dispose_scope(scope, DisposePolicy::HoistToParent)
                    }
                    BatchStep::Unload(id) => self.run_started(id, LifecycleOp::Unload),
                    BatchStep::Inject(id) => self.run_injection(id),
                    BatchStep::Activate(id) => {
                        self.run_started(id, LifecycleOp::Activate { initial_mount: false })
                    }
                    BatchStep::End => break,
                }
            }
        }
        self.recomputing = false;
    }

    fn shutdown(&mut self) -> Option<Result<(), CoreError>> {
        if self.runtime.shutdown(false).unwrap() == ShutdownRole::Run {
            let scope = self.root().scope();
            self.dispose_scope(scope, DisposePolicy::AwaitLocal);
        }
        self.end_shutdown()
    }

    fn end_shutdown(&mut self) -> Option<Result<(), CoreError>> {
        let scope = self.root().scope();
        if self.runtime.shutdown_result().is_none() && !self.runtime.scopes.is_releasing(scope) {
            let errors = self.errors_of(scope);
            self.settle();
            self.runtime.finish_shutdown(errors);
        }
        self.runtime.shutdown_result()
    }
}

fn contains(result: &Result<(), CoreError>, text: &str) -> usize {
    match result {
        Err(CoreError::DisposeFailed { errors }) => {
            errors.iter().filter(|error| error.contains(text)).count()
        }
        other => panic!("unexpected: {other:?}"),
    }
}

fn counter() -> (Rc<Cell<usize>>, Rc<Cell<usize>>) {
    let cell = Rc::new(Cell::new(0));
    (cell.clone(), cell)
}

fn noop(key: &'static str) -> TestPlugin {
    plugin(key, vec![], |_, _| Ok(()))
}

/// A plugin that owns a task which counts its end.
fn taskful(key: &'static str, finished: Rc<Cell<usize>>, value: Option<usize>) -> TestPlugin {
    plugin(key, vec![], move |host, ctx| {
        if let Some(value) = value {
            host.provide(ctx, number(), value)?;
        }
        let effect = ctx.effect(&mut host.runtime)?;
        let finished = finished.clone();
        host.spawn(&effect, move |_| {
            finished.set(finished.get() + 1);
            Ok(())
        })?;
        Ok(())
    })
}

/// A plugin whose release fails.
fn flaky(key: &'static str, applied: Rc<Cell<usize>>, dependencies: Vec<ServiceId>) -> TestPlugin {
    plugin(key, dependencies, move |host, ctx| {
        applied.set(applied.get() + 1);
        let effect = ctx.effect(&mut host.runtime)?;
        host.on_dispose_async(&effect, |_| {
            Err(CoreError::EventListener("dispose boom".to_string()))
        })?;
        Ok(())
    })
}

fn listed(host: &Host, key: &str) -> usize {
    host.runtime
        .diagnostics()
        .plugin_registry
        .iter()
        .find(|item| item.plugin_key == key)
        .map(|item| item.fibers.len())
        .unwrap_or(0)
}

#[test]
fn plugin_plugin_mount_provides_and_dispose_clears_resources() {
    let mut host = Host::new();
    let root = host.root();
    let (disposed, seen) = counter();
    let providing = plugin("test.plugin", vec![], move |host, ctx| {
        host.provide(ctx, number(), 9)?;
        ctx.on(&mut host.runtime, ping(), 1)?;
        let effect = ctx.effect(&mut host.runtime)?;
        let seen = seen.clone();
        host.on_dispose(&effect, move |_| {
            seen.set(seen.get() + 1);
            Ok(())
        });
        Ok(())
    });
    let fiber = host.mount(&root, providing).unwrap();
    assert_eq!(host.get(&root, number()).unwrap(), 9);
    host.dispose_fiber(&fiber);
    host.dispose_fiber(&fiber);
    assert!(fiber.is_disposed(&host.runtime));
    assert_eq!(disposed.get(), 1);
    assert!(matches!(host.get(&root, number()), Err(CoreError::ServiceUnavailable { .. })));
}

#[test]
fn plugin_plugin_apply_error_surfaces() {
    let mut host = Host::new();
    let root = host.root();
    let failing = plugin("test.failingplugin", vec![], |_, _| {
        Err(CoreError::PluginApply("boom".to_string()))
    });
    let fiber = host.mount(&root, failing).unwrap();
    assert_eq!(fiber.state(&host.runtime), FiberState::Failed);
    assert_eq!(fiber.last_error(&host.runtime).unwrap(), "插件挂载失败: boom");
}

#[test]
fn plugin_apply_calling_settle_does_not_deadlock() {
    let mut host = Host::new();
    let root = host.root();
    let settling = plugin("test.settle-in-apply", vec![number().id()], |host, ctx| {
        host.settle();
        assert_eq!(host.get(ctx, number())?, 1);
        host.provide(ctx, derived(), 2)
    });
    let fiber = host.mount(&root, settling).unwrap();
    assert_eq!(fiber.state(&host.runtime), FiberState::Pending);
    let provider = host.effect(&root);
    host.provide(provider.as_context(), number(), 1).unwrap();
    host.settle();
    assert_eq!(fiber.state(&host.runtime), FiberState::Active);
    assert_eq!(host.get(&root, derived()).unwrap(), 2);
    host.dispose_fiber_wait(&fiber).unwrap().unwrap();
    host.shutdown().unwrap().unwrap();
}

#[test]
fn plugin_apply_panic_fails_only_its_fiber_and_scheduler_continues() {
    let mut host = Host::new();
    let root = host.root();
    let panicking = plugin("test.panic-apply", vec![number().id()], |_, _| {
        Err(CoreError::EventListener("plugin apply panicked: boom".to_string()))
    });
    let failed = host.mount(&root, panicking).unwrap();
    let (runs, seen) = counter();
    let counting = plugin("test.healthy-after-panic", vec![number().id()], move |_, _| {
        seen.set(seen.get() + 1);
        Ok(())
    });
    let healthy = host.mount(&root, counting).unwrap();
    assert_eq!(failed.state(&host.runtime), FiberState::Pending);
    assert_eq!(healthy.state(&host.runtime), FiberState::Pending);
    let provider = host.effect(&root);
    host.provide(provider.as_context(), number(), 1).unwrap();
    host.settle();
    assert_eq!(failed.state(&host.runtime), FiberState::Failed);
    assert_eq!(healthy.state(&host.runtime), FiberState::Active);
    assert_eq!(runs.get(), 1);
    assert!(failed
        .last_error(&host.runtime)
        .is_some_and(|error| error.contains("plugin apply") && error.contains("boom")));
    host.settle();
    assert_eq!(failed.state(&host.runtime), FiberState::Failed);
    host.shutdown().unwrap().unwrap();
}

#[test]
fn plugin_plugin_remount_does_not_accumulate_child_scopes() {
    let mut host = Host::new();
    let root = host.root();
    let baseline = root.child_scope_count(&host.runtime);
    let (finished, seen) = counter();
    for _ in 0..8 {
        let fiber = host.mount(&root, taskful("test.taskplugin", seen.clone(), None)).unwrap();
        assert_eq!(root.child_scope_count(&host.runtime), baseline + 1);
        host.dispose_fiber(&fiber);
        assert_eq!(root.child_scope_count(&host.runtime), baseline);
    }
    host.shutdown().unwrap().unwrap();
    assert_eq!(finished.get(), 8);
}

#[test]
fn plugin_plugin_dispose_wait_awaits_owned_tasks() {
    let mut host = Host::new();
    let root = host.root();
    let (finished, seen) = counter();
    let fiber = host.mount(&root, taskful("test.waitplugin", seen, None)).unwrap();
    let task = *host.tasks.keys().next().unwrap();
    host.gated.insert(task);
    assert!(host.dispose_fiber_wait(&fiber).is_none());
    assert_eq!(finished.get(), 0);
    host.open(task);
    assert_eq!(finished.get(), 1);
    host.dispose_fiber_wait(&fiber).unwrap().unwrap();
    assert!(fiber.is_disposed(&host.runtime));
    assert_eq!(fiber.state(&host.runtime), FiberState::Disposed);
    host.shutdown().unwrap().unwrap();
}

#[test]
fn plugin_plugin_hot_replace_after_dispose_wait() {
    let mut host = Host::new();
    let root = host.root();
    let (finished, seen) = counter();
    let old = host.mount(&root, taskful("test.plugina", seen, Some(1))).unwrap();
    assert_eq!(host.get(&root, number()).unwrap(), 1);
    host.dispose_fiber_wait(&old).unwrap().unwrap();
    assert_eq!(finished.get(), 1);
    let new = plugin("test.pluginb", vec![], |host, ctx| host.provide(ctx, number(), 2));
    let new = host.mount(&root, new).unwrap();
    assert_eq!(host.get(&root, number()).unwrap(), 2);
    host.dispose_fiber_wait(&new).unwrap().unwrap();
    host.shutdown().unwrap().unwrap();
}

#[test]
fn plugin_plugin_apply_races_parent_dispose_returns_no_handle() {
    let mut host = Host::new();
    let root = host.root();
    let owner = host.effect(&root);
    let parent = owner.extend(&mut host.runtime).unwrap();
    let slow = plugin("test.slowplugin", vec![], move |host, ctx| {
        host.provide(ctx, number(), 1)?;
        ctx.on(&mut host.runtime, ping(), 1)?;
        host.dispose(&owner);
        Ok(())
    });
    let fiber = host.mount(&parent, slow).unwrap();
    assert_eq!(fiber.state(&host.runtime), FiberState::Disposed);
    assert!(matches!(host.get(&root, number()), Err(CoreError::ServiceUnavailable { .. })));
}

#[test]
fn plugin_isolation_provider_change_reactivates_plugin_fiber() {
    let mut host = Host::new();
    let root = host.root();
    let (isolated, _) = root.isolate(&mut host.runtime, number()).unwrap();
    let provider = host.named(&isolated, "provider");
    host.provide(provider.as_context(), number(), 1).unwrap();
    let dependent = plugin("test.depplugin", vec![number().id()], |host, ctx| {
        host.get(ctx, number()).map(|_| ())
    });
    let fiber = host.mount(&isolated, dependent).unwrap();
    assert_eq!(fiber.state(&host.runtime), FiberState::Active);
    host.dispose(&provider);
    host.settle();
    assert_eq!(fiber.state(&host.runtime), FiberState::Pending);
    let again = host.named(&isolated, "provider2");
    host.provide(again.as_context(), number(), 2).unwrap();
    host.settle();
    assert_eq!(fiber.state(&host.runtime), FiberState::Active);
    host.dispose_fiber(&fiber);
}

#[test]
fn plugin_plugin_registry_groups_and_unmount_waits() {
    let mut host = Host::new();
    let root = host.root();
    let (finished, seen) = counter();
    for _ in 0..2 {
        host.mount(&root, taskful("test.registry.group", seen.clone(), None)).unwrap();
    }
    assert_eq!(listed(&host, "test.registry.group"), 2);
    assert_eq!(host.unmount("test.registry.group").unwrap(), 2);
    assert_eq!(finished.get(), 2);
    assert!(host
        .runtime
        .diagnostics()
        .plugin_registry
        .iter()
        .all(|item| item.plugin_key != "test.registry.group"));
}

#[test]
fn plugin_unmount_rejects_concurrent_mount_and_replace_requires_same_key() {
    let mut host = Host::new();
    let root = host.root();
    let (_, seen) = counter();
    let fiber = host.mount(&root, taskful("test.registry.a", seen, None)).unwrap();
    assert!(matches!(
        host.replace(&fiber, noop("test.registry.b")),
        Err(CoreError::PluginKeyMismatch { .. })
    ));
    let task = *host.tasks.keys().next().unwrap();
    host.gated.insert(task);
    let key = PluginKey::new("test.registry.a");
    let (fibers, token) = host.runtime.unmount(key).unwrap();
    assert_eq!(fibers, vec![fiber.id()]);
    let mut tally = UnmountTally::new(fibers.len());
    assert!(host.dispose_fiber_wait(&fiber).is_none());
    assert!(host
        .runtime
        .diagnostics()
        .plugin_registry
        .iter()
        .any(|item| item.plugin_key == "test.registry.a" && item.unmounting));
    assert!(matches!(
        host.mount(&root, noop("test.registry.a")),
        Err(CoreError::PluginUnmounting { .. })
    ));
    assert!(matches!(host.runtime.unmount(key), Err(CoreError::PluginUnmounting { .. })));
    host.open(task);
    tally.released(host.dispose_fiber_wait(&fiber).unwrap());
    host.runtime.registry.finish_plugin_unmount(key, token);
    assert_eq!(tally.finish().unwrap(), 1);
    assert!(fiber.is_disposed(&host.runtime));
    host.mount(&root, noop("test.registry.a")).unwrap();
}

#[test]
fn plugin_plugin_dispose_clears_registry_index() {
    let mut host = Host::new();
    let root = host.root();
    let fiber = host.mount(&root, noop("test.registry.solo")).unwrap();
    assert_eq!(listed(&host, "test.registry.solo"), 1);
    host.dispose_fiber(&fiber);
    assert!(host
        .runtime
        .diagnostics()
        .plugin_registry
        .iter()
        .all(|item| item.plugin_key != "test.registry.solo"));
}

#[test]
fn unmount_and_shutdown_return_dispose_errors_after_cleanup() {
    let mut host = Host::new();
    let root = host.root();
    let (_, seen) = counter();
    host.mount(&root, flaky("test.async.dispose.unmount", seen, vec![])).unwrap();
    let result = host.unmount("test.async.dispose.unmount");
    assert!(matches!(result, Err(CoreError::DisposeFailed { .. })));
    assert_eq!(listed(&host, "test.async.dispose.unmount"), 0);
    let effect = host.effect(&root);
    host.on_dispose_async(&effect, |_| Err(CoreError::EventListener("shutdown boom".to_string())))
        .unwrap();
    let result = host.shutdown().unwrap();
    assert_eq!(contains(&result, "shutdown boom"), 1);
    assert!(host.runtime.scheduler_stopped());
}

#[test]
fn fiber_settle_does_not_hang_under_concurrent_wake() {
    let mut host = Host::new();
    let root = host.root();
    let handle = host.inject(&root, vec![number().id()], |_, _, _| Ok(())).unwrap();
    let mut effects = Vec::new();
    for i in 0..32 {
        let effect = host.effect(&root);
        let _ = host.provide(effect.as_context(), number(), i);
        host.settle();
        effects.push(effect);
    }
    for effect in effects {
        host.dispose(&effect);
        host.settle();
    }
    assert_eq!(handle.state(&host.runtime), cordis_core::InjectionState::Pending);
}

#[test]
fn fiber_fiber_restart_and_replace_wait_for_tasks() {
    let mut host = Host::new();
    let root = host.root();
    let (finished, seen) = counter();
    let fiber = host.mount(&root, taskful("test.taskful", seen, Some(1))).unwrap();
    assert_eq!(host.get(&root, number()).unwrap(), 1);
    assert_eq!(fiber.state(&host.runtime), FiberState::Active);
    host.restart(&fiber).unwrap();
    assert_eq!(finished.get(), 1);
    assert_eq!(fiber.state(&host.runtime), FiberState::Active);
    let (finished2, seen2) = counter();
    host.replace(&fiber, taskful("test.taskful", seen2, Some(2))).unwrap();
    assert_eq!(host.get(&root, number()).unwrap(), 2);
    assert_eq!(fiber.state(&host.runtime), FiberState::Active);
    host.dispose_fiber_wait(&fiber).unwrap().unwrap();
    assert_eq!(finished2.get(), 1);
    assert!(fiber.is_disposed(&host.runtime));
}

#[test]
fn fiber_fiber_state_subscription_reports_ordered_lifecycle_transitions() {
    let mut host = Host::new();
    let root = host.root();
    let fiber = host.mount(&root, noop("test.lifecycle-events")).unwrap();
    let changes = host.runtime.registry.drain_changes();
    let seen: Vec<_> = changes.iter().map(|change| (change.previous, change.current)).collect();
    assert_eq!(
        seen,
        vec![
            (None, FiberState::Pending),
            (Some(FiberState::Pending), FiberState::Loading),
            (Some(FiberState::Loading), FiberState::Active),
        ]
    );
    for change in &changes {
        assert_eq!(change.fiber_id, fiber.id());
        assert_eq!(change.plugin_key.as_str(), "test.lifecycle-events");
    }
    host.restart(&fiber).unwrap();
    let changes = host.runtime.registry.drain_changes();
    let seen: Vec<_> = changes.iter().map(|change| (change.previous, change.current)).collect();
    assert_eq!(
        seen,
        vec![
            (Some(FiberState::Active), FiberState::Unloading),
            (Some(FiberState::Unloading), FiberState::Pending),
            (Some(FiberState::Pending), FiberState::Loading),
            (Some(FiberState::Loading), FiberState::Active),
        ]
    );
    host.dispose_fiber(&fiber);
    let changes = host.runtime.registry.drain_changes();
    let seen: Vec<_> = changes.iter().map(|change| change.current).collect();
    assert_eq!(seen, vec![FiberState::Unloading, FiberState::Disposed]);
    assert!(host.runtime.registry.drain_changes().is_empty());
}

#[test]
fn fiber_state_subscriber_reports_lag_and_diagnostics_remain_available() {
    let mut host = Host::new();
    let root = host.root();
    let fiber = host.mount(&root, noop("test.lifecycle-lag")).unwrap();
    for _ in 0..300 {
        host.restart(&fiber).unwrap();
    }
    assert_eq!(host.runtime.registry.drain_changes().len(), 3 + 300 * 4);
    assert!(host
        .runtime
        .diagnostics()
        .plugin_fibers
        .iter()
        .any(|item| item.id == fiber.id() && item.state == FiberStateSnapshot::Active));
    host.dispose_fiber(&fiber);
}

#[test]
fn fiber_provider_rebind_waits_for_old_plugin_effect_before_reactivation() {
    let mut host = Host::new();
    let root = host.root();
    let provider = host.named(&root, "provider");
    host.provide(provider.as_context(), number(), 1).unwrap();
    let (applied, seen) = counter();
    let gated = plugin("test.rebind-waits-for-unload", vec![number().id()], move |host, ctx| {
        seen.set(seen.get() + 1);
        let effect = ctx.effect(&mut host.runtime)?;
        host.spawn(&effect, |_| Ok(()))?;
        Ok(())
    });
    let fiber = host.mount(&root, gated).unwrap();
    assert_eq!(applied.get(), 1);
    let task = *host.tasks.keys().next().unwrap();
    host.gated.insert(task);
    host.dispose(&provider);
    // The scheduler unloads the fiber and waits.
    let id = fiber.id();
    host.runtime.registry.start_lifecycle(id).unwrap();
    let scope = match host.runtime.registry.begin_unload(id) {
        UnloadStart::Release(scope) => scope,
        _ => unreachable!(),
    };
    host.dispose_scope(scope, DisposePolicy::AwaitLocal);
    assert!(host.runtime.scopes.is_releasing(scope));
    assert_eq!(fiber.state(&host.runtime), FiberState::Unloading);
    let replacement = host.named(&root, "replacement");
    host.provide(replacement.as_context(), number(), 2).unwrap();
    host.settle();
    assert_eq!(applied.get(), 1);
    host.open(task);
    host.runtime.registry.finish_unload(id, scope, vec![]).unwrap();
    host.close_op(id);
    host.settle();
    assert_eq!(fiber.state(&host.runtime), FiberState::Active);
    assert_eq!(applied.get(), 2);
    host.dispose_fiber_wait(&fiber).unwrap().unwrap();
}

#[test]
fn fiber_concurrent_mount_and_scheduler_apply_once() {
    let mut host = Host::new();
    let root = host.root();
    let (applied, seen) = counter();
    let gated = plugin("test.gatedplugin", vec![], move |host, ctx| {
        seen.set(seen.get() + 1);
        // Meanwhile the scheduler runs.
        host.recomputing = false;
        host.settle();
        host.provide(ctx, number(), 7)?;
        let effect = ctx.effect(&mut host.runtime)?;
        host.spawn(&effect, |_| Ok(()))?;
        Ok(())
    });
    let fiber = host.mount(&root, gated).unwrap();
    host.settle();
    assert_eq!(fiber.state(&host.runtime), FiberState::Active);
    assert_eq!(applied.get(), 1);
    assert_eq!(host.get(&root, number()).unwrap(), 7);
    let snap = host.runtime.diagnostics();
    let shown = snap.plugin_fibers.iter().find(|item| item.id == fiber.id()).unwrap();
    assert_eq!(shown.state, FiberStateSnapshot::Active);
    assert_eq!(
        snap.effects.iter().filter(|effect| effect.fiber_id == Some(fiber.id())).count(),
        1
    );
    assert_eq!(
        snap.providers
            .iter()
            .filter(|provider| provider.service == number().id().as_str())
            .count(),
        1
    );
    host.dispose_fiber_wait(&fiber).unwrap().unwrap();
    host.shutdown().unwrap().unwrap();
}

#[test]
fn fiber_provider_revoked_during_loading_does_not_stick_active() {
    let mut host = Host::new();
    let root = host.root();
    let provider = host.named(&root, "provider");
    host.provide(provider.as_context(), number(), 1).unwrap();
    let gated = plugin("test.gateddepplugin", vec![number().id()], move |host, ctx| {
        host.get(ctx, number())?;
        host.dispose(&provider);
        Ok(())
    });
    let fiber = host.mount(&root, gated).unwrap();
    host.settle();
    assert_eq!(fiber.state(&host.runtime), FiberState::Pending);
    let missing = fiber.missing_dependencies(&host.runtime);
    assert_eq!(missing.len(), 1);
    assert_eq!(missing[0].as_str(), number().id().as_str());
    host.dispose_fiber(&fiber);
    host.shutdown().unwrap().unwrap();
}

#[test]
fn fiber_provider_replaced_during_loading_reactivates_with_fresh() {
    let mut host = Host::new();
    let root = host.root();
    let provider = host.named(&root, "provider");
    host.provide(provider.as_context(), number(), 1).unwrap();
    let (last, seen) = counter();
    let gated = plugin("test.gateddepplugin", vec![number().id()], move |host, ctx| {
        seen.set(host.get(ctx, number())?);
        if seen.get() == 1 {
            host.dispose(&provider);
            let root = host.root();
            let fresh = host.named(&root, "provider2");
            host.provide(fresh.as_context(), number(), 99)?;
        }
        Ok(())
    });
    let fiber = host.mount(&root, gated).unwrap();
    host.settle();
    assert_eq!(fiber.state(&host.runtime), FiberState::Active);
    assert_eq!(host.get(&root, number()).unwrap(), 99);
    assert_eq!(last.get(), 99);
    host.dispose_fiber(&fiber);
    host.shutdown().unwrap().unwrap();
}

#[test]
fn fiber_restart_during_parent_dispose_keeps_disposed() {
    let mut host = Host::new();
    let root = host.root();
    let owner = host.effect(&root);
    let parent = owner.extend(&mut host.runtime).unwrap();
    let (_, seen) = counter();
    let fiber = host.mount(&parent, taskful("test.slowdisposeplugin", seen, None)).unwrap();
    assert_eq!(fiber.state(&host.runtime), FiberState::Active);
    let task = *host.tasks.keys().next().unwrap();
    host.gated.insert(task);
    // The restart has begun to unload when the parent is disposed.
    fiber.restart(&mut host.runtime).unwrap();
    let scope = match host.runtime.registry.begin_unload(fiber.id()) {
        UnloadStart::Release(scope) => scope,
        _ => unreachable!(),
    };
    host.dispose_scope(scope, DisposePolicy::AwaitLocal);
    host.dispose(&owner);
    host.open(task);
    let result = host.runtime.registry.finish_unload(fiber.id(), scope, vec![]);
    assert!(matches!(result, Err(CoreError::FiberDisposed)));
    host.close_op(fiber.id());
    assert_eq!(fiber.state(&host.runtime), FiberState::Disposed);
    assert!(fiber.is_disposed(&host.runtime));
    assert!(host.runtime.diagnostics().plugin_fibers.iter().all(|item| item.id != fiber.id()));
    host.shutdown().unwrap().unwrap();
}

#[test]
fn fiber_replace_during_parent_dispose_keeps_disposed_and_skips_new_plugin() {
    let mut host = Host::new();
    let root = host.root();
    let owner = host.effect(&root);
    let parent = owner.extend(&mut host.runtime).unwrap();
    let (applied, seen) = counter();
    let slow = plugin("test.slowdisposeplugin", vec![], |host, ctx| {
        let effect = ctx.effect(&mut host.runtime)?;
        host.spawn(&effect, |_| Ok(()))?;
        Ok(())
    });
    let fiber = host.mount(&parent, slow).unwrap();
    let task = *host.tasks.keys().next().unwrap();
    // The parent is disposed while the replacement waits for the old effect.
    host.tasks.insert(
        task,
        Rc::new(move |host| {
            host.dispose(&owner);
            Ok(())
        }),
    );
    let replacement = plugin("test.slowdisposeplugin", vec![], move |_, _| {
        seen.set(seen.get() + 1);
        Ok(())
    });
    let result = host.replace(&fiber, replacement);
    assert!(matches!(result, Err(CoreError::FiberDisposed)));
    assert_eq!(fiber.state(&host.runtime), FiberState::Disposed);
    assert!(fiber.is_disposed(&host.runtime));
    assert_eq!(applied.get(), 0);
    host.shutdown().unwrap().unwrap();
}

#[test]
fn fiber_restart_stops_on_async_dispose_failure() {
    let mut host = Host::new();
    let root = host.root();
    let (applied, seen) = counter();
    let fiber = host.mount(&root, flaky("test.async.dispose.restart", seen, vec![])).unwrap();
    assert_eq!(applied.get(), 1);
    let error = host.restart(&fiber).unwrap_err();
    assert!(matches!(error, CoreError::DisposeFailed { .. }));
    assert_eq!(fiber.state(&host.runtime), FiberState::Failed);
    assert_eq!(applied.get(), 1);
    host.shutdown().unwrap().unwrap();
}

#[test]
fn fiber_replace_stops_on_async_dispose_failure() {
    let mut host = Host::new();
    let root = host.root();
    let (applied, seen) = counter();
    let replaced = seen.clone();
    let fiber = host.mount(&root, flaky("test.async.dispose.replace", seen, vec![])).unwrap();
    let replacement = plugin("test.async.dispose.replace", vec![], move |_, _| {
        replaced.set(replaced.get() + 1);
        Ok(())
    });
    let error = host.replace(&fiber, replacement).unwrap_err();
    assert!(matches!(error, CoreError::DisposeFailed { .. }));
    assert_eq!(fiber.state(&host.runtime), FiberState::Failed);
    assert_eq!(applied.get(), 1);
    host.shutdown().unwrap().unwrap();
}

#[test]
fn provider_recompute_marks_failed_when_async_dispose_errors() {
    let mut host = Host::new();
    let root = host.root();
    let (applied, seen) = counter();
    let provider = host.named(&root, "provider");
    host.provide(provider.as_context(), number(), 1).unwrap();
    let dependent = flaky("test.async.dispose.provider", seen, vec![number().id()]);
    let fiber = host.mount(&root, dependent).unwrap();
    assert_eq!(fiber.state(&host.runtime), FiberState::Active);
    assert_eq!(applied.get(), 1);
    host.dispose(&provider);
    let replacement = host.named(&root, "replacement");
    host.provide(replacement.as_context(), number(), 2).unwrap();
    host.settle();
    assert_eq!(fiber.state(&host.runtime), FiberState::Failed);
    assert_eq!(applied.get(), 1);
    host.shutdown().unwrap().unwrap();
}

#[test]
fn cancelled_restart_releases_busy_and_allows_later_lifecycle_work() {
    let mut host = Host::new();
    let root = host.root();
    let (_, seen) = counter();
    let fiber = host.mount(&root, taskful("test.cancelled-restart", seen, None)).unwrap();
    fiber.restart(&mut host.runtime).unwrap();
    assert!(matches!(fiber.restart(&mut host.runtime), Err(CoreError::FiberBusy)));
    // The caller is gone; the operation is carried on regardless.
    host.run_op(fiber.id(), LifecycleOp::Restart, None).unwrap();
    host.restart(&fiber).unwrap();
    assert_eq!(fiber.state(&host.runtime), FiberState::Active);
    host.shutdown().unwrap().unwrap();
}

#[test]
fn fiber_dispose_then_dispose_wait_preserves_async_errors() {
    let mut host = Host::new();
    let root = host.root();
    let (_, seen) = counter();
    let fiber = host.mount(&root, flaky("test.async.dispose.then.wait", seen, vec![])).unwrap();
    host.dispose_fiber(&fiber);
    let result = host.dispose_fiber_wait(&fiber).unwrap();
    assert_eq!(contains(&result, "dispose boom"), 1);
}

#[test]
fn fiber_claim_activation_is_exclusive() {
    let mut host = Host::new();
    let root = host.root();
    let fiber = root.plugin(&mut host.runtime, PluginKey::new("test.noop"), 1, vec![]).unwrap();
    let mut applies = 0;
    for _ in 0..8 {
        let start =
            host.runtime.registry.begin_activation(&mut host.runtime.scopes, fiber.id(), false);
        match start {
            ActivationStart::Apply { .. } => applies += 1,
            ActivationStart::Idle => {}
            _ => unreachable!(),
        }
    }
    assert_eq!(applies, 1);
    assert_eq!(fiber.state(&host.runtime), FiberState::Loading);
}

#[test]
fn abandon_before_apply_revokes_without_invoking_apply() {
    let mut host = Host::new();
    let root = host.root();
    let key = PluginKey::new("test.unit-abandon-before-apply");
    let fiber = root.plugin(&mut host.runtime, key, 1, vec![]).unwrap();
    assert!(!host.runtime.registry.abandon_initial_handle(fiber.id()));
    let error = host.activate(fiber.id(), true).unwrap_err();
    assert!(matches!(error, CoreError::FiberDisposed));
    assert!(fiber.is_disposed(&host.runtime));
    assert_eq!(listed(&host, "test.unit-abandon-before-apply"), 0);
    assert!(!host.runtime.registry.claim_handle(fiber.id()));
}

#[test]
fn handle_abandoned_after_the_mount_asks_for_disposal() {
    let mut host = Host::new();
    let root = host.root();
    let fiber = root.plugin(&mut host.runtime, PluginKey::new("test.noop"), 1, vec![]).unwrap();
    let registry = &mut host.runtime.registry;
    assert!(!registry.claim_handle(fiber.id()));
    assert!(registry.offer_handle(fiber.id()));
    assert!(!registry.offer_handle(fiber.id()));
    assert!(registry.abandon_initial_handle(fiber.id()));
    assert!(registry.fiber(fiber.id()).unwrap().handoff == HandleHandoff::Abandoned);
}

#[test]
fn lifecycle_completion_multi_waiter_observes_finish_without_timeout() {
    let mut completion: Completion<usize> = Completion::new();
    assert!(completion.peek().is_none());
    assert!(completion.finish(1));
    assert!(!completion.finish(2));
    for _ in 0..64 {
        assert_eq!(completion.peek(), Some(&1));
    }
}

#[test]
fn p1_lifecycle_supervisor_abort_finishes_waiters() {
    let mut completion: Completion<Result<(), CoreError>> = Completion::new();
    let reason = "lifecycle worker".to_string();
    completion.finish(Err(CoreError::CoordinatorAborted { reason }));
    assert!(matches!(completion.peek(), Some(Err(CoreError::CoordinatorAborted { .. }))));
    assert_eq!(
        completion.peek().unwrap().as_ref().unwrap_err().message(),
        "生命周期协调器已中止: lifecycle worker"
    );
}

#[test]
fn worker_abort_from_loading_releases_activating_scope_and_provider() {
    let mut host = Host::new();
    let root = host.root();
    let fiber = host.mount(&root, noop("test.coordinator-abort")).unwrap();
    let id = fiber.id();
    fiber.restart(&mut host.runtime).unwrap();
    host.unload(id).unwrap();
    let scope = match host.runtime.registry.begin_activation(&mut host.runtime.scopes, id, false) {
        ActivationStart::Apply { scope, .. } => scope,
        _ => unreachable!(),
    };
    let ctx = root.with_scope_and_log_source(scope, id, PluginKey::new("test.coordinator-abort"));
    host.provide(&ctx, number(), 7).unwrap();
    assert_eq!(fiber.state(&host.runtime), FiberState::Loading);
    // The worker dies while the plugin is applied.
    match host.runtime.registry.begin_abort_recovery(id) {
        AbortRecovery::Discard(Some(discarded)) => {
            assert_eq!(discarded, scope);
            host.dispose_scope(discarded, DisposePolicy::HoistToParent);
        }
        _ => unreachable!(),
    }
    host.runtime.registry.finish_abort_recovery(id);
    host.close_op(id);
    assert_eq!(fiber.state(&host.runtime), FiberState::Failed);
    assert!(host.runtime.scopes.is_disposed(scope));
    assert!(matches!(
        host.runtime.registry.fiber(id).unwrap().ownership,
        EffectOwnership::Empty
    ));
    assert!(host.get(&root, number()).is_err());
    let snapshot = host.runtime.diagnostics();
    assert!(snapshot.providers.is_empty());
    assert!(snapshot.effects.iter().all(|effect| effect.id != scope));
    host.dispose_fiber_wait(&fiber).unwrap().unwrap();
    host.shutdown().unwrap().unwrap();
}

#[test]
fn worker_abort_from_unloading_waits_for_release_and_clears_ownership() {
    let mut host = Host::new();
    let root = host.root();
    let (_, seen) = counter();
    let fiber = host.mount(&root, flaky("test.coordinator-abort", seen, vec![])).unwrap();
    let id = fiber.id();
    fiber.restart(&mut host.runtime).unwrap();
    let gate = *host.disposers.keys().next().unwrap();
    host.gated.insert(gate);
    let scope = match host.runtime.registry.begin_unload(id) {
        UnloadStart::Release(scope) => scope,
        _ => unreachable!(),
    };
    host.dispose_scope(scope, DisposePolicy::AwaitLocal);
    assert_eq!(fiber.state(&host.runtime), FiberState::Unloading);
    // The worker dies while it waits for the release.
    assert!(matches!(
        host.runtime.registry.begin_abort_recovery(id),
        AbortRecovery::Unload
    ));
    assert!(matches!(
        host.runtime.registry.begin_unload(id),
        UnloadStart::Release(joined) if joined == scope
    ));
    host.open(gate);
    let errors = host.errors_of(scope);
    assert!(host.runtime.registry.finish_unload(id, scope, errors).is_err());
    host.runtime.registry.finish_abort_recovery(id);
    host.close_op(id);
    assert_eq!(fiber.state(&host.runtime), FiberState::Failed);
    assert!(fiber.last_error(&host.runtime).unwrap().contains("dispose boom"));
    assert!(matches!(
        host.runtime.registry.fiber(id).unwrap().ownership,
        EffectOwnership::Empty
    ));
    host.dispose_fiber_wait(&fiber).unwrap().unwrap();
    host.shutdown().unwrap().unwrap();
}

#[test]
fn a_failing_parent_refuses_the_activation() {
    let mut host = Host::new();
    let root = host.root();
    let owner = host.effect(&root);
    let fiber = host.mount(owner.as_context(), noop("test.orphan")).unwrap();
    host.dispose(&owner);
    assert_eq!(fiber.state(&host.runtime), FiberState::Disposed);
    assert!(matches!(fiber.restart(&mut host.runtime), Err(CoreError::FiberDisposed)));
    assert!(matches!(
        host.replace(&fiber, noop("test.orphan")),
        Err(CoreError::FiberDisposed)
    ));
    assert!(matches!(
        host.mount(owner.as_context(), noop("test.orphan")),
        Err(CoreError::ContextDisposed)
    ));
}

#[test]
fn a_forgotten_fiber_counts_as_disposed() {
    let mut host = Host::new();
    let root = host.root();
    let fiber = host.mount(&root, noop("test.forgotten")).unwrap();
    host.dispose_fiber(&fiber);
    host.runtime.registry.forget_fiber(fiber.id());
    assert!(fiber.is_disposed(&host.runtime));
    assert_eq!(fiber.state(&host.runtime), FiberState::Disposed);
    assert!(fiber.snapshot(&host.runtime).is_none());
    assert!(fiber.last_error(&host.runtime).is_none());
    assert!(fiber.missing_dependencies(&host.runtime).is_empty());
}

#[test]
fn groups_are_shown_in_the_order_of_their_keys() {
    let mut host = Host::new();
    let root = host.root();
    for key in ["b.plugin", "a.plugin", "c.plugin", "a"] {
        host.mount(&root, noop(key)).unwrap();
    }
    let shown: Vec<_> =
        host.runtime.diagnostics().plugin_registry.iter().map(|item| item.plugin_key).collect();
    assert_eq!(shown, vec!["a", "a.plugin", "b.plugin", "c.plugin"]);
}

#[test]
fn provider_of_a_plugin_that_is_not_active_is_shown_as_unavailable() {
    let mut host = Host::new();
    let root = host.root();
    let (_, seen) = counter();
    let fiber = host.mount(&root, taskful("test.provider", seen, Some(1))).unwrap();
    let task = *host.tasks.keys().next().unwrap();
    host.gated.insert(task);
    assert_eq!(host.get(&root, number()).unwrap(), 1);
    assert!(host.dispose_fiber_wait(&fiber).is_none());
    assert!(host.get(&root, number()).is_err());
    host.open(task);
    assert!(host.runtime.diagnostics().providers.is_empty());
}

struct CaptureExporter {
    records: Arc<Mutex<Vec<LogRecord>>>,
}

impl LogExporter for CaptureExporter {
    fn export(&self, record: &LogRecord) {
        self.records.lock().unwrap().push(record.clone());
    }
}

#[test]
fn plugin_apply_and_effect_attach_fiber_and_plugin_key() {
    let mut host = Host::new();
    let root = host.root();
    let records = Arc::new(Mutex::new(Vec::new()));
    let captured = records.clone();
    let logging = plugin("demo.logger.plugin", vec![], move |host, ctx| {
        let exporter = CaptureExporter { records: captured.clone() };
        ctx.register_log_exporter(&mut host.runtime, Arc::new(exporter))?;
        let logger = ctx.logger(&host.runtime, None)?;
        logger.info(&mut host.runtime.logger, "from-apply");
        let effect = ctx.effect(&mut host.runtime)?;
        let logger = effect.logger(&host.runtime, None)?;
        logger.warn(&mut host.runtime.logger, "from-effect");
        Ok(())
    });
    let fiber = host.mount(&root, logging).unwrap();
    let captured = records.lock().unwrap().clone();
    assert!(captured.len() >= 2);
    for record in &captured {
        assert_eq!(record.fiber_id, Some(fiber.id()));
        assert_eq!(record.plugin_key.unwrap().as_str(), "demo.logger.plugin");
        assert_eq!(record.target, "demo.logger.plugin");
    }
    assert_eq!(host.runtime.logger_service().exporter_count(), 1);
    host.dispose_fiber_wait(&fiber).unwrap().unwrap();
    assert_eq!(host.runtime.logger_service().exporter_count(), 0);
    host.shutdown().unwrap().unwrap();
}

#[test]
fn withdrawn_mount_hands_every_scope_back() {
    for own in [true, false] {
        let mut host = Host::new();
        let root = host.root();
        let fiber =
            root.plugin(&mut host.runtime, PluginKey::new("test.noop"), 1, vec![]).unwrap();
        let id = fiber.id();
        host.runtime.registry.start_lifecycle(id).unwrap();
        let start = host.runtime.registry.begin_activation(&mut host.runtime.scopes, id, true);
        let scope = match start {
            ActivationStart::Apply { scope, .. } => scope,
            _ => unreachable!(),
        };
        let ended = if own { scope } else { host.runtime.scopes.child(root.scope()) };
        assert!(!host.runtime.registry.abandon_initial_handle(id));
        let end = host.runtime.registry.finish_activation(
            &host.runtime.scopes,
            id,
            true,
            ended,
            vec![],
            Ok(()),
        );
        assert!(matches!(end.result, Err(CoreError::FiberDisposed)));
        assert_eq!(end.dispose, Some(ended));
        assert_eq!(end.withdrawn, if own { None } else { Some(scope) });
        assert!(fiber.is_disposed(&host.runtime));
    }
}

#[test]
fn handle_is_offered_before_the_first_operation_ends() {
    let mut host = Host::new();
    let root = host.root();
    let key = PluginKey::new("test.noop");
    let fiber = root.plugin(&mut host.runtime, key, 1, vec![number().id()]).unwrap();
    let id = fiber.id();
    host.plugins.insert(1, noop("test.noop"));
    host.mounts.insert(id, root.clone());
    host.runtime.registry.start_lifecycle(id).unwrap();
    host.activate(id, true).unwrap();
    host.settle();
    assert_eq!(fiber.state(&host.runtime), FiberState::Pending);
    host.provide(&root, number(), 1).unwrap();
    host.settle();
    assert_eq!(fiber.state(&host.runtime), FiberState::Pending);
    assert!(host.runtime.registry.offer_handle(id));
    host.close_op(id);
    assert!(host.runtime.registry.claim_handle(id));
    host.settle();
    assert_eq!(fiber.state(&host.runtime), FiberState::Active);
}
