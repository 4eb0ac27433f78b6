//! Effects: who owns what, in what order it is released, and who waits.

#![allow(dead_code)]

use cordis_core::effect::disposal::{Disposal, DisposeStep};
use cordis_core::effect::dispose::{Coordinator, CoordinatorAction, DisposePolicy};
use cordis_core::fiber::ProviderRevision;
use cordis_core::registry::activate::ActivationStart;
use cordis_core::registry::groups::UnmountTally;
use cordis_core::registry::lifecycle::{
    LifecycleOp, LifecycleStage, ObservedDispose, TerminalRelease, UnloadStart,
};
use cordis_core::registry::scheduler::{BatchStep, RoundEnd, SettleStep};
use cordis_core::runtime::{CleanupTask, ShutdownRole};
use cordis_core::{
    Context, CoreError, EffectContext, EventKey, Fiber, InjectionHandle, PluginKey, Runtime,
    ServiceId, ServiceKey, Services,
};
use std::collections::{HashMap, HashSet};
use std::rc::Rc;
use cordis_core::effect::completion::DisposeCompletion;
use std::cell::{Cell, RefCell};

#[derive(Debug, Clone)]
struct Number(usize);

#[derive(Debug)]
struct Other;

#[derive(Debug, Clone, PartialEq, Eq)]
struct Ping(u32);

#[derive(Debug, Clone, PartialEq, Eq)]
struct Pong(u32);

fn number() -> ServiceKey<Number> {
    ServiceKey::new("test.number@1")
}

fn other_number() -> ServiceKey<Other> {
    ServiceKey::new("test.number@1")
}

fn derived() -> ServiceKey<Number> {
    ServiceKey::new("test.derived@1")
}

fn ping() -> EventKey<Ping> {
    EventKey::new("test.ping@1")
}

fn pong_as_ping() -> EventKey<Pong> {
    EventKey::new("test.ping@1")
}

type Callback = Rc<dyn Fn(&mut Host) -> Result<(), String>>;
type Disposer = Rc<dyn Fn(&mut Host) -> Result<(), CoreError>>;
type Apply = Rc<dyn Fn(&mut Host, &Context) -> Result<(), CoreError>>;
type Injected = Rc<dyn Fn(&mut Host, &Services, &EffectContext) -> Result<(), CoreError>>;

#[derive(Clone)]
struct TestPlugin {
    key: &'static str,
    dependencies: Vec<ServiceId>,
    apply: Apply,
}

fn plugin(
    key: &'static str,
    dependencies: Vec<ServiceId>,
    apply: impl Fn(&mut Host, &Context) -> Result<(), CoreError> + 'static,
) -> TestPlugin {
    TestPlugin { key, dependencies, apply: Rc::new(apply) }
}

/// A host that does everything on the caller's thread. Handles in `gated` block whoever
/// waits for them.
struct Host {
    runtime: Runtime,
    next: u64,
    numbers: Vec<usize>,
    callbacks: HashMap<u64, Callback>,
    disposers: HashMap<u64, Disposer>,
    tasks: HashMap<u64, Callback>,
    plugins: HashMap<u64, TestPlugin>,
    mounts: HashMap<u64, Context>,
    injected: HashMap<u64, (Context, Injected)>,
    gated: HashSet<u64>,
    coordinators: Vec<(Coordinator, Option<CoordinatorAction>)>,
    releases: Vec<(u64, u64)>,
    aborted: Vec<u64>,
    recomputing: bool,
}

impl Host {
    fn new() -> Host {
        Host::with_identity(1)
    }

    fn with_identity(identity: u64) -> Host {
        Host {
            runtime: Runtime::new(identity, true).unwrap(),
            next: 1,
            numbers: Vec::new(),
            callbacks: HashMap::new(),
            disposers: HashMap::new(),
            tasks: HashMap::new(),
            plugins: HashMap::new(),
            mounts: HashMap::new(),
            injected: HashMap::new(),
            gated: HashSet::new(),
            coordinators: Vec::new(),
            releases: Vec::new(),
            aborted: Vec::new(),
            recomputing: false,
        }
    }

    fn root(&self) -> Context {
        self.runtime.root()
    }

    fn handle(&mut self) -> u64 {
        self.next += 1;
        self.next
    }

    fn number(&mut self, value: usize) -> u64 {
        self.numbers.push(value);
        (self.numbers.len() - 1) as u64
    }

    fn provide(
        &mut self,
        ctx: &Context,
        key: ServiceKey<Number>,
        value: usize,
    ) -> Result<(), CoreError> {
        let object = self.number(value);
        ctx.provide(&mut self.runtime, key, object)
    }

    fn get(&self, ctx: &Context, key: ServiceKey<Number>) -> Result<usize, CoreError> {
        ctx.get(&self.runtime, key).map(|object| self.numbers[object as usize])
    }

    fn effect(&mut self, ctx: &Context) -> EffectContext {
        ctx.effect(&mut self.runtime).unwrap()
    }

    fn named(&mut self, ctx: &Context, name: &str) -> EffectContext {
        ctx.effect_named(&mut self.runtime, name.to_string()).unwrap()
    }

    fn on_dispose(
        &mut self,
        effect: &EffectContext,
        callback: impl Fn(&mut Host) -> Result<(), String> + 'static,
    ) {
        let handle = self.handle();
        if effect.on_dispose(&mut self.runtime, handle) {
            self.callbacks.insert(handle, Rc::new(callback));
        } else {
            callback(self).unwrap();
        }
    }

    fn on_dispose_async(
        &mut self,
        effect: &EffectContext,
        disposer: impl Fn(&mut Host) -> Result<(), CoreError> + 'static,
    ) -> Result<u64, CoreError> {
        let handle = self.handle();
        effect.on_dispose_async(&mut self.runtime, handle)?;
        self.disposers.insert(handle, Rc::new(disposer));
        Ok(handle)
    }

    /// A task that runs until it is cancelled and then runs `at_end`.
    fn spawn(
        &mut self,
        effect: &EffectContext,
        at_end: impl Fn(&mut Host) -> Result<(), String> + 'static,
    ) -> Result<u64, CoreError> {
        let handle = self.handle();
        effect.spawn(&mut self.runtime, handle)?;
        self.tasks.insert(handle, Rc::new(at_end));
        Ok(handle)
    }

    fn inject(
        &mut self,
        ctx: &Context,
        dependencies: Vec<ServiceId>,
        callback: impl Fn(&mut Host, &Services, &EffectContext) -> Result<(), CoreError> + 'static,
    ) -> Result<InjectionHandle, CoreError> {
        let handle = self.handle();
        let injection = ctx.inject(&mut self.runtime, dependencies, handle)?;
        self.injected.insert(handle, (ctx.clone(), Rc::new(callback)));
        Ok(injection)
    }

    // The release of scopes.

    fn run_disposal(&mut self, mut disposal: Disposal) {
        loop {
            match disposal.step(&mut self.runtime.scopes) {
                DisposeStep::Entered(_) | DisposeStep::Skipped(_) => {}
                DisposeStep::Run { cleanup, .. } => match self.runtime.run_cleanup(cleanup) {
                    CleanupTask::Nothing => {}
                    CleanupTask::DisposeScope(scope) => {
                        self.dispose_scope(scope, DisposePolicy::HoistToParent)
                    }
                    CleanupTask::ReleaseFiber { fiber, release } => self.release(fiber, release),
                    CleanupTask::RunCallback(handle) => {
                        let callback = self.callbacks.remove(&handle).unwrap();
                        if let Err(message) = callback(self) {
                            disposal.cleanup_failed(message);
                        }
                    }
                },
                DisposeStep::Coordinate(coordinator) => self.coordinators.push((coordinator, None)),
                DisposeStep::Abort { tasks, .. } => self.aborted.extend(tasks),
                DisposeStep::Done => break,
            }
        }
        self.pump();
    }

    fn dispose_scope(&mut self, scope: u64, policy: DisposePolicy) {
        let disposal = Disposal::start(&mut self.runtime.scopes, scope, policy);
        self.run_disposal(disposal);
    }

    fn dispose(&mut self, effect: &EffectContext) {
        let disposal = effect.dispose(&mut self.runtime);
        self.run_disposal(disposal);
    }

    /// Disposes and waits; nothing while a gate holds the release up.
    fn dispose_wait(&mut self, effect: &EffectContext) -> Option<Result<(), CoreError>> {
        let disposal = effect.dispose_wait(&mut self.runtime);
        self.run_disposal(disposal);
        self.outcome(effect)
    }

    fn outcome(&self, effect: &EffectContext) -> Option<Result<(), CoreError>> {
        self.runtime.scopes.outcome(effect.as_context().scope())
    }

    fn open(&mut self, gate: u64) {
        self.gated.remove(&gate);
        self.pump();
    }

    /// Carries all releases on as far as no gate holds them up.
    fn pump(&mut self) {
        let mut progress = true;
        while progress {
            progress = false;
            let mut waiting = Vec::new();
            for (mut coordinator, stored) in std::mem::take(&mut self.coordinators) {
                let mut action = stored;
                loop {
                    let current = match action.take() {
                        Some(current) => current,
                        None => coordinator.next(),
                    };
                    match current {
                        CoordinatorAction::AwaitChild(child) => {
                            if self.runtime.scopes.is_releasing(child) {
                                waiting.push((coordinator, Some(current)));
                                break;
                            }
                            if let Some(Err(CoreError::DisposeFailed { errors })) =
                                self.runtime.scopes.outcome(child)
                            {
                                coordinator.child_failed(errors);
                            }
                        }
                        CoordinatorAction::RunDisposer(handle) => {
                            if self.gated.contains(&handle) {
                                waiting.push((coordinator, Some(current)));
                                break;
                            }
                            let disposer = self.disposers.remove(&handle).unwrap();
                            if let Err(error) = disposer(self) {
                                coordinator.disposer_failed(error.message());
                            }
                        }
                        CoordinatorAction::AwaitTask(handle) => {
                            if self.gated.contains(&handle) {
                                waiting.push((coordinator, Some(current)));
                                break;
                            }
                            let task = self.tasks.remove(&handle).unwrap();
                            if let Err(message) = task(self) {
                                coordinator.task_join_failed(&message);
                            }
                        }
                        CoordinatorAction::Finish(errors) => {
                            self.runtime.scopes.finish(coordinator.scope(), errors);
                            progress = true;
                            break;
                        }
                    }
                }
            }
            waiting.extend(std::mem::take(&mut self.coordinators));
            self.coordinators = waiting;
            for (fiber, scope) in std::mem::take(&mut self.releases) {
                if self.runtime.scopes.is_releasing(scope) {
                    self.releases.push((fiber, scope));
                } else {
                    let errors = self.errors_of(scope);
                    let _ = self.runtime.registry.finalize_terminal_release(fiber, scope, errors);
                    progress = true;
                }
            }
        }
    }

    fn errors_of(&self, scope: u64) -> Vec<String> {
        match self.runtime.scopes.outcome(scope) {
            Some(Err(CoreError::DisposeFailed { errors })) => errors,
            _ => Vec::new(),
        }
    }

    // Plugins.

    fn release(&mut self, fiber: u64, release: TerminalRelease) {
        match release {
            TerminalRelease::Run(scope) => {
                self.releases.push((fiber, scope));
                self.dispose_scope(scope, DisposePolicy::HoistToParent);
                self.runtime.registry.mark_release_started(fiber, scope);
            }
            TerminalRelease::Join(scope) => self.releases.push((fiber, scope)),
            TerminalRelease::Vacant | TerminalRelease::Observe => {}
        }
        self.pump();
    }

    fn dispose_fiber(&mut self, fiber: &Fiber) {
        let release = fiber.dispose(&mut self.runtime);
        self.release(fiber.id(), release);
    }

    fn dispose_fiber_wait(&mut self, fiber: &Fiber) -> Option<Result<(), CoreError>> {
        let release = fiber.dispose_wait(&mut self.runtime);
        self.release(fiber.id(), release);
        match self.runtime.registry.observe_dispose_result(fiber.id()) {
            ObservedDispose::Known(result) => Some(result),
            ObservedDispose::Wait(_) => None,
        }
    }

    fn unload(&mut self, id: u64) -> Result<(), CoreError> {
        match self.runtime.registry.begin_unload(id) {
            UnloadStart::Over(result) => result,
            UnloadStart::Release(scope) => {
                self.dispose_scope(scope, DisposePolicy::AwaitLocal);
                let errors = self.errors_of(scope);
                self.runtime.registry.finish_unload(id, scope, errors)
            }
            UnloadStart::ReleaseOnly(scope) => {
                self.dispose_scope(scope, DisposePolicy::AwaitLocal);
                Err(CoreError::FiberDisposed)
            }
        }
    }

    fn activate(&mut self, id: u64, initial_mount: bool) -> Result<(), CoreError> {
        match self.runtime.registry.begin_activation(&mut self.runtime.scopes, id, initial_mount) {
            ActivationStart::Refused(error) => Err(error),
            ActivationStart::Revoked(scope) => {
                if let Some(scope) = scope {
                    self.dispose_scope(scope, DisposePolicy::HoistToParent);
                }
                Err(CoreError::FiberDisposed)
            }
            ActivationStart::Idle => Ok(()),
            ActivationStart::Apply { scope, plugin, providers } => {
                let applied = self.plugins[&plugin].clone();
                let ctx = self.mounts[&id].with_scope_and_log_source(
                    scope,
                    id,
                    PluginKey::new(applied.key),
                );
                let outcome = (applied.apply)(self, &ctx).map_err(|error| error.message());
                self.end_activation(id, initial_mount, scope, providers, outcome)
            }
        }
    }

    fn end_activation(
        &mut self,
        id: u64,
        initial_mount: bool,
        scope: u64,
        providers: Vec<ProviderRevision>,
        outcome: Result<(), String>,
    ) -> Result<(), CoreError> {
        let end = self.runtime.registry.finish_activation(
            &self.runtime.scopes,
            id,
            initial_mount,
            scope,
            providers,
            outcome,
        );
        for scope in end.dispose.into_iter().chain(end.withdrawn) {
            self.dispose_scope(scope, DisposePolicy::HoistToParent);
        }
        end.result
    }

    fn run_op(
        &mut self,
        id: u64,
        op: LifecycleOp,
        replacement: Option<u64>,
    ) -> Result<(), CoreError> {
        let mut stage = op.first_stage();
        let mut result = Ok(());
        loop {
            result = match stage {
                LifecycleStage::Unload => self.unload(id),
                LifecycleStage::Install => {
                    let handle = replacement.unwrap();
                    let dependencies = self.plugins[&handle].dependencies.clone();
                    self.runtime.registry.install_replacement(id, handle, dependencies)
                }
                LifecycleStage::Activate { initial_mount } => self.activate(id, initial_mount),
                LifecycleStage::Done => break,
            };
            stage = op.next_stage(stage, result.is_ok());
        }
        if let LifecycleOp::Activate { initial_mount: true } = op {
            self.runtime.registry.offer_handle(id);
        }
        self.close_op(id);
        result
    }

    fn close_op(&mut self, id: u64) {
        if let Some(scope) = self.runtime.registry.finish_lifecycle(id) {
            self.dispose_scope(scope, DisposePolicy::HoistToParent);
        }
    }

    fn mount(&mut self, ctx: &Context, plugin: TestPlugin) -> Result<Fiber, CoreError> {
        let handle = self.handle();
        let key = PluginKey::new(plugin.key);
        let dependencies = plugin.dependencies.clone();
        self.plugins.insert(handle, plugin);
        let fiber = ctx.plugin(&mut self.runtime, key, handle, dependencies)?;
        self.mounts.insert(fiber.id(), ctx.clone());
        self.runtime.registry.start_lifecycle(fiber.id()).unwrap();
        let first = LifecycleOp::Activate { initial_mount: true };
        let _ = self.run_op(fiber.id(), first, None);
        assert!(self.runtime.registry.claim_handle(fiber.id()));
        Ok(fiber)
    }

    fn restart(&mut self, fiber: &Fiber) -> Result<(), CoreError> {
        fiber.restart(&mut self.runtime)?;
        self.run_op(fiber.id(), LifecycleOp::Restart, None)
    }

    fn replace(&mut self, fiber: &Fiber, plugin: TestPlugin) -> Result<(), CoreError> {
        let handle = self.handle();
        let key = PluginKey::new(plugin.key);
        self.plugins.insert(handle, plugin);
        fiber.replace(&mut self.runtime, key)?;
        self.run_op(fiber.id(), LifecycleOp::Replace, Some(handle))
    }

    fn unmount(&mut self, key: &'static str) -> Result<usize, CoreError> {
        let (fibers, token) = self.runtime.unmount(PluginKey::new(key))?;
        let mut tally = UnmountTally::new(fibers.len());
        for id in fibers {
            let result = self.dispose_fiber_wait(&Fiber::from_id(id)).unwrap();
            tally.released(result);
        }
        self.runtime.registry.finish_plugin_unmount(PluginKey::new(key), token);
        tally.finish()
    }

    // The scheduler.

    fn run_injection(&mut self, id: u64) {
        let snapshot = match self.runtime.registry.snapshot_injection(id) {
            Some(snapshot) => snapshot,
            None => return,
        };
        let child = self.runtime.scopes.child(snapshot.parent);
        let (ctx, callback) = self.injected[&snapshot.callback].clone();
        let effect = EffectContext::from_context(ctx.with_scope(child));
        let outcome = callback(self, &snapshot.services, &effect).map_err(|error| error.message());
        if self.runtime.registry.finish_injection(
            &self.runtime.scopes,
            id,
            child,
            snapshot.providers,
            outcome,
        ) {
            self.dispose_scope(child, DisposePolicy::HoistToParent);
        }
    }

    fn run_started(&mut self, id: u64, op: LifecycleOp) {
        if self.runtime.registry.start_lifecycle(id).is_ok() {
            let _ = self.run_op(id, op, None);
        }
    }

    fn settle(&mut self) {
        match self.runtime.registry.settle_step(self.recomputing) {
            SettleStep::Return => return,
            SettleStep::Recompute | SettleStep::Wait => {}
        }
        if !self.runtime.registry.begin_recompute() {
            return;
        }
        self.recomputing = true;
        loop {
            let mut batch = self.runtime.registry.take_batch(&self.runtime.scopes);
            if batch.is_empty() {
                match self.runtime.registry.close_round(batch.epoch) {
                    RoundEnd::Continue => continue,
                    RoundEnd::Quiescent => break,
                }
            }
            loop {
                match batch.next() {
                    BatchStep::Dispose(scope) => {
                        self.dispose_scope(scope, DisposePolicy::HoistToParent)
                    }
                    BatchStep::Unload(id) => self.run_started(id, LifecycleOp::Unload),
                    BatchStep::Inject(id) => self.run_injection(id),
                    BatchStep::Activate(id) => {
                        self.run_started(id, LifecycleOp::Activate { initial_mount: false })
                    }
                    BatchStep::End => break,
                }
            }
        }
        self.recomputing = false;
    }

    fn shutdown(&mut self) -> Option<Result<(), CoreError>> {
        if self.runtime.shutdown(false).unwrap() == ShutdownRole::Run {
            let scope = self.root().scope();
            self.dispose_scope(scope, DisposePolicy::AwaitLocal);
        }
        self.end_shutdown()
    }

    fn end_shutdown(&mut self) -> Option<Result<(), CoreError>> {
        let scope = self.root().scope();
        if self.runtime.shutdown_result().is_none() && !self.runtime.scopes.is_releasing(scope) {
            let errors = self.errors_of(scope);
            self.settle();
            self.runtime.finish_shutdown(errors);
        }
        self.runtime.shutdown_result()
    }
}

fn contains(result: &Result<(), CoreError>, text: &str) -> usize {
    match result {
        Err(CoreError::DisposeFailed { errors }) => {
            errors.iter().filter(|error| error.contains(text)).count()
        }
        other => panic!("unexpected: {other:?}"),
    }
}

fn counter() -> (Rc<Cell<usize>>, Rc<Cell<usize>>) {
    let cell = Rc::new(Cell::new(0));
    (cell.clone(), cell)
}

fn boom(text: &str) -> CoreError {
    CoreError::EventListener(text.to_string())
}

#[test]
fn effect_shutdown_cancels_and_waits_for_controlled_tasks() {
    let mut host = Host::new();
    let root = host.root();
    let effect = host.effect(&root);
    let (stopped, seen) = counter();
    let probe = effect.handle();
    host.spawn(&effect, move |host| {
        assert!(probe.is_cancelled(&host.runtime));
        seen.set(1);
        Ok(())
    })
    .unwrap();
    assert!(!effect.is_cancelled(&host.runtime));
    host.shutdown().unwrap().unwrap();
    assert_eq!(stopped.get(), 1);
}

#[test]
fn effect_diagnostics_do_not_leak_service_payloads() {
    let mut host = Host::new();
    let root = host.root();
    host.numbers.resize(42, 0);
    host.provide(&root, number(), 1).unwrap();
    let snapshot = host.runtime.diagnostics();
    assert_eq!(snapshot.providers.len(), 1);
    assert!(!format!("{snapshot:?}").contains("42"));
}

#[test]
fn effect_scope_dispose_interleaved_with_child_cleanup_and_spawn() {
    let mut host = Host::new();
    let root = host.root();
    let effect = host.effect(&root);
    let (cleanups, seen) = counter();
    for round in 0..16 {
        if round == 8 {
            host.dispose(&effect);
        }
        let seen = seen.clone();
        host.on_dispose(&effect, move |_| {
            seen.set(seen.get() + 1);
            Ok(())
        });
        let child = effect.extend(&mut host.runtime);
        assert_eq!(child.is_ok(), round < 8);
        let task = host.spawn(&effect, |_| Ok(()));
        assert_eq!(task.is_ok(), round < 8);
    }
    assert_eq!(cleanups.get(), 16);
    assert_eq!(effect.child_scope_count(&host.runtime), 0);
    host.shutdown().unwrap().unwrap();
}

#[test]
fn effect_shutdown_stops_scheduler_and_rejects_root_ops() {
    let mut host = Host::new();
    let root = host.root();
    host.provide(&root, number(), 1).unwrap();
    host.shutdown().unwrap().unwrap();
    assert!(host.runtime.scheduler_stopped());
    host.settle();
    assert!(matches!(host.provide(&root, number(), 2), Err(CoreError::ContextDisposed)));
    assert!(matches!(
        host.inject(&root, vec![number().id()], |_, _, _| Ok(())),
        Err(CoreError::ContextDisposed)
    ));
}

#[test]
fn concurrent_and_subsequent_shutdown_share_same_dispose_failed() {
    let mut host = Host::new();
    let root = host.root();
    let effect = host.effect(&root);
    let gate = host.on_dispose_async(&effect, |_| Err(boom("shared shutdown boom"))).unwrap();
    host.gated.insert(gate);
    assert!(host.shutdown().is_none());
    assert!(host.shutdown().is_none());
    host.open(gate);
    let first = host.end_shutdown().unwrap();
    let second = host.runtime.shutdown_result().unwrap();
    assert_eq!(contains(&first, "shared shutdown boom"), 1);
    assert_eq!(format!("{first:?}"), format!("{second:?}"));
    assert!(host.runtime.scheduler_stopped());
    let later = host.shutdown().unwrap();
    assert_eq!(format!("{first:?}"), format!("{later:?}"));
}

#[test]
fn effect_dispose_cancels_without_abort_shutdown_waits() {
    let mut host = Host::new();
    let root = host.root();
    let effect = host.effect(&root);
    let (finished, seen) = counter();
    let task = host
        .spawn(&effect, move |_| {
            seen.set(1);
            Ok(())
        })
        .unwrap();
    host.gated.insert(task);
    host.dispose(&effect);
    assert!(effect.is_cancelled(&host.runtime));
    assert_eq!(finished.get(), 0);
    assert!(host.aborted.is_empty());
    assert!(host.shutdown().is_none());
    host.open(task);
    host.end_shutdown().unwrap().unwrap();
    assert_eq!(finished.get(), 1);
}

#[test]
fn effect_effect_dispose_then_drop_parent_shutdown_waits_task() {
    let mut host = Host::new();
    let root = host.root();
    let child = host.effect(&root);
    let (finished, seen) = counter();
    let task = host
        .spawn(&child, move |_| {
            seen.set(1);
            Ok(())
        })
        .unwrap();
    host.gated.insert(task);
    host.dispose(&child);
    drop(child);
    assert!(host.shutdown().is_none());
    host.open(task);
    host.end_shutdown().unwrap().unwrap();
    assert_eq!(finished.get(), 1);
}

#[test]
fn effect_effect_tree_appears_in_diagnostics_and_clears() {
    let mut host = Host::new();
    let root = host.root();
    let before = host.runtime.diagnostics().effects.len();
    let effect = host.named(&root, "named-fx");
    let handle = effect.handle();
    assert_eq!(handle.name(&host.runtime).unwrap(), "named-fx");
    assert!(!handle.is_disposed(&host.runtime));
    assert!(!handle.is_cancelled(&host.runtime));
    assert_eq!(handle.child_count(&host.runtime), 0);
    assert_eq!(handle.task_count(&host.runtime), 0);
    let baseline = handle.cleanup_count(&host.runtime);

    let child = host.named(effect.as_context(), "child-fx");
    let child_handle = child.handle();
    assert_eq!(child_handle.parent_id(&host.runtime), Some(handle.id()));
    assert_eq!(handle.child_count(&host.runtime), 1);
    host.dispose_wait(&child).unwrap().unwrap();
    assert_eq!(handle.child_count(&host.runtime), 0);

    host.on_dispose(&effect, |_| Ok(()));
    assert_eq!(handle.cleanup_count(&host.runtime), baseline + 1);
    host.spawn(&effect, |_| Ok(())).unwrap();
    assert_eq!(handle.task_count(&host.runtime), 1);
    assert!(host
        .runtime
        .diagnostics()
        .effects
        .iter()
        .any(|item| item.name == "named-fx" && item.id == handle.id()));
    host.provide(effect.as_context(), number(), 1).unwrap();
    assert!(host
        .runtime
        .diagnostics()
        .providers
        .iter()
        .any(|provider| provider.effect_id == Some(handle.id())));
    host.dispose_wait(&effect).unwrap().unwrap();
    assert!(handle.is_disposed(&host.runtime));
    assert!(handle.is_cancelled(&host.runtime));
    assert_eq!(host.runtime.diagnostics().effects.len(), before);
    assert!(host.runtime.diagnostics().providers.is_empty());
}

#[test]
fn on_dispose_async_runs_once_on_first_dispose_only() {
    let mut host = Host::new();
    let root = host.root();
    let effect = host.effect(&root);
    let (runs, seen) = counter();
    host.on_dispose_async(&effect, move |_| {
        seen.set(seen.get() + 1);
        Ok(())
    })
    .unwrap();
    assert_eq!(runs.get(), 0);
    host.dispose_wait(&effect).unwrap().unwrap();
    assert_eq!(runs.get(), 1);
    host.dispose_wait(&effect).unwrap().unwrap();
    assert_eq!(runs.get(), 1);
    host.shutdown().unwrap().unwrap();
}

#[test]
fn dispose_runs_sync_cleanup_immediately_and_hoists_async_to_parent_wait() {
    let mut host = Host::new();
    let root = host.root();
    let parent = host.effect(&root);
    let view = parent.extend(&mut host.runtime).unwrap();
    let child = host.effect(&view);
    let (sync_done, sync_seen) = counter();
    let (async_done, async_seen) = counter();
    host.on_dispose(&child, move |_| {
        sync_seen.set(1);
        Ok(())
    });
    let gate = host
        .on_dispose_async(&child, move |_| {
            async_seen.set(1);
            Ok(())
        })
        .unwrap();
    host.gated.insert(gate);
    host.dispose(&child);
    assert_eq!(sync_done.get(), 1);
    assert_eq!(async_done.get(), 0);
    assert!(host.dispose_wait(&parent).is_none());
    host.open(gate);
    host.outcome(&parent).unwrap().unwrap();
    assert_eq!(async_done.get(), 1);
    host.shutdown().unwrap().unwrap();
}

#[test]
fn dispose_wait_respects_lifo_for_sync_and_async_cleanups() {
    let mut host = Host::new();
    let root = host.root();
    let effect = host.effect(&root);
    let order = Rc::new(RefCell::new(Vec::new()));
    for label in ["sync-a", "sync-b"] {
        let order = order.clone();
        host.on_dispose(&effect, move |_| {
            order.borrow_mut().push(label);
            Ok(())
        });
    }
    for label in ["async-a", "async-b"] {
        let order = order.clone();
        host.on_dispose_async(&effect, move |_| {
            order.borrow_mut().push(label);
            Ok(())
        })
        .unwrap();
    }
    host.dispose_wait(&effect).unwrap().unwrap();
    assert_eq!(*order.borrow(), vec!["sync-b", "sync-a", "async-b", "async-a"]);
    host.shutdown().unwrap().unwrap();
}

#[test]
fn dispose_wait_aggregates_async_disposer_errors_and_continues() {
    let mut host = Host::new();
    let root = host.root();
    let effect = host.effect(&root);
    let (ran, seen) = counter();
    for outcome in ["first", "second", ""] {
        let seen = seen.clone();
        host.on_dispose_async(&effect, move |_| {
            seen.set(seen.get() + 1);
            if outcome.is_empty() {
                Ok(())
            } else {
                Err(boom(outcome))
            }
        })
        .unwrap();
    }
    let result = host.dispose_wait(&effect).unwrap();
    assert_eq!(ran.get(), 3);
    assert_eq!(contains(&result, "first"), 1);
    assert_eq!(contains(&result, "second"), 1);
    assert_eq!(contains(&result, ""), 2);
    assert_eq!(
        result.unwrap_err().message(),
        "释放失败: [\"事件监听器失败: second\", \"事件监听器失败: first\"]"
    );
    host.shutdown().unwrap().unwrap();
}

#[test]
fn dispose_wait_captures_sync_cleanup_panic_and_continues() {
    let mut host = Host::new();
    let root = host.root();
    let effect = host.effect(&root);
    let (ran, seen) = counter();
    for fails in [false, true, false] {
        let seen = seen.clone();
        host.on_dispose(&effect, move |_| {
            if fails {
                return Err("dispose callback panicked: sync boom".to_string());
            }
            seen.set(seen.get() + 1);
            Ok(())
        });
    }
    let result = host.dispose_wait(&effect).unwrap();
    assert_eq!(ran.get(), 2);
    assert_eq!(contains(&result, ""), 1);
    assert_eq!(contains(&result, "sync boom"), 1);
    host.shutdown().unwrap().unwrap();
}

#[test]
fn dispose_wait_captures_async_disposer_panic_and_continues() {
    let mut host = Host::new();
    let root = host.root();
    let effect = host.effect(&root);
    let (ran, seen) = counter();
    for fails in [false, true, false] {
        let seen = seen.clone();
        host.on_dispose_async(&effect, move |_| {
            if fails {
                return Err(boom("async boom"));
            }
            seen.set(seen.get() + 1);
            Ok(())
        })
        .unwrap();
    }
    let result = host.dispose_wait(&effect).unwrap();
    assert_eq!(ran.get(), 2);
    assert_eq!(contains(&result, ""), 1);
    assert_eq!(contains(&result, "async boom"), 1);
    host.shutdown().unwrap().unwrap();
}

#[test]
fn parent_dispose_wait_hoists_child_disposer_panic() {
    let mut host = Host::new();
    let root = host.root();
    let parent = host.effect(&root);
    let view = parent.extend(&mut host.runtime).unwrap();
    let child = host.effect(&view);
    host.on_dispose(&child, |_| Err("child sync boom".to_string()));
    host.on_dispose_async(&child, |_| Err(boom("child async boom"))).unwrap();
    let result = host.dispose_wait(&parent).unwrap();
    assert_eq!(contains(&result, "child sync boom"), 1);
    assert_eq!(contains(&result, "child async boom"), 1);
    host.shutdown().unwrap().unwrap();
}

#[test]
fn on_dispose_async_rejects_after_scope_disposed() {
    let mut host = Host::new();
    let root = host.root();
    let effect = host.effect(&root);
    host.dispose(&effect);
    assert!(matches!(
        host.on_dispose_async(&effect, |_| Ok(())),
        Err(CoreError::ContextDisposed)
    ));
    host.shutdown().unwrap().unwrap();
}

#[test]
fn dispose_then_dispose_wait_shares_same_completion_result() {
    let mut host = Host::new();
    let root = host.root();
    let effect = host.effect(&root);
    let gate = host.on_dispose_async(&effect, |_| Err(boom("shared boom"))).unwrap();
    host.gated.insert(gate);
    host.dispose(&effect);
    assert!(host.dispose_wait(&effect).is_none());
    assert!(host.dispose_wait(&effect).is_none());
    host.open(gate);
    for _ in 0..2 {
        let result = host.dispose_wait(&effect).unwrap();
        assert_eq!(contains(&result, ""), 1);
        assert_eq!(contains(&result, "shared boom"), 1);
    }
    let result = host.shutdown().unwrap();
    assert_eq!(contains(&result, "shared boom"), 1);
}

#[test]
fn async_disposers_run_strict_serial_lifo() {
    let mut host = Host::new();
    let root = host.root();
    let effect = host.effect(&root);
    let order = Rc::new(RefCell::new(Vec::new()));
    let first = order.clone();
    host.on_dispose_async(&effect, move |_| {
        first.borrow_mut().push("first");
        Ok(())
    })
    .unwrap();
    let second = order.clone();
    let gate = host
        .on_dispose_async(&effect, move |_| {
            second.borrow_mut().push("second");
            Ok(())
        })
        .unwrap();
    host.gated.insert(gate);
    assert!(host.dispose_wait(&effect).is_none());
    assert!(order.borrow().is_empty());
    host.open(gate);
    host.outcome(&effect).unwrap().unwrap();
    assert_eq!(*order.borrow(), vec!["second", "first"]);
    host.shutdown().unwrap().unwrap();
}

#[test]
fn parent_async_disposer_waits_for_child_scope_completion() {
    let mut host = Host::new();
    let root = host.root();
    let parent = host.effect(&root);
    let view = parent.extend(&mut host.runtime).unwrap();
    let child = host.effect(&view);
    let order = Rc::new(RefCell::new(Vec::new()));
    let at_child = order.clone();
    let gate = host
        .on_dispose_async(&child, move |_| {
            at_child.borrow_mut().push("child");
            Ok(())
        })
        .unwrap();
    let at_parent = order.clone();
    host.on_dispose_async(&parent, move |_| {
        at_parent.borrow_mut().push("parent");
        Ok(())
    })
    .unwrap();
    host.gated.insert(gate);
    assert!(host.dispose_wait(&parent).is_none());
    assert!(order.borrow().is_empty());
    host.open(gate);
    host.outcome(&parent).unwrap().unwrap();
    assert_eq!(*order.borrow(), vec!["child", "parent"]);
    host.shutdown().unwrap().unwrap();
}

#[test]
fn drop_runtime_without_shutdown_does_not_run_pending_async_disposers() {
    let mut host = Host::new();
    let root = host.root();
    let effect = host.effect(&root);
    let (ran, seen) = counter();
    let (cleaned, cleaner) = counter();
    host.on_dispose_async(&effect, move |_| {
        seen.set(1);
        Ok(())
    })
    .unwrap();
    host.on_dispose(&effect, move |_| {
        cleaner.set(1);
        Ok(())
    });
    let task = host.spawn(&effect, |_| Ok(())).unwrap();
    host.dispose_scope(root.scope(), DisposePolicy::Abandon);
    assert_eq!(ran.get(), 0);
    assert_eq!(cleaned.get(), 1);
    assert_eq!(host.aborted, vec![task]);
    assert!(effect.handle().is_disposed(&host.runtime));
    host.outcome(&effect).unwrap().unwrap();
}

#[test]
fn dropped_effect_leaves_its_tasks_to_its_parent() {
    let mut host = Host::new();
    let root = host.root();
    let effect = host.effect(&root);
    let (ran, seen) = counter();
    let (finished, at_end) = counter();
    host.on_dispose_async(&effect, move |_| {
        seen.set(1);
        Ok(())
    })
    .unwrap();
    host.spawn(&effect, move |_| {
        at_end.set(1);
        Ok(())
    })
    .unwrap();
    host.dispose_scope(effect.as_context().scope(), DisposePolicy::Dropped);
    assert!(host.aborted.is_empty());
    assert_eq!(finished.get(), 0);
    host.shutdown().unwrap().unwrap();
    assert_eq!(finished.get(), 1);
    assert_eq!(ran.get(), 0);
}

#[test]
fn async_disposer_factory_panic_is_collected_and_later_cleanup_runs() {
    let mut host = Host::new();
    let root = host.root();
    let effect = host.effect(&root);
    let (completed, seen) = counter();
    host.on_dispose_async(&effect, move |_| {
        seen.set(1);
        Ok(())
    })
    .unwrap();
    host.on_dispose_async(&effect, |_| Err(boom("dispose callback panicked: factory boom")))
        .unwrap();
    let result = host.dispose_wait(&effect).unwrap();
    assert_eq!(completed.get(), 1);
    assert_eq!(contains(&result, "dispose callback"), 1);
    assert_eq!(contains(&result, "factory boom"), 1);
    host.shutdown().unwrap().unwrap();
}

#[test]
fn shutdown_coordinator_survives_first_waiter_abort() {
    let mut host = Host::new();
    let root = host.root();
    let effect = host.effect(&root);
    let gate = host.on_dispose_async(&effect, |_| Ok(())).unwrap();
    host.gated.insert(gate);
    assert!(host.shutdown().is_none());
    // The first caller goes away; a second one joins the same shutdown.
    assert_eq!(host.runtime.shutdown(false).unwrap(), ShutdownRole::Join);
    host.open(gate);
    host.end_shutdown().unwrap().unwrap();
    assert!(host.runtime.scheduler_stopped());
}

#[test]
fn controlled_task_shutdown_fails_fast_and_host_can_still_shutdown() {
    let mut host = Host::new();
    assert!(matches!(host.runtime.shutdown(true), Err(CoreError::ShutdownReentrant)));
    assert!(host.runtime.shutdown_result().is_none());
    host.shutdown().unwrap().unwrap();
}

#[test]
fn async_disposer_shutdown_fails_fast_without_blocking_coordinator() {
    let mut host = Host::new();
    let root = host.root();
    let effect = host.effect(&root);
    host.on_dispose_async(&effect, |host| host.runtime.shutdown(true).map(|_| ())).unwrap();
    let result = host.shutdown().unwrap();
    assert_eq!(contains(&result, "shutdown 只能由宿主"), 1);
    assert!(host.runtime.scheduler_stopped());
}

#[test]
fn p1_parent_dispose_wait_awaits_await_local_child_async_disposer() {
    let mut host = Host::new();
    let root = host.root();
    let parent = host.effect(&root);
    let view = parent.extend(&mut host.runtime).unwrap();
    let child = host.effect(&view);
    let (done, seen) = counter();
    let gate = host
        .on_dispose_async(&child, move |_| {
            seen.set(1);
            Ok(())
        })
        .unwrap();
    host.gated.insert(gate);
    assert!(host.dispose_wait(&child).is_none());
    assert!(host.dispose_wait(&parent).is_none());
    assert_eq!(done.get(), 0);
    host.open(gate);
    host.outcome(&child).unwrap().unwrap();
    host.dispose_wait(&parent).unwrap().unwrap();
    assert_eq!(done.get(), 1);
    host.shutdown().unwrap().unwrap();
}

#[test]
fn p1_parent_dispose_wait_aggregates_await_local_child_disposer_error() {
    let mut host = Host::new();
    let root = host.root();
    let parent = host.effect(&root);
    let view = parent.extend(&mut host.runtime).unwrap();
    let child = host.effect(&view);
    let gate = host
        .on_dispose_async(&child, |_| {
            Err(CoreError::PluginApply("await-local child boom".to_string()))
        })
        .unwrap();
    host.gated.insert(gate);
    assert!(host.dispose_wait(&child).is_none());
    assert!(host.dispose_wait(&parent).is_none());
    host.open(gate);
    let child_result = host.outcome(&child).unwrap();
    assert_eq!(contains(&child_result, "await-local child boom"), 1);
    let parent_result = host.outcome(&parent).unwrap();
    assert_eq!(contains(&parent_result, "await-local child boom"), 1);
    host.shutdown().unwrap().unwrap();
}

#[test]
fn parent_dispose_races_child_error_aggregates_once() {
    let mut host = Host::new();
    let root = host.root();
    let parent = host.effect(&root);
    let view = parent.extend(&mut host.runtime).unwrap();
    let child = host.effect(&view);
    let gate = host
        .on_dispose_async(&child, |_| Err(CoreError::PluginApply("race child boom".to_string())))
        .unwrap();
    host.gated.insert(gate);
    assert!(host.dispose_wait(&child).is_none());
    host.dispose(&child);
    assert!(host.dispose_wait(&parent).is_none());
    host.open(gate);
    let child_result = host.outcome(&child).unwrap();
    assert_eq!(contains(&child_result, "race child boom"), 1);
    let parent_result = host.outcome(&parent).unwrap();
    assert_eq!(contains(&parent_result, "race child boom"), 1);
    host.shutdown().unwrap().unwrap();
}

#[test]
fn dispose_completion_multi_waiter_observes_finish_without_timeout() {
    let mut completion = DisposeCompletion::new();
    assert!(completion.finish(vec![]));
    for _ in 0..64 {
        completion.outcome().unwrap().unwrap();
    }
    assert!(!completion.finish(vec!["late".to_string()]));
    completion.outcome().unwrap().unwrap();
}

#[test]
fn p1_dispose_completion_without_finish_times_out() {
    let completion = DisposeCompletion::new();
    assert!(completion.outcome().is_none());
}

#[test]
fn a_runtime_that_ends_without_shutdown_leaves_others_alone() {
    let mut first = Host::with_identity(1);
    assert!(!first.runtime.scheduler_stopped());
    let root = first.root();
    first.provide(&root, number(), 1).unwrap();
    // A copy of a context goes away; the runtime goes on.
    drop(root.clone());
    assert!(!first.runtime.scheduler_stopped());
    assert_eq!(first.get(&root, number()).unwrap(), 1);
    first.dispose_scope(root.scope(), DisposePolicy::Abandon);
    first.runtime.registry.request_stop_scheduler();
    assert!(first.runtime.scheduler_stopped());
    assert!(root.is_disposed(&first.runtime));
    assert!(first.runtime.diagnostics().providers.is_empty());
    let mut again = Host::with_identity(2);
    assert!(!again.runtime.scheduler_stopped());
    again.shutdown().unwrap().unwrap();
    assert!(again.runtime.scheduler_stopped());
}

#[test]
fn runtime_needs_an_executor() {
    assert!(matches!(Runtime::new(1, false), Err(CoreError::SchedulerUnavailable)));
}

#[test]
fn failing_tasks_are_reported() {
    let mut host = Host::new();
    let root = host.root();
    let effect = host.effect(&root);
    host.spawn(&effect, |_| Err("task panicked".to_string())).unwrap();
    let result = host.dispose_wait(&effect).unwrap();
    match result {
        Err(CoreError::DisposeFailed { errors }) => {
            assert_eq!(errors, vec!["managed task join failed: task panicked".to_string()]);
        }
        other => panic!("unexpected: {other:?}"),
    }
}

#[test]
fn children_are_released_before_their_parent_the_last_first() {
    let mut host = Host::new();
    let root = host.root();
    let parent = host.effect(&root);
    let order = Rc::new(RefCell::new(Vec::new()));
    let at_parent = order.clone();
    host.on_dispose(&parent, move |_| {
        at_parent.borrow_mut().push("parent");
        Ok(())
    });
    for label in ["a", "b"] {
        let child = host.named(parent.as_context(), label);
        let order = order.clone();
        host.on_dispose(&child, move |_| {
            order.borrow_mut().push(label);
            Ok(())
        });
    }
    assert_eq!(parent.child_scope_count(&host.runtime), 2);
    host.dispose(&parent);
    assert_eq!(*order.borrow(), vec!["b", "a", "parent"]);
}

#[test]
fn child_of_a_disposed_scope_is_disposed_at_once() {
    let mut host = Host::new();
    let root = host.root();
    let effect = host.effect(&root);
    host.dispose(&effect);
    let child = host.runtime.scopes.child(effect.as_context().scope());
    assert!(host.runtime.scopes.is_disposed(child));
    assert!(host.runtime.scopes.is_cancelled(child));
    assert!(matches!(effect.child(&mut host.runtime), Err(CoreError::ContextDisposed)));
}

#[test]
fn cancellation_reaches_scopes_below() {
    let mut host = Host::new();
    let root = host.root();
    let parent = host.effect(&root);
    let child = host.effect(parent.as_context());
    let below = host.effect(child.as_context());
    let sibling = host.effect(&root);
    let scopes = [&below, &parent, &sibling].map(|effect| effect.as_context().scope());
    assert!(host.runtime.scopes.is_same_tree_as(scopes[0], scopes[1]));
    assert!(!host.runtime.scopes.is_same_tree_as(scopes[0], scopes[2]));
    host.dispose(&parent);
    assert!(below.is_cancelled(&host.runtime));
    assert!(!sibling.is_cancelled(&host.runtime));
}

#[test]
fn forgotten_scopes_leave_their_tasks() {
    let mut host = Host::new();
    let root = host.root();
    let effect = host.effect(&root);
    host.dispose_wait(&effect).unwrap().unwrap();
    let scope = effect.as_context().scope();
    assert!(host.runtime.scopes.forget(scope).is_empty());
    assert!(effect.handle().name(&host.runtime).is_none());
    assert!(effect.handle().is_disposed(&host.runtime));
}

#[test]
fn released_parent_takes_over_a_running_child_once() {
    for local in [true, false] {
        let mut host = Host::new();
        let root = host.root();
        let parent = host.effect(&root);
        let view = parent.extend(&mut host.runtime).unwrap();
        let child = host.effect(&view);
        let order = Rc::new(RefCell::new(Vec::new()));
        let at_child = order.clone();
        let gate = host
            .on_dispose_async(&child, move |_| {
                at_child.borrow_mut().push("child");
                Err(boom("child failed"))
            })
            .unwrap();
        let at_parent = order.clone();
        host.on_dispose_async(&parent, move |_| {
            at_parent.borrow_mut().push("parent");
            Ok(())
        })
        .unwrap();
        host.gated.insert(gate);
        if local {
            assert!(host.dispose_wait(&child).is_none());
        } else {
            host.dispose(&child);
        }
        assert!(host.dispose_wait(&parent).is_none());
        assert!(order.borrow().is_empty());
        host.open(gate);
        assert_eq!(*order.borrow(), vec!["child", "parent"]);
        assert_eq!(contains(&host.outcome(&child).unwrap(), "child failed"), 1);
        assert_eq!(contains(&host.outcome(&parent).unwrap(), "child failed"), 1);
    }
}
