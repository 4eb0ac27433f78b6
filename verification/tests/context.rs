//! Views: services, isolation and configuration.

#![allow(dead_code)]

use cordis_core::effect::disposal::{Disposal, DisposeStep};
use cordis_core::effect::dispose::{Coordinator, CoordinatorAction, DisposePolicy};
use cordis_core::fiber::ProviderRevision;
use cordis_core::registry::activate::ActivationStart;
use cordis_core::registry::groups::UnmountTally;
use cordis_core::registry::lifecycle::{
    LifecycleOp, LifecycleStage, ObservedDispose, TerminalRelease, UnloadStart,
};
use cordis_core::registry::scheduler::{BatchStep, RoundEnd, SettleStep};
use cordis_core::runtime::{CleanupTask, ShutdownRole};
use cordis_core::{
    Context, CoreError, EffectContext, EventKey, Fiber, InjectionHandle, PluginKey, Runtime,
    ServiceId, ServiceKey, Services,
};
use std::collections::{HashMap, HashSet};
use std::rc::Rc;
use cordis_core::{ConfigKey, FiberState};

#[derive(Debug, Clone)]
struct Number(usize);

#[derive(Debug)]
struct Other;

#[derive(Debug, Clone, PartialEq, Eq)]
struct Ping(u32);

#[derive(Debug, Clone, PartialEq, Eq)]
struct Pong(u32);

fn number() -> ServiceKey<Number> {
    ServiceKey::new("test.number@1")
}

fn other_number() -> ServiceKey<Other> {
    ServiceKey::new("test.number@1")
}

fn derived() -> ServiceKey<Number> {
    ServiceKey::new("test.derived@1")
}

fn ping() -> EventKey<Ping> {
    EventKey::new("test.ping@1")
}

fn pong_as_ping() -> EventKey<Pong> {
    EventKey::new("test.ping@1")
}

type Callback = Rc<dyn Fn(&mut Host) -> Result<(), String>>;
type Disposer = Rc<dyn Fn(&mut Host) -> Result<(), CoreError>>;
type Apply = Rc<dyn Fn(&mut Host, &Context) -> Result<(), CoreError>>;
type Injected = Rc<dyn Fn(&mut Host, &Services, &EffectContext) -> Result<(), CoreError>>;

#[derive(Clone)]
struct TestPlugin {
    key: &'static str,
    dependencies: Vec<ServiceId>,
    apply: Apply,
}

fn plugin(
    key: &'static str,
    dependencies: Vec<ServiceId>,
    apply: impl Fn(&mut Host, &Context) -> Result<(), CoreError> + 'static,
) -> TestPlugin {
    TestPlugin { key, dependencies, apply: Rc::new(apply) }
}

/// A host that does everything on the caller's thread. Handles in `gated` block whoever
/// waits for them.
struct Host {
    runtime: Runtime,
    next: u64,
    numbers: Vec<usize>,
    callbacks: HashMap<u64, Callback>,
    disposers: HashMap<u64, Disposer>,
    tasks: HashMap<u64, Callback>,
    plugins: HashMap<u64, TestPlugin>,
    mounts: HashMap<u64, Context>,
    injected: HashMap<u64, (Context, Injected)>,
    gated: HashSet<u64>,
    coordinators: Vec<(Coordinator, Option<CoordinatorAction>)>,
    releases: Vec<(u64, u64)>,
    aborted: Vec<u64>,
    recomputing: bool,
}

impl Host {
    fn new() -> Host {
        Host::with_identity(1)
    }

    fn with_identity(identity: u64) -> Host {
        Host {
            runtime: Runtime::new(identity, true).unwrap(),
            next: 1,
            numbers: Vec::new(),
            callbacks: HashMap::new(),
            disposers: HashMap::new(),
            tasks: HashMap::new(),
            plugins: HashMap::new(),
            mounts: HashMap::new(),
            injected: HashMap::new(),
            gated: HashSet::new(),
            coordinators: Vec::new(),
            releases: Vec::new(),
            aborted: Vec::new(),
            recomputing: false,
        }
    }

    fn root(&self) -> Context {
        self.runtime.root()
    }

    fn handle(&mut self) -> u64 {
        self.next += 1;
        self.next
    }

    fn number(&mut self, value: usize) -> u64 {
        self.numbers.push(value);
        (self.numbers.len() - 1) as u64
    }

    fn provide(
        &mut self,
        ctx: &Context,
        key: ServiceKey<Number>,
        value: usize,
    ) -> Result<(), CoreError> {
        let object = self.number(value);
        ctx.provide(&mut self.runtime, key, object)
    }

    fn get(&self, ctx: &Context, key: ServiceKey<Number>) -> Result<usize, CoreError> {
        ctx.get(&self.runtime, key).map(|object| self.numbers[object as usize])
    }

    fn effect(&mut self, ctx: &Context) -> EffectContext {
        ctx.effect(&mut self.runtime).unwrap()
    }

    fn named(&mut self, ctx: &Context, name: &str) -> EffectContext {
        ctx.effect_named(&mut self.runtime, name.to_string()).unwrap()
    }

    fn on_dispose(
        &mut self,
        effect: &EffectContext,
        callback: impl Fn(&mut Host) -> Result<(), String> + 'static,
    ) {
        let handle = self.handle();
        if effect.on_dispose(&mut self.runtime, handle) {
            self.callbacks.insert(handle, Rc::new(callback));
        } else {
            callback(self).unwrap();
        }
    }

    fn on_dispose_async(
        &mut self,
        effect: &EffectContext,
        disposer: impl Fn(&mut Host) -> Result<(), CoreError> + 'static,
    ) -> Result<u64, CoreError> {
        let handle = self.handle();
        effect.on_dispose_async(&mut self.runtime, handle)?;
        self.disposers.insert(handle, Rc::new(disposer));
        Ok(handle)
    }

    /// A task that runs until it is cancelled and then runs `at_end`.
    fn spawn(
        &mut self,
        effect: &EffectContext,
        at_end: impl Fn(&mut Host) -> Result<(), String> + 'static,
    ) -> Result<u64, CoreError> {
        let handle = self.handle();
        effect.spawn(&mut self.runtime, handle)?;
        self.tasks.insert(handle, Rc::new(at_end));
        Ok(handle)
    }

    fn inject(
        &mut self,
        ctx: &Context,
        dependencies: Vec<ServiceId>,
        callback: impl Fn(&mut Host, &Services, &EffectContext) -> Result<(), CoreError> + 'static,
    ) -> Result<InjectionHandle, CoreError> {
        let handle = self.handle();
        let injection = ctx.inject(&mut self.runtime, dependencies, handle)?;
        self.injected.insert(handle, (ctx.clone(), Rc::new(callback)));
        Ok(injection)
    }

    // The release of scopes.

    fn run_disposal(&mut self, mut disposal: Disposal) {
        loop {
            match disposal.step(&mut self.runtime.scopes) {
                DisposeStep::Entered(_) | DisposeStep::Skipped(_) => {}
                DisposeStep::Run { cleanup, .. } => match self.runtime.run_cleanup(cleanup) {
                    CleanupTask::Nothing => {}
                    CleanupTask::DisposeScope(scope) => {
                        self.dispose_scope(scope, DisposePolicy::HoistToParent)
                    }
                    CleanupTask::ReleaseFiber { fiber, release } => self.release(fiber, release),
                    CleanupTask::RunCallback(handle) => {
                        let callback = self.callbacks.remove(&handle).unwrap();
                        if let Err(message) = callback(self) {
                            disposal.cleanup_failed(message);
                        }
                    }
                },
                DisposeStep::Coordinate(coordinator) => self.coordinators.push((coordinator, None)),
                DisposeStep::Abort { tasks, .. } => self.aborted.extend(tasks),
                DisposeStep::Done => break,
            }
        }
        self.pump();
    }

    fn dispose_scope(&mut self, scope: u64, policy: DisposePolicy) {
        let disposal = Disposal::start(&mut self.runtime.scopes, scope, policy);
        self.run_disposal(disposal);
    }

    fn dispose(&mut self, effect: &EffectContext) {
        let disposal = effect.dispose(&mut self.runtime);
        self.run_disposal(disposal);
    }

    /// Disposes and waits; nothing while a gate holds the release up.
    fn dispose_wait(&mut self, effect: &EffectContext) -> Option<Result<(), CoreError>> {
        let disposal = effect.dispose_wait(&mut self.runtime);
        self.run_disposal(disposal);
        self.outcome(effect)
    }

    fn outcome(&self, effect: &EffectContext) -> Option<Result<(), CoreError>> {
        self.runtime.scopes.outcome(effect.as_context().scope())
    }

    fn open(&mut self, gate: u64) {
        self.gated.remove(&gate);
        self.pump();
    }

    /// Carries all releases on as far as no gate holds them up.
    fn pump(&mut self) {
        let mut progress = true;
        while progress {
            progress = false;
            let mut waiting = Vec::new();
            for (mut coordinator, stored) in std::mem::take(&mut self.coordinators) {
                let mut action = stored;
                loop {
                    let current = match action.take() {
                        Some(current) => current,
                        None => coordinator.next(),
                    };
                    match current {
                        CoordinatorAction::AwaitChild(child) => {
                            if self.runtime.scopes.is_releasing(child) {
                                waiting.push((coordinator, Some(current)));
                                break;
                            }
                            if let Some(Err(CoreError::DisposeFailed { errors })) =
                                self.runtime.scopes.outcome(child)
                            {
                                coordinator.child_failed(errors);
                            }
                        }
                        CoordinatorAction::RunDisposer(handle) => {
                            if self.gated.contains(&handle) {
                                waiting.push((coordinator, Some(current)));
                                break;
                            }
                            let disposer = self.disposers.remove(&handle).unwrap();
                            if let Err(error) = disposer(self) {
                                coordinator.disposer_failed(error.message());
                            }
                        }
                        CoordinatorAction::AwaitTask(handle) => {
                            if self.gated.contains(&handle) {
                                waiting.push((coordinator, Some(current)));
                                break;
                            }
                            let task = self.tasks.remove(&handle).unwrap();
                            if let Err(message) = task(self) {
                                coordinator.task_join_failed(&message);
                            }
                        }
                        CoordinatorAction::Finish(errors) => {
                            self.runtime.scopes.finish(coordinator.scope(), errors);
                            progress = true;
                            break;
                        }
                    }
                }
            }
            waiting.extend(std::mem::take(&mut self.coordinators));
            self.coordinators = waiting;
            for (fiber, scope) in std::mem::take(&mut self.releases) {
                if self.runtime.scopes.is_releasing(scope) {
                    self.releases.push((fiber, scope));
                } else {
                    let errors = self.errors_of(scope);
                    let _ = self.runtime.registry.finalize_terminal_release(fiber, scope, errors);
                    progress = true;
                }
            }
        }
    }

    fn errors_of(&self, scope: u64) -> Vec<String> {
        match self.runtime.scopes.outcome(scope) {
            Some(Err(CoreError::DisposeFailed { errors })) => errors,
            _ => Vec::new(),
        }
    }

    // Plugins.

    fn release(&mut self, fiber: u64, release: TerminalRelease) {
        match release {
            TerminalRelease::Run(scope) => {
                self.releases.push((fiber, scope));
                self.dispose_scope(scope, DisposePolicy::HoistToParent);
                self.runtime.registry.mark_release_started(fiber, scope);
            }
            TerminalRelease::Join(scope) => self.releases.push((fiber, scope)),
            TerminalRelease::Vacant | TerminalRelease::Observe => {}
        }
        self.pump();
    }

    fn dispose_fiber(&mut self, fiber: &Fiber) {
        let release = fiber.dispose(&mut self.runtime);
        self.release(fiber.id(), release);
    }

    fn dispose_fiber_wait(&mut self, fiber: &Fiber) -> Option<Result<(), CoreError>> {
        let release = fiber.dispose_wait(&mut self.runtime);
        self.release(fiber.id(), release);
        match self.runtime.registry.observe_dispose_result(fiber.id()) {
            ObservedDispose::Known(result) => Some(result),
            ObservedDispose::Wait(_) => None,
        }
    }

    fn unload(&mut self, id: u64) -> Result<(), CoreError> {
        match self.runtime.registry.begin_unload(id) {
            UnloadStart::Over(result) => result,
            UnloadStart::Release(scope) => {
                self.dispose_scope(scope, DisposePolicy::AwaitLocal);
                let errors = self.errors_of(scope);
                self.runtime.registry.finish_unload(id, scope, errors)
            }
            UnloadStart::ReleaseOnly(scope) => {
                self.dispose_scope(scope, DisposePolicy::AwaitLocal);
                Err(CoreError::FiberDisposed)
            }
        }
    }

    fn activate(&mut self, id: u64, initial_mount: bool) -> Result<(), CoreError> {
        match self.runtime.registry.begin_activation(&mut self.runtime.scopes, id, initial_mount) {
            ActivationStart::Refused(error) => Err(error),
            ActivationStart::Revoked(scope) => {
                if let Some(scope) = scope {
                    self.dispose_scope(scope, DisposePolicy::HoistToParent);
                }
                Err(CoreError::FiberDisposed)
            }
            ActivationStart::Idle => Ok(()),
            ActivationStart::Apply { scope, plugin, providers } => {
                let applied = self.plugins[&plugin].clone();
                let ctx = self.mounts[&id].with_scope_and_log_source(
                    scope,
                    id,
                    PluginKey::new(applied.key),
                );
                let outcome = (applied.apply)(self, &ctx).map_err(|error| error.message());
                self.end_activation(id, initial_mount, scope, providers, outcome)
            }
        }
    }

    fn end_activation(
        &mut self,
        id: u64,
        initial_mount: bool,
        scope: u64,
        providers: Vec<ProviderRevision>,
        outcome: Result<(), String>,
    ) -> Result<(), CoreError> {
        let end = self.runtime.registry.finish_activation(
            &self.runtime.scopes,
            id,
            initial_mount,
            scope,
            providers,
            outcome,
        );
        for scope in end.dispose.into_iter().chain(end.withdrawn) {
            self.dispose_scope(scope, DisposePolicy::HoistToParent);
        }
        end.result
    }

    fn run_op(
        &mut self,
        id: u64,
        op: LifecycleOp,
        replacement: Option<u64>,
    ) -> Result<(), CoreError> {
        let mut stage = op.first_stage();
        let mut result = Ok(());
        loop {
            result = match stage {
                LifecycleStage::Unload => self.unload(id),
                LifecycleStage::Install => {
                    let handle = replacement.unwrap();
                    let dependencies = self.plugins[&handle].dependencies.clone();
                    self.runtime.registry.install_replacement(id, handle, dependencies)
                }
                LifecycleStage::Activate { initial_mount } => self.activate(id, initial_mount),
                LifecycleStage::Done => break,
            };
            stage = op.next_stage(stage, result.is_ok());
        }
        if let LifecycleOp::Activate { initial_mount: true } = op {
            self.runtime.registry.offer_handle(id);
        }
        self.close_op(id);
        result
    }

    fn close_op(&mut self, id: u64) {
        if let Some(scope) = self.runtime.registry.finish_lifecycle(id) {
            self.dispose_scope(scope, DisposePolicy::HoistToParent);
        }
    }

    fn mount(&mut self, ctx: &Context, plugin: TestPlugin) -> Result<Fiber, CoreError> {
        let handle = self.handle();
        let key = PluginKey::new(plugin.key);
        let dependencies = plugin.dependencies.clone();
        self.plugins.insert(handle, plugin);
        let fiber = ctx.plugin(&mut self.runtime, key, handle, dependencies)?;
        self.mounts.insert(fiber.id(), ctx.clone());
        self.runtime.registry.start_lifecycle(fiber.id()).unwrap();
        let first = LifecycleOp::Activate { initial_mount: true };
        let _ = self.run_op(fiber.id(), first, None);
        assert!(self.runtime.registry.claim_handle(fiber.id()));
        Ok(fiber)
    }

    fn restart(&mut self, fiber: &Fiber) -> Result<(), CoreError> {
        fiber.restart(&mut self.runtime)?;
        self.run_op(fiber.id(), LifecycleOp::Restart, None)
    }

    fn replace(&mut self, fiber: &Fiber, plugin: TestPlugin) -> Result<(), CoreError> {
        let handle = self.handle();
        let key = PluginKey::new(plugin.key);
        self.plugins.insert(handle, plugin);
        fiber.replace(&mut self.runtime, key)?;
        self.run_op(fiber.id(), LifecycleOp::Replace, Some(handle))
    }

    fn unmount(&mut self, key: &'static str) -> Result<usize, CoreError> {
        let (fibers, token) = self.runtime.unmount(PluginKey::new(key))?;
        let mut tally = UnmountTally::new(fibers.len());
        for id in fibers {
            let result = self.dispose_fiber_wait(&Fiber::from_id(id)).unwrap();
            tally.released(result);
        }
        self.runtime.registry.finish_plugin_unmount(PluginKey::new(key), token);
        tally.finish()
    }

    // The scheduler.

    fn run_injection(&mut self, id: u64) {
        let snapshot = match self.runtime.registry.snapshot_injection(id) {
            Some(snapshot) => snapshot,
            None => return,
        };
        let child = self.runtime.scopes.child(snapshot.parent);
        let (ctx, callback) = self.injected[&snapshot.callback].clone();
        let effect = EffectContext::from_context(ctx.with_scope(child));
        let outcome = callback(self, &snapshot.services, &effect).map_err(|error| error.message());
        if self.runtime.registry.finish_injection(
            &self.runtime.scopes,
            id,
            child,
            snapshot.providers,
            outcome,
        ) {
            self.dispose_scope(child, DisposePolicy::HoistToParent);
        }
    }

    fn run_started(&mut self, id: u64, op: LifecycleOp) {
        if self.runtime.registry.start_lifecycle(id).is_ok() {
            let _ = self.run_op(id, op, None);
        }
    }

    fn settle(&mut self) {
        match self.runtime.registry.settle_step(self.recomputing) {
            SettleStep::Return => return,
            SettleStep::Recompute | SettleStep::Wait => {}
        }
        if !self.runtime.registry.begin_recompute() {
            return;
        }
        self.recomputing = true;
        loop {
            let mut batch = self.runtime.registry.take_batch(&self.runtime.scopes);
            if batch.is_empty() {
                match self.runtime.registry.close_round(batch.epoch) {
                    RoundEnd::Continue => continue,
                    RoundEnd::Quiescent => break,
                }
            }
            loop {
                match batch.next() {
                    BatchStep::Dispose(scope) => {
                        self.dispose_scope(scope, DisposePolicy::HoistToParent)
                    }
                    BatchStep::Unload(id) => self.run_started(id, LifecycleOp::Unload),
                    BatchStep::Inject(id) => self.run_injection(id),
                    BatchStep::Activate(id) => {
                        self.run_started(id, LifecycleOp::Activate { initial_mount: false })
                    }
                    BatchStep::End => break,
                }
            }
        }
        self.recomputing = false;
    }

    fn shutdown(&mut self) -> Option<Result<(), CoreError>> {
        if self.runtime.shutdown(false).unwrap() == ShutdownRole::Run {
            let scope = self.root().scope();
            self.dispose_scope(scope, DisposePolicy::AwaitLocal);
        }
        self.end_shutdown()
    }

    fn end_shutdown(&mut self) -> Option<Result<(), CoreError>> {
        let scope = self.root().scope();
        if self.runtime.shutdown_result().is_none() && !self.runtime.scopes.is_releasing(scope) {
            let errors = self.errors_of(scope);
            self.settle();
            self.runtime.finish_shutdown(errors);
        }
        self.runtime.shutdown_result()
    }
}

fn contains(result: &Result<(), CoreError>, text: &str) -> usize {
    match result {
        Err(CoreError::DisposeFailed { errors }) => {
            errors.iter().filter(|error| error.contains(text)).count()
        }
        other => panic!("unexpected: {other:?}"),
    }
}

fn assert_unavailable(host: &Host, ctx: &Context) {
    match host.get(ctx, number()) {
        Err(CoreError::ServiceUnavailable { service }) => {
            assert_eq!(service.as_str(), number().id().as_str());
        }
        other => panic!("unexpected: {other:?}"),
    }
}

#[derive(Debug, Clone, PartialEq, Eq)]
struct Theme(&'static str);

#[test]
fn context_effect_owned_extended_context_overrides_then_disposal_falls_back_to_parent() {
    let mut host = Host::new();
    let root = host.root();
    host.provide(&root, number(), 1).unwrap();
    let owner = host.effect(&root);
    let child = owner.extend(&mut host.runtime).unwrap();
    host.provide(&child, number(), 2).unwrap();
    assert_eq!(host.get(&child, number()).unwrap(), 2);
    host.dispose(&owner);
    assert_eq!(host.get(&root, number()).unwrap(), 1);
}

#[test]
fn context_disposed_context_fail_fast() {
    let mut host = Host::new();
    let root = host.root();
    let owner = host.effect(&root);
    let child = owner.extend(&mut host.runtime).unwrap();
    host.dispose(&owner);
    assert!(matches!(host.provide(&child, number(), 1), Err(CoreError::ContextDisposed)));
    assert!(matches!(host.get(&child, number()), Err(CoreError::ContextDisposed)));
    assert!(child.is_disposed(&host.runtime));
    let theme: ConfigKey<Theme> = ConfigKey::new("test.theme@1");
    assert!(matches!(child.extend(&mut host.runtime), Err(CoreError::ContextDisposed)));
    assert!(matches!(child.isolate(&mut host.runtime, number()), Err(CoreError::ContextDisposed)));
    assert!(matches!(child.intercept(&mut host.runtime, theme, 0), Err(CoreError::ContextDisposed)));
    assert!(matches!(child.config(&host.runtime, theme), Err(CoreError::ContextDisposed)));
    assert!(matches!(child.effect(&mut host.runtime), Err(CoreError::ContextDisposed)));
}

#[test]
fn context_cross_context_isolation() {
    let mut host = Host::new();
    let root = host.root();
    let left = root.extend(&mut host.runtime).unwrap();
    let right = root.extend(&mut host.runtime).unwrap();
    host.provide(&left, number(), 1).unwrap();
    assert_unavailable(&host, &right);
    assert_eq!(host.get(&left, number()).unwrap(), 1);
}

#[test]
fn effect_dispose_removes_resources_registered_from_extended_view() {
    let mut host = Host::new();
    let root = host.root();
    let owner = host.effect(&root);
    let child = owner.extend(&mut host.runtime).unwrap();
    host.provide(&child, number(), 1).unwrap();
    child.on(&mut host.runtime, ping(), 1).unwrap();
    assert!(!host.runtime.diagnostics().providers.is_empty());
    host.dispose(&owner);
    assert!(host.runtime.diagnostics().providers.is_empty());
    root.emit(&mut host.runtime, ping()).unwrap();
}

#[test]
fn context_isolate_derives_view_without_mutating_parent_or_siblings() {
    let mut host = Host::new();
    let root = host.root();
    host.provide(&root, number(), 1).unwrap();
    let sibling = root.extend(&mut host.runtime).unwrap();
    let (isolated, label) = root.isolate(&mut host.runtime, number()).unwrap();
    assert_eq!(host.get(&root, number()).unwrap(), 1);
    assert_eq!(host.get(&sibling, number()).unwrap(), 1);
    assert_unavailable(&host, &isolated);
    let owner = host.effect(&isolated);
    host.provide(owner.as_context(), number(), 2).unwrap();
    let nested = isolated.extend(&mut host.runtime).unwrap();
    let shared = root.isolate_with(&mut host.runtime, number(), label).unwrap();
    assert_eq!(host.get(&isolated, number()).unwrap(), 2);
    assert_eq!(host.get(&nested, number()).unwrap(), 2);
    assert_eq!(host.get(&shared, number()).unwrap(), 2);
    assert_eq!(host.get(&root, number()).unwrap(), 1);
    assert_eq!(host.get(&sibling, number()).unwrap(), 1);
    host.dispose(&owner);
    assert_unavailable(&host, &isolated);
    assert_eq!(host.get(&root, number()).unwrap(), 1);
}

#[test]
fn context_isolation_label_shares_service_across_sibling_contexts() {
    let mut host = Host::new();
    let root = host.root();
    let base = root.extend(&mut host.runtime).unwrap();
    let (room, label) = base.isolate(&mut host.runtime, number()).unwrap();
    host.provide(&room, number(), 11).unwrap();
    let a = root.isolate_with(&mut host.runtime, number(), label).unwrap();
    assert_eq!(host.get(&a, number()).unwrap(), 11);
    let b = root.isolate_with(&mut host.runtime, number(), label).unwrap();
    assert_eq!(host.get(&b, number()).unwrap(), 11);
    let plain = root.extend(&mut host.runtime).unwrap();
    assert_unavailable(&host, &plain);
    let mut other = Host::with_identity(2);
    let (_, foreign) = other.root().isolate(&mut other.runtime, number()).unwrap();
    assert_eq!(foreign.id(), label.id());
    assert!(matches!(
        room.isolate_with(&mut host.runtime, number(), foreign),
        Err(CoreError::IsolationRuntimeMismatch)
    ));
}

#[test]
fn context_intercept_overrides_config_without_mutating_parent() {
    let themes = [Theme("dark"), Theme("oled")];
    let key: ConfigKey<Theme> = ConfigKey::new("test.theme@1");
    let mut host = Host::new();
    let root = host.root();
    assert!(matches!(
        root.config(&host.runtime, key),
        Err(CoreError::ConfigUnavailable { .. })
    ));
    let child = root.intercept(&mut host.runtime, key, 0).unwrap();
    assert_eq!(themes[child.config(&host.runtime, key).unwrap() as usize].0, "dark");
    assert!(matches!(
        root.config(&host.runtime, key),
        Err(CoreError::ConfigUnavailable { .. })
    ));
    let nested = child.intercept(&mut host.runtime, key, 1).unwrap();
    assert_eq!(themes[nested.config(&host.runtime, key).unwrap() as usize].0, "oled");
    assert_eq!(themes[child.config(&host.runtime, key).unwrap() as usize].0, "dark");
    assert!(!format!("{:?}", host.runtime.diagnostics()).contains("oled"));
}

#[test]
fn intercept_shares_service_domain_with_parent_and_siblings() {
    let themes = [Theme("dark"), Theme("light")];
    let key: ConfigKey<Theme> = ConfigKey::new("test.theme-share@1");
    let mut host = Host::new();
    let root = host.root();
    let a = root.intercept(&mut host.runtime, key, 0).unwrap();
    let b = root.intercept(&mut host.runtime, key, 1).unwrap();
    let owner = host.effect(&a);
    host.provide(owner.as_context(), number(), 42).unwrap();
    assert_eq!(host.get(&root, number()).unwrap(), 42);
    assert_eq!(host.get(&b, number()).unwrap(), 42);
    assert_eq!(themes[a.config(&host.runtime, key).unwrap() as usize].0, "dark");
    assert_eq!(themes[b.config(&host.runtime, key).unwrap() as usize].0, "light");
    host.dispose(&owner);
    assert_unavailable(&host, &root);
    assert_unavailable(&host, &b);
}

#[test]
fn extend_and_isolate_still_isolate_services() {
    let mut host = Host::new();
    let root = host.root();
    let extended = root.extend(&mut host.runtime).unwrap();
    let owner = host.effect(&extended);
    host.provide(owner.as_context(), number(), 2).unwrap();
    assert_eq!(host.get(&extended, number()).unwrap(), 2);
    assert_unavailable(&host, &root);
    host.provide(&root, number(), 1).unwrap();
    let sibling = root.extend(&mut host.runtime).unwrap();
    assert_eq!(host.get(&sibling, number()).unwrap(), 1);
    let (isolated, _) = root.isolate(&mut host.runtime, number()).unwrap();
    assert_unavailable(&host, &isolated);
}

#[test]
fn context_intercept_type_conflict_and_plugin_can_read_config() {
    #[derive(Debug)]
    struct Flag(bool);
    #[derive(Debug)]
    struct OtherFlag;
    let flags = [Flag(true)];
    let flag: ConfigKey<Flag> = ConfigKey::new("test.flag@1");
    let as_other: ConfigKey<OtherFlag> = ConfigKey::new("test.flag@1");
    let mut host = Host::new();
    let root = host.root();
    let scoped = root.intercept(&mut host.runtime, flag, 0).unwrap();
    for _ in 0..4 {
        assert!(matches!(
            root.intercept(&mut host.runtime, as_other, 0),
            Err(CoreError::ConfigKeyTypeConflict { .. })
        ));
    }
    assert!(matches!(
        scoped.config(&host.runtime, as_other),
        Err(CoreError::ConfigTypeMismatch { .. })
    ));
    let reader = plugin("test.configreader", vec![], move |host, ctx| {
        let found = ctx.config(&host.runtime, flag)?;
        assert!(flags[found as usize].0);
        Ok(())
    });
    let fiber = host.mount(&scoped, reader).unwrap();
    assert_eq!(fiber.state(&host.runtime), FiberState::Active);
    host.dispose_fiber(&fiber);
}

#[test]
fn discarded_root_views_do_not_create_runtime_resources() {
    #[derive(Debug)]
    struct Flag;
    let flag: ConfigKey<Flag> = ConfigKey::new("test.discarded-view@1");
    let mut host = Host::new();
    let root = host.root();
    let before = host.runtime.diagnostics();
    for _ in 0..1_000 {
        let view = root.extend(&mut host.runtime).unwrap();
        let (view, label) = view.isolate(&mut host.runtime, number()).unwrap();
        view.isolate_with(&mut host.runtime, number(), label).unwrap();
        root.intercept(&mut host.runtime, flag, 0).unwrap();
    }
    let after = host.runtime.diagnostics();
    assert_eq!(after.providers.len(), before.providers.len());
    assert_eq!(after.effects.len(), before.effects.len());
    assert_eq!(after.plugin_fibers.len(), before.plugin_fibers.len());
    assert_eq!(after.inject_fibers.len(), before.inject_fibers.len());
}

#[test]
fn child_context_has_a_scope_and_a_domain_of_its_own() {
    let mut host = Host::new();
    let root = host.root();
    let child = root.child(&mut host.runtime).unwrap();
    assert_ne!(child.scope(), root.scope());
    assert_eq!(root.child_scope_count(&host.runtime), 1);
    host.provide(&child, number(), 5).unwrap();
    assert_unavailable(&host, &root);
    let disposal = child.dispose(&mut host.runtime);
    host.run_disposal(disposal);
    assert!(child.is_disposed(&host.runtime));
    assert!(!root.is_disposed(&host.runtime));
    assert_eq!(root.child_scope_count(&host.runtime), 0);
}

#[test]
fn isolation_keeps_its_label_through_further_views() {
    let mut host = Host::new();
    let root = host.root();
    let (outer, first) = root.isolate(&mut host.runtime, number()).unwrap();
    let (inner, second) = outer.isolate(&mut host.runtime, number()).unwrap();
    assert_ne!(first.id(), second.id());
    host.provide(&outer, number(), 1).unwrap();
    host.provide(&inner, number(), 2).unwrap();
    assert_eq!(host.get(&outer, number()).unwrap(), 1);
    assert_eq!(host.get(&inner, number()).unwrap(), 2);
    host.provide(&inner, derived(), 3).unwrap();
    assert_eq!(host.get(&root, derived()).unwrap(), 3);
    let shown = host.runtime.diagnostics();
    let labels: Vec<_> = shown.isolations.iter().map(|item| item.id).collect();
    assert_eq!(labels, vec![first.id(), second.id()]);
}

#[test]
fn copies_of_a_context_are_the_same_context() {
    let mut host = Host::new();
    let root = host.root();
    let copy = root.clone();
    host.provide(&copy, number(), 4).unwrap();
    assert_eq!(host.get(&root, number()).unwrap(), 4);
    assert!(matches!(host.provide(&root, number(), 5), Err(CoreError::ServiceConflict { .. })));
}

#[test]
fn extended_views_find_what_their_context_finds_until_they_provide() {
    let mut host = Host::new();
    let root = host.root();
    let effect = host.effect(&root);
    let base = effect.as_context().clone();
    let view = base.extend(&mut host.runtime).unwrap();
    let other = base.extend(&mut host.runtime).unwrap();
    assert_unavailable(&host, &view);
    host.provide(&base, number(), 1).unwrap();
    assert_eq!(host.get(&view, number()).unwrap(), 1);
    assert_eq!(host.get(&other, number()).unwrap(), 1);
    host.provide(&view, number(), 2).unwrap();
    assert_eq!(host.get(&view, number()).unwrap(), 2);
    assert_eq!(host.get(&base, number()).unwrap(), 1);
    assert_eq!(host.get(&other, number()).unwrap(), 1);
    host.dispose(&effect);
    for gone in [&view, &other, &base] {
        assert!(matches!(host.get(gone, number()), Err(CoreError::ContextDisposed)));
        assert!(matches!(host.provide(gone, number(), 3), Err(CoreError::ContextDisposed)));
    }
}
