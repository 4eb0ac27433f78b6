//! A runtime: registry, scopes and log, and the rules of starting and ending it.

use crate::context::Context;
use crate::diagnostics::RuntimeSnapshot;
use crate::effect;
use crate::effect::completion::DisposeCompletion;
use crate::effect::{Cleanup, EffectTree, ScopeModel};
use crate::error::CoreError;
use crate::fiber::FiberModel;
use crate::logger::{LoggerModel, LoggerService};
use crate::plugin::PluginKey;
use crate::registry::lifecycle::TerminalRelease;
use crate::registry::{Registry, RegistryModel};
use crate::text;
use crate::view;
use crate::view::{copy_layers, Layer};
use vstd::prelude::*;

verus! {

/// The state of one runtime. The host keeps payloads, callbacks and tasks and runs them.
pub struct Runtime {
    pub registry: Registry,
    pub scopes: EffectTree,
    pub logger: LoggerService,
    pub root_layers: Vec<Layer>,
    pub root_scope: u64,
    /// The shutdown, once one was begun.
    pub closing: Option<DisposeCompletion>,
}

/// What a [`Runtime`] holds.
#[verifier::ext_equal]
pub struct RuntimeModel {
    pub registry: RegistryModel,
    pub scopes: Map<u64, ScopeModel>,
    pub next_scope: u64,
    pub logger: LoggerModel,
    pub root_layers: Seq<Layer>,
    pub root_scope: u64,
    /// `None` before a shutdown, `Some(None)` while it runs, then its errors.
    pub closing: Option<Option<Seq<Seq<char>>>>,
}

impl View for Runtime {
    type V = RuntimeModel;

    open spec fn view(&self) -> RuntimeModel {
        RuntimeModel {
            registry: self.registry@,
            scopes: self.scopes@,
            next_scope: self.scopes.next_id(),
            logger: self.logger@,
            root_layers: self.root_layers@,
            root_scope: self.root_scope,
            closing: match self.closing {
                Some(completion) => Some(completion@),
                None => None,
            },
        }
    }
}

impl RuntimeModel {
    /// No counter of the runtime is used up.
    pub open spec fn has_room(self) -> bool {
        &&& self.registry.next_id < u64::MAX
        &&& self.registry.next_label < u64::MAX
        &&& self.next_scope < u64::MAX
        &&& self.logger.next_exporter < u64::MAX
    }

    /// The scope is disposed or unknown.
    pub open spec fn gone(self, scope: u64) -> bool {
        effect::scope_disposed(self.scopes, scope)
    }

    /// A runtime that was just created.
    pub open spec fn initial(identity: u64) -> RuntimeModel {
        RuntimeModel {
            registry: RegistryModel {
                next_id: 2,
                started: true,
                ..RegistryModel::initial(identity)
            },
            scopes: Map::<u64, ScopeModel>::empty().insert(
                1,
                ScopeModel::fresh("root"@, None, Seq::empty()),
            ),
            next_scope: 2,
            logger: LoggerModel {
                identity,
                next_seq: 1,
                next_exporter: 1,
                buffer: Seq::empty(),
                exporters: Seq::empty(),
            },
            root_layers: view::extended(Seq::empty(), 1),
            root_scope: 1,
            closing: None,
        }
    }
}

/// What the host does for a clean-up after the library did its part.
#[derive(Clone, Copy, Debug, PartialEq, Eq, Structural)]
pub enum CleanupTask {
    /// Nothing.
    Nothing,
    /// Dispose this scope.
    DisposeScope(u64),
    /// Carry on the release of this fiber.
    ReleaseFiber { fiber: u64, release: TerminalRelease },
    /// Run the callback that is kept under this handle.
    RunCallback(u64),
}

/// The role of a caller of a shutdown.
#[derive(Clone, Copy, Debug, PartialEq, Eq, Structural)]
pub enum ShutdownRole {
    /// Dispose the root scope and wait, settle, and finish the shutdown.
    Run,
    /// Another caller runs the shutdown or ran it; wait for its result.
    Join,
}

impl Runtime {
    pub open spec fn wf(&self) -> bool {
        &&& self.registry.wf()
        &&& self.scopes.wf()
        &&& self.logger.wf()
        &&& view::view_ok(self.root_layers@, self.registry@.next_id)
    }

    /// Creates the runtime with this identity; the host needs an executor for the
    /// scheduler.
    pub fn new(identity: u64, executor_available: bool) -> (r: Result<Runtime, CoreError>)
        ensures
            match r {
                Ok(runtime) => {
                    &&& executor_available
                    &&& runtime.wf()
                    &&& runtime@ == RuntimeModel::initial(identity)
                },
                Err(error) => !executor_available && error == CoreError::SchedulerUnavailable,
            },
    {
        let mut registry = Registry::new(identity);
        match registry.start_scheduler(executor_available) {
            Err(error) => {
                return Err(error);
            },
            Ok(_) => {},
        }
        let root_layers = registry.root_view();
        let mut scopes = EffectTree::new();
        let root_scope = scopes.root();
        let runtime = Runtime {
            registry,
            scopes,
            logger: LoggerService::new(identity),
            root_layers,
            root_scope,
            closing: None,
        };
        assert(runtime@ =~= RuntimeModel::initial(identity));
        Ok(runtime)
    }

    /// There are identifiers of every sort left to give out.
    pub fn has_room(&self) -> (r: bool)
        ensures
            r == self@.has_room(),
    {
        self.registry.has_room() && self.scopes.has_room() && self.logger.has_room()
    }

    /// The outermost context.
    pub fn root(&self) -> (r: Context)
        requires
            self.wf(),
        ensures
            r.wf(),
            r.within(self@),
            r.layers_spec() == self@.root_layers,
            r.scope_spec() == self@.root_scope,
            r.source_spec() is None,
    {
        Context::new(copy_layers(&self.root_layers), self.root_scope, None)
    }

    /// The log of the runtime.
    pub fn logger_service(&self) -> (r: &LoggerService)
        ensures
            r@ == self@.logger,
            *r == self.logger,
    {
        &self.logger
    }

    pub fn scheduler_stopped(&self) -> (r: bool)
        ensures
            r == self@.registry.stopped,
    {
        self.registry.scheduler_stopped()
    }

    /// A snapshot of the runtime: see [`Registry::diagnostics`].
    pub fn diagnostics(&self) -> (r: RuntimeSnapshot)
        requires
            self.wf(),
        ensures
            self.registry.shown_by(self@.scopes, r),
    {
        self.registry.diagnostics(&self.scopes)
    }

    /// Disposes a fiber as far as that needs no waiting and says what is left to do.
    pub fn dispose_fiber(&mut self, id: u64) -> (r: TerminalRelease)
        requires
            old(self).wf(),
        ensures
            final(self).wf(),
            (r, final(self)@.registry) == old(self)@.registry.dispose_now(id),
            final(self)@ == (RuntimeModel { registry: final(self)@.registry, ..old(self)@ }),
    {
        if self.registry.fiber_state(id).is_none() {
            return TerminalRelease::Observe;
        }
        let release = self.registry.begin_terminal_release(id, true);
        if release == TerminalRelease::Vacant {
            self.registry.complete_vacant_dispose(id);
        }
        release
    }

    /// Does the library's part of a clean-up.
    pub fn run_cleanup(&mut self, cleanup: Cleanup) -> (r: CleanupTask)
        requires
            old(self).wf(),
        ensures
            final(self).wf(),
            final(self)@ == old(self)@.cleaned(cleanup),
            r == old(self)@.registry.cleanup_task(cleanup),
    {
        match cleanup {
            Cleanup::Provider(id) => {
                self.registry.remove_provider(id);
                CleanupTask::Nothing
            },
            Cleanup::Listener(id) => {
                self.registry.unsubscribe_event(id);
                CleanupTask::Nothing
            },
            Cleanup::Injection(id) => match self.registry.remove_injection(id) {
                Some(scope) => CleanupTask::DisposeScope(scope),
                None => CleanupTask::Nothing,
            },
            Cleanup::Effect(id) => {
                self.registry.remove_effect(id);
                CleanupTask::Nothing
            },
            Cleanup::Fiber(id) => {
                let release = self.dispose_fiber(id);
                CleanupTask::ReleaseFiber { fiber: id, release }
            },
            Cleanup::Exporter(id) => {
                self.logger.unregister_exporter(id);
                CleanupTask::Nothing
            },
            Cleanup::Callback(handle) => CleanupTask::RunCallback(handle),
        }
    }

    /// Begins to unmount a plugin: see [`Registry::begin_plugin_unmount`].
    pub fn unmount(&mut self, key: PluginKey) -> (r: Result<(Vec<u64>, u64), CoreError>)
        requires
            old(self).wf(),
            old(self)@.registry.next_id < u64::MAX,
        ensures
            final(self).wf(),
            old(self)@.registry.unmount_begun(key, final(self)@.registry, r),
            final(self)@ == (RuntimeModel { registry: final(self)@.registry, ..old(self)@ }),
    {
        self.registry.begin_plugin_unmount(key)
    }

    /// Begins a shutdown. Only the host may ask for one; a callback of the runtime would
    /// wait for itself. The first caller runs it.
    pub fn shutdown(&mut self, in_callback: bool) -> (r: Result<ShutdownRole, CoreError>)
        requires
            old(self).wf(),
        ensures
            final(self).wf(),
            if in_callback {
                &&& r == Err::<ShutdownRole, CoreError>(CoreError::ShutdownReentrant)
                &&& final(self)@ == old(self)@
            } else if old(self)@.closing is Some {
                &&& r == Ok::<ShutdownRole, CoreError>(ShutdownRole::Join)
                &&& final(self)@ == old(self)@
            } else {
                &&& r == Ok::<ShutdownRole, CoreError>(ShutdownRole::Run)
                &&& final(self)@ == (RuntimeModel { closing: Some(None), ..old(self)@ })
            },
    {
        if in_callback {
            return Err(CoreError::ShutdownReentrant);
        }
        if self.closing.is_some() {
            return Ok(ShutdownRole::Join);
        }
        self.closing = Some(DisposeCompletion::new());
        Ok(ShutdownRole::Run)
    }

    /// Finishes a shutdown after the root scope was released with these errors: the
    /// scheduler stops and the first result stays.
    pub fn finish_shutdown(&mut self, errors: Vec<String>)
        requires
            old(self).wf(),
            old(self)@.closing is Some,
        ensures
            final(self).wf(),
            final(self)@ == (RuntimeModel {
                registry: RegistryModel { stopped: true, ..old(self)@.registry },
                closing: Some(
                    match old(self)@.closing->0 {
                        Some(first) => Some(first),
                        None => Some(text::texts(errors@)),
                    },
                ),
                ..old(self)@
            }),
    {
        self.registry.request_stop_scheduler();
        if let Some(completion) = &mut self.closing {
            completion.finish(errors);
        }
    }

    /// The result of the shutdown, once there is one; the same for every caller.
    pub fn shutdown_result(&self) -> (r: Option<Result<(), CoreError>>)
        ensures
            match r {
                Some(result) => self@.closing matches Some(Some(errors))
                    && effect::completion::release_result(errors, result),
                None => !(self@.closing matches Some(Some(_))),
            },
    {
        match &self.closing {
            Some(completion) => completion.outcome(),
            None => None,
        }
    }
}

impl RuntimeModel {
    /// The runtime after the library's part of a clean-up.
    pub open spec fn cleaned(self, cleanup: Cleanup) -> RuntimeModel {
        RuntimeModel {
            registry: self.registry.cleaned(cleanup),
            logger: match cleanup {
                Cleanup::Exporter(id) => self.logger.without_exporter(id),
                _ => self.logger,
            },
            ..self
        }
    }
}

impl RegistryModel {
    /// The registry after the library's part of a clean-up.
    pub open spec fn cleaned(self, cleanup: Cleanup) -> RegistryModel {
        match cleanup {
            Cleanup::Provider(id) => self.without_provider(id),
            Cleanup::Listener(id) => self.unsubscribed(id),
            Cleanup::Injection(id) => if self.injections.contains_key(id) {
                RegistryModel { injections: self.injections.remove(id), ..self }.marked()
            } else {
                self
            },
            Cleanup::Effect(id) => RegistryModel { effects: self.effects.remove(id), ..self },
            Cleanup::Fiber(id) => self.dispose_now(id).1,
            Cleanup::Exporter(_) => self,
            Cleanup::Callback(_) => self,
        }
    }

    /// What is left to the host of a clean-up.
    pub open spec fn cleanup_task(self, cleanup: Cleanup) -> CleanupTask {
        match cleanup {
            Cleanup::Injection(id) if self.injections.contains_key(id) => {
                match self.injections[id].child_scope {
                    Some(scope) => CleanupTask::DisposeScope(scope),
                    None => CleanupTask::Nothing,
                }
            },
            Cleanup::Fiber(id) => CleanupTask::ReleaseFiber {
                fiber: id,
                release: self.dispose_now(id).0,
            },
            Cleanup::Callback(handle) => CleanupTask::RunCallback(handle),
            _ => CleanupTask::Nothing,
        }
    }

    /// What an immediate disposal of fiber `id` gives: what is left to do, and the
    /// registry afterwards.
    pub open spec fn dispose_now(self, id: u64) -> (TerminalRelease, RegistryModel) {
        if !self.fibers.contains_key(id) {
            (TerminalRelease::Observe, self)
        } else {
            let release = self.fibers[id].terminal();
            let requested = self.fibers[id].dispose_requested();
            let marked = self.with_fiber(
                id,
                if release is Run && !(requested.state is Disposed) {
                    FiberModel { state: crate::fiber::FiberState::Unloading, ..requested }
                } else {
                    requested
                },
            );
            (
                release,
                if release is Vacant {
                    marked.vacated(id)
                } else {
                    marked
                },
            )
        }
    }
}

} // verus!
