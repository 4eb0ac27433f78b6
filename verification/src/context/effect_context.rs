//! Effects: contexts that own resources.

use crate::config::ConfigKey;
use crate::context::{begins_disposal, Context};
use crate::context::handles::{InjectionHandle, ProviderHandle, Unsubscribe};
use crate::effect;
use crate::effect::disposal::Disposal;
use crate::effect::dispose::DisposePolicy;
use crate::effect::Cleanup;
use crate::error::CoreError;
use crate::event::dispatch::{Dispatch, Emission, ParallelDispatch};
use crate::event::{
    EventKey, ListenOptions, ListenRequest, ParallelKey, SerialKey, WaterfallKey,
};
use crate::isolation::IsolationLabel;
use crate::logger::{ExporterSlot, LogExporter, Logger, LoggerConfig};
use crate::provider::ProviderAvailability;
use crate::runtime::{Runtime, RuntimeModel};
use crate::service::{ServiceId, ServiceKey};
use std::sync::Arc;
use vstd::prelude::*;

verus! {

/// A context that owns resources: its scope is an effect.
pub struct EffectContext {
    context: Context,
}

impl Clone for EffectContext {
    fn clone(&self) -> (r: Self)
        ensures
            r.context_spec().is_view(
                self.context_spec().layers_spec(),
                self.context_spec().scope_spec(),
                self.context_spec().source_spec(),
            ),
    {
        EffectContext { context: self.context.clone() }
    }
}

impl EffectContext {
    pub closed spec fn context_spec(&self) -> Context {
        self.context
    }

    /// The effect around a context.
    pub fn from_context(context: Context) -> (r: EffectContext)
        ensures
            r.context_spec() == context,
    {
        EffectContext { context }
    }

    pub fn as_context(&self) -> (r: &Context)
        ensures
            *r == self.context_spec(),
    {
        &self.context
    }

    /// The public handle of the effect.
    pub fn handle(&self) -> (r: EffectHandle)
        ensures
            r.scope_spec() == self.context_spec().scope_spec(),
    {
        EffectHandle { scope: self.context.scope() }
    }

    /// Registers a callback for the disposal, which stays with the host. On a disposed
    /// effect nothing is registered and the host runs the callback at once.
    pub fn on_dispose(&self, runtime: &mut Runtime, callback: u64) -> (registered: bool)
        requires
            old(runtime).wf(),
        ensures
            final(runtime).wf(),
            registered == !old(runtime)@.gone(self.context_spec().scope_spec()),
            final(runtime)@ == (RuntimeModel {
                scopes: effect::cleanup_added(
                    old(runtime)@.scopes,
                    self.context_spec().scope_spec(),
                    Cleanup::Callback(callback),
                ),
                ..old(runtime)@
            }),
    {
        runtime.scopes.on_dispose(self.context.scope(), Cleanup::Callback(callback))
    }

    /// Registers an asynchronous disposer, which stays with the host.
    pub fn on_dispose_async(&self, runtime: &mut Runtime, disposer: u64) -> (r: Result<
        (),
        CoreError,
    >)
        requires
            old(runtime).wf(),
        ensures
            final(runtime).wf(),
            ({
                let scope = self.context_spec().scope_spec();
                let scopes = old(runtime)@.scopes;
                if old(runtime)@.gone(scope) {
                    &&& r == Err::<(), CoreError>(CoreError::ContextDisposed)
                    &&& final(runtime)@ == old(runtime)@
                } else {
                    &&& r is Ok
                    &&& final(runtime)@ == (RuntimeModel {
                        scopes: scopes.insert(
                            scope,
                            effect::ScopeModel {
                                disposers: scopes[scope].disposers.push(disposer),
                                ..scopes[scope]
                            },
                        ),
                        ..old(runtime)@
                    })
                }
            }),
    {
        runtime.scopes.on_dispose_async(self.context.scope(), disposer)
    }

    /// Hands a task over that the host runs; a disposed effect takes none.
    pub fn spawn(&self, runtime: &mut Runtime, task: u64) -> (r: Result<(), CoreError>)
        requires
            old(runtime).wf(),
        ensures
            final(runtime).wf(),
            if old(runtime)@.gone(self.context_spec().scope_spec()) {
                &&& r == Err::<(), CoreError>(CoreError::ContextDisposed)
                &&& final(runtime)@ == old(runtime)@
            } else {
                &&& r is Ok
                &&& final(runtime)@ == (RuntimeModel {
                    scopes: effect::work_added(
                        old(runtime)@.scopes,
                        self.context_spec().scope_spec(),
                        effect::ManagedWork::Task(task),
                    ),
                    ..old(runtime)@
                })
            },
    {
        if runtime.scopes.push_task(self.context.scope(), task) {
            Ok(())
        } else {
            Err(CoreError::ContextDisposed)
        }
    }

    /// The tasks of this effect are asked to end: it or an effect around it is disposed.
    pub fn is_cancelled(&self, runtime: &Runtime) -> (r: bool)
        requires
            runtime.wf(),
        ensures
            r == effect::scope_cancelled(runtime@.scopes, self.context_spec().scope_spec()),
    {
        runtime.scopes.is_cancelled(self.context.scope())
    }

    /// Begins to dispose the effect for a caller that waits for the release.
    pub fn dispose_wait(&self, runtime: &mut Runtime) -> (r: Disposal)
        requires
            old(runtime).wf(),
        ensures
            final(runtime).wf(),
            begins_disposal(
                old(runtime)@,
                self.context_spec().scope_spec(),
                DisposePolicy::AwaitLocal,
                final(runtime)@,
                r@,
            ),
    {
        Disposal::start(&mut runtime.scopes, self.context.scope(), DisposePolicy::AwaitLocal)
    }

    /// Derives a view with a service domain of its own. It belongs to the same scope.
    pub fn extend(&self, runtime: &mut Runtime) -> (r: Result<Context, CoreError>)
        requires
            self.context_spec().wf(),
            old(runtime).wf(),
            old(runtime)@.registry.next_id < u64::MAX,
        ensures
            final(runtime).wf(),
            r matches Ok(derived) ==> derived.wf(),
            self.context_spec().within(old(runtime)@) ==> (r matches Ok(derived) ==> derived.within(
                final(runtime)@,
            )),
            self.context_spec().extend_made(old(runtime)@, final(runtime)@, r),
    {
        self.context.extend(runtime)
    }

    /// Derives a view in which one service is hidden behind a new label.
    pub fn isolate<T: Send + Sync + 'static>(
        &self,
        runtime: &mut Runtime,
        key: ServiceKey<T>,
    ) -> (r: Result<(Context, IsolationLabel), CoreError>)
        requires
            self.context_spec().wf(),
            old(runtime).wf(),
            old(runtime)@.registry.next_id < u64::MAX,
            old(runtime)@.registry.next_label < u64::MAX,
        ensures
            final(runtime).wf(),
            r matches Ok((derived, _)) ==> derived.wf(),
            self.context_spec().within(old(runtime)@) ==> (r matches Ok((derived, _)) ==> derived.within(
                final(runtime)@,
            )),
            self.context_spec().isolate_made(old(runtime)@, key, final(runtime)@, r),
    {
        self.context.isolate(runtime, key)
    }

    /// Derives a view in which one service is looked up under a label of this runtime.
    pub fn isolate_with<T: Send + Sync + 'static>(
        &self,
        runtime: &mut Runtime,
        key: ServiceKey<T>,
        label: IsolationLabel,
    ) -> (r: Result<Context, CoreError>)
        requires
            self.context_spec().wf(),
            old(runtime).wf(),
            old(runtime)@.registry.next_id < u64::MAX,
        ensures
            final(runtime).wf(),
            r matches Ok(derived) ==> derived.wf(),
            self.context_spec().within(old(runtime)@) ==> (r matches Ok(derived) ==> derived.within(
                final(runtime)@,
            )),
            self.context_spec().isolate_with_made(old(runtime)@, key, label, final(runtime)@, r),
    {
        self.context.isolate_with(runtime, key, label)
    }

    /// Derives a view in which a configuration entry is overridden; the payload stays with
    /// the host. Services are seen as before.
    pub fn intercept<T: Send + Sync + 'static>(
        &self,
        runtime: &mut Runtime,
        key: ConfigKey<T>,
        value: u64,
    ) -> (r: Result<Context, CoreError>)
        requires
            self.context_spec().wf(),
            old(runtime).wf(),
            old(runtime)@.registry.next_id < u64::MAX,
        ensures
            final(runtime).wf(),
            r matches Ok(derived) ==> derived.wf(),
            self.context_spec().within(old(runtime)@) ==> (r matches Ok(derived) ==> derived.within(
                final(runtime)@,
            )),
            self.context_spec().intercept_made(old(runtime)@, key, value, final(runtime)@, r),
    {
        self.context.intercept(runtime, key, value)
    }

    /// The innermost value of a configuration entry.
    pub fn config<T: Send + Sync + 'static>(
        &self,
        runtime: &Runtime,
        key: ConfigKey<T>,
    ) -> (r: Result<u64, CoreError>)
        requires
            self.context_spec().wf(),
            runtime.wf(),
        ensures
            r == self.context_spec().config_found(runtime@, key),
    {
        self.context.config(runtime, key)
    }

    /// Registers a service; it is withdrawn with the scope of this context. The service
    /// object stays with the host.
    pub fn provide<T: Send + Sync + 'static>(
        &self,
        runtime: &mut Runtime,
        key: ServiceKey<T>,
        value: u64,
    ) -> (r: Result<(), CoreError>)
        requires
            self.context_spec().wf(),
            old(runtime).wf(),
            old(runtime)@.registry.next_id < u64::MAX,
        ensures
            final(runtime).wf(),
            self.context_spec().provide_made(old(runtime)@, key, value, final(runtime)@, r),
    {
        self.context.provide(runtime, key, value)
    }

    /// Registers a service with an availability check; `availability` is what the check said
    /// first.
    pub fn provide_checked<T: Send + Sync + 'static>(
        &self,
        runtime: &mut Runtime,
        key: ServiceKey<T>,
        value: u64,
        availability: ProviderAvailability,
    ) -> (r: Result<ProviderHandle, CoreError>)
        requires
            self.context_spec().wf(),
            old(runtime).wf(),
            old(runtime)@.registry.next_id < u64::MAX,
        ensures
            final(runtime).wf(),
            self.context_spec().provide_checked_made(
                old(runtime)@,
                key,
                value,
                availability,
                final(runtime)@,
                r,
            ),
    {
        self.context.provide_checked(runtime, key, value, availability)
    }

    /// The service object that this view sees.
    pub fn get<T: Send + Sync + 'static>(
        &self,
        runtime: &Runtime,
        key: ServiceKey<T>,
    ) -> (r: Result<u64, CoreError>)
        requires
            self.context_spec().wf(),
            runtime.wf(),
        ensures
            r == self.context_spec().get_found(runtime@, key),
    {
        self.context.get(runtime, key)
    }

    /// Runs a callback while all dependencies are there; the callback stays with the host.
    pub fn inject(
        &self,
        runtime: &mut Runtime,
        dependencies: Vec<ServiceId>,
        callback: u64,
    ) -> (r: Result<InjectionHandle, CoreError>)
        requires
            self.context_spec().wf(),
            old(runtime).wf(),
            old(runtime)@.registry.next_id < u64::MAX,
        ensures
            final(runtime).wf(),
            self.context_spec().inject_made(
                old(runtime)@,
                dependencies@,
                callback,
                final(runtime)@,
                r,
            ),
    {
        self.context.inject(runtime, dependencies, callback)
    }

    /// Creates a context with a service domain and a scope of its own.
    pub fn child(&self, runtime: &mut Runtime) -> (r: Result<Context, CoreError>)
        requires
            self.context_spec().wf(),
            old(runtime).wf(),
            old(runtime)@.registry.next_id < u64::MAX,
            old(runtime)@.next_scope < u64::MAX,
        ensures
            final(runtime).wf(),
            r matches Ok(derived) ==> derived.wf(),
            self.context_spec().within(old(runtime)@) ==> (r matches Ok(derived) ==> derived.within(
                final(runtime)@,
            )),
            self.context_spec().child_made(old(runtime)@, final(runtime)@, r),
    {
        self.context.child(runtime)
    }

    /// Observes an event; the handler stays with the host.
    pub fn on<T: Send + Sync + 'static>(
        &self,
        runtime: &mut Runtime,
        key: EventKey<T>,
        handler: u64,
    ) -> (r: Result<Unsubscribe, CoreError>)
        requires
            self.context_spec().wf(),
            old(runtime).wf(),
            old(runtime)@.registry.next_id < u64::MAX,
        ensures
            final(runtime).wf(),
            self.context_spec().listen_made(
                old(runtime)@,
                ListenRequest::plain(key.id_spec(), key.contract_spec(), handler),
                final(runtime)@,
                r,
            ),
    {
        self.context.on(runtime, key, handler)
    }

    /// Observes an event with options; the handler stays with the host.
    pub fn on_with_options<T: Send + Sync + 'static>(
        &self,
        runtime: &mut Runtime,
        key: EventKey<T>,
        options: ListenOptions<T>,
        handler: u64,
    ) -> (r: Result<Unsubscribe, CoreError>)
        requires
            self.context_spec().wf(),
            old(runtime).wf(),
            old(runtime)@.registry.next_id < u64::MAX,
        ensures
            final(runtime).wf(),
            self.context_spec().listen_made(
                old(runtime)@,
                options.request(key.id_spec(), key.contract_spec(), handler),
                final(runtime)@,
                r,
            ),
    {
        self.context.on_with_options(runtime, key, options, handler)
    }

    /// Takes part in a waterfall; the handler stays with the host.
    pub fn on_waterfall<T: Send + Sync + 'static>(
        &self,
        runtime: &mut Runtime,
        key: WaterfallKey<T>,
        handler: u64,
    ) -> (r: Result<Unsubscribe, CoreError>)
        requires
            self.context_spec().wf(),
            old(runtime).wf(),
            old(runtime)@.registry.next_id < u64::MAX,
        ensures
            final(runtime).wf(),
            self.context_spec().listen_made(
                old(runtime)@,
                ListenRequest::plain(key.id_spec(), key.contract_spec(), handler),
                final(runtime)@,
                r,
            ),
    {
        self.context.on_waterfall(runtime, key, handler)
    }

    /// Takes part in a waterfall with options; the handler stays with the host.
    pub fn on_waterfall_with_options<T: Send + Sync + 'static>(
        &self,
        runtime: &mut Runtime,
        key: WaterfallKey<T>,
        options: ListenOptions<T>,
        handler: u64,
    ) -> (r: Result<Unsubscribe, CoreError>)
        requires
            self.context_spec().wf(),
            old(runtime).wf(),
            old(runtime)@.registry.next_id < u64::MAX,
        ensures
            final(runtime).wf(),
            self.context_spec().listen_made(
                old(runtime)@,
                options.request(key.id_spec(), key.contract_spec(), handler),
                final(runtime)@,
                r,
            ),
    {
        self.context.on_waterfall_with_options(runtime, key, options, handler)
    }

    /// Answers a serial event; the handler stays with the host.
    pub fn on_serial<T: Send + Sync + 'static, R: Send + Sync + 'static>(
        &self,
        runtime: &mut Runtime,
        key: SerialKey<T, R>,
        handler: u64,
    ) -> (r: Result<Unsubscribe, CoreError>)
        requires
            self.context_spec().wf(),
            old(runtime).wf(),
            old(runtime)@.registry.next_id < u64::MAX,
        ensures
            final(runtime).wf(),
            self.context_spec().listen_made(
                old(runtime)@,
                ListenRequest::plain(key.id_spec(), key.contract_spec(), handler),
                final(runtime)@,
                r,
            ),
    {
        self.context.on_serial(runtime, key, handler)
    }

    /// Answers a serial event with options; the handler stays with the host.
    pub fn on_serial_with_options<T: Send + Sync + 'static, R: Send + Sync + 'static>(
        &self,
        runtime: &mut Runtime,
        key: SerialKey<T, R>,
        options: ListenOptions<T>,
        handler: u64,
    ) -> (r: Result<Unsubscribe, CoreError>)
        requires
            self.context_spec().wf(),
            old(runtime).wf(),
            old(runtime)@.registry.next_id < u64::MAX,
        ensures
            final(runtime).wf(),
            self.context_spec().listen_made(
                old(runtime)@,
                options.request(key.id_spec(), key.contract_spec(), handler),
                final(runtime)@,
                r,
            ),
    {
        self.context.on_serial_with_options(runtime, key, options, handler)
    }

    /// Handles a parallel event; the handler stays with the host.
    pub fn on_parallel<T: Send + Sync + 'static>(
        &self,
        runtime: &mut Runtime,
        key: ParallelKey<T>,
        handler: u64,
    ) -> (r: Result<Unsubscribe, CoreError>)
        requires
            self.context_spec().wf(),
            old(runtime).wf(),
            old(runtime)@.registry.next_id < u64::MAX,
        ensures
            final(runtime).wf(),
            self.context_spec().listen_made(
                old(runtime)@,
                ListenRequest::plain(key.id_spec(), key.contract_spec(), handler),
                final(runtime)@,
                r,
            ),
    {
        self.context.on_parallel(runtime, key, handler)
    }

    /// Handles a parallel event with options; the handler stays with the host.
    pub fn on_parallel_with_options<T: Send + Sync + 'static>(
        &self,
        runtime: &mut Runtime,
        key: ParallelKey<T>,
        options: ListenOptions<T>,
        handler: u64,
    ) -> (r: Result<Unsubscribe, CoreError>)
        requires
            self.context_spec().wf(),
            old(runtime).wf(),
            old(runtime)@.registry.next_id < u64::MAX,
        ensures
            final(runtime).wf(),
            self.context_spec().listen_made(
                old(runtime)@,
                options.request(key.id_spec(), key.contract_spec(), handler),
                final(runtime)@,
                r,
            ),
    {
        self.context.on_parallel_with_options(runtime, key, options, handler)
    }

    /// Begins to emit an observed event.
    pub fn emit<T: Send + Sync + 'static>(
        &self,
        runtime: &mut Runtime,
        key: EventKey<T>,
    ) -> (r: Result<Emission, CoreError>)
        requires
            self.context_spec().wf(),
            old(runtime).wf(),
        ensures
            final(runtime).wf(),
            r matches Ok(emission) ==> emission@.at == 0 && !emission@.passed,
            self.context_spec().dispatch_made(
                old(runtime)@,
                key.id_spec(),
                key.contract_spec(),
                final(runtime)@,
                match r {
                    Ok(dispatch) => Ok((dispatch@.event, dispatch@.selected)),
                    Err(error) => Err(error),
                },
            ),
    {
        self.context.emit(runtime, key)
    }

    /// Begins a waterfall; the payload enters it with `Next::new(0)`.
    pub fn waterfall<T: Send + Sync + 'static>(
        &self,
        runtime: &mut Runtime,
        key: WaterfallKey<T>,
    ) -> (r: Result<Dispatch, CoreError>)
        requires
            self.context_spec().wf(),
            old(runtime).wf(),
        ensures
            final(runtime).wf(),
            self.context_spec().dispatch_made(
                old(runtime)@,
                key.id_spec(),
                key.contract_spec(),
                final(runtime)@,
                match r {
                    Ok(dispatch) => Ok((dispatch.event, dispatch.selected@)),
                    Err(error) => Err(error),
                },
            ),
    {
        self.context.waterfall(runtime, key)
    }

    /// Begins to ask for an answer to a serial event.
    pub fn serial<T: Send + Sync + 'static, R: Send + Sync + 'static>(
        &self,
        runtime: &mut Runtime,
        key: SerialKey<T, R>,
    ) -> (r: Result<Emission, CoreError>)
        requires
            self.context_spec().wf(),
            old(runtime).wf(),
        ensures
            final(runtime).wf(),
            r matches Ok(emission) ==> emission@.at == 0 && !emission@.passed,
            self.context_spec().dispatch_made(
                old(runtime)@,
                key.id_spec(),
                key.contract_spec(),
                final(runtime)@,
                match r {
                    Ok(dispatch) => Ok((dispatch@.event, dispatch@.selected)),
                    Err(error) => Err(error),
                },
            ),
    {
        self.context.serial(runtime, key)
    }

    /// Begins a parallel event.
    pub fn parallel<T: Send + Sync + 'static>(
        &self,
        runtime: &mut Runtime,
        key: ParallelKey<T>,
    ) -> (r: Result<ParallelDispatch, CoreError>)
        requires
            self.context_spec().wf(),
            old(runtime).wf(),
        ensures
            final(runtime).wf(),
            r matches Ok(begun) ==> begun.wf() && begun@.at == 0 && begun@.eligible.len() == 0,
            self.context_spec().dispatch_made(
                old(runtime)@,
                key.id_spec(),
                key.contract_spec(),
                final(runtime)@,
                match r {
                    Ok(dispatch) => Ok((dispatch@.event, dispatch@.selected)),
                    Err(error) => Err(error),
                },
            ),
    {
        self.context.parallel(runtime, key)
    }

    /// The handle of the logger configuration of this view, if there is one.
    pub fn logger_config(
        &self,
        runtime: &Runtime,
        key: ConfigKey<LoggerConfig>,
    ) -> (r: Result<Option<u64>, CoreError>)
        requires
            self.context_spec().wf(),
            runtime.wf(),
        ensures
            r == self.context_spec().logger_config_found(runtime@, key),
    {
        self.context.logger_config(runtime, key)
    }

    /// The log as this context sees it, under the configuration that
    /// [`Self::logger_config`] found.
    pub fn logger(
        &self,
        runtime: &Runtime,
        config: Option<&LoggerConfig>,
    ) -> (r: Result<Logger, CoreError>)
        requires
            self.context_spec().wf(),
            runtime.wf(),
        ensures
            self.context_spec().logger_made(runtime@, config, r),
    {
        self.context.logger(runtime, config)
    }

    /// Adds an exporter to the log; it is removed with the scope of this context.
    pub fn register_log_exporter(
        &self,
        runtime: &mut Runtime,
        exporter: Arc<dyn LogExporter>,
    ) -> (r: Result<(), CoreError>)
        requires
            self.context_spec().wf(),
            old(runtime).wf(),
            old(runtime)@.logger.next_exporter < u64::MAX,
        ensures
            final(runtime).wf(),
            ({
                let slot = ExporterSlot { id: 0, exporter };
                self.context_spec().exporter_made(old(runtime)@, slot, final(runtime)@, r)
            }),
    {
        let slot = ExporterSlot::unnumbered(exporter);
        self.context.install_exporter(runtime, slot)
    }

    /// The number of scopes directly below this context.
    pub fn child_scope_count(&self, runtime: &Runtime) -> (r: usize)
        requires
            self.context_spec().wf(),
            runtime.wf(),
        ensures
            r == (if runtime@.scopes.contains_key(self.context_spec().scope_spec()) {
                runtime@.scopes[self.context_spec().scope_spec()].children.len()
            } else {
                0
            }),
    {
        self.context.child_scope_count(runtime)
    }

    /// Begins to dispose the scope of this context. What it leaves to wait for passes to its
    /// parent.
    pub fn dispose(&self, runtime: &mut Runtime) -> (r: Disposal)
        requires
            self.context_spec().wf(),
            old(runtime).wf(),
        ensures
            final(runtime).wf(),
            begins_disposal(
                old(runtime)@,
                self.context_spec().scope_spec(),
                DisposePolicy::HoistToParent,
                final(runtime)@,
                r@,
            ),
    {
        self.context.dispose(runtime)
    }
}

/// The public handle of an effect, for observation.
#[derive(Clone, Copy)]
pub struct EffectHandle {
    scope: u64,
}

impl EffectHandle {
    pub closed spec fn scope_spec(self) -> u64 {
        self.scope
    }

    pub fn id(&self) -> (r: u64)
        ensures
            r == self.scope_spec(),
    {
        self.scope
    }

    /// The name of the effect; nothing once it is forgotten.
    pub fn name(&self, runtime: &Runtime) -> (r: Option<String>)
        requires
            runtime.wf(),
        ensures
            match r {
                Some(name) => runtime@.scopes.contains_key(self.scope_spec()) && name@
                    == runtime@.scopes[self.scope_spec()].name,
                None => !runtime@.scopes.contains_key(self.scope_spec()),
            },
    {
        match runtime.scopes.scope(self.scope) {
            Some(scope) => Some(scope.name.clone()),
            None => None,
        }
    }

    pub fn parent_id(&self, runtime: &Runtime) -> (r: Option<u64>)
        requires
            runtime.wf(),
        ensures
            r == effect::disposal::heir(runtime@.scopes, self.scope_spec()),
    {
        runtime.scopes.parent_id(self.scope)
    }

    pub fn is_disposed(&self, runtime: &Runtime) -> (r: bool)
        requires
            runtime.wf(),
        ensures
            r == runtime@.gone(self.scope_spec()),
    {
        runtime.scopes.is_disposed(self.scope)
    }

    pub fn is_cancelled(&self, runtime: &Runtime) -> (r: bool)
        requires
            runtime.wf(),
        ensures
            r == effect::scope_cancelled(runtime@.scopes, self.scope_spec()),
    {
        runtime.scopes.is_cancelled(self.scope)
    }

    pub fn child_count(&self, runtime: &Runtime) -> (r: usize)
        requires
            runtime.wf(),
        ensures
            r == (if runtime@.scopes.contains_key(self.scope_spec()) {
                runtime@.scopes[self.scope_spec()].children.len()
            } else {
                0
            }),
    {
        runtime.scopes.child_scope_count(self.scope)
    }

    pub fn task_count(&self, runtime: &Runtime) -> (r: usize)
        requires
            runtime.wf(),
        ensures
            r == (if runtime@.scopes.contains_key(self.scope_spec()) {
                effect::tasks_in(runtime@.scopes[self.scope_spec()].work)
            } else {
                0
            }),
    {
        runtime.scopes.task_count(self.scope)
    }

    pub fn cleanup_count(&self, runtime: &Runtime) -> (r: usize)
        requires
            runtime.wf(),
        ensures
            r == (if runtime@.scopes.contains_key(self.scope_spec()) {
                runtime@.scopes[self.scope_spec()].cleanups.len()
            } else {
                0
            }),
    {
        runtime.scopes.cleanup_count(self.scope)
    }
}

} // verus!
