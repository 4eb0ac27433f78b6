//! Contexts: what code in the runtime sees and works through.
//!
//! A [`Context`] is a view together with a scope. It is a plain value; every operation
//! takes the [`Runtime`] that it belongs to.

use crate::config::ConfigKey;
use crate::effect;
use crate::effect::disposal::Disposal;
use crate::effect::dispose;
use crate::effect::dispose::{DisposePolicy, FrameModel};
use crate::effect::Cleanup;
use crate::error::CoreError;
use crate::event::dispatch;
use crate::event::dispatch::{Dispatch, Emission, ParallelDispatch};
use crate::event::{
    EventContract, EventKey, EventListener, ListenOptions, ListenRequest, ParallelKey, SerialKey,
    WaterfallKey,
};
use crate::fiber::FiberModel;
use crate::isolation::IsolationLabel;
use crate::logger::{ExporterSlot, LogExporter, LogLevel, Logger, LoggerConfig};
use crate::plugin::PluginKey;
use crate::provider::ProviderAvailability;
use crate::registry::events;
use crate::registry::groups;
use crate::registry::provide;
use crate::registry::provide::Offer;
use crate::registry::views;
use crate::registry::{EffectModel, RegistryModel};
use crate::runtime::{Runtime, RuntimeModel};
use crate::service;
use crate::service::{typed_value, ServiceId, ServiceKey};
use crate::view;
use crate::view::{copy_layers, ConfigBinding, IsolationBinding, Layer};
use effect_context::EffectContext;
use handles::{Fiber, InjectionHandle, ProviderHandle, Unsubscribe};
use std::sync::Arc;
use vstd::prelude::*;

pub mod effect_context;
pub mod handles;

verus! {

/// The plugin fiber on whose behalf a context works.
#[derive(Clone, Copy)]
pub struct LogSource {
    pub fiber_id: u64,
    pub plugin_key: PluginKey,
}

/// A view and a scope.
pub struct Context {
    layers: Vec<Layer>,
    scope: u64,
    source: Option<LogSource>,
}

/// The begin of the disposal of a scope.
pub open spec fn begins_disposal(
    before: RuntimeModel,
    scope: u64,
    policy: DisposePolicy,
    after: RuntimeModel,
    frames: Seq<FrameModel>,
) -> bool {
    if before.gone(scope) {
        &&& frames == Seq::<FrameModel>::empty()
        &&& after == before
    } else {
        &&& frames == seq![dispose::opening_frame(before.scopes, scope, policy)]
        &&& after == (RuntimeModel {
            scopes: before.scopes.insert(scope, dispose::begun(before.scopes[scope])),
            ..before
        })
    }
}

impl Clone for Context {
    fn clone(&self) -> (r: Self)
        ensures
            r.is_view(self.layers_spec(), self.scope_spec(), self.source_spec()),
    {
        Context { layers: copy_layers(&self.layers), scope: self.scope, source: self.source }
    }
}

impl Context {
    /// The layers of the view.
    pub closed spec fn layers_spec(&self) -> Seq<Layer> {
        self.layers@
    }

    /// The scope that resources registered through this context belong to.
    pub closed spec fn scope_spec(&self) -> u64 {
        self.scope
    }

    /// The plugin fiber on whose behalf this context works.
    pub closed spec fn source_spec(&self) -> Option<LogSource> {
        self.source
    }

    pub open spec fn wf(&self) -> bool {
        self.layers_spec().len() > 0
    }

    /// The identifiers of the view were given out by the runtime: whatever it gives out
    /// from now on is new to this context.
    pub open spec fn within(&self, runtime: RuntimeModel) -> bool {
        view::view_ok(self.layers_spec(), runtime.registry.next_id)
    }

    /// The context consists of these parts.
    pub open spec fn is_view(
        &self,
        layers: Seq<Layer>,
        scope: u64,
        source: Option<LogSource>,
    ) -> bool {
        &&& self.layers_spec() == layers
        &&& self.scope_spec() == scope
        &&& self.source_spec() == source
    }

    /// What this context offers when it provides a service.
    pub open spec fn offer<T: Send + Sync + 'static>(
        &self,
        key: ServiceKey<T>,
        value: u64,
        availability: ProviderAvailability,
        checked: bool,
    ) -> Offer {
        Offer {
            service: key.id_spec(),
            tag: key.tag_spec(),
            value,
            availability,
            checked,
            fiber: match self.source_spec() {
                Some(source) => Some(source.fiber_id),
                None => None,
            },
        }
    }

    /// The name under which this context logs.
    pub open spec fn log_target(&self, config: Option<&LoggerConfig>) -> Seq<char> {
        let fallback = match self.source_spec() {
            Some(source) => source.plugin_key@,
            None => "root"@,
        };
        match config {
            Some(settings) => match settings.name {
                Some(name) => name@,
                None => fallback,
            },
            None => fallback,
        }
    }

    /// What registering a listener gives.
    pub open spec fn listen_made(
        &self,
        before: RuntimeModel,
        request: ListenRequest,
        after: RuntimeModel,
        r: Result<Unsubscribe, CoreError>,
    ) -> bool {
        let outcome = before.registry.subscribe_outcome(
            before.scopes,
            self.layers_spec().last().id,
            request,
            self.scope_spec(),
        );
        &&& match outcome.0 {
            Ok(id) => r matches Ok(handle) && handle.id_spec() == id,
            Err(error) => r == Err::<Unsubscribe, CoreError>(error),
        }
        &&& after == (RuntimeModel { registry: outcome.1, scopes: outcome.2, ..before })
    }

    /// What the log looks like from this context.
    pub open spec fn logger_made(
        &self,
        runtime: RuntimeModel,
        config: Option<&LoggerConfig>,
        r: Result<Logger, CoreError>,
    ) -> bool {
        if runtime.gone(self.scope_spec()) {
            r == Err::<Logger, CoreError>(CoreError::ContextDisposed)
        } else {
            &&& r matches Ok(logger)
            &&& logger.service_spec() == runtime.logger.identity
            &&& logger.target_spec() == self.log_target(config)
            &&& logger.level_spec() == (match config {
                Some(settings) => match settings.level {
                    Some(level) => level,
                    None => LogLevel::Info,
                },
                None => LogLevel::Info,
            })
            &&& logger.fiber_spec() == (match self.source_spec() {
                Some(source) => Some(source.fiber_id),
                None => None,
            })
            &&& logger.plugin_spec() == (match self.source_spec() {
                Some(source) => Some(source.plugin_key),
                None => None,
            })
        }
    }

    /// What registering an exporter gives.
    pub open spec fn exporter_made(
        &self,
        before: RuntimeModel,
        slot: ExporterSlot<Arc<dyn LogExporter>>,
        after: RuntimeModel,
        r: Result<(), CoreError>,
    ) -> bool {
        if before.gone(self.scope_spec()) {
            &&& r == Err::<(), CoreError>(CoreError::ContextDisposed)
            &&& after == before
        } else {
            &&& r is Ok
            &&& after == (RuntimeModel {
                logger: before.logger.with_exporter(slot),
                scopes: effect::cleanup_added(
                    before.scopes,
                    self.scope_spec(),
                    Cleanup::Exporter(before.logger.next_exporter),
                ),
                ..before
            })
        }
    }

    /// What [`Self::extend`] gives.
    pub open spec fn extend_made(
        &self,
        before: RuntimeModel,
        after: RuntimeModel,
        r: Result<Context, CoreError>,
    ) -> bool {
        if before.gone(self.scope_spec()) {
            &&& r == Err::<Context, CoreError>(CoreError::ContextDisposed)
            &&& after == before
        } else {
            &&& r matches Ok(derived) && derived.is_view(
                view::extended(self.layers_spec(), before.registry.next_id),
                self.scope_spec(),
                self.source_spec(),
            )
            &&& after == (RuntimeModel { registry: before.registry.allocated(), ..before })
        }
    }

    /// What [`Self::isolate`] gives.
    pub open spec fn isolate_made<T: Send + Sync + 'static>(
        &self,
        before: RuntimeModel,
        key: ServiceKey<T>,
        after: RuntimeModel,
        r: Result<(Context, IsolationLabel), CoreError>,
    ) -> bool {
        if before.gone(self.scope_spec()) {
            &&& r == Err::<(Context, IsolationLabel), CoreError>(CoreError::ContextDisposed)
            &&& after == before
        } else {
            &&& r matches Ok((derived, label)) && label.id_spec() == before.registry.next_label
                && label.token_spec() == before.registry.identity && derived.is_view(
                view::isolated(
                    self.layers_spec(),
                    before.registry.next_id,
                    IsolationBinding { service: key.id_spec(), label: label.id_spec() },
                ),
                self.scope_spec(),
                self.source_spec(),
            )
            &&& after == (RuntimeModel {
                registry: before.registry.labelled().allocated(),
                ..before
            })
        }
    }

    /// What [`Self::isolate_with`] gives.
    pub open spec fn isolate_with_made<T: Send + Sync + 'static>(
        &self,
        before: RuntimeModel,
        key: ServiceKey<T>,
        label: IsolationLabel,
        after: RuntimeModel,
        r: Result<Context, CoreError>,
    ) -> bool {
        if before.gone(self.scope_spec()) {
            &&& r == Err::<Context, CoreError>(CoreError::ContextDisposed)
            &&& after == before
        } else if label.token_spec() != before.registry.identity {
            &&& r == Err::<Context, CoreError>(CoreError::IsolationRuntimeMismatch)
            &&& after == before
        } else {
            &&& r matches Ok(derived) && derived.is_view(
                view::isolated(
                    self.layers_spec(),
                    before.registry.next_id,
                    IsolationBinding { service: key.id_spec(), label: label.id_spec() },
                ),
                self.scope_spec(),
                self.source_spec(),
            )
            &&& after == (RuntimeModel { registry: before.registry.allocated(), ..before })
        }
    }

    /// What [`Self::intercept`] gives.
    pub open spec fn intercept_made<T: Send + Sync + 'static>(
        &self,
        before: RuntimeModel,
        key: ConfigKey<T>,
        value: u64,
        after: RuntimeModel,
        r: Result<Context, CoreError>,
    ) -> bool {
        let binding = ConfigBinding { config: key.id_spec(), tag: key.tag_spec(), value };
        if before.gone(self.scope_spec()) {
            &&& r == Err::<Context, CoreError>(CoreError::ContextDisposed)
            &&& after == before
        } else if !provide::type_admitted(
            before.registry.config_types,
            binding.config@,
            binding.tag,
        ) {
            &&& r == Err::<Context, CoreError>(
                CoreError::ConfigKeyTypeConflict { config: binding.config },
            )
            &&& after == before
        } else {
            &&& r matches Ok(derived) && derived.is_view(
                view::intercepted(self.layers_spec(), before.registry.next_id, binding),
                self.scope_spec(),
                self.source_spec(),
            )
            &&& after == (RuntimeModel {
                registry: RegistryModel {
                    config_types: provide::type_locked(
                        before.registry.config_types,
                        binding.config@,
                        binding.tag,
                    ),
                    ..before.registry.allocated()
                },
                ..before
            })
        }
    }

    /// What [`Self::config`] finds.
    pub open spec fn config_found<T: Send + Sync + 'static>(
        &self,
        runtime: RuntimeModel,
        key: ConfigKey<T>,
    ) -> Result<u64, CoreError> {
        if runtime.gone(self.scope_spec()) {
            Err(CoreError::ContextDisposed)
        } else {
            views::config_value(
                runtime.registry.config_types,
                self.layers_spec(),
                key.id_spec(),
                key.tag_spec(),
            )
        }
    }

    /// What [`Self::provide`] gives.
    pub open spec fn provide_made<T: Send + Sync + 'static>(
        &self,
        before: RuntimeModel,
        key: ServiceKey<T>,
        value: u64,
        after: RuntimeModel,
        r: Result<(), CoreError>,
    ) -> bool {
        let outcome = before.registry.provide_outcome(
            before.scopes,
            self.layers_spec(),
            self.offer(key, value, ProviderAvailability::Ready, false),
            self.scope_spec(),
        );
        &&& r == (match outcome.0 {
            Ok(_) => Ok::<(), CoreError>(()),
            Err(error) => Err(error),
        })
        &&& after == (RuntimeModel { registry: outcome.1, scopes: outcome.2, ..before })
    }

    /// What [`Self::provide_checked`] gives.
    pub open spec fn provide_checked_made<T: Send + Sync + 'static>(
        &self,
        before: RuntimeModel,
        key: ServiceKey<T>,
        value: u64,
        availability: ProviderAvailability,
        after: RuntimeModel,
        r: Result<ProviderHandle, CoreError>,
    ) -> bool {
        let outcome = before.registry.provide_outcome(
            before.scopes,
            self.layers_spec(),
            self.offer(key, value, availability, true),
            self.scope_spec(),
        );
        &&& match outcome.0 {
            Ok(id) => r matches Ok(handle) && handle.provider_spec() == id
                && handle.service_spec() == key.id_spec(),
            Err(error) => r == Err::<ProviderHandle, CoreError>(error),
        }
        &&& after == (RuntimeModel { registry: outcome.1, scopes: outcome.2, ..before })
    }

    /// What [`Self::get`] finds.
    pub open spec fn get_found<T: Send + Sync + 'static>(
        &self,
        runtime: RuntimeModel,
        key: ServiceKey<T>,
    ) -> Result<u64, CoreError> {
        if runtime.gone(self.scope_spec()) {
            Err(CoreError::ContextDisposed)
        } else {
            service::typed(
                runtime.registry.service_object(self.layers_spec(), key.id_spec()@),
                key.id_spec(),
                key.tag_spec(),
            )
        }
    }

    /// What [`Self::inject`] gives.
    pub open spec fn inject_made(
        &self,
        before: RuntimeModel,
        dependencies: Seq<ServiceId>,
        callback: u64,
        after: RuntimeModel,
        r: Result<InjectionHandle, CoreError>,
    ) -> bool {
        let outcome = before.registry.inject_outcome(
            before.scopes,
            self.layers_spec(),
            self.scope_spec(),
            dependencies,
            callback,
        );
        if before.gone(self.scope_spec()) {
            &&& r == Err::<InjectionHandle, CoreError>(CoreError::ContextDisposed)
            &&& after == before
        } else {
            &&& match outcome.0 {
                Ok(id) => r matches Ok(handle) && handle.id_spec() == id,
                Err(error) => r == Err::<InjectionHandle, CoreError>(error),
            }
            &&& after == (RuntimeModel { registry: outcome.1, scopes: outcome.2, ..before })
        }
    }

    /// What [`Self::effect_named`] gives.
    pub open spec fn effect_named_made(
        &self,
        before: RuntimeModel,
        name: Seq<char>,
        after: RuntimeModel,
        r: Result<EffectContext, CoreError>,
    ) -> bool {
        let scope = before.next_scope;
        if before.gone(self.scope_spec()) {
            &&& r == Err::<EffectContext, CoreError>(CoreError::ContextDisposed)
            &&& after == before
        } else {
            &&& r matches Ok(made) && made.context_spec().is_view(
                self.layers_spec(),
                scope,
                self.source_spec(),
            )
            &&& after == (RuntimeModel {
                registry: RegistryModel {
                    effects: before.registry.effects.insert(
                        scope,
                        EffectModel {
                            name,
                            parent: Some(self.scope_spec()),
                            depth: Some((self.layers_spec().len() - 1) as usize),
                            fiber_id: None,
                        },
                    ),
                    ..before.registry
                },
                scopes: effect::cleanup_added(
                    effect::child_added(before.scopes, self.scope_spec(), scope, name),
                    scope,
                    Cleanup::Effect(scope),
                ),
                next_scope: (scope + 1) as u64,
                ..before
            })
        }
    }

    /// What [`Self::child`] gives.
    pub open spec fn child_made(
        &self,
        before: RuntimeModel,
        after: RuntimeModel,
        r: Result<Context, CoreError>,
    ) -> bool {
        if before.gone(self.scope_spec()) {
            &&& r == Err::<Context, CoreError>(CoreError::ContextDisposed)
            &&& after == before
        } else {
            &&& r matches Ok(derived) && derived.is_view(
                view::extended(self.layers_spec(), before.registry.next_id),
                before.next_scope,
                self.source_spec(),
            )
            &&& after == (RuntimeModel {
                registry: before.registry.allocated(),
                scopes: effect::child_added(
                    before.scopes,
                    self.scope_spec(),
                    before.next_scope,
                    "effect"@,
                ),
                next_scope: (before.next_scope + 1) as u64,
                ..before
            })
        }
    }

    /// What [`Self::plugin`] gives.
    pub open spec fn plugin_made(
        &self,
        before: RuntimeModel,
        key: PluginKey,
        plugin: u64,
        dependencies: Seq<ServiceId>,
        after: RuntimeModel,
        r: Result<Fiber, CoreError>,
    ) -> bool {
        let id = before.registry.next_id;
        if before.gone(self.scope_spec()) {
            &&& r == Err::<Fiber, CoreError>(CoreError::ContextDisposed)
            &&& after == before
        } else if groups::unmounting(before.registry.groups, key@) {
            &&& r == Err::<Fiber, CoreError>(CoreError::PluginUnmounting { plugin: key })
            &&& after == before
        } else {
            &&& r matches Ok(fiber) && fiber.id_spec() == id
            &&& after == (RuntimeModel {
                registry: before.registry.mounted(
                    id,
                    FiberModel::created(
                        key,
                        self.layers_spec(),
                        self.scope_spec(),
                        plugin,
                        dependencies,
                    ),
                ),
                scopes: effect::cleanup_added(
                    before.scopes,
                    self.scope_spec(),
                    Cleanup::Fiber(id),
                ),
                ..before
            })
        }
    }

    /// What [`Self::logger_config`] finds.
    pub open spec fn logger_config_found(
        &self,
        runtime: RuntimeModel,
        key: ConfigKey<LoggerConfig>,
    ) -> Result<Option<u64>, CoreError> {
        match self.config_found(runtime, key) {
            Ok(value) => Ok(Some(value)),
            Err(CoreError::ConfigUnavailable { .. }) => Ok(None),
            Err(error) => Err(error),
        }
    }

    /// What the begin of a dispatch from this context gives: the event and its audience,
    /// or the refusal.
    pub open spec fn dispatch_made(
        &self,
        before: RuntimeModel,
        event: &'static str,
        wanted: EventContract,
        after: RuntimeModel,
        r: Result<(&'static str, Seq<EventListener>), CoreError>,
    ) -> bool {
        if before.gone(self.scope_spec()) {
            &&& r == Err::<(&'static str, Seq<EventListener>), CoreError>(
                CoreError::ContextDisposed,
            )
            &&& after == before
        } else {
            let check = events::contract_check(
                before.registry.contracts,
                event,
                wanted,
            );
            match check {
                Err(conflict) => {
                    &&& r == Err::<(&'static str, Seq<EventListener>), CoreError>(conflict)
                    &&& after == before
                },
                Ok(_) => {
                    &&& after == (RuntimeModel {
                        registry: RegistryModel {
                            contracts: events::contract_locked(
                                before.registry.contracts,
                                event@,
                                wanted,
                            ),
                            ..before.registry
                        },
                        ..before
                    })
                    &&& if events::modes_agree(
                        before.registry.listeners,
                        event@,
                        wanted.mode,
                    ) {
                        let selected = events::audience(
                            before.registry.listeners,
                            event@,
                            self.layers_spec(),
                        );
                        &&& r == Ok::<(&'static str, Seq<EventListener>), CoreError>(
                            (event, selected),
                        )
                        &&& dispatch::known(selected, after.registry.next_id)
                    } else {
                        r == Err::<(&'static str, Seq<EventListener>), CoreError>(
                            CoreError::EventModeMismatch { event },
                        )
                    }
                },
            }
        }
    }

    pub(crate) fn new(layers: Vec<Layer>, scope: u64, source: Option<LogSource>) -> (r: Context)
        ensures
            r.is_view(layers@, scope, source),
    {
        Context { layers, scope, source }
    }

    /// This view with another scope.
    pub fn with_scope(&self, scope: u64) -> (r: Context)
        ensures
            r.is_view(self.layers_spec(), scope, self.source_spec()),
    {
        Context { layers: copy_layers(&self.layers), scope, source: self.source }
    }

    /// This view with another scope, on behalf of a plugin fiber.
    pub fn with_scope_and_log_source(
        &self,
        scope: u64,
        fiber_id: u64,
        plugin_key: PluginKey,
    ) -> (r: Context)
        ensures
            r.is_view(
                self.layers_spec(),
                scope,
                Some(LogSource { fiber_id, plugin_key }),
            ),
    {
        Context {
            layers: copy_layers(&self.layers),
            scope,
            source: Some(LogSource { fiber_id, plugin_key }),
        }
    }

    /// The scope of this context.
    pub fn scope(&self) -> (r: u64)
        ensures
            r == self.scope_spec(),
    {
        self.scope
    }

    fn source_fiber(&self) -> (r: Option<u64>)
        ensures
            r == (match self.source_spec() {
                Some(source) => Some(source.fiber_id),
                None => None,
            }),
    {
        match self.source {
            Some(source) => Some(source.fiber_id),
            None => None,
        }
    }

    fn listen(&self, runtime: &mut Runtime, request: ListenRequest) -> (r: Result<
        Unsubscribe,
        CoreError,
    >)
        requires
            self.wf(),
            old(runtime).wf(),
            old(runtime)@.registry.next_id < u64::MAX,
        ensures
            final(runtime).wf(),
            self.listen_made(old(runtime)@, request, final(runtime)@, r),
    {
        let layer = self.layers[self.layers.len() - 1].id;
        match runtime.registry.subscribe(&mut runtime.scopes, layer, request, self.scope) {
            Ok(id) => Ok(Unsubscribe::new(id)),
            Err(error) => Err(error),
        }
    }

    fn dispatch(
        &self,
        runtime: &mut Runtime,
        event: &'static str,
        wanted: EventContract,
    ) -> (r: Result<Dispatch, CoreError>)
        requires
            self.wf(),
            old(runtime).wf(),
        ensures
            final(runtime).wf(),
            self.dispatch_made(
                old(runtime)@,
                event,
                wanted,
                final(runtime)@,
                match r {
                    Ok(dispatch) => Ok((dispatch.event, dispatch.selected@)),
                    Err(error) => Err(error),
                },
            ),
    {
        if runtime.scopes.is_disposed(self.scope) {
            return Err(CoreError::ContextDisposed);
        }
        runtime.registry.begin_dispatch(&self.layers, event, wanted)
    }

    fn install_exporter(
        &self,
        runtime: &mut Runtime,
        slot: ExporterSlot<Arc<dyn LogExporter>>,
    ) -> (r: Result<(), CoreError>)
        requires
            self.wf(),
            old(runtime).wf(),
            old(runtime)@.logger.next_exporter < u64::MAX,
        ensures
            final(runtime).wf(),
            self.exporter_made(old(runtime)@, slot, final(runtime)@, r),
    {
        if runtime.scopes.is_disposed(self.scope) {
            return Err(CoreError::ContextDisposed);
        }
        let id = runtime.logger.install(slot);
        runtime.scopes.on_dispose(self.scope, Cleanup::Exporter(id));
        Ok(())
    }

    /// Derives a view with a service domain of its own. It belongs to the same scope.
    pub fn extend(&self, runtime: &mut Runtime) -> (r: Result<Context, CoreError>)
        requires
            self.wf(),
            old(runtime).wf(),
            old(runtime)@.registry.next_id < u64::MAX,
        ensures
            final(runtime).wf(),
            r matches Ok(derived) ==> derived.wf(),
            self.within(old(runtime)@) ==> (r matches Ok(derived) ==> derived.within(
                final(runtime)@,
            )),
            self.extend_made(old(runtime)@, final(runtime)@, r),
    {
        if runtime.scopes.is_disposed(self.scope) {
            return Err(CoreError::ContextDisposed);
        }
        let layers = runtime.registry.extend_view(&self.layers);
        Ok(Context::new(layers, self.scope, self.source))
    }

    /// Derives a view in which one service is hidden behind a new label.
    pub fn isolate<T: Send + Sync + 'static>(
        &self,
        runtime: &mut Runtime,
        key: ServiceKey<T>,
    ) -> (r: Result<(Context, IsolationLabel), CoreError>)
        requires
            self.wf(),
            old(runtime).wf(),
            old(runtime)@.registry.next_id < u64::MAX,
            old(runtime)@.registry.next_label < u64::MAX,
        ensures
            final(runtime).wf(),
            r matches Ok((derived, _)) ==> derived.wf(),
            self.within(old(runtime)@) ==> (r matches Ok((derived, _)) ==> derived.within(
                final(runtime)@,
            )),
            self.isolate_made(old(runtime)@, key, final(runtime)@, r),
    {
        if runtime.scopes.is_disposed(self.scope) {
            return Err(CoreError::ContextDisposed);
        }
        let label = runtime.registry.allocate_isolation_label();
        match runtime.registry.isolate_view(&self.layers, key.id(), label) {
            Ok(layers) => Ok((Context::new(layers, self.scope, self.source), label)),
            Err(error) => Err(error),
        }
    }

    /// Derives a view in which one service is looked up under a label of this runtime.
    pub fn isolate_with<T: Send + Sync + 'static>(
        &self,
        runtime: &mut Runtime,
        key: ServiceKey<T>,
        label: IsolationLabel,
    ) -> (r: Result<Context, CoreError>)
        requires
            self.wf(),
            old(runtime).wf(),
            old(runtime)@.registry.next_id < u64::MAX,
        ensures
            final(runtime).wf(),
            r matches Ok(derived) ==> derived.wf(),
            self.within(old(runtime)@) ==> (r matches Ok(derived) ==> derived.within(
                final(runtime)@,
            )),
            self.isolate_with_made(old(runtime)@, key, label, final(runtime)@, r),
    {
        if runtime.scopes.is_disposed(self.scope) {
            return Err(CoreError::ContextDisposed);
        }
        match runtime.registry.isolate_view(&self.layers, key.id(), label) {
            Ok(layers) => Ok(Context::new(layers, self.scope, self.source)),
            Err(error) => Err(error),
        }
    }

    /// Derives a view in which a configuration entry is overridden; the payload stays with
    /// the host. Services are seen as before.
    pub fn intercept<T: Send + Sync + 'static>(
        &self,
        runtime: &mut Runtime,
        key: ConfigKey<T>,
        value: u64,
    ) -> (r: Result<Context, CoreError>)
        requires
            self.wf(),
            old(runtime).wf(),
            old(runtime)@.registry.next_id < u64::MAX,
        ensures
            final(runtime).wf(),
            r matches Ok(derived) ==> derived.wf(),
            self.within(old(runtime)@) ==> (r matches Ok(derived) ==> derived.within(
                final(runtime)@,
            )),
            self.intercept_made(old(runtime)@, key, value, final(runtime)@, r),
    {
        if runtime.scopes.is_disposed(self.scope) {
            return Err(CoreError::ContextDisposed);
        }
        let binding = ConfigBinding { config: key.id(), tag: key.type_id(), value };
        match runtime.registry.intercept_view(&self.layers, binding) {
            Ok(layers) => Ok(Context::new(layers, self.scope, self.source)),
            Err(error) => Err(error),
        }
    }

    /// The innermost value of a configuration entry.
    pub fn config<T: Send + Sync + 'static>(
        &self,
        runtime: &Runtime,
        key: ConfigKey<T>,
    ) -> (r: Result<u64, CoreError>)
        requires
            self.wf(),
            runtime.wf(),
        ensures
            r == self.config_found(runtime@, key),
    {
        if runtime.scopes.is_disposed(self.scope) {
            return Err(CoreError::ContextDisposed);
        }
        runtime.registry.resolve_config(&self.layers, key.id(), key.type_id())
    }

    /// Registers a service; it is withdrawn with the scope of this context. The service
    /// object stays with the host.
    pub fn provide<T: Send + Sync + 'static>(
        &self,
        runtime: &mut Runtime,
        key: ServiceKey<T>,
        value: u64,
    ) -> (r: Result<(), CoreError>)
        requires
            self.wf(),
            old(runtime).wf(),
            old(runtime)@.registry.next_id < u64::MAX,
        ensures
            final(runtime).wf(),
            self.provide_made(old(runtime)@, key, value, final(runtime)@, r),
    {
        let offer = Offer {
            service: key.id(),
            tag: key.type_id(),
            value,
            availability: ProviderAvailability::Ready,
            checked: false,
            fiber: self.source_fiber(),
        };
        match runtime.registry.provide(&mut runtime.scopes, &self.layers, offer, self.scope) {
            Ok(_) => Ok(()),
            Err(error) => Err(error),
        }
    }

    /// Registers a service with an availability check; `availability` is what the check said
    /// first.
    pub fn provide_checked<T: Send + Sync + 'static>(
        &self,
        runtime: &mut Runtime,
        key: ServiceKey<T>,
        value: u64,
        availability: ProviderAvailability,
    ) -> (r: Result<ProviderHandle, CoreError>)
        requires
            self.wf(),
            old(runtime).wf(),
            old(runtime)@.registry.next_id < u64::MAX,
        ensures
            final(runtime).wf(),
            self.provide_checked_made(old(runtime)@, key, value, availability, final(runtime)@, r),
    {
        let offer = Offer {
            service: key.id(),
            tag: key.type_id(),
            value,
            availability,
            checked: true,
            fiber: self.source_fiber(),
        };
        match runtime.registry.provide(&mut runtime.scopes, &self.layers, offer, self.scope) {
            Ok(provider_id) => Ok(ProviderHandle::new(provider_id, key.id())),
            Err(error) => Err(error),
        }
    }

    /// The service object that this view sees.
    pub fn get<T: Send + Sync + 'static>(
        &self,
        runtime: &Runtime,
        key: ServiceKey<T>,
    ) -> (r: Result<u64, CoreError>)
        requires
            self.wf(),
            runtime.wf(),
        ensures
            r == self.get_found(runtime@, key),
    {
        if runtime.scopes.is_disposed(self.scope) {
            return Err(CoreError::ContextDisposed);
        }
        typed_value(runtime.registry.resolve(&self.layers, key.id()), key.id(), key.type_id())
    }

    /// Runs a callback while all dependencies are there; the callback stays with the host.
    pub fn inject(
        &self,
        runtime: &mut Runtime,
        dependencies: Vec<ServiceId>,
        callback: u64,
    ) -> (r: Result<InjectionHandle, CoreError>)
        requires
            self.wf(),
            old(runtime).wf(),
            old(runtime)@.registry.next_id < u64::MAX,
        ensures
            final(runtime).wf(),
            self.inject_made(old(runtime)@, dependencies@, callback, final(runtime)@, r),
    {
        if runtime.scopes.is_disposed(self.scope) {
            return Err(CoreError::ContextDisposed);
        }
        match runtime.registry.register_injection(
            &mut runtime.scopes,
            &self.layers,
            self.scope,
            dependencies,
            callback,
        ) {
            Ok(id) => Ok(InjectionHandle::new(id)),
            Err(error) => Err(error),
        }
    }

    /// Creates an effect that is disposed with this context at the latest.
    pub fn effect(&self, runtime: &mut Runtime) -> (r: Result<EffectContext, CoreError>)
        requires
            self.wf(),
            old(runtime).wf(),
            old(runtime)@.next_scope < u64::MAX,
        ensures
            final(runtime).wf(),
            r matches Ok(effect) ==> effect.context_spec().wf(),
            self.within(old(runtime)@) ==> (r matches Ok(effect) ==> effect.context_spec().within(
                final(runtime)@,
            )),
            self.effect_named_made(old(runtime)@, "effect"@, final(runtime)@, r),
    {
        self.effect_named(runtime, "effect".to_owned())
    }

    /// Creates an effect with a name.
    pub fn effect_named(
        &self,
        runtime: &mut Runtime,
        name: String,
    ) -> (r: Result<EffectContext, CoreError>)
        requires
            self.wf(),
            old(runtime).wf(),
            old(runtime)@.next_scope < u64::MAX,
        ensures
            final(runtime).wf(),
            r matches Ok(effect) ==> effect.context_spec().wf(),
            self.within(old(runtime)@) ==> (r matches Ok(effect) ==> effect.context_spec().within(
                final(runtime)@,
            )),
            self.effect_named_made(old(runtime)@, name@, final(runtime)@, r),
    {
        if runtime.scopes.is_disposed(self.scope) {
            return Err(CoreError::ContextDisposed);
        }
        let scope = runtime.scopes.child_named(self.scope, name.clone());
        runtime.registry.register_effect(
            &mut runtime.scopes,
            scope,
            name,
            Some(self.scope),
            Some(self.layers.len() - 1),
            None,
        );
        Ok(EffectContext::from_context(self.with_scope(scope)))
    }

    /// Creates a context with a service domain and a scope of its own.
    pub fn child(&self, runtime: &mut Runtime) -> (r: Result<Context, CoreError>)
        requires
            self.wf(),
            old(runtime).wf(),
            old(runtime)@.registry.next_id < u64::MAX,
            old(runtime)@.next_scope < u64::MAX,
        ensures
            final(runtime).wf(),
            r matches Ok(derived) ==> derived.wf(),
            self.within(old(runtime)@) ==> (r matches Ok(derived) ==> derived.within(
                final(runtime)@,
            )),
            self.child_made(old(runtime)@, final(runtime)@, r),
    {
        if runtime.scopes.is_disposed(self.scope) {
            return Err(CoreError::ContextDisposed);
        }
        let layers = runtime.registry.extend_view(&self.layers);
        let scope = runtime.scopes.child(self.scope);
        Ok(Context::new(layers, scope, self.source))
    }

    /// Mounts a plugin, which stays with the host; the fiber is disposed with this context at
    /// the latest. The host starts its first activation.
    pub fn plugin(
        &self,
        runtime: &mut Runtime,
        key: PluginKey,
        plugin: u64,
        dependencies: Vec<ServiceId>,
    ) -> (r: Result<Fiber, CoreError>)
        requires
            self.wf(),
            old(runtime).wf(),
            old(runtime)@.registry.next_id < u64::MAX,
        ensures
            final(runtime).wf(),
            self.plugin_made(old(runtime)@, key, plugin, dependencies@, final(runtime)@, r),
    {
        if runtime.scopes.is_disposed(self.scope) {
            return Err(CoreError::ContextDisposed);
        }
        match runtime.registry.register_plugin_fiber(
            copy_layers(&self.layers),
            self.scope,
            key,
            plugin,
            dependencies,
        ) {
            Ok(id) => {
                runtime.scopes.on_dispose(self.scope, Cleanup::Fiber(id));
                Ok(Fiber::from_id(id))
            },
            Err(error) => Err(error),
        }
    }

    /// Observes an event; the handler stays with the host.
    pub fn on<T: Send + Sync + 'static>(
        &self,
        runtime: &mut Runtime,
        key: EventKey<T>,
        handler: u64,
    ) -> (r: Result<Unsubscribe, CoreError>)
        requires
            self.wf(),
            old(runtime).wf(),
            old(runtime)@.registry.next_id < u64::MAX,
        ensures
            final(runtime).wf(),
            self.listen_made(
                old(runtime)@,
                ListenRequest::plain(key.id_spec(), key.contract_spec(), handler),
                final(runtime)@,
                r,
            ),
    {
        self.on_with_options(runtime, key, ListenOptions::new(), handler)
    }

    /// Observes an event with options; the handler stays with the host.
    pub fn on_with_options<T: Send + Sync + 'static>(
        &self,
        runtime: &mut Runtime,
        key: EventKey<T>,
        options: ListenOptions<T>,
        handler: u64,
    ) -> (r: Result<Unsubscribe, CoreError>)
        requires
            self.wf(),
            old(runtime).wf(),
            old(runtime)@.registry.next_id < u64::MAX,
        ensures
            final(runtime).wf(),
            self.listen_made(
                old(runtime)@,
                options.request(key.id_spec(), key.contract_spec(), handler),
                final(runtime)@,
                r,
            ),
    {
        self.listen(runtime, options.to_request(key.id(), key.contract(), handler))
    }

    /// Takes part in a waterfall; the handler stays with the host.
    pub fn on_waterfall<T: Send + Sync + 'static>(
        &self,
        runtime: &mut Runtime,
        key: WaterfallKey<T>,
        handler: u64,
    ) -> (r: Result<Unsubscribe, CoreError>)
        requires
            self.wf(),
            old(runtime).wf(),
            old(runtime)@.registry.next_id < u64::MAX,
        ensures
            final(runtime).wf(),
            self.listen_made(
                old(runtime)@,
                ListenRequest::plain(key.id_spec(), key.contract_spec(), handler),
                final(runtime)@,
                r,
            ),
    {
        self.on_waterfall_with_options(runtime, key, ListenOptions::new(), handler)
    }

    /// Takes part in a waterfall with options; the handler stays with the host.
    pub fn on_waterfall_with_options<T: Send + Sync + 'static>(
        &self,
        runtime: &mut Runtime,
        key: WaterfallKey<T>,
        options: ListenOptions<T>,
        handler: u64,
    ) -> (r: Result<Unsubscribe, CoreError>)
        requires
            self.wf(),
            old(runtime).wf(),
            old(runtime)@.registry.next_id < u64::MAX,
        ensures
            final(runtime).wf(),
            self.listen_made(
                old(runtime)@,
                options.request(key.id_spec(), key.contract_spec(), handler),
                final(runtime)@,
                r,
            ),
    {
        self.listen(runtime, options.to_request(key.id(), key.contract(), handler))
    }

    /// Answers a serial event; the handler stays with the host.
    pub fn on_serial<T: Send + Sync + 'static, R: Send + Sync + 'static>(
        &self,
        runtime: &mut Runtime,
        key: SerialKey<T, R>,
        handler: u64,
    ) -> (r: Result<Unsubscribe, CoreError>)
        requires
            self.wf(),
            old(runtime).wf(),
            old(runtime)@.registry.next_id < u64::MAX,
        ensures
            final(runtime).wf(),
            self.listen_made(
                old(runtime)@,
                ListenRequest::plain(key.id_spec(), key.contract_spec(), handler),
                final(runtime)@,
                r,
            ),
    {
        self.on_serial_with_options(runtime, key, ListenOptions::new(), handler)
    }

    /// Answers a serial event with options; the handler stays with the host.
    pub fn on_serial_with_options<T: Send + Sync + 'static, R: Send + Sync + 'static>(
        &self,
        runtime: &mut Runtime,
        key: SerialKey<T, R>,
        options: ListenOptions<T>,
        handler: u64,
    ) -> (r: Result<Unsubscribe, CoreError>)
        requires
            self.wf(),
            old(runtime).wf(),
            old(runtime)@.registry.next_id < u64::MAX,
        ensures
            final(runtime).wf(),
            self.listen_made(
                old(runtime)@,
                options.request(key.id_spec(), key.contract_spec(), handler),
                final(runtime)@,
                r,
            ),
    {
        self.listen(runtime, options.to_request(key.id(), key.contract(), handler))
    }

    /// Handles a parallel event; the handler stays with the host.
    pub fn on_parallel<T: Send + Sync + 'static>(
        &self,
        runtime: &mut Runtime,
        key: ParallelKey<T>,
        handler: u64,
    ) -> (r: Result<Unsubscribe, CoreError>)
        requires
            self.wf(),
            old(runtime).wf(),
            old(runtime)@.registry.next_id < u64::MAX,
        ensures
            final(runtime).wf(),
            self.listen_made(
                old(runtime)@,
                ListenRequest::plain(key.id_spec(), key.contract_spec(), handler),
                final(runtime)@,
                r,
            ),
    {
        self.on_parallel_with_options(runtime, key, ListenOptions::new(), handler)
    }

    /// Handles a parallel event with options; the handler stays with the host.
    pub fn on_parallel_with_options<T: Send + Sync + 'static>(
        &self,
        runtime: &mut Runtime,
        key: ParallelKey<T>,
        options: ListenOptions<T>,
        handler: u64,
    ) -> (r: Result<Unsubscribe, CoreError>)
        requires
            self.wf(),
            old(runtime).wf(),
            old(runtime)@.registry.next_id < u64::MAX,
        ensures
            final(runtime).wf(),
            self.listen_made(
                old(runtime)@,
                options.request(key.id_spec(), key.contract_spec(), handler),
                final(runtime)@,
                r,
            ),
    {
        self.listen(runtime, options.to_request(key.id(), key.contract(), handler))
    }

    /// Begins to emit an observed event.
    pub fn emit<T: Send + Sync + 'static>(
        &self,
        runtime: &mut Runtime,
        key: EventKey<T>,
    ) -> (r: Result<Emission, CoreError>)
        requires
            self.wf(),
            old(runtime).wf(),
        ensures
            final(runtime).wf(),
            r matches Ok(emission) ==> emission@.at == 0 && !emission@.passed,
            self.dispatch_made(
                old(runtime)@,
                key.id_spec(),
                key.contract_spec(),
                final(runtime)@,
                match r {
                    Ok(dispatch) => Ok((dispatch@.event, dispatch@.selected)),
                    Err(error) => Err(error),
                },
            ),
    {
        match self.dispatch(runtime, key.id(), key.contract()) {
            Ok(dispatch) => Ok(Emission::new(dispatch)),
            Err(error) => Err(error),
        }
    }

    /// Begins a waterfall; the payload enters it with `Next::new(0)`.
    pub fn waterfall<T: Send + Sync + 'static>(
        &self,
        runtime: &mut Runtime,
        key: WaterfallKey<T>,
    ) -> (r: Result<Dispatch, CoreError>)
        requires
            self.wf(),
            old(runtime).wf(),
        ensures
            final(runtime).wf(),
            self.dispatch_made(
                old(runtime)@,
                key.id_spec(),
                key.contract_spec(),
                final(runtime)@,
                match r {
                    Ok(dispatch) => Ok((dispatch.event, dispatch.selected@)),
                    Err(error) => Err(error),
                },
            ),
    {
        match self.dispatch(runtime, key.id(), key.contract()) {
            Ok(dispatch) => Ok(dispatch),
            Err(error) => Err(error),
        }
    }

    /// Begins to ask for an answer to a serial event.
    pub fn serial<T: Send + Sync + 'static, R: Send + Sync + 'static>(
        &self,
        runtime: &mut Runtime,
        key: SerialKey<T, R>,
    ) -> (r: Result<Emission, CoreError>)
        requires
            self.wf(),
            old(runtime).wf(),
        ensures
            final(runtime).wf(),
            r matches Ok(emission) ==> emission@.at == 0 && !emission@.passed,
            self.dispatch_made(
                old(runtime)@,
                key.id_spec(),
                key.contract_spec(),
                final(runtime)@,
                match r {
                    Ok(dispatch) => Ok((dispatch@.event, dispatch@.selected)),
                    Err(error) => Err(error),
                },
            ),
    {
        match self.dispatch(runtime, key.id(), key.contract()) {
            Ok(dispatch) => Ok(Emission::new(dispatch)),
            Err(error) => Err(error),
        }
    }

    /// Begins a parallel event.
    pub fn parallel<T: Send + Sync + 'static>(
        &self,
        runtime: &mut Runtime,
        key: ParallelKey<T>,
    ) -> (r: Result<ParallelDispatch, CoreError>)
        requires
            self.wf(),
            old(runtime).wf(),
        ensures
            final(runtime).wf(),
            r matches Ok(begun) ==> begun.wf() && begun@.at == 0 && begun@.eligible.len() == 0,
            self.dispatch_made(
                old(runtime)@,
                key.id_spec(),
                key.contract_spec(),
                final(runtime)@,
                match r {
                    Ok(dispatch) => Ok((dispatch@.event, dispatch@.selected)),
                    Err(error) => Err(error),
                },
            ),
    {
        match self.dispatch(runtime, key.id(), key.contract()) {
            Ok(dispatch) => Ok(ParallelDispatch::new(dispatch)),
            Err(error) => Err(error),
        }
    }

    /// The handle of the logger configuration of this view, if there is one.
    pub fn logger_config(
        &self,
        runtime: &Runtime,
        key: ConfigKey<LoggerConfig>,
    ) -> (r: Result<Option<u64>, CoreError>)
        requires
            self.wf(),
            runtime.wf(),
        ensures
            r == self.logger_config_found(runtime@, key),
    {
        match self.config(runtime, key) {
            Ok(value) => Ok(Some(value)),
            Err(CoreError::ConfigUnavailable { .. }) => Ok(None),
            Err(error) => Err(error),
        }
    }

    /// The log as this context sees it, under the configuration that
    /// [`Self::logger_config`] found.
    pub fn logger(
        &self,
        runtime: &Runtime,
        config: Option<&LoggerConfig>,
    ) -> (r: Result<Logger, CoreError>)
        requires
            self.wf(),
            runtime.wf(),
        ensures
            self.logger_made(runtime@, config, r),
    {
        if runtime.scopes.is_disposed(self.scope) {
            return Err(CoreError::ContextDisposed);
        }
        let mut level = LogLevel::Info;
        let mut name: Option<String> = None;
        if let Some(settings) = config {
            if let Some(wanted) = settings.level {
                level = wanted;
            }
            if let Some(chosen) = &settings.name {
                name = Some(chosen.clone());
            }
        }
        let target = match name {
            Some(chosen) => chosen,
            None => match self.source {
                Some(source) => source.plugin_key.as_str().to_owned(),
                None => "root".to_owned(),
            },
        };
        let (fiber_id, plugin_key) = match self.source {
            Some(source) => (Some(source.fiber_id), Some(source.plugin_key)),
            None => (None, None),
        };
        Ok(Logger::new(runtime.logger.identity(), target, level, fiber_id, plugin_key))
    }

    /// Adds an exporter to the log; it is removed with the scope of this context.
    pub fn register_log_exporter(
        &self,
        runtime: &mut Runtime,
        exporter: Arc<dyn LogExporter>,
    ) -> (r: Result<(), CoreError>)
        requires
            self.wf(),
            old(runtime).wf(),
            old(runtime)@.logger.next_exporter < u64::MAX,
        ensures
            final(runtime).wf(),
            ({
                let slot = ExporterSlot { id: 0, exporter };
                self.exporter_made(old(runtime)@, slot, final(runtime)@, r)
            }),
    {
        let slot = ExporterSlot::unnumbered(exporter);
        self.install_exporter(runtime, slot)
    }

    /// The number of scopes directly below this context.
    pub fn child_scope_count(&self, runtime: &Runtime) -> (r: usize)
        requires
            self.wf(),
            runtime.wf(),
        ensures
            r == (if runtime@.scopes.contains_key(self.scope_spec()) {
                runtime@.scopes[self.scope_spec()].children.len()
            } else {
                0
            }),
    {
        runtime.scopes.child_scope_count(self.scope)
    }

    /// The scope of this context is disposed.
    pub fn is_disposed(&self, runtime: &Runtime) -> (r: bool)
        requires
            self.wf(),
            runtime.wf(),
        ensures
            r == runtime@.gone(self.scope_spec()),
    {
        runtime.scopes.is_disposed(self.scope)
    }

    /// Begins to dispose the scope of this context. What it leaves to wait for passes to its
    /// parent.
    pub fn dispose(&self, runtime: &mut Runtime) -> (r: Disposal)
        requires
            self.wf(),
            old(runtime).wf(),
        ensures
            final(runtime).wf(),
            begins_disposal(
                old(runtime)@,
                self.scope_spec(),
                DisposePolicy::HoistToParent,
                final(runtime)@,
                r@,
            ),
    {
        Disposal::start(&mut runtime.scopes, self.scope, DisposePolicy::HoistToParent)
    }
}

} // verus!
