//! What a context promises its user.

use crate::config::ConfigKey;
use crate::context::effect_context::EffectContext;
use crate::context::handles::{Fiber, InjectionHandle, ProviderHandle, Unsubscribe};
use crate::context::Context;
use crate::effect::Cleanup;
use crate::error::CoreError;
use crate::event::{EventContract, EventListener, ListenRequest};
use crate::isolation::IsolationLabel;
use crate::laws::services;
use crate::logger::{ExporterSlot, LogExporter, Logger, LoggerConfig};
use crate::plugin::PluginKey;
use crate::provider;
use crate::provider::ProviderAvailability;
use crate::registry::provide;
use crate::runtime::RuntimeModel;
use crate::service::{ServiceId, ServiceKey};
use crate::view;
use std::sync::Arc;
use vstd::prelude::*;

verus! {

/// The service that was provided is the one that is found, at once and until something
/// changes, by every context with the same view.
pub proof fn law_get_returns_what_was_provided<T: Send + Sync + 'static>(
    context: Context,
    before: RuntimeModel,
    key: ServiceKey<T>,
    value: u64,
    after: RuntimeModel,
    r: Result<(), CoreError>,
    reader: Context,
)
    requires
        before.registry.ok(),
        context.wf(),
        context.source_spec() matches Some(source) ==> provider::fiber_active(
            before.registry.fibers,
            source.fiber_id,
        ),
        context.provide_made(before, key, value, after, r),
        r is Ok,
        reader.layers_spec() == context.layers_spec(),
        !before.gone(reader.scope_spec()),
    ensures
        reader.get_found(after, key) == Ok::<u64, CoreError>(value),
{
    services::law_provided_service_resolves(
        before.registry,
        before.scopes,
        context.layers_spec(),
        context.offer(key, value, ProviderAvailability::Ready, false),
        context.scope_spec(),
    );
}

/// A provider that was refused changes nothing that any context finds.
pub proof fn law_refused_provide_changes_no_get<
    T: Send + Sync + 'static,
    U: Send + Sync + 'static,
>(
    context: Context,
    before: RuntimeModel,
    key: ServiceKey<T>,
    value: u64,
    after: RuntimeModel,
    r: Result<(), CoreError>,
    reader: Context,
    service: ServiceKey<U>,
)
    requires
        context.provide_made(before, key, value, after, r),
        r is Err,
    ensures
        after.scopes == before.scopes,
        after.registry.providers == before.registry.providers,
        reader.get_found(after, service) == reader.get_found(before, service),
{
}

/// The loggers of all contexts of a runtime write to the one log of the runtime, whatever the
/// views of the contexts.
pub proof fn law_loggers_share_the_log(
    runtime: RuntimeModel,
    one: Context,
    other: Context,
    config: Option<&LoggerConfig>,
    r: Result<Logger, CoreError>,
    s: Result<Logger, CoreError>,
)
    requires
        one.logger_made(runtime, config, r),
        other.logger_made(runtime, config, s),
        r is Ok,
        s is Ok,
    ensures
        r->Ok_0.service_spec() == runtime.logger.identity,
        s->Ok_0.service_spec() == r->Ok_0.service_spec(),
{
}

/// The configuration payload that was put in is the one that the derived context finds; the
/// context that it derives from finds what it found before.
pub proof fn law_config_returns_what_was_intercepted<T: Send + Sync + 'static>(
    context: Context,
    before: RuntimeModel,
    key: ConfigKey<T>,
    value: u64,
    after: RuntimeModel,
    r: Result<Context, CoreError>,
)
    requires
        context.wf(),
        context.intercept_made(before, key, value, after, r),
        r is Ok,
    ensures
        r->Ok_0.config_found(after, key) == Ok::<u64, CoreError>(value),
        context.config_found(after, key) == context.config_found(before, key),
{
    let derived = r->Ok_0.layers_spec();
    assert(derived.drop_last() =~= context.layers_spec());
}

/// Deriving a view changes nothing for the contexts that there are.
pub proof fn law_deriving_views_disturbs_nobody<
    T: Send + Sync + 'static,
    U: Send + Sync + 'static,
>(
    context: Context,
    before: RuntimeModel,
    isolated: ServiceKey<T>,
    after: RuntimeModel,
    r: Result<(Context, IsolationLabel), CoreError>,
    extended: RuntimeModel,
    s: Result<Context, CoreError>,
    other: Context,
    service: ServiceKey<U>,
    config: ConfigKey<U>,
)
    requires
        context.isolate_made(before, isolated, after, r),
        context.extend_made(before, extended, s),
    ensures
        other.get_found(after, service) == other.get_found(before, service),
        other.config_found(after, config) == other.config_found(before, config),
        other.get_found(extended, service) == other.get_found(before, service),
        other.config_found(extended, config) == other.config_found(before, config),
{
}

/// Two views that were derived from one context with [`Context::extend`] are as good as the
/// context itself until something is provided through them: each finds the service that the
/// context finds. What is then provided through one of them is found through it alone; the
/// context and the other view find what they found before. Both end with the scope of the
/// context: once it is disposed they find nothing and provide nothing.
pub proof fn law_extended_views_are_apart<T: Send + Sync + 'static>(
    context: Context,
    first: RuntimeModel,
    derived: RuntimeModel,
    one: Context,
    second: RuntimeModel,
    derived_again: RuntimeModel,
    two: Context,
    now: RuntimeModel,
    key: ServiceKey<T>,
    value: u64,
    after: RuntimeModel,
    r: Result<(), CoreError>,
)
    requires
        context.within(first),
        first.registry.next_id < u64::MAX,
        context.extend_made(first, derived, Ok::<Context, CoreError>(one)),
        derived.registry.next_id <= second.registry.next_id,
        second.registry.next_id < u64::MAX,
        context.extend_made(second, derived_again, Ok::<Context, CoreError>(two)),
        now.registry.ok(),
        !now.gone(context.scope_spec()),
        view::nearest_isolation(context.layers_spec(), key.id_spec()@) is None,
        provider::holder(
            now.registry.providers,
            provider::slot_for(one.layers_spec(), key.id_spec()@),
        ) is None,
        provider::holder(
            now.registry.providers,
            provider::slot_for(two.layers_spec(), key.id_spec()@),
        ) is None,
        provide::type_admitted(now.registry.service_types, key.id_spec()@, key.tag_spec()),
        context.source_spec() matches Some(source) ==> provider::fiber_active(
            now.registry.fibers,
            source.fiber_id,
        ),
        one.provide_made(now, key, value, after, r),
    ensures
        one.within(derived),
        two.within(derived_again),
        one.get_found(now, key) == context.get_found(now, key),
        two.get_found(now, key) == context.get_found(now, key),
        r is Ok,
        one.get_found(after, key) == Ok::<u64, CoreError>(value),
        context.get_found(after, key) == context.get_found(now, key),
        two.get_found(after, key) == context.get_found(now, key),
        forall|ended: RuntimeModel|
            #![trigger ended.gone(context.scope_spec())]
            ended.gone(context.scope_spec()) ==> {
                &&& one.get_found(ended, key) == Err::<u64, CoreError>(CoreError::ContextDisposed)
                &&& two.get_found(ended, key) == Err::<u64, CoreError>(CoreError::ContextDisposed)
            },
        forall|ended: RuntimeModel, last: RuntimeModel, refused: Result<(), CoreError>|
            #![trigger one.provide_made(ended, key, value, last, refused)]
            ended.gone(context.scope_spec()) && one.provide_made(
                ended,
                key,
                value,
                last,
                refused,
            ) ==> last == ended && refused == Err::<(), CoreError>(CoreError::ContextDisposed),
{
    let layers = context.layers_spec();
    let service = key.id_spec()@;
    let offer = one.offer(key, value, ProviderAvailability::Ready, false);
    let slot = provider::slot_for(one.layers_spec(), service);
    let id = first.registry.next_id;
    let id2 = second.registry.next_id;
    assert(one.layers_spec().drop_last() =~= layers);
    assert(two.layers_spec().drop_last() =~= layers);
    services::law_extended_view_inherits(now.registry, layers, id, service, service);
    services::law_extended_view_inherits(now.registry, layers, id2, service, service);
    law_get_returns_what_was_provided(one, now, key, value, after, r, one);
    assert(!services::looks_at(layers, service, slot));
    assert(!services::looks_at(two.layers_spec(), service, slot)) by {
        assert forall|i: int| 0 <= i < two.layers_spec().len() implies (
        #[trigger] two.layers_spec()[i]).domain != id by {
            if i < layers.len() {
                assert(two.layers_spec()[i] == layers[i]);
            }
        }
    }
    services::law_provide_leaves_other_views(
        now.registry,
        one.layers_spec(),
        offer,
        one.scope_spec(),
        layers,
        service,
    );
    services::law_provide_leaves_other_views(
        now.registry,
        one.layers_spec(),
        offer,
        one.scope_spec(),
        two.layers_spec(),
        service,
    );
}

/// A context whose scope is disposed is told so, whatever it asks for, and nothing changes.
pub proof fn law_disposed_context_is_refused<
    T: Send + Sync + 'static,
    U: Send + Sync + 'static,
>(
    context: Context,
    before: RuntimeModel,
    service: ServiceKey<T>,
    config: ConfigKey<U>,
)
    requires
        before.gone(context.scope_spec()),
    ensures
        forall|after: RuntimeModel, r: Result<Context, CoreError>|
            #![trigger context.extend_made(before, after, r)]
            context.extend_made(before, after, r) ==> after == before && r == Err::<
                Context,
                CoreError,
            >(CoreError::ContextDisposed),
        forall|after: RuntimeModel, r: Result<Context, CoreError>|
            #![trigger context.child_made(before, after, r)]
            context.child_made(before, after, r) ==> after == before && r == Err::<
                Context,
                CoreError,
            >(CoreError::ContextDisposed),
        forall|after: RuntimeModel, r: Result<(Context, IsolationLabel), CoreError>|
            #![trigger context.isolate_made(before, service, after, r)]
            context.isolate_made(before, service, after, r) ==> after == before && r == Err::<
                (Context, IsolationLabel),
                CoreError,
            >(CoreError::ContextDisposed),
        forall|value: u64, after: RuntimeModel, r: Result<Context, CoreError>|
            #![trigger context.intercept_made(before, config, value, after, r)]
            context.intercept_made(before, config, value, after, r) ==> after == before && r
                == Err::<Context, CoreError>(CoreError::ContextDisposed),
        forall|value: u64, after: RuntimeModel, r: Result<(), CoreError>|
            #![trigger context.provide_made(before, service, value, after, r)]
            context.provide_made(before, service, value, after, r) ==> after == before && r
                == Err::<(), CoreError>(CoreError::ContextDisposed),
        forall|
            services: Seq<ServiceId>,
            callback: u64,
            after: RuntimeModel,
            r: Result<InjectionHandle, CoreError>,
        |
            #![trigger context.inject_made(before, services, callback, after, r)]
            context.inject_made(before, services, callback, after, r) ==> after == before && r
                == Err::<InjectionHandle, CoreError>(CoreError::ContextDisposed),
        forall|name: Seq<char>, after: RuntimeModel, r: Result<EffectContext, CoreError>|
            #![trigger context.effect_named_made(before, name, after, r)]
            context.effect_named_made(before, name, after, r) ==> after == before && r == Err::<
                EffectContext,
                CoreError,
            >(CoreError::ContextDisposed),
        forall|
            key: PluginKey,
            plugin: u64,
            services: Seq<ServiceId>,
            after: RuntimeModel,
            r: Result<Fiber, CoreError>,
        |
            #![trigger context.plugin_made(before, key, plugin, services, after, r)]
            context.plugin_made(before, key, plugin, services, after, r) ==> after == before && r
                == Err::<Fiber, CoreError>(CoreError::ContextDisposed),
        forall|request: ListenRequest, after: RuntimeModel, r: Result<Unsubscribe, CoreError>|
            #![trigger context.listen_made(before, request, after, r)]
            context.listen_made(before, request, after, r) ==> after == before && r == Err::<
                Unsubscribe,
                CoreError,
            >(CoreError::ContextDisposed),
        forall|
            event: &'static str,
            wanted: EventContract,
            after: RuntimeModel,
            r: Result<(&'static str, Seq<EventListener>), CoreError>,
        |
            #![trigger context.dispatch_made(before, event, wanted, after, r)]
            context.dispatch_made(before, event, wanted, after, r) ==> after == before && r
                == Err::<(&'static str, Seq<EventListener>), CoreError>(CoreError::ContextDisposed),
        context.get_found(before, service) == Err::<u64, CoreError>(CoreError::ContextDisposed),
        context.config_found(before, config) == Err::<u64, CoreError>(CoreError::ContextDisposed),
{
}

/// Whatever is registered through a context is recorded as the next thing that its scope
/// withdraws.
pub proof fn law_registrations_belong_to_the_scope<T: Send + Sync + 'static>(
    context: Context,
    before: RuntimeModel,
    key: ServiceKey<T>,
    value: u64,
    after: RuntimeModel,
)
    requires
        !before.gone(context.scope_spec()),
    ensures
        forall|r: Result<(), CoreError>|
            #![trigger context.provide_made(before, key, value, after, r)]
            context.provide_made(before, key, value, after, r) && r is Ok
                ==> after.scopes[context.scope_spec()].cleanups
                == before.scopes[context.scope_spec()].cleanups.push(
                Cleanup::Provider(before.registry.next_id),
            ),
        forall|availability: ProviderAvailability, r: Result<ProviderHandle, CoreError>|
            #![trigger context.provide_checked_made(before, key, value, availability, after, r)]
            context.provide_checked_made(before, key, value, availability, after, r) && r is Ok
                ==> after.scopes[context.scope_spec()].cleanups
                == before.scopes[context.scope_spec()].cleanups.push(
                Cleanup::Provider(before.registry.next_id),
            ),
        forall|request: ListenRequest, r: Result<Unsubscribe, CoreError>|
            #![trigger context.listen_made(before, request, after, r)]
            context.listen_made(before, request, after, r) && r is Ok
                ==> after.scopes[context.scope_spec()].cleanups
                == before.scopes[context.scope_spec()].cleanups.push(
                Cleanup::Listener(before.registry.next_id),
            ),
        forall|services: Seq<ServiceId>, callback: u64, r: Result<InjectionHandle, CoreError>|
            #![trigger context.inject_made(before, services, callback, after, r)]
            context.inject_made(before, services, callback, after, r) && r is Ok
                ==> after.scopes[context.scope_spec()].cleanups
                == before.scopes[context.scope_spec()].cleanups.push(
                Cleanup::Injection(before.registry.next_id),
            ),
        forall|
            plugin_key: PluginKey,
            plugin: u64,
            services: Seq<ServiceId>,
            r: Result<Fiber, CoreError>,
        |
            #![trigger context.plugin_made(before, plugin_key, plugin, services, after, r)]
            context.plugin_made(before, plugin_key, plugin, services, after, r) && r is Ok
                ==> after.scopes[context.scope_spec()].cleanups
                == before.scopes[context.scope_spec()].cleanups.push(
                Cleanup::Fiber(before.registry.next_id),
            ),
        forall|slot: ExporterSlot<Arc<dyn LogExporter>>, r: Result<(), CoreError>|
            #![trigger context.exporter_made(before, slot, after, r)]
            context.exporter_made(before, slot, after, r) && r is Ok
                ==> after.scopes[context.scope_spec()].cleanups
                == before.scopes[context.scope_spec()].cleanups.push(
                Cleanup::Exporter(before.logger.next_exporter),
            ),
{
}

} // verus!
