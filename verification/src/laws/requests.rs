//! What a context does for its user, request by request.

use crate::config::ConfigKey;
use crate::context;
use crate::context::effect_context::EffectContext;
use crate::context::handles::{Fiber, InjectionHandle, ProviderHandle, Unsubscribe};
use crate::context::Context;
use crate::effect::dispose::{DisposePolicy, FrameModel};
use crate::effect::{Cleanup, ScopeModel};
use crate::error::CoreError;
use crate::fiber::{FiberState, HandleHandoff};
use crate::injection::InjectionPhase;
use crate::isolation::IsolationLabel;
use crate::event::ListenRequest;
use crate::laws::dispatches;
use crate::laws::lookup;
use crate::laws::runs;
use crate::logger::{ExporterSlot, LogExporter, LogLevel, Logger, LoggerConfig};
use crate::plugin::PluginKey;
use crate::provider;
use crate::provider::{ProviderAvailability, ProviderKey};
use crate::registry;
use crate::registry::groups;
use crate::registry::views;
use crate::registry::RegistryModel;
use crate::runtime::RuntimeModel;
use crate::service::{ServiceId, ServiceKey};
use crate::view;
use crate::view::Layer;
use std::sync::Arc;
use vstd::prelude::*;

verus! {

/// The derived context is the one that it derives from with one more layer, in the same scope
/// and on behalf of the same plugin.
pub open spec fn adds_layer(base: Context, derived: Context, layer: Layer) -> bool {
    &&& derived.layers_spec() == base.layers_spec().push(layer)
    &&& derived.scope_spec() == base.scope_spec()
    &&& derived.source_spec() == base.source_spec()
}

/// Identifiers and labels aside, the runtime is as it was.
pub open spec fn only_numbers(before: RuntimeModel, after: RuntimeModel) -> bool {
    &&& after.scopes == before.scopes
    &&& after.next_scope == before.next_scope
    &&& after.logger == before.logger
    &&& after.closing == before.closing
    &&& after.root_layers == before.root_layers
    &&& after.root_scope == before.root_scope
    &&& after.registry == (RegistryModel {
        next_id: after.registry.next_id,
        next_label: after.registry.next_label,
        isolations: after.registry.isolations,
        config_types: after.registry.config_types,
        ..before.registry
    })
}

/// A context whose scope is alive can be extended: the new view has a domain of its own, under
/// an identifier that was not given out.
pub proof fn law_extend_opens_a_domain(
    context: Context,
    before: RuntimeModel,
    after: RuntimeModel,
    r: Result<Context, CoreError>,
)
    requires
        context.extend_made(before, after, r),
        before.registry.next_id < u64::MAX,
    ensures
        r is Ok <==> runs::alive(before.scopes, context.scope_spec()),
        r matches Err(error) ==> error == CoreError::ContextDisposed && after == before,
        r matches Ok(derived) ==> {
            let id = before.registry.next_id;
            &&& adds_layer(
                context,
                derived,
                Layer { id, domain: id, isolation: None, config: None },
            )
            &&& after.registry.next_id == id + 1
            &&& after.registry.isolations == before.registry.isolations
            &&& after.registry.config_types == before.registry.config_types
            &&& only_numbers(before, after)
        },
{
}

/// A service is isolated in the domain of the view behind a label that no other has.
pub proof fn law_isolate_hides_behind_a_new_label<T: Send + Sync + 'static>(
    context: Context,
    before: RuntimeModel,
    key: ServiceKey<T>,
    after: RuntimeModel,
    r: Result<(Context, IsolationLabel), CoreError>,
)
    requires
        context.wf(),
        context.isolate_made(before, key, after, r),
        before.registry.next_id < u64::MAX,
        before.registry.next_label < u64::MAX,
    ensures
        r is Ok <==> runs::alive(before.scopes, context.scope_spec()),
        r matches Err(error) ==> error == CoreError::ContextDisposed && after == before,
        r matches Ok((derived, label)) ==> {
            let layers = context.layers_spec();
            let made = derived.layers_spec()[layers.len() as int];
            &&& label.id_spec() == before.registry.next_label
            &&& label.token_spec() == before.registry.identity
            &&& adds_layer(context, derived, made)
            &&& made.id == before.registry.next_id
            &&& made.domain == layers[layers.len() - 1].domain
            &&& made.isolation matches Some(binding) && binding.service == key.id_spec()
                && binding.label == label.id_spec()
            &&& made.config is None
            &&& after.registry.next_id == before.registry.next_id + 1
            &&& after.registry.next_label == before.registry.next_label + 1
            &&& after.registry.isolations == before.registry.isolations.push(label.id_spec())
            &&& after.registry.config_types == before.registry.config_types
            &&& only_numbers(before, after)
        },
{
}

/// A label of this runtime can be used again, one of another runtime cannot.
pub proof fn law_isolate_with_shares_a_label<T: Send + Sync + 'static>(
    context: Context,
    before: RuntimeModel,
    key: ServiceKey<T>,
    label: IsolationLabel,
    after: RuntimeModel,
    r: Result<Context, CoreError>,
)
    requires
        context.wf(),
        context.isolate_with_made(before, key, label, after, r),
        before.registry.next_id < u64::MAX,
    ensures
        r is Ok <==> runs::alive(before.scopes, context.scope_spec()) && label.token_spec()
            == before.registry.identity,
        r is Err ==> after == before,
        !runs::alive(before.scopes, context.scope_spec()) ==> r == Err::<Context, CoreError>(
            CoreError::ContextDisposed,
        ),
        runs::alive(before.scopes, context.scope_spec()) && label.token_spec()
            != before.registry.identity ==> r == Err::<Context, CoreError>(
            CoreError::IsolationRuntimeMismatch,
        ),
        r matches Ok(derived) ==> {
            let layers = context.layers_spec();
            let made = derived.layers_spec()[layers.len() as int];
            &&& adds_layer(context, derived, made)
            &&& made.id == before.registry.next_id
            &&& made.domain == layers[layers.len() - 1].domain
            &&& made.isolation matches Some(binding) && binding.service == key.id_spec()
                && binding.label == label.id_spec()
            &&& made.config is None
            &&& after.registry.next_id == before.registry.next_id + 1
            &&& after.registry.isolations == before.registry.isolations
            &&& only_numbers(before, after)
        },
{
}

/// An entry is overridden in the domain of the view, under the type that its name is bound to;
/// the first use binds it.
pub proof fn law_intercept_binds_the_entry<T: Send + Sync + 'static>(
    context: Context,
    before: RuntimeModel,
    key: ConfigKey<T>,
    value: u64,
    after: RuntimeModel,
    r: Result<Context, CoreError>,
)
    requires
        context.wf(),
        context.intercept_made(before, key, value, after, r),
        before.registry.next_id < u64::MAX,
    ensures
        ({
            let name = key.id_spec()@;
            let types = before.registry.config_types;
            let alive = runs::alive(before.scopes, context.scope_spec());
            let fits = !types.contains_key(name) || types[name] == key.tag_spec();
            &&& r is Ok <==> alive && fits
            &&& r is Err ==> after == before
            &&& !alive ==> r == Err::<Context, CoreError>(CoreError::ContextDisposed)
            &&& alive && !fits ==> r == Err::<Context, CoreError>(
                CoreError::ConfigKeyTypeConflict { config: key.id_spec() },
            )
            &&& r is Ok ==> after.registry.config_types == types.insert(name, key.tag_spec())
        }),
        r matches Ok(derived) ==> {
            let layers = context.layers_spec();
            let made = derived.layers_spec()[layers.len() as int];
            &&& adds_layer(context, derived, made)
            &&& made.id == before.registry.next_id
            &&& made.domain == layers[layers.len() - 1].domain
            &&& made.isolation is None
            &&& made.config matches Some(binding) && binding.config == key.id_spec()
                && binding.tag == key.tag_spec() && binding.value == value
            &&& after.registry.next_id == before.registry.next_id + 1
            &&& only_numbers(before, after)
        },
{
    let name = key.id_spec()@;
    let types = before.registry.config_types;
    if types.contains_key(name) && types[name] == key.tag_spec() {
        assert(types.insert(name, key.tag_spec()) =~= types);
    }
}

/// An effect is a new scope below that of the context, seen through the same view. It is listed
/// under its name until its scope is disposed.
pub proof fn law_effect_is_a_scope_below(
    context: Context,
    before: RuntimeModel,
    name: Seq<char>,
    after: RuntimeModel,
    r: Result<EffectContext, CoreError>,
)
    requires
        context.wf(),
        before.next_scope != context.scope_spec(),
        before.next_scope < u64::MAX,
        context.effect_named_made(before, name, after, r),
    ensures
        r is Ok <==> runs::alive(before.scopes, context.scope_spec()),
        r matches Err(error) ==> error == CoreError::ContextDisposed && after == before,
        r matches Ok(made) ==> {
            let scope = before.next_scope;
            let parent = context.scope_spec();
            let held = before.scopes[parent];
            let born = after.scopes[scope];
            &&& made.context_spec().layers_spec() == context.layers_spec()
            &&& made.context_spec().scope_spec() == scope
            &&& made.context_spec().source_spec() == context.source_spec()
            &&& after.next_scope == scope + 1
            &&& born.name == name
            &&& born.parent == Some(parent)
            &&& born.ancestors == held.ancestors.push(parent)
            &&& !born.disposed
            &&& born.cleanups == seq![Cleanup::Effect(scope)]
            &&& born.children.len() == 0
            &&& born.disposers.len() == 0
            &&& born.work.len() == 0
            &&& after.scopes[parent] == (ScopeModel {
                children: held.children.push(scope),
                ..held
            })
            &&& forall|other: u64|
                other != scope && other != parent && #[trigger] before.scopes.contains_key(other)
                    ==> after.scopes[other] == before.scopes[other]
            &&& after.registry.effects.contains_key(scope)
            &&& after.registry.effects[scope].name == name
            &&& after.registry.effects[scope].parent == Some(parent)
            &&& after.registry.effects[scope].depth == Some(
                (context.layers_spec().len() - 1) as usize,
            )
            &&& after.registry.effects[scope].fiber_id is None
            &&& after.registry == (RegistryModel {
                effects: after.registry.effects,
                ..before.registry
            })
            &&& after.logger == before.logger
            &&& after.closing == before.closing
        },
{
    assert(Seq::<Cleanup>::empty().push(Cleanup::Effect(before.next_scope))
        =~= seq![Cleanup::Effect(before.next_scope)]);
}

/// A child context has a domain and a scope of its own, below those of the context.
pub proof fn law_child_has_domain_and_scope(
    context: Context,
    before: RuntimeModel,
    after: RuntimeModel,
    r: Result<Context, CoreError>,
)
    requires
        before.next_scope != context.scope_spec(),
        before.next_scope < u64::MAX,
        before.registry.next_id < u64::MAX,
        context.child_made(before, after, r),
    ensures
        r is Ok <==> runs::alive(before.scopes, context.scope_spec()),
        r matches Err(error) ==> error == CoreError::ContextDisposed && after == before,
        r matches Ok(derived) ==> {
            let id = before.registry.next_id;
            let scope = before.next_scope;
            let parent = context.scope_spec();
            let held = before.scopes[parent];
            &&& derived.layers_spec() == context.layers_spec().push(
                Layer { id, domain: id, isolation: None, config: None },
            )
            &&& derived.scope_spec() == scope
            &&& derived.source_spec() == context.source_spec()
            &&& after.next_scope == scope + 1
            &&& after.registry.next_id == id + 1
            &&& after.scopes[scope].parent == Some(parent)
            &&& after.scopes[scope].ancestors == held.ancestors.push(parent)
            &&& runs::alive(after.scopes, scope)
            &&& after.scopes[parent] == (ScopeModel {
                children: held.children.push(scope),
                ..held
            })
            &&& forall|other: u64|
                other != scope && other != parent && #[trigger] before.scopes.contains_key(other)
                    ==> after.scopes[other] == before.scopes[other]
            &&& after.registry == (RegistryModel { next_id: (id + 1) as u64, ..before.registry })
            &&& after.logger == before.logger
        },
{
}

/// A plugin is mounted exactly if the scope of the context is alive and the plugin is not being
/// unmounted. Its fiber waits then, on the view and below the scope of the context, with the
/// plugin and the dependencies that were given, and the scope withdraws it.
pub proof fn law_plugin_is_mounted_as_asked(
    context: Context,
    before: RuntimeModel,
    key: PluginKey,
    plugin: u64,
    dependencies: Seq<ServiceId>,
    after: RuntimeModel,
    r: Result<Fiber, CoreError>,
)
    requires
        registry::groups_ok(before.registry.groups),
        context.plugin_made(before, key, plugin, dependencies, after, r),
    ensures
        ({
            let alive = runs::alive(before.scopes, context.scope_spec());
            let blocked = exists|i: int|
                0 <= i < before.registry.groups.len() && (
                #[trigger] before.registry.groups[i]).key@ == key@
                    && before.registry.groups[i].unmounting;
            &&& r is Ok <==> alive && !blocked
            &&& r is Err ==> after == before
            &&& !alive ==> r == Err::<Fiber, CoreError>(CoreError::ContextDisposed)
            &&& alive && blocked ==> r == Err::<Fiber, CoreError>(
                CoreError::PluginUnmounting { plugin: key },
            )
        }),
        r matches Ok(fiber) ==> {
            let id = before.registry.next_id;
            let scope = context.scope_spec();
            let made = after.registry.fibers[id];
            &&& fiber.id_spec() == id
            &&& after.registry.fibers == before.registry.fibers.insert(id, made)
            &&& made.plugin_key == key
            &&& made.layers == context.layers_spec()
            &&& made.parent_scope == scope
            &&& made.plugin == plugin
            &&& made.dependencies == dependencies
            &&& made.state == FiberState::Pending
            &&& made.ownership is Empty
            &&& made.registered
            &&& !made.disposed
            &&& !made.busy
            &&& made.handoff == HandleHandoff::Preparing
            &&& after.scopes == before.scopes.insert(
                scope,
                ScopeModel {
                    cleanups: before.scopes[scope].cleanups.push(Cleanup::Fiber(id)),
                    ..before.scopes[scope]
                },
            )
            &&& after.registry.groups == groups::group_joined(before.registry.groups, key, id)
            &&& after == (RuntimeModel {
                registry: RegistryModel {
                    next_id: (id + 1) as u64,
                    fibers: after.registry.fibers,
                    groups: after.registry.groups,
                    outbox: after.registry.outbox,
                    ..before.registry
                },
                scopes: after.scopes,
                ..before
            })
        },
{
    if exists|i: int|
        0 <= i < before.registry.groups.len() && (#[trigger] before.registry.groups[i]).key@
            == key@ && before.registry.groups[i].unmounting {
        let i = choose|i: int|
            0 <= i < before.registry.groups.len() && (#[trigger] before.registry.groups[i]).key@
                == key@ && before.registry.groups[i].unmounting;
        groups::lemma_group_at(before.registry.groups, i);
    }
}

/// An injection through a context is one of its view, below its scope.
pub proof fn law_inject_uses_view_and_scope(
    context: Context,
    before: RuntimeModel,
    dependencies: Seq<ServiceId>,
    callback: u64,
    after: RuntimeModel,
    r: Result<InjectionHandle, CoreError>,
)
    requires
        context.inject_made(before, dependencies, callback, after, r),
    ensures
        ({
            let alive = runs::alive(before.scopes, context.scope_spec());
            &&& r is Ok <==> alive && dependencies.len() > 0
            &&& r is Err ==> after == before
            &&& !alive ==> r == Err::<InjectionHandle, CoreError>(CoreError::ContextDisposed)
            &&& alive && dependencies.len() == 0 ==> r == Err::<InjectionHandle, CoreError>(
                CoreError::EmptyInjection,
            )
        }),
        r matches Ok(handle) ==> {
            let id = before.registry.next_id;
            let made = after.registry.injections[id];
            &&& handle.id_spec() == id
            &&& after.registry.injections == before.registry.injections.insert(id, made)
            &&& made.layers == context.layers_spec()
            &&& made.parent_scope == context.scope_spec()
            &&& made.dependencies == dependencies
            &&& made.callback == callback
            &&& made.phase == InjectionPhase::Pending
            &&& after == (RuntimeModel {
                registry: RegistryModel {
                    next_id: (id + 1) as u64,
                    injections: after.registry.injections,
                    dirty: true,
                    epoch: after.registry.epoch,
                    ..before.registry
                },
                scopes: before.scopes.insert(
                    context.scope_spec(),
                    ScopeModel {
                        cleanups: before.scopes[context.scope_spec()].cleanups.push(
                            Cleanup::Injection(id),
                        ),
                        ..before.scopes[context.scope_spec()]
                    },
                ),
                ..before
            })
        },
{
}

/// What a context provides bears the name and the type of the key and the object that was
/// given, belongs to the scope of the context, and counts only while the plugin on whose behalf
/// the context works is active. A name is provided with one type.
pub proof fn law_provide_uses_view_and_scope<T: Send + Sync + 'static>(
    context: Context,
    before: RuntimeModel,
    key: ServiceKey<T>,
    value: u64,
    after: RuntimeModel,
    r: Result<(), CoreError>,
)
    requires
        context.wf(),
        context.provide_made(before, key, value, after, r),
    ensures
        ({
            let name = key.id_spec()@;
            let types = before.registry.service_types;
            let alive = runs::alive(before.scopes, context.scope_spec());
            let fits = !types.contains_key(name) || types[name] == key.tag_spec();
            &&& !alive ==> r == Err::<(), CoreError>(CoreError::ContextDisposed)
            &&& alive && !fits ==> r == Err::<(), CoreError>(
                CoreError::ServiceKeyTypeConflict { service: key.id_spec() },
            )
            &&& alive && fits && r is Err ==> r == Err::<(), CoreError>(
                CoreError::ServiceConflict { service: key.id_spec() },
            )
            &&& r is Err ==> after.registry.providers == before.registry.providers
                && after.scopes == before.scopes
        }),
        r is Ok ==> {
            let id = before.registry.next_id;
            let layers = context.layers_spec();
            let made = after.registry.providers[id];
            &&& after.registry.providers == before.registry.providers.insert(id, made)
            &&& made.value == value
            &&& made.tag == key.tag_spec()
            &&& made.availability is Ready
            &&& !made.checked
            &&& made.effect_id == Some(context.scope_spec())
            &&& made.fiber == match context.source_spec() {
                Some(source) => Some(source.fiber_id),
                None => None,
            }
            &&& made.key == match view::nearest_isolation(layers, key.id_spec()@) {
                Some(isolation) => ProviderKey::Isolated { isolation, service: key.id_spec() },
                None => ProviderKey::Local {
                    domain: layers[layers.len() - 1].domain,
                    service: key.id_spec(),
                },
            }
            &&& after == (RuntimeModel {
                registry: RegistryModel {
                    next_id: (id + 1) as u64,
                    service_types: after.registry.service_types,
                    providers: after.registry.providers,
                    dirty: true,
                    epoch: after.registry.epoch,
                    ..before.registry
                },
                scopes: before.scopes.insert(
                    context.scope_spec(),
                    ScopeModel {
                        cleanups: before.scopes[context.scope_spec()].cleanups.push(
                            Cleanup::Provider(id),
                        ),
                        ..before.scopes[context.scope_spec()]
                    },
                ),
                ..before
            })
        },
{
}

/// The same of a provider with a check; it is as available as the check said first.
pub proof fn law_provide_checked_uses_view_and_scope<T: Send + Sync + 'static>(
    context: Context,
    before: RuntimeModel,
    key: ServiceKey<T>,
    value: u64,
    availability: ProviderAvailability,
    after: RuntimeModel,
    r: Result<ProviderHandle, CoreError>,
)
    requires
        context.wf(),
        context.provide_checked_made(before, key, value, availability, after, r),
    ensures
        !runs::alive(before.scopes, context.scope_spec()) ==> r == Err::<ProviderHandle, CoreError>(
            CoreError::ContextDisposed,
        ),
        r is Err ==> after.registry.providers == before.registry.providers && after.scopes
            == before.scopes,
        r matches Ok(handle) ==> {
            let id = before.registry.next_id;
            let layers = context.layers_spec();
            let made = after.registry.providers[id];
            &&& handle.provider_spec() == id
            &&& handle.service_spec() == key.id_spec()
            &&& after.registry.providers == before.registry.providers.insert(id, made)
            &&& made.value == value
            &&& made.tag == key.tag_spec()
            &&& made.availability == availability
            &&& made.checked
            &&& made.effect_id == Some(context.scope_spec())
            &&& made.fiber == match context.source_spec() {
                Some(source) => Some(source.fiber_id),
                None => None,
            }
            &&& made.key == match view::nearest_isolation(layers, key.id_spec()@) {
                Some(isolation) => ProviderKey::Isolated { isolation, service: key.id_spec() },
                None => ProviderKey::Local {
                    domain: layers[layers.len() - 1].domain,
                    service: key.id_spec(),
                },
            }
            &&& after == (RuntimeModel {
                registry: RegistryModel {
                    next_id: (id + 1) as u64,
                    service_types: after.registry.service_types,
                    providers: after.registry.providers,
                    dirty: true,
                    epoch: after.registry.epoch,
                    ..before.registry
                },
                scopes: before.scopes.insert(
                    context.scope_spec(),
                    ScopeModel {
                        cleanups: before.scopes[context.scope_spec()].cleanups.push(
                            Cleanup::Provider(id),
                        ),
                        ..before.scopes[context.scope_spec()]
                    },
                ),
                ..before
            })
        },
{
}

/// A context finds a service exactly if its scope is alive and its view resolves the name to a
/// provider of the type of the key; it finds that provider's object.
pub proof fn law_get_finds_what_the_view_resolves<T: Send + Sync + 'static>(
    context: Context,
    runtime: RuntimeModel,
    key: ServiceKey<T>,
)
    ensures
        ({
            let found = runtime.registry.resolve(context.layers_spec(), key.id_spec()@);
            let alive = runs::alive(runtime.scopes, context.scope_spec());
            let provider = runtime.registry.providers[found->0];
            &&& context.get_found(runtime, key) is Ok <==> alive && found is Some && provider.tag
                == key.tag_spec()
            &&& context.get_found(runtime, key) matches Ok(value) ==> value == provider.value
            &&& !alive ==> context.get_found(runtime, key) == Err::<u64, CoreError>(
                CoreError::ContextDisposed,
            )
            &&& alive && found is None ==> context.get_found(runtime, key) == Err::<
                u64,
                CoreError,
            >(CoreError::ServiceUnavailable { service: key.id_spec() })
            &&& alive && found is Some && provider.tag != key.tag_spec() ==> context.get_found(
                runtime,
                key,
            ) == Err::<u64, CoreError>(
                CoreError::ServiceTypeMismatch { service: key.id_spec() },
            )
        }),
{
}

/// A logger bears the name that was configured, or else that of the plugin, or else that of the
/// root; it carries the threshold that was configured, or else that for information, and says
/// on whose behalf it writes.
pub proof fn law_logger_is_named(
    context: Context,
    runtime: RuntimeModel,
    config: Option<&LoggerConfig>,
    r: Result<Logger, CoreError>,
)
    requires
        context.logger_made(runtime, config, r),
    ensures
        r is Ok <==> runs::alive(runtime.scopes, context.scope_spec()),
        r matches Err(error) ==> error == CoreError::ContextDisposed,
        r matches Ok(logger) ==> {
            let named = config is Some && config->0.name is Some;
            let source = context.source_spec();
            &&& logger.service_spec() == runtime.logger.identity
            &&& named ==> logger.target_spec() == config->0.name->0@
            &&& !named && source is Some ==> logger.target_spec() == source->0.plugin_key@
            &&& !named && source is None ==> logger.target_spec() == "root"@
            &&& config is Some && config->0.level is Some ==> logger.level_spec()
                == config->0.level->0
            &&& config is None || config->0.level is None ==> logger.level_spec() == LogLevel::Info
            &&& source is Some ==> logger.fiber_spec() == Some(source->0.fiber_id)
                && logger.plugin_spec() == Some(source->0.plugin_key)
            &&& source is None ==> logger.fiber_spec() is None && logger.plugin_spec() is None
        },
{
}

/// An exporter joins the log at the end, under the next number, and is withdrawn with the scope
/// of the context.
pub proof fn law_exporter_belongs_to_the_scope(
    context: Context,
    before: RuntimeModel,
    slot: ExporterSlot<Arc<dyn LogExporter>>,
    after: RuntimeModel,
    r: Result<(), CoreError>,
)
    requires
        context.exporter_made(before, slot, after, r),
    ensures
        r is Ok <==> runs::alive(before.scopes, context.scope_spec()),
        r matches Err(error) ==> error == CoreError::ContextDisposed && after == before,
        r is Ok ==> {
            let scope = context.scope_spec();
            let id = before.logger.next_exporter;
            let joined = after.logger.exporters;
            &&& joined.len() == before.logger.exporters.len() + 1
            &&& joined.drop_last() == before.logger.exporters
            &&& joined.last().exporter == slot.exporter
            &&& joined.last().id == id
            &&& after.logger.buffer == before.logger.buffer
            &&& after.scopes == before.scopes.insert(
                scope,
                ScopeModel {
                    cleanups: before.scopes[scope].cleanups.push(Cleanup::Exporter(id)),
                    ..before.scopes[scope]
                },
            )
            &&& after.registry == before.registry
        },
{
    if r is Ok {
        assert(after.logger.exporters.drop_last() =~= before.logger.exporters);
    }
}

/// The disposal of a scope begins with all that the scope has; the scope is disposed at once.
/// A scope that is gone has nothing to dispose.
pub proof fn law_dispose_takes_all_that_the_scope_has(
    before: RuntimeModel,
    scope: u64,
    policy: DisposePolicy,
    after: RuntimeModel,
    frames: Seq<FrameModel>,
)
    requires
        context::begins_disposal(before, scope, policy, after, frames),
    ensures
        !runs::alive(before.scopes, scope) ==> frames.len() == 0 && after == before,
        runs::alive(before.scopes, scope) ==> {
            let held = before.scopes[scope];
            &&& frames.len() == 1
            &&& frames[0].scope == scope
            &&& frames[0].policy == policy
            &&& frames[0].children == held.children
            &&& frames[0].cleanups == held.cleanups
            &&& frames[0].disposers == held.disposers
            &&& frames[0].work == held.work
            &&& frames[0].errors.len() == 0
            &&& after.scopes[scope].disposed
            &&& after.scopes[scope].completion == Some(None::<Seq<Seq<char>>>)
            &&& after.scopes == before.scopes.insert(scope, after.scopes[scope])
            &&& after.registry == before.registry
            &&& after.logger == before.logger
            &&& after.next_scope == before.next_scope
        },
{
}

/// What a clean-up does. A provider, a listener, an injection, an effect or an exporter is
/// withdrawn, a fiber is disposed, and a callback is left to the host; whatever else there is
/// stays.
pub proof fn law_cleanups_do_what_they_are_for(runtime: RuntimeModel, id: u64)
    ensures
        ({
            let held = runtime.registry;
            let after = runtime.cleaned(Cleanup::Provider(id)).registry;
            &&& after == (RegistryModel {
                providers: held.providers.remove(id),
                dirty: held.dirty || held.providers.contains_key(id),
                epoch: after.epoch,
                ..held
            })
        }),
        ({
            let held = runtime.registry;
            let after = runtime.cleaned(Cleanup::Injection(id)).registry;
            &&& after == (RegistryModel {
                injections: held.injections.remove(id),
                dirty: held.dirty || held.injections.contains_key(id),
                epoch: after.epoch,
                ..held
            })
        }),
        runtime.cleaned(Cleanup::Effect(id)).registry == (RegistryModel {
            effects: runtime.registry.effects.remove(id),
            ..runtime.registry
        }),
        runtime.cleaned(Cleanup::Listener(id)).registry == (RegistryModel {
            listeners: dispatches::listening_but(runtime.registry.listeners, id),
            ..runtime.registry
        }),
        runtime.cleaned(Cleanup::Fiber(id)).registry == runtime.registry.dispose_now(id).1,
        runtime.registry.fibers.contains_key(id) ==> runtime.cleaned(
            Cleanup::Fiber(id),
        ).registry.fibers[id].disposed,
        runtime.cleaned(Cleanup::Callback(id)) == runtime,
        runtime.cleaned(Cleanup::Exporter(id)).registry == runtime.registry,
        runtime.cleaned(Cleanup::Exporter(id)).logger == runtime.logger.without_exporter(id),
        forall|cleanup: Cleanup|
            !(cleanup is Exporter) ==> (#[trigger] runtime.cleaned(cleanup)).logger
                == runtime.logger,
        forall|cleanup: Cleanup| (#[trigger] runtime.cleaned(cleanup)).scopes == runtime.scopes,
        forall|cleanup: Cleanup| (#[trigger] runtime.cleaned(cleanup)).closing == runtime.closing,
{
    let held = runtime.registry;
    let one = runtime.cleaned(Cleanup::Provider(id)).registry;
    assert(one.providers =~= held.providers.remove(id));
    let two = runtime.cleaned(Cleanup::Injection(id)).registry;
    assert(two.injections =~= held.injections.remove(id));
    dispatches::law_removal_removes_one_listener(held, id);
}

/// What a clean-up leaves to the host: the scope of the run of an injection, the release of a
/// fiber, or the callback; otherwise nothing.
pub proof fn law_cleanups_leave_the_rest_to_the_host(registry: RegistryModel, id: u64)
    ensures
        registry.cleanup_task(Cleanup::Provider(id)) is Nothing,
        registry.cleanup_task(Cleanup::Listener(id)) is Nothing,
        registry.cleanup_task(Cleanup::Effect(id)) is Nothing,
        registry.cleanup_task(Cleanup::Exporter(id)) is Nothing,
        registry.cleanup_task(Cleanup::Callback(id)) == crate::runtime::CleanupTask::RunCallback(
            id,
        ),
        registry.cleanup_task(Cleanup::Injection(id)) == (if registry.injections.contains_key(id)
            && registry.injections[id].child_scope is Some {
            crate::runtime::CleanupTask::DisposeScope(registry.injections[id].child_scope->0)
        } else {
            crate::runtime::CleanupTask::Nothing
        }),
        registry.cleanup_task(Cleanup::Fiber(id)) == (
        crate::runtime::CleanupTask::ReleaseFiber {
            fiber: id,
            release: registry.dispose_now(id).0,
        }),
{
}

/// A context finds the value of a configuration entry exactly as its view has it, while its
/// scope is alive; a logger without a configuration is in order.
pub proof fn law_config_is_that_of_the_view<T: Send + Sync + 'static>(
    context: Context,
    runtime: RuntimeModel,
    key: ConfigKey<T>,
    logger_key: ConfigKey<LoggerConfig>,
)
    ensures
        !runs::alive(runtime.scopes, context.scope_spec()) ==> context.config_found(runtime, key)
            == Err::<u64, CoreError>(CoreError::ContextDisposed),
        runs::alive(runtime.scopes, context.scope_spec()) ==> context.config_found(runtime, key)
            == views::config_value(
            runtime.registry.config_types,
            context.layers_spec(),
            key.id_spec(),
            key.tag_spec(),
        ),
        ({
            let found = context.config_found(runtime, logger_key);
            let shown = context.logger_config_found(runtime, logger_key);
            &&& found is Ok ==> shown == Ok::<Option<u64>, CoreError>(Some(found->Ok_0))
            &&& found is Err && found->Err_0 is ConfigUnavailable ==> shown == Ok::<
                Option<u64>,
                CoreError,
            >(None)
            &&& found is Err && !(found->Err_0 is ConfigUnavailable) ==> shown == Err::<
                Option<u64>,
                CoreError,
            >(found->Err_0)
        }),
{
}

/// The handle of a fiber speaks of the fiber with its identifier.
pub proof fn law_fiber_handle_speaks_of_its_fiber(fiber: Fiber, runtime: RuntimeModel)
    ensures
        fiber.known(runtime) <==> runtime.registry.fibers.contains_key(fiber.id_spec()),
        fiber.model(runtime) == runtime.registry.fibers[fiber.id_spec()],
{
}

/// The place that a provider of this name from this view would take is taken: behind the
/// innermost label if the view isolates the name, otherwise in its innermost domain.
pub open spec fn place_taken(registry: RegistryModel, layers: Seq<Layer>, name: Seq<char>) -> bool {
    match view::nearest_isolation(layers, name) {
        Some(label) => exists|id: u64| lookup::stands_behind(registry, id, label, name),
        None => exists|id: u64| lookup::stands_in(registry, id, layers.last().domain, name),
    }
}

/// A service can be provided exactly if the scope of the context is alive, the name is free or
/// bound to the type of the key, and the place is not taken.
pub proof fn law_provide_succeeds_where_there_is_place<T: Send + Sync + 'static>(
    context: Context,
    before: RuntimeModel,
    key: ServiceKey<T>,
    value: u64,
    availability: ProviderAvailability,
    after: RuntimeModel,
    r: Result<(), CoreError>,
    checked: RuntimeModel,
    s: Result<ProviderHandle, CoreError>,
)
    requires
        context.wf(),
        context.provide_made(before, key, value, after, r),
        context.provide_checked_made(before, key, value, availability, checked, s),
    ensures
        ({
            let name = key.id_spec()@;
            let types = before.registry.service_types;
            let free = runs::alive(before.scopes, context.scope_spec()) && (!types.contains_key(
                name,
            ) || types[name] == key.tag_spec()) && !place_taken(
                before.registry,
                context.layers_spec(),
                name,
            );
            &&& r is Ok <==> free
            &&& s is Ok <==> free
        }),
{
    let layers = context.layers_spec();
    let name = key.id_spec()@;
    let slot = provider::slot_for(layers, name);
    assert forall|id: u64| provider::occupies(before.registry.providers, id, slot) == (
    match view::nearest_isolation(layers, name) {
        Some(label) => lookup::stands_behind(before.registry, id, label, name),
        None => lookup::stands_in(before.registry, id, layers.last().domain, name),
    }) by {}
    assert(provider::holder(before.registry.providers, slot) is Some <==> place_taken(
        before.registry,
        layers,
        name,
    )) by {
        if provider::holder(before.registry.providers, slot) is Some {
            let id = choose|id: u64| provider::occupies(before.registry.providers, id, slot);
            assert(provider::occupies(before.registry.providers, id, slot));
        }
        if place_taken(before.registry, layers, name) {
            match view::nearest_isolation(layers, name) {
                Some(label) => {
                    let id = choose|id: u64|
                        lookup::stands_behind(before.registry, id, label, name);
                    assert(provider::occupies(before.registry.providers, id, slot));
                },
                None => {
                    let id = choose|id: u64|
                        lookup::stands_in(
                            before.registry,
                            id,
                            layers.last().domain,
                            name,
                        );
                    assert(provider::occupies(before.registry.providers, id, slot));
                },
            }
        }
    }
}

/// A listener can be registered exactly if the scope of the context is alive and the name is
/// free or bound to its contract; otherwise nobody starts or stops to listen.
pub proof fn law_listen_succeeds_under_the_contract(
    context: Context,
    before: RuntimeModel,
    request: ListenRequest,
    after: RuntimeModel,
    r: Result<Unsubscribe, CoreError>,
)
    requires
        context.listen_made(before, request, after, r),
    ensures
        ({
            let name = request.event@;
            let contracts = before.registry.contracts;
            let alive = runs::alive(before.scopes, context.scope_spec());
            &&& r is Ok <==> alive && (!contracts.contains_key(name) || contracts[name]
                == request.contract)
            &&& !alive ==> r == Err::<Unsubscribe, CoreError>(CoreError::ContextDisposed)
            &&& r is Err ==> after.registry.listeners == before.registry.listeners && after.scopes
                == before.scopes && after.registry.contracts == contracts
        }),
{
    dispatches::law_subscriptions_are_answered(
        before.registry,
        before.scopes,
        context.layers_spec().last().id,
        request,
        context.scope_spec(),
    );
}

} // verus!
