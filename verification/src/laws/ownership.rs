//! What a scope registered is withdrawn with it.

use crate::context;
use crate::context::effect_context::EffectContext;
use crate::context::handles::{Fiber, InjectionHandle, Unsubscribe};
use crate::context::Context;
use crate::effect;
use crate::effect::disposal;
use crate::effect::disposal::DisposeStep;
use crate::effect::dispose;
use crate::effect::dispose::{DisposePolicy, FrameModel};
use crate::effect::{Cleanup, ScopeModel};
use crate::error::CoreError;
use crate::event::{EventListener, ListenRequest};
use crate::fiber::ProviderRevision;
use crate::laws::events;
use crate::laws::log;
use crate::logger::{ExporterSlot, LogExporter, LogRecord};
use crate::plugin::PluginKey;
use crate::provider::ProviderAvailability;
use crate::registry::provide::Offer;
use crate::registry::RegistryModel;
use crate::runtime::RuntimeModel;
use crate::service::ServiceId;
use std::sync::Arc;
use vstd::prelude::*;

verus! {

/// The clean-up is still to come: it stands in the list of the live scope, or in a frame of
/// the disposal that is under way.
pub open spec fn to_come(
    scopes: Map<u64, ScopeModel>,
    frames: Seq<FrameModel>,
    scope: u64,
    cleanup: Cleanup,
) -> bool {
    ||| !effect::scope_disposed(scopes, scope) && scopes[scope].cleanups.contains(cleanup)
    ||| exists|i: int| 0 <= i < frames.len() && (#[trigger] frames[i]).cleanups.contains(cleanup)
}

/// Some scope has the clean-up to come.
pub open spec fn someones(
    scopes: Map<u64, ScopeModel>,
    frames: Seq<FrameModel>,
    cleanup: Cleanup,
) -> bool {
    exists|scope: u64| #[trigger] to_come(scopes, frames, scope, cleanup)
}

/// Every provider, injection, living fiber and effect has its clean-up to come in the scope
/// that owns it, and every listener and exporter in some scope.
pub open spec fn all_owned(runtime: RuntimeModel, frames: Seq<FrameModel>) -> bool {
    &&& forall|id: u64| #[trigger]
        runtime.registry.providers.contains_key(id) ==> (
        runtime.registry.providers[id].effect_id matches Some(scope) ==> to_come(
            runtime.scopes,
            frames,
            scope,
            Cleanup::Provider(id),
        ))
    &&& forall|id: u64| #[trigger]
        runtime.registry.injections.contains_key(id) ==> to_come(
            runtime.scopes,
            frames,
            runtime.registry.injections[id].parent_scope,
            Cleanup::Injection(id),
        )
    &&& forall|id: u64| #[trigger]
        runtime.registry.fibers.contains_key(id) && !runtime.registry.fibers[id].disposed
            ==> to_come(
            runtime.scopes,
            frames,
            runtime.registry.fibers[id].parent_scope,
            Cleanup::Fiber(id),
        )
    &&& forall|id: u64| #[trigger]
        runtime.registry.effects.contains_key(id) ==> to_come(
            runtime.scopes,
            frames,
            id,
            Cleanup::Effect(id),
        )
    &&& forall|i: int|
        0 <= i < runtime.registry.listeners.len() ==> someones(
            runtime.scopes,
            frames,
            Cleanup::Listener((#[trigger] runtime.registry.listeners[i]).id),
        )
    &&& forall|i: int|
        0 <= i < runtime.logger.exporters.len() ==> someones(
            runtime.scopes,
            frames,
            Cleanup::Exporter((#[trigger] runtime.logger.exporters[i]).id),
        )
}

/// What is to come in the one is to come in the other, but for this clean-up.
pub open spec fn carried_over(
    scopes: Map<u64, ScopeModel>,
    frames: Seq<FrameModel>,
    scopes2: Map<u64, ScopeModel>,
    frames2: Seq<FrameModel>,
    but: Option<Cleanup>,
) -> bool {
    forall|scope: u64, cleanup: Cleanup|
        to_come(scopes, frames, scope, cleanup) && Some(cleanup) != but ==> #[trigger] to_come(
            scopes2,
            frames2,
            scope,
            cleanup,
        )
}

/// More clean-ups in a live scope keep what is to come to come.
proof fn lemma_added(
    scopes: Map<u64, ScopeModel>,
    frames: Seq<FrameModel>,
    scope: u64,
    added: Cleanup,
)
    requires
        !effect::scope_disposed(scopes, scope),
    ensures
        to_come(effect::cleanup_added(scopes, scope, added), frames, scope, added),
        forall|other: u64, cleanup: Cleanup|
            to_come(scopes, frames, other, cleanup) ==> #[trigger] to_come(
                effect::cleanup_added(scopes, scope, added),
                frames,
                other,
                cleanup,
            ),
{
    let after = effect::cleanup_added(scopes, scope, added);
    let held = scopes[scope].cleanups;
    assert(held.push(added)[held.len() as int] == added);
    assert forall|other: u64, cleanup: Cleanup| to_come(scopes, frames, other, cleanup) implies
        #[trigger] to_come(after, frames, other, cleanup) by {
        if !effect::scope_disposed(scopes, other) && scopes[other].cleanups.contains(cleanup) {
            let i = choose|i: int|
                0 <= i < scopes[other].cleanups.len() && scopes[other].cleanups[i] == cleanup;
            assert(after[other].cleanups[i] == cleanup);
        }
    }
}

/// What a runtime owns is still owned when what was to come is carried over and nothing
/// joined; what was withdrawn needs no clean-up any more.
proof fn lemma_still_owned(
    before: RuntimeModel,
    frames: Seq<FrameModel>,
    after: RuntimeModel,
    frames2: Seq<FrameModel>,
    but: Option<Cleanup>,
)
    requires
        all_owned(before, frames),
        carried_over(before.scopes, frames, after.scopes, frames2, but),
        only_less(before, after),
        but matches Some(cleanup) ==> withdrawn(after, cleanup),
    ensures
        all_owned(after, frames2),
{
    assert forall|id: u64| #[trigger] after.registry.providers.contains_key(id) implies (
    after.registry.providers[id].effect_id matches Some(scope) ==> to_come(
        after.scopes,
        frames2,
        scope,
        Cleanup::Provider(id),
    )) by {
        assert(before.registry.providers.contains_key(id));
    }
    assert forall|id: u64| #[trigger] after.registry.injections.contains_key(id) implies to_come(
        after.scopes,
        frames2,
        after.registry.injections[id].parent_scope,
        Cleanup::Injection(id),
    ) by {
        assert(before.registry.injections.contains_key(id));
    }
    assert forall|id: u64| #[trigger] after.registry.fibers.contains_key(id)
        && !after.registry.fibers[id].disposed implies to_come(
        after.scopes,
        frames2,
        after.registry.fibers[id].parent_scope,
        Cleanup::Fiber(id),
    ) by {
        assert(before.registry.fibers.contains_key(id) && !before.registry.fibers[id].disposed);
    }
    assert forall|id: u64| #[trigger] after.registry.effects.contains_key(id) implies to_come(
        after.scopes,
        frames2,
        id,
        Cleanup::Effect(id),
    ) by {
        assert(before.registry.effects.contains_key(id));
    }
    assert forall|i: int| 0 <= i < after.registry.listeners.len() implies someones(
        after.scopes,
        frames2,
        Cleanup::Listener((#[trigger] after.registry.listeners[i]).id),
    ) by {
        let listener = after.registry.listeners[i];
        assert(before.registry.listeners.contains(listener));
        let k = choose|k: int|
            0 <= k < before.registry.listeners.len() && before.registry.listeners[k] == listener;
        let cleanup = Cleanup::Listener(before.registry.listeners[k].id);
        assert(someones(before.scopes, frames, cleanup));
        let scope = choose|scope: u64| #[trigger] to_come(before.scopes, frames, scope, cleanup);
        assert(to_come(after.scopes, frames2, scope, cleanup));
    }
    assert forall|i: int| 0 <= i < after.logger.exporters.len() implies someones(
        after.scopes,
        frames2,
        Cleanup::Exporter((#[trigger] after.logger.exporters[i]).id),
    ) by {
        let slot = after.logger.exporters[i];
        assert(before.logger.exporters.contains(slot));
        let k = choose|k: int|
            0 <= k < before.logger.exporters.len() && before.logger.exporters[k] == slot;
        let cleanup = Cleanup::Exporter(before.logger.exporters[k].id);
        assert(someones(before.scopes, frames, cleanup));
        let scope = choose|scope: u64| #[trigger] to_come(before.scopes, frames, scope, cleanup);
        assert(to_come(after.scopes, frames2, scope, cleanup));
    }
}

/// Nothing joined and no owner changed: some things may be gone, and what was disposed stays
/// so.
pub open spec fn only_less(before: RuntimeModel, after: RuntimeModel) -> bool {
    &&& forall|id: u64| #[trigger]
        after.registry.providers.contains_key(id) ==> before.registry.providers.contains_key(id)
            && after.registry.providers[id].effect_id == before.registry.providers[id].effect_id
    &&& forall|id: u64| #[trigger]
        after.registry.injections.contains_key(id) ==> before.registry.injections.contains_key(id)
            && after.registry.injections[id].parent_scope
            == before.registry.injections[id].parent_scope
    &&& forall|id: u64| #[trigger]
        after.registry.fibers.contains_key(id) ==> before.registry.fibers.contains_key(id)
            && after.registry.fibers[id].parent_scope == before.registry.fibers[id].parent_scope
            && (before.registry.fibers[id].disposed ==> after.registry.fibers[id].disposed)
    &&& forall|id: u64| #[trigger]
        after.registry.effects.contains_key(id) ==> before.registry.effects.contains_key(id)
    &&& forall|i: int|
        0 <= i < after.registry.listeners.len() ==> before.registry.listeners.contains(
            #[trigger] after.registry.listeners[i],
        )
    &&& forall|i: int|
        0 <= i < after.logger.exporters.len() ==> before.logger.exporters.contains(
            #[trigger] after.logger.exporters[i],
        )
}

/// What the clean-up is for is gone.
pub open spec fn withdrawn(runtime: RuntimeModel, cleanup: Cleanup) -> bool {
    match cleanup {
        Cleanup::Provider(id) => !runtime.registry.providers.contains_key(id),
        Cleanup::Injection(id) => !runtime.registry.injections.contains_key(id),
        Cleanup::Fiber(id) => runtime.registry.fibers.contains_key(id)
            ==> runtime.registry.fibers[id].disposed,
        Cleanup::Effect(id) => !runtime.registry.effects.contains_key(id),
        Cleanup::Listener(id) => forall|i: int|
            0 <= i < runtime.registry.listeners.len() ==> (
            #[trigger] runtime.registry.listeners[i]).id != id,
        Cleanup::Exporter(id) => forall|i: int|
            0 <= i < runtime.logger.exporters.len() ==> (#[trigger] runtime.logger.exporters[i]).id
                != id,
        Cleanup::Callback(_) => true,
    }
}

/// A clean-up withdraws what it is for, and adds nothing.
pub proof fn law_cleanup_withdraws(runtime: RuntimeModel, cleanup: Cleanup)
    ensures
        withdrawn(runtime.cleaned(cleanup), cleanup),
        only_less(runtime, runtime.cleaned(cleanup)),
{
    let after = runtime.cleaned(cleanup);
    assert forall|i: int| 0 <= i < runtime.registry.listeners.len() implies (
    #[trigger] runtime.registry.listeners.contains(runtime.registry.listeners[i])) by {}
    assert forall|i: int| 0 <= i < runtime.logger.exporters.len() implies (
    #[trigger] runtime.logger.exporters.contains(runtime.logger.exporters[i])) by {}
    match cleanup {
        Cleanup::Listener(id) => {
            let pred = |listener: EventListener| listener.id != id;
            assert forall|i: int| 0 <= i < after.registry.listeners.len() implies (
            #[trigger] after.registry.listeners[i]).id != id
                && runtime.registry.listeners.contains(after.registry.listeners[i]) by {
                events::lemma_kept(
                    runtime.registry.listeners,
                    pred,
                    after.registry.listeners[i],
                );
                assert(after.registry.listeners.contains(after.registry.listeners[i]));
            }
        },
        Cleanup::Exporter(id) => {
            log::law_removed_exporter_is_left_out(runtime.logger, id);
        },
        _ => {},
    }
}

/// Providing a service, registering an injection or a listener, mounting a plugin, creating
/// an effect and registering an exporter enter a clean-up for what they add.
pub proof fn law_registrations_are_owned(
    context: Context,
    before: RuntimeModel,
    after: RuntimeModel,
    frames: Seq<FrameModel>,
)
    requires
        before.registry.ok(),
        !before.scopes.contains_key(before.next_scope),
        all_owned(before, frames),
    ensures
        forall|offer: Offer|
            #![trigger before.registry.provide_outcome(
                before.scopes,
                context.layers_spec(),
                offer,
                context.scope_spec(),
            )]
            ({
                let outcome = before.registry.provide_outcome(
                    before.scopes,
                    context.layers_spec(),
                    offer,
                    context.scope_spec(),
                );
                after == (RuntimeModel { registry: outcome.1, scopes: outcome.2, ..before })
                    ==> all_owned(after, frames)
            }),
        forall|dependencies: Seq<ServiceId>, callback: u64, r: Result<InjectionHandle, CoreError>|
            #![trigger context.inject_made(before, dependencies, callback, after, r)]
            context.inject_made(before, dependencies, callback, after, r) ==> all_owned(
                after,
                frames,
            ),
        forall|request: ListenRequest, r: Result<Unsubscribe, CoreError>|
            #![trigger context.listen_made(before, request, after, r)]
            context.listen_made(before, request, after, r) ==> all_owned(after, frames),
        forall|
            key: PluginKey,
            plugin: u64,
            dependencies: Seq<ServiceId>,
            r: Result<Fiber, CoreError>,
        |
            #![trigger context.plugin_made(before, key, plugin, dependencies, after, r)]
            context.plugin_made(before, key, plugin, dependencies, after, r) ==> all_owned(
                after,
                frames,
            ),
        forall|name: Seq<char>, r: Result<EffectContext, CoreError>|
            #![trigger context.effect_named_made(before, name, after, r)]
            context.effect_named_made(before, name, after, r) ==> all_owned(after, frames),
        forall|slot: ExporterSlot<Arc<dyn LogExporter>>, r: Result<(), CoreError>|
            #![trigger context.exporter_made(before, slot, after, r)]
            context.exporter_made(before, slot, after, r) ==> all_owned(after, frames),
{
    let owner = context.scope_spec();
    let id = before.registry.next_id;
    let slot_id = before.logger.next_exporter;
    let fresh = before.next_scope;
    if !before.gone(owner) {
        lemma_added(before.scopes, frames, owner, Cleanup::Provider(id));
        lemma_added(before.scopes, frames, owner, Cleanup::Injection(id));
        lemma_added(before.scopes, frames, owner, Cleanup::Fiber(id));
        lemma_added(before.scopes, frames, owner, Cleanup::Listener(id));
        lemma_added(before.scopes, frames, owner, Cleanup::Exporter(slot_id));
    }
    assert forall|offer: Offer|
        #![trigger before.registry.provide_outcome(
            before.scopes,
            context.layers_spec(),
            offer,
            context.scope_spec(),
        )]
        after == (RuntimeModel {
            registry: before.registry.provide_outcome(
                before.scopes,
                context.layers_spec(),
                offer,
                owner,
            ).1,
            scopes: before.registry.provide_outcome(
                before.scopes,
                context.layers_spec(),
                offer,
                owner,
            ).2,
            ..before
        }) implies all_owned(after, frames) by {
        lemma_listeners_same(before, frames, after);
    }
    assert forall|dependencies: Seq<ServiceId>, callback: u64, r: Result<InjectionHandle, CoreError>|
        #![trigger context.inject_made(before, dependencies, callback, after, r)]
        context.inject_made(before, dependencies, callback, after, r) implies all_owned(
        after,
        frames,
    ) by {
        lemma_listeners_same(before, frames, after);
    }
    assert forall|request: ListenRequest, r: Result<Unsubscribe, CoreError>|
        #![trigger context.listen_made(before, request, after, r)]
        context.listen_made(before, request, after, r) implies all_owned(after, frames) by {
        lemma_listener_joined(context, before, request, after, r, frames);
    }
    assert forall|
        key: PluginKey,
        plugin: u64,
        dependencies: Seq<ServiceId>,
        r: Result<Fiber, CoreError>,
    |
        #![trigger context.plugin_made(before, key, plugin, dependencies, after, r)]
        context.plugin_made(before, key, plugin, dependencies, after, r) implies all_owned(
        after,
        frames,
    ) by {
        lemma_listeners_same(before, frames, after);
    }
    assert forall|name: Seq<char>, r: Result<EffectContext, CoreError>|
        #![trigger context.effect_named_made(before, name, after, r)]
        context.effect_named_made(before, name, after, r) implies all_owned(after, frames) by {
        if !before.gone(owner) {
            let grown = effect::child_added(before.scopes, owner, fresh, name);
            assert(keeps_cleanups(before.scopes, grown));
            lemma_carried(before.scopes, frames, grown);
            lemma_added(grown, frames, fresh, Cleanup::Effect(fresh));
            lemma_listeners_same(before, frames, after);
        }
    }
    assert forall|slot: ExporterSlot<Arc<dyn LogExporter>>, r: Result<(), CoreError>|
        #![trigger context.exporter_made(before, slot, after, r)]
        context.exporter_made(before, slot, after, r) implies all_owned(after, frames) by {
        if !before.gone(owner) {
            lemma_exporter_joined(before, slot, after, frames, owner);
        }
    }
}

/// Listeners and exporters that stay stay owned.
proof fn lemma_listeners_same(
    before: RuntimeModel,
    frames: Seq<FrameModel>,
    after: RuntimeModel,
)
    requires
        all_owned(before, frames),
        before.registry.listeners == after.registry.listeners,
        before.logger.exporters == after.logger.exporters,
        carried_over(before.scopes, frames, after.scopes, frames, None),
    ensures
        forall|i: int|
            0 <= i < after.registry.listeners.len() ==> someones(
                after.scopes,
                frames,
                Cleanup::Listener((#[trigger] after.registry.listeners[i]).id),
            ),
        forall|i: int|
            0 <= i < after.logger.exporters.len() ==> someones(
                after.scopes,
                frames,
                Cleanup::Exporter((#[trigger] after.logger.exporters[i]).id),
            ),
{
    assert forall|cleanup: Cleanup| someones(before.scopes, frames, cleanup) implies
        #[trigger] someones(after.scopes, frames, cleanup) by {
        let scope = choose|scope: u64| #[trigger] to_come(before.scopes, frames, scope, cleanup);
        assert(to_come(after.scopes, frames, scope, cleanup));
    }
    assert forall|i: int| 0 <= i < after.registry.listeners.len() implies someones(
        after.scopes,
        frames,
        Cleanup::Listener((#[trigger] after.registry.listeners[i]).id),
    ) by {
        assert(someones(
            before.scopes,
            frames,
            Cleanup::Listener(before.registry.listeners[i].id),
        ));
    }
    assert forall|i: int| 0 <= i < after.logger.exporters.len() implies someones(
        after.scopes,
        frames,
        Cleanup::Exporter((#[trigger] after.logger.exporters[i]).id),
    ) by {
        assert(someones(
            before.scopes,
            frames,
            Cleanup::Exporter(before.logger.exporters[i].id),
        ));
    }
}

proof fn lemma_listener_joined(
    context: Context,
    before: RuntimeModel,
    request: ListenRequest,
    after: RuntimeModel,
    r: Result<Unsubscribe, CoreError>,
    frames: Seq<FrameModel>,
)
    requires
        all_owned(before, frames),
        context.listen_made(before, request, after, r),
    ensures
        all_owned(after, frames),
{
    let owner = context.scope_spec();
    let id = before.registry.next_id;
    let layer = context.layers_spec().last().id;
    if after.scopes == before.scopes && after.registry.listeners == before.registry.listeners {
        lemma_listeners_same(before, frames, after);
    } else {
        let listener = request.listener(id, layer);
        lemma_added(before.scopes, frames, owner, Cleanup::Listener(id));
        let middle = RuntimeModel {
            registry: RegistryModel {
                listeners: before.registry.listeners,
                ..after.registry
            },
            ..after
        };
        lemma_listeners_same(before, frames, middle);
        assert(someones(after.scopes, frames, Cleanup::Listener(id)));
        let placed = after.registry.listeners;
        assert forall|i: int| 0 <= i < placed.len() implies someones(
            after.scopes,
            frames,
            Cleanup::Listener((#[trigger] placed[i]).id),
        ) by {
            if request.prepend {
                if i > 0 {
                    assert(placed[i] == middle.registry.listeners[i - 1]);
                }
            } else if i < middle.registry.listeners.len() {
                assert(placed[i] == middle.registry.listeners[i]);
            }
        }
        assert forall|i: int| 0 <= i < after.logger.exporters.len() implies someones(
            after.scopes,
            frames,
            Cleanup::Exporter((#[trigger] after.logger.exporters[i]).id),
        ) by {
            assert(middle.logger.exporters[i] == after.logger.exporters[i]);
        }
    }
}

proof fn lemma_exporter_joined(
    before: RuntimeModel,
    slot: ExporterSlot<Arc<dyn LogExporter>>,
    after: RuntimeModel,
    frames: Seq<FrameModel>,
    owner: u64,
)
    requires
        all_owned(before, frames),
        !before.gone(owner),
        after == (RuntimeModel {
            logger: before.logger.with_exporter(slot),
            scopes: effect::cleanup_added(
                before.scopes,
                owner,
                Cleanup::Exporter(before.logger.next_exporter),
            ),
            ..before
        }),
    ensures
        all_owned(after, frames),
{
    let id = before.logger.next_exporter;
    lemma_added(before.scopes, frames, owner, Cleanup::Exporter(id));
    let middle = RuntimeModel { logger: before.logger, ..after };
    lemma_listeners_same(before, frames, middle);
    assert(someones(after.scopes, frames, Cleanup::Exporter(id)));
    assert forall|i: int| 0 <= i < after.logger.exporters.len() implies someones(
        after.scopes,
        frames,
        Cleanup::Exporter((#[trigger] after.logger.exporters[i]).id),
    ) by {
        if i < before.logger.exporters.len() {
            assert(after.logger.exporters[i] == middle.logger.exporters[i]);
        }
    }
    assert forall|i: int| 0 <= i < after.registry.listeners.len() implies someones(
        after.scopes,
        frames,
        Cleanup::Listener((#[trigger] after.registry.listeners[i]).id),
    ) by {
        assert(middle.registry.listeners[i] == after.registry.listeners[i]);
    }
}

/// Of a list without its last item.
proof fn lemma_but_last(cleanups: Seq<Cleanup>, cleanup: Cleanup)
    requires
        cleanups.contains(cleanup),
        cleanup != cleanups.last(),
    ensures
        cleanups.drop_last().contains(cleanup),
{
    let i = choose|i: int| 0 <= i < cleanups.len() && cleanups[i] == cleanup;
    assert(cleanups.drop_last()[i] == cleanup);
}

/// The begin of a disposal takes over the clean-ups of its scope.
pub proof fn law_begun_disposal_takes_over(
    before: RuntimeModel,
    scope: u64,
    policy: DisposePolicy,
    after: RuntimeModel,
    frames: Seq<FrameModel>,
)
    requires
        all_owned(before, Seq::empty()),
        context::begins_disposal(before, scope, policy, after, frames),
    ensures
        all_owned(after, frames),
{
    if !before.gone(scope) {
        lemma_entered(before.scopes, Seq::empty(), scope, policy);
        assert(Seq::<FrameModel>::empty().push(
            dispose::opening_frame(before.scopes, scope, policy),
        ) =~= frames);
        lemma_reflexive(before, after);
        lemma_still_owned(before, Seq::empty(), after, frames, None);
    }
}

/// Two runtimes with the same registry and log own the same.
proof fn lemma_reflexive(before: RuntimeModel, after: RuntimeModel)
    requires
        before.registry == after.registry,
        before.logger == after.logger,
    ensures
        only_less(before, after),
{
    assert forall|i: int| 0 <= i < after.registry.listeners.len() implies (
    #[trigger] before.registry.listeners.contains(after.registry.listeners[i])) by {}
    assert forall|i: int| 0 <= i < after.logger.exporters.len() implies (
    #[trigger] before.logger.exporters.contains(after.logger.exporters[i])) by {}
}

proof fn lemma_entered(
    scopes: Map<u64, ScopeModel>,
    frames: Seq<FrameModel>,
    scope: u64,
    policy: DisposePolicy,
)
    requires
        !effect::scope_disposed(scopes, scope),
    ensures
        forall|other: u64, cleanup: Cleanup|
            to_come(scopes, frames, other, cleanup) ==> #[trigger] to_come(
                scopes.insert(scope, dispose::begun(scopes[scope])),
                frames.push(dispose::opening_frame(scopes, scope, policy)),
                other,
                cleanup,
            ),
{
    let frame = dispose::opening_frame(scopes, scope, policy);
    let after = scopes.insert(scope, dispose::begun(scopes[scope]));
    let frames2 = frames.push(frame);
    assert forall|other: u64, cleanup: Cleanup| to_come(scopes, frames, other, cleanup) implies
        #[trigger] to_come(after, frames2, other, cleanup) by {
        if !effect::scope_disposed(scopes, other) && scopes[other].cleanups.contains(cleanup) {
            if other == scope {
                assert(frames2[frames.len() as int].cleanups.contains(cleanup));
            }
        } else {
            let i = choose|i: int|
                0 <= i < frames.len() && (#[trigger] frames[i]).cleanups.contains(cleanup);
            assert(frames2[i] == frames[i]);
        }
    }
}

/// The clean-ups of the scopes that stay alive are not touched.
pub open spec fn keeps_cleanups(
    before: Map<u64, ScopeModel>,
    after: Map<u64, ScopeModel>,
) -> bool {
    forall|id: u64|
        !effect::scope_disposed(before, id) ==> !(#[trigger] effect::scope_disposed(after, id))
            && after[id].cleanups == before[id].cleanups
}

/// Passing over a disposed child touches no clean-ups.
pub proof fn lemma_skipped_keeps(scopes: Map<u64, ScopeModel>, top: FrameModel, child: u64)
    requires
        effect::scope_disposed(scopes, child),
    ensures
        keeps_cleanups(scopes, dispose::adopted(scopes, top.scope, child)),
        keeps_cleanups(scopes, dispose::detached(scopes, child)),
{
}

/// The end of a frame touches no clean-ups.
pub proof fn lemma_closed_keeps(scopes: Map<u64, ScopeModel>, top: FrameModel)
    requires
        effect::scope_disposed(scopes, top.scope),
    ensures
        keeps_cleanups(scopes, disposal::closed_scopes(scopes, top)),
{
}

/// Scopes that keep their clean-ups have the same to come.
proof fn lemma_carried(
    scopes: Map<u64, ScopeModel>,
    frames: Seq<FrameModel>,
    scopes2: Map<u64, ScopeModel>,
)
    requires
        keeps_cleanups(scopes, scopes2),
    ensures
        carried_over(scopes, frames, scopes2, frames, None),
{
    assert forall|other: u64, cleanup: Cleanup| to_come(scopes, frames, other, cleanup) implies
        #[trigger] to_come(scopes2, frames, other, cleanup) by {
        if !effect::scope_disposed(scopes, other) {
            assert(!effect::scope_disposed(scopes2, other));
        }
    }
}

/// Every step of a disposal, with the clean-up that it runs, keeps ownership: what is
/// withdrawn is gone from the runtime, and all else is still to come.
pub proof fn law_disposal_step_keeps_ownership(
    runtime: RuntimeModel,
    frames: Seq<FrameModel>,
    frames2: Seq<FrameModel>,
    scopes2: Map<u64, ScopeModel>,
    step: DisposeStep,
)
    requires
        all_owned(runtime, frames),
        forall|i: int|
            0 <= i < frames.len() ==> effect::scope_disposed(
                runtime.scopes,
                (#[trigger] frames[i]).scope,
            ),
        disposal::stepped(frames, runtime.scopes, frames2, scopes2, step),
    ensures
        all_owned(
            match step {
                DisposeStep::Run { cleanup, .. } => RuntimeModel {
                    scopes: scopes2,
                    ..runtime
                }.cleaned(cleanup),
                _ => RuntimeModel { scopes: scopes2, ..runtime },
            },
            frames2,
        ),
{
    let scopes = runtime.scopes;
    let moved = RuntimeModel { scopes: scopes2, ..runtime };
    lemma_reflexive(runtime, moved);
    if frames.len() > 0 {
        let top = frames.last();
        assert(frames[frames.len() - 1] == top);
        if top.children.len() > 0 {
            let child = top.children.last();
            let rest = disposal::with_top(
                frames,
                FrameModel { children: top.children.drop_last(), ..top },
            );
            assert forall|other: u64, cleanup: Cleanup|
                to_come(scopes, frames, other, cleanup) implies #[trigger] to_come(
                scopes,
                rest,
                other,
                cleanup,
            ) by {
                if exists|i: int|
                    0 <= i < frames.len() && (#[trigger] frames[i]).cleanups.contains(cleanup) {
                    let i = choose|i: int|
                        0 <= i < frames.len() && (#[trigger] frames[i]).cleanups.contains(cleanup);
                    assert(rest[i].cleanups == frames[i].cleanups);
                }
            }
            if effect::scope_disposed(scopes, child) {
                lemma_skipped_keeps(scopes, top, child);
                lemma_carried(scopes, rest, scopes2);
            } else {
                lemma_entered(scopes, rest, child, top.policy.below());
            }
            lemma_still_owned(runtime, frames, moved, frames2, None);
        } else if top.cleanups.len() > 0 {
            let run = top.cleanups.last();
            lemma_run_carries(scopes, frames, frames2, top);
            law_cleanup_withdraws(moved, run);
            assert(moved == runtime);
            lemma_still_owned(runtime, frames, moved.cleaned(run), frames2, Some(run));
        } else {
            lemma_closed_keeps(scopes, top);
            assert forall|other: u64, cleanup: Cleanup|
                to_come(scopes, frames, other, cleanup) implies #[trigger] to_come(
                scopes,
                frames2,
                other,
                cleanup,
            ) by {
                if exists|i: int|
                    0 <= i < frames.len() && (#[trigger] frames[i]).cleanups.contains(cleanup) {
                    let i = choose|i: int|
                        0 <= i < frames.len() && (#[trigger] frames[i]).cleanups.contains(cleanup);
                    assert(frames2[i] == frames[i]);
                }
            }
            lemma_carried(scopes, frames2, scopes2);
            lemma_still_owned(runtime, frames, moved, frames2, None);
        }
    } else {
        assert(moved == runtime);
    }
}

proof fn lemma_run_carries(
    scopes: Map<u64, ScopeModel>,
    frames: Seq<FrameModel>,
    frames2: Seq<FrameModel>,
    top: FrameModel,
)
    requires
        frames.len() > 0,
        top == frames.last(),
        top.cleanups.len() > 0,
        frames2 == disposal::with_top(
            frames,
            FrameModel { cleanups: top.cleanups.drop_last(), ..top },
        ),
    ensures
        carried_over(scopes, frames, scopes, frames2, Some(top.cleanups.last())),
{
    let run = top.cleanups.last();
    assert forall|other: u64, cleanup: Cleanup|
        to_come(scopes, frames, other, cleanup) && Some(cleanup) != Some(run) implies
        #[trigger] to_come(scopes, frames2, other, cleanup) by {
        if exists|i: int|
            0 <= i < frames.len() && (#[trigger] frames[i]).cleanups.contains(cleanup) {
            let i = choose|i: int|
                0 <= i < frames.len() && (#[trigger] frames[i]).cleanups.contains(cleanup);
            if i == frames.len() - 1 {
                lemma_but_last(top.cleanups, cleanup);
            }
            assert(frames2[i].cleanups.contains(cleanup));
        }
    }
}

/// Operations that register nothing keep ownership, among them a check of a provider, a
/// scheduler round and the end of an injection callback.
pub proof fn law_other_operations_keep_ownership(
    runtime: RuntimeModel,
    frames: Seq<FrameModel>,
    after: RuntimeModel,
)
    requires
        all_owned(runtime, frames),
        after.scopes == runtime.scopes,
        only_less(runtime, after),
    ensures
        all_owned(after, frames),
{
    lemma_still_owned(runtime, frames, after, frames, None);
}

/// A check of a provider, a scheduler round, the end of an injection callback, the claim of a
/// listener and a record in the log register nothing.
pub proof fn law_rounds_register_nothing(
    runtime: RuntimeModel,
    id: u64,
    availability: ProviderAvailability,
    child: u64,
    providers: Seq<ProviderRevision>,
    failure: Option<Seq<char>>,
    record: LogRecord,
)
    requires
        runtime.registry.providers.contains_key(id),
    ensures
        only_less(
            runtime,
            RuntimeModel { registry: runtime.registry.refreshed(id, availability), ..runtime },
        ),
        only_less(
            runtime,
            RuntimeModel {
                registry: runtime.registry.without_stale(runtime.scopes),
                ..runtime
            },
        ),
        only_less(
            runtime,
            RuntimeModel {
                registry: runtime.registry.ran(
                    runtime.scopes,
                    id,
                    child,
                    providers,
                    failure,
                ).0,
                ..runtime
            },
        ),
        only_less(
            runtime,
            RuntimeModel { registry: runtime.registry.claimed_once(id), ..runtime },
        ),
        only_less(runtime, RuntimeModel { logger: runtime.logger.written(record), ..runtime }),
{
    lemma_reflexive(runtime, runtime);
    let claimed = runtime.registry.claimed_once(id).listeners;
    assert forall|i: int| 0 <= i < claimed.len() implies runtime.registry.listeners.contains(
        #[trigger] claimed[i],
    ) by {
        if !runtime.registry.claimed.contains(id) {
            assert(claimed.contains(claimed[i]));
            events::lemma_kept(
                runtime.registry.listeners,
                |listener: EventListener| listener.id != id,
                claimed[i],
            );
        }
    }
}

/// A new runtime is consistent and owns nothing yet.
pub proof fn law_new_runtime_is_consistent(identity: u64)
    ensures
        ({
            let runtime = RuntimeModel::initial(identity);
            &&& runtime.registry.ok()
            &&& effect::tree_ok(runtime.scopes, runtime.next_scope)
            &&& runtime.logger.ok()
            &&& all_owned(runtime, Seq::empty())
        }),
{
}

/// When no disposal is under way, nothing is left of a disposed scope: every provider,
/// injection and effect belongs to a live scope, every listener and exporter has its
/// clean-up to come in a live scope, and every fiber below a disposed scope is disposed.
pub proof fn law_nothing_outlives_its_scope(runtime: RuntimeModel, id: u64, i: int)
    requires
        all_owned(runtime, Seq::empty()),
    ensures
        runtime.registry.providers.contains_key(id) ==> (
        runtime.registry.providers[id].effect_id matches Some(scope) ==> !runtime.gone(scope)),
        runtime.registry.injections.contains_key(id) ==> !runtime.gone(
            runtime.registry.injections[id].parent_scope,
        ),
        runtime.registry.fibers.contains_key(id) && runtime.gone(
            runtime.registry.fibers[id].parent_scope,
        ) ==> runtime.registry.fibers[id].disposed,
        runtime.registry.effects.contains_key(id) ==> !runtime.gone(id),
        0 <= i < runtime.registry.listeners.len() ==> exists|scope: u64|
            !(#[trigger] runtime.gone(scope)) && runtime.scopes[scope].cleanups.contains(
                Cleanup::Listener(runtime.registry.listeners[i].id),
            ),
        0 <= i < runtime.logger.exporters.len() ==> exists|scope: u64|
            !(#[trigger] runtime.gone(scope)) && runtime.scopes[scope].cleanups.contains(
                Cleanup::Exporter(runtime.logger.exporters[i].id),
            ),
{
    if 0 <= i < runtime.registry.listeners.len() {
        let cleanup = Cleanup::Listener(runtime.registry.listeners[i].id);
        assert(someones(runtime.scopes, Seq::empty(), cleanup));
        let scope = choose|scope: u64| #[trigger]
            to_come(runtime.scopes, Seq::empty(), scope, cleanup);
        assert(!runtime.gone(scope));
    }
    if 0 <= i < runtime.logger.exporters.len() {
        let cleanup = Cleanup::Exporter(runtime.logger.exporters[i].id);
        assert(someones(runtime.scopes, Seq::empty(), cleanup));
        let scope = choose|scope: u64| #[trigger]
            to_come(runtime.scopes, Seq::empty(), scope, cleanup);
        assert(!runtime.gone(scope));
    }
}

/// The tasks of a scope are not lost with it: when its clean-ups ran they are awaited, or in
/// an uncontrolled end aborted or left to the scope above.
pub proof fn law_tasks_are_handed_on(
    frames: Seq<FrameModel>,
    scopes: Map<u64, ScopeModel>,
    frames2: Seq<FrameModel>,
    scopes2: Map<u64, ScopeModel>,
    step: DisposeStep,
)
    requires
        frames.len() > 0,
        frames.last().children.len() == 0,
        frames.last().cleanups.len() == 0,
        disposal::stepped(frames, scopes, frames2, scopes2, step),
    ensures
        ({
            let top = frames.last();
            match top.policy {
                DisposePolicy::Abandon => {
                    &&& step matches DisposeStep::Abort { tasks, .. } && tasks@
                        == dispose::task_ids(top.work)
                },
                DisposePolicy::Dropped => {
                    &&& step matches DisposeStep::Abort { tasks, .. } && tasks@ == (
                    if disposal::heir(scopes, top.scope) is Some {
                        Seq::<u64>::empty()
                    } else {
                        dispose::task_ids(top.work)
                    })
                },
                _ => {
                    &&& step matches DisposeStep::Coordinate(coordinator)
                        && coordinator@.tasks == dispose::task_ids(
                        disposal::pending_work(scopes, top),
                    )
                },
            }
        }),
        frames.last().policy is Dropped ==> (disposal::heir(
            scopes,
            frames.last().scope,
        ) matches Some(parent) ==> (parent != frames.last().scope ==> scopes2.contains_key(parent)
            && scopes2[parent].work == scopes[parent].work + frames.last().work)),
{
}

} // verus!
