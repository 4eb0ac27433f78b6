//! What diagnostics show of a runtime, row by row.

use crate::diagnostics;
use crate::diagnostics::{
    EffectSnapshot, FiberStateSnapshot, InjectFiberSnapshot, PluginFiberSnapshot,
    PluginRegistrySnapshot, ProviderSnapshot, RuntimeSnapshot, UnavailableDependencySnapshot,
};
use crate::effect;
use crate::effect::ScopeModel;
use crate::fiber::{EffectOwnership, FiberState};
use crate::injection::InjectionPhase;
use crate::laws::handover;
use crate::laws::lookup;
use crate::laws::runs;
use crate::provider;
use crate::provider::{ProviderAvailability, ProviderKey};
use crate::registry::snapshot;
use crate::registry::{GroupModel, Registry, RegistryModel};
use crate::service::ServiceId;
use crate::text;
use crate::view::Layer;
use vstd::prelude::*;

verus! {

/// These labels are the names of these services, one for one.
pub open spec fn names_of(labels: Seq<&'static str>, services: Seq<ServiceId>) -> bool {
    &&& labels.len() == services.len()
    &&& forall|k: int| 0 <= k < labels.len() ==> (#[trigger] labels[k])@ == services[k]@
}

/// The same text, or none in both.
pub open spec fn same_note(shown: Option<String>, held: Option<Seq<char>>) -> bool {
    match (shown, held) {
        (Some(string), Some(text)) => string@ == text,
        (None, None) => true,
        _ => false,
    }
}

/// The row shows provider `id`: where it stands, who owns it, and what counts of its
/// availability for consumers.
pub open spec fn shows_provider(
    registry: RegistryModel,
    id: u64,
    row: ProviderSnapshot,
) -> bool {
    let record = registry.providers[id];
    &&& row.provider_id == id
    &&& row.context_depth == record.depth
    &&& row.isolation == record.isolation
    &&& row.effect_id == record.effect_id
    &&& row.service@ == match record.key {
        ProviderKey::Local { service, .. } => service@,
        ProviderKey::Isolated { service, .. } => service@,
    }
    &&& row.availability is Ready <==> lookup::usable(registry, id)
    &&& row.availability matches ProviderAvailability::Unavailable { reason } ==> reason@ == (
    match record.availability {
        ProviderAvailability::Unavailable { reason: given } => given@,
        ProviderAvailability::Ready => "provider plugin is not active"@,
    })
}

/// The dependencies of a consumer are shown with those that do not resolve and those whose
/// provider cannot be used, each in order.
pub open spec fn shows_dependencies(
    registry: RegistryModel,
    layers: Seq<Layer>,
    services: Seq<ServiceId>,
    all: Seq<&'static str>,
    missing: Seq<&'static str>,
    unavailable: Seq<UnavailableDependencySnapshot>,
) -> bool {
    let unresolved = services.filter(|name: ServiceId| registry.resolve(layers, name@) is None);
    let seen = services.filter(|name: ServiceId| lookup::seen_unusable(registry, layers, name));
    &&& names_of(all, services)
    &&& names_of(missing, unresolved)
    &&& unavailable.len() == seen.len()
    &&& forall|k: int|
        0 <= k < unavailable.len() ==> {
            let id = provider::visible(registry.providers, layers, seen[k]@)->0;
            &&& (#[trigger] unavailable[k]).service@ == seen[k]@
            &&& unavailable[k].reason@ == (match registry.providers[id].availability {
                ProviderAvailability::Unavailable { reason } => reason@,
                ProviderAvailability::Ready => "provider plugin is not active"@,
            })
        }
}

/// The row shows injection `id`.
pub open spec fn shows_injection(
    registry: RegistryModel,
    id: u64,
    row: InjectFiberSnapshot,
) -> bool {
    let held = registry.injections[id];
    &&& row.id == id
    &&& held.layers.len() > 0 ==> row.context_depth == (held.layers.len() - 1) as usize
    &&& row.phase == match held.phase {
        InjectionPhase::Pending => FiberStateSnapshot::Pending,
        InjectionPhase::Active => FiberStateSnapshot::Active,
        InjectionPhase::Failed => FiberStateSnapshot::Failed,
        InjectionPhase::Disposed => FiberStateSnapshot::Disposed,
    }
    &&& same_note(row.last_error, held.last_error)
    &&& shows_dependencies(
        registry,
        held.layers,
        held.dependencies,
        row.dependencies@,
        row.missing_dependencies@,
        row.unavailable_dependencies@,
    )
}

/// How the state of a fiber is shown.
pub open spec fn shown_state(state: FiberState) -> FiberStateSnapshot {
    match state {
        FiberState::Pending => FiberStateSnapshot::Pending,
        FiberState::Loading => FiberStateSnapshot::Loading,
        FiberState::Active => FiberStateSnapshot::Active,
        FiberState::Failed => FiberStateSnapshot::Failed,
        FiberState::Unloading => FiberStateSnapshot::Unloading,
        FiberState::Disposed => FiberStateSnapshot::Disposed,
    }
}

/// The row shows fiber `id`.
pub open spec fn shows_fiber(registry: RegistryModel, id: u64, row: PluginFiberSnapshot) -> bool {
    let held = registry.fibers[id];
    &&& row.id == id
    &&& row.plugin_key@ == held.plugin_key@
    &&& held.layers.len() > 0 ==> row.context_depth == (held.layers.len() - 1) as usize
    &&& row.state == shown_state(held.state)
    &&& same_note(row.last_error, held.last_error)
    &&& row.root_effect == match held.ownership {
        EffectOwnership::Empty => None,
        EffectOwnership::Activating(scope) => Some(scope),
        EffectOwnership::Active(scope) => Some(scope),
        EffectOwnership::Releasing(release) => Some(release.scope),
    }
    &&& shows_dependencies(
        registry,
        held.layers,
        held.dependencies,
        row.dependencies@,
        row.missing_dependencies@,
        row.unavailable_dependencies@,
    )
}

/// The row shows effect `id`.
pub open spec fn shows_effect(
    registry: RegistryModel,
    scopes: Map<u64, ScopeModel>,
    id: u64,
    row: EffectSnapshot,
) -> bool {
    let record = registry.effects[id];
    &&& row.id == id
    &&& row.name@ == record.name
    &&& row.parent == record.parent
    &&& row.context_depth == record.depth
    &&& row.fiber_id == record.fiber_id
    &&& row.disposed <==> !runs::alive(scopes, id)
    &&& row.cancelled <==> effect::scope_cancelled(scopes, id)
    &&& scopes.contains_key(id) ==> {
        &&& row.child_count == scopes[id].children.len()
        &&& row.task_count == handover::tasks_of(scopes[id].work).len()
        &&& row.cleanup_count == scopes[id].cleanups.len()
    }
    &&& !scopes.contains_key(id) ==> row.child_count == 0 && row.task_count == 0
        && row.cleanup_count == 0
}

proof fn lemma_labels(labels: Seq<&'static str>, services: Seq<ServiceId>)
    requires
        snapshot::label_texts(labels) == snapshot::service_texts(services),
    ensures
        names_of(labels, services),
{
    assert(snapshot::label_texts(labels).len() == labels.len());
    assert(snapshot::service_texts(services).len() == services.len());
    assert forall|k: int| 0 <= k < labels.len() implies (#[trigger] labels[k])@
        == services[k]@ by {
        assert(snapshot::label_texts(labels)[k] == labels[k]@);
        assert(snapshot::service_texts(services)[k] == services[k]@);
    }
}

proof fn lemma_dependencies(
    registry: RegistryModel,
    layers: Seq<Layer>,
    services: Seq<ServiceId>,
    all: Seq<&'static str>,
    missing: Seq<&'static str>,
    unavailable: Seq<UnavailableDependencySnapshot>,
)
    requires
        snapshot::label_texts(all) == snapshot::service_texts(services),
        snapshot::label_texts(missing) == snapshot::service_texts(
            provider::unresolved(registry.providers, registry.fibers, layers, services),
        ),
        diagnostics::unavailable_models(unavailable) == diagnostics::unavailable(
            registry.providers,
            registry.fibers,
            layers,
            services,
        ),
    ensures
        shows_dependencies(registry, layers, services, all, missing, unavailable),
{
    lemma_labels(all, services);
    lookup::law_missing_dependencies_do_not_resolve(registry, layers, services);
    lookup::law_unavailable_dependencies_are_seen_and_not_usable(registry, layers, services);
    lemma_labels(
        missing,
        provider::unresolved(registry.providers, registry.fibers, layers, services),
    );
    let told = diagnostics::unavailable(registry.providers, registry.fibers, layers, services);
    let models = diagnostics::unavailable_models(unavailable);
    assert(unavailable.len() == models.len());
    assert forall|k: int| 0 <= k < unavailable.len() implies (
    #[trigger] unavailable[k]).service@ == told[k].service && unavailable[k].reason@
        == told[k].reason by {
        assert(models[k] == unavailable[k]@);
    }
}

/// What a row of a provider shows.
pub proof fn law_provider_row(registry: RegistryModel, id: u64, row: ProviderSnapshot)
    requires
        row@ == registry.provider_view(id),
    ensures
        shows_provider(registry, id, row),
{
}

/// What a row of an injection shows.
pub proof fn law_injection_row(registry: RegistryModel, id: u64, row: InjectFiberSnapshot)
    requires
        row@ == registry.inject_view(id),
    ensures
        shows_injection(registry, id, row),
{
    let held = registry.injections[id];
    lemma_dependencies(
        registry,
        held.layers,
        held.dependencies,
        row.dependencies@,
        row.missing_dependencies@,
        row.unavailable_dependencies@,
    );
}

/// What a row of a fiber shows.
pub proof fn law_fiber_row(registry: RegistryModel, id: u64, row: PluginFiberSnapshot)
    requires
        row@ == registry.fiber_view(id),
    ensures
        shows_fiber(registry, id, row),
{
    let held = registry.fibers[id];
    lemma_dependencies(
        registry,
        held.layers,
        held.dependencies,
        row.dependencies@,
        row.missing_dependencies@,
        row.unavailable_dependencies@,
    );
}

/// What a row of an effect shows.
pub proof fn law_effect_row(
    registry: RegistryModel,
    scopes: Map<u64, ScopeModel>,
    id: u64,
    row: EffectSnapshot,
)
    requires
        row@ == registry.effect_view(scopes, id),
    ensures
        shows_effect(registry, scopes, id, row),
{
    if scopes.contains_key(id) {
        handover::law_work_is_told_apart(scopes[id].work, 0);
    }
}

/// The row shows this group: its known fibers in order of mounting, with their states.
pub open spec fn shows_group(
    registry: RegistryModel,
    group: GroupModel,
    row: PluginRegistrySnapshot,
) -> bool {
    let known = group.fibers.filter(|id: u64| registry.fibers.contains_key(id));
    &&& row.plugin_key@ == group.key@
    &&& row.unmounting == group.unmounting
    &&& row.fibers@.len() == known.len()
    &&& forall|k: int|
        0 <= k < known.len() ==> (#[trigger] row.fibers@[k]).id == known[k] && row.fibers@[k].state
            == shown_state(registry.fibers[known[k]].state)
}

/// One of the rows shows this group.
pub open spec fn is_shown(
    registry: RegistryModel,
    group: GroupModel,
    rows: Seq<PluginRegistrySnapshot>,
) -> bool {
    exists|i: int| 0 <= i < rows.len() && shows_group(registry, group, #[trigger] rows[i])
}

/// What a row of a group shows.
pub proof fn law_group_row(registry: RegistryModel, group: GroupModel, row: PluginRegistrySnapshot)
    requires
        row@ == registry.group_view(group),
    ensures
        shows_group(registry, group, row),
{
    lemma_group_rows(registry, group.fibers);
}

proof fn lemma_group_rows(registry: RegistryModel, ids: Seq<u64>)
    ensures
        ({
            let known = ids.filter(|id: u64| registry.fibers.contains_key(id));
            let rows = snapshot::group_rows(registry.fibers, ids);
            &&& rows.len() == known.len()
            &&& forall|k: int|
                0 <= k < known.len() ==> (#[trigger] rows[k]).id == known[k] && rows[k].state
                    == shown_state(registry.fibers[known[k]].state)
        }),
    decreases ids.len(),
{
    reveal(Seq::filter);
    if ids.len() > 0 {
        lemma_group_rows(registry, ids.drop_last());
    }
}

/// A snapshot shows all there is, once: every provider, every injection, every listed fiber and
/// every effect, each in order of its identifier, every label, and every group, in order of the
/// plugins' names. It shows nothing else.
pub proof fn law_snapshot_shows_everything_once(
    registry: Registry,
    scopes: Map<u64, ScopeModel>,
    r: RuntimeSnapshot,
)
    requires
        registry.wf(),
        registry.shown_by(scopes, r),
    ensures
        forall|id: u64| #[trigger]
            registry@.providers.contains_key(id) ==> exists|i: int|
                0 <= i < r.providers@.len() && (#[trigger] r.providers@[i]).provider_id == id
                    && shows_provider(registry@, id, r.providers@[i]),
        forall|i: int, j: int|
            0 <= i < j < r.providers@.len() ==> (#[trigger] r.providers@[i]).provider_id < (
            #[trigger] r.providers@[j]).provider_id,
        forall|i: int|
            0 <= i < r.providers@.len() ==> registry@.providers.contains_key(
                (#[trigger] r.providers@[i]).provider_id,
            ),
        forall|id: u64| #[trigger]
            registry@.injections.contains_key(id) ==> exists|i: int|
                0 <= i < r.inject_fibers@.len() && (#[trigger] r.inject_fibers@[i]).id == id
                    && shows_injection(registry@, id, r.inject_fibers@[i]),
        forall|i: int, j: int|
            0 <= i < j < r.inject_fibers@.len() ==> (#[trigger] r.inject_fibers@[i]).id < (
            #[trigger] r.inject_fibers@[j]).id,
        forall|i: int|
            0 <= i < r.inject_fibers@.len() ==> registry@.injections.contains_key(
                (#[trigger] r.inject_fibers@[i]).id,
            ),
        forall|id: u64| #[trigger]
            registry@.effects.contains_key(id) ==> exists|i: int|
                0 <= i < r.effects@.len() && (#[trigger] r.effects@[i]).id == id && shows_effect(
                    registry@,
                    scopes,
                    id,
                    r.effects@[i],
                ),
        forall|i: int, j: int|
            0 <= i < j < r.effects@.len() ==> (#[trigger] r.effects@[i]).id < (
            #[trigger] r.effects@[j]).id,
        forall|i: int|
            0 <= i < r.effects@.len() ==> registry@.effects.contains_key(
                (#[trigger] r.effects@[i]).id,
            ),
        forall|id: u64| #[trigger]
            registry@.fibers.contains_key(id) && registry@.fibers[id].registered
                ==> exists|i: int|
                0 <= i < r.plugin_fibers@.len() && (#[trigger] r.plugin_fibers@[i]).id == id
                    && shows_fiber(registry@, id, r.plugin_fibers@[i]),
        forall|i: int|
            0 <= i < r.plugin_fibers@.len() ==> {
                let id = (#[trigger] r.plugin_fibers@[i]).id;
                registry@.fibers.contains_key(id) && registry@.fibers[id].registered
            },
        r.isolations@.len() == registry@.isolations.len(),
        forall|i: int|
            0 <= i < r.isolations@.len() ==> (#[trigger] r.isolations@[i]).id
                == registry@.isolations[i],
        r.plugin_registry@.len() == registry@.groups.len(),
        forall|g: int|
            0 <= g < registry@.groups.len() ==> is_shown(
                registry@,
                #[trigger] registry@.groups[g],
                r.plugin_registry@,
            ),
        forall|i: int, j: int|
            0 <= i < j < r.plugin_registry@.len() ==> text::text_before(
                (#[trigger] r.plugin_registry@[i]).plugin_key@,
                (#[trigger] r.plugin_registry@[j]).plugin_key@,
            ),
{
    registry.lemma_snapshot_keys();
    registry.lemma_injection_ids();
    registry.lemma_fiber_ids();
    let model = registry@;
    assert forall|i: int| 0 <= i < r.providers@.len() implies shows_provider(
        model,
        registry.provider_keys()[i],
        #[trigger] r.providers@[i],
    ) by {
        law_provider_row(model, registry.provider_keys()[i], r.providers@[i]);
    }
    assert forall|i: int| 0 <= i < r.inject_fibers@.len() implies shows_injection(
        model,
        registry.injection_ids()[i],
        #[trigger] r.inject_fibers@[i],
    ) by {
        law_injection_row(model, registry.injection_ids()[i], r.inject_fibers@[i]);
    }
    assert forall|i: int| 0 <= i < r.effects@.len() implies shows_effect(
        model,
        scopes,
        registry.effect_keys()[i],
        #[trigger] r.effects@[i],
    ) by {
        law_effect_row(model, scopes, registry.effect_keys()[i], r.effects@[i]);
    }
    assert forall|i: int| 0 <= i < r.plugin_fibers@.len() implies shows_fiber(
        model,
        registry.listed_fibers()[i],
        #[trigger] r.plugin_fibers@[i],
    ) by {
        law_fiber_row(model, registry.listed_fibers()[i], r.plugin_fibers@[i]);
    }
    assert forall|id: u64| #[trigger] model.providers.contains_key(id) implies exists|i: int|
        0 <= i < r.providers@.len() && (#[trigger] r.providers@[i]).provider_id == id
            && shows_provider(model, id, r.providers@[i]) by {
        let keys = registry.provider_keys();
        assert(keys.contains(id));
        let i = choose|i: int| 0 <= i < keys.len() && keys[i] == id;
        assert(shows_provider(model, keys[i], r.providers@[i]));
    }
    assert forall|i: int| 0 <= i < r.providers@.len() implies model.providers.contains_key(
        (#[trigger] r.providers@[i]).provider_id,
    ) by {
        assert(registry.provider_keys().contains(registry.provider_keys()[i]));
    }
    assert forall|id: u64| #[trigger] model.injections.contains_key(id) implies exists|i: int|
        0 <= i < r.inject_fibers@.len() && (#[trigger] r.inject_fibers@[i]).id == id
            && shows_injection(model, id, r.inject_fibers@[i]) by {
        let keys = registry.injection_ids();
        assert(keys.contains(id));
        let i = choose|i: int| 0 <= i < keys.len() && keys[i] == id;
        assert(shows_injection(model, keys[i], r.inject_fibers@[i]));
    }
    assert forall|i: int| 0 <= i < r.inject_fibers@.len() implies model.injections.contains_key(
        (#[trigger] r.inject_fibers@[i]).id,
    ) by {
        assert(registry.injection_ids().contains(registry.injection_ids()[i]));
    }
    assert forall|id: u64| #[trigger] model.effects.contains_key(id) implies exists|i: int|
        0 <= i < r.effects@.len() && (#[trigger] r.effects@[i]).id == id && shows_effect(
            model,
            scopes,
            id,
            r.effects@[i],
        ) by {
        let keys = registry.effect_keys();
        assert(keys.contains(id));
        let i = choose|i: int| 0 <= i < keys.len() && keys[i] == id;
        assert(shows_effect(model, scopes, keys[i], r.effects@[i]));
    }
    assert forall|i: int| 0 <= i < r.effects@.len() implies model.effects.contains_key(
        (#[trigger] r.effects@[i]).id,
    ) by {
        assert(registry.effect_keys().contains(registry.effect_keys()[i]));
    }
    lemma_fiber_rows(registry, scopes, r);
    lemma_group_rows_shown(registry, scopes, r);
}

proof fn lemma_fiber_rows(registry: Registry, scopes: Map<u64, ScopeModel>, r: RuntimeSnapshot)
    requires
        registry.wf(),
        registry.shown_by(scopes, r),
        forall|i: int|
            0 <= i < r.plugin_fibers@.len() ==> shows_fiber(
                registry@,
                registry.listed_fibers()[i],
                #[trigger] r.plugin_fibers@[i],
            ),
    ensures
        forall|id: u64| #[trigger]
            registry@.fibers.contains_key(id) && registry@.fibers[id].registered
                ==> exists|i: int|
                0 <= i < r.plugin_fibers@.len() && (#[trigger] r.plugin_fibers@[i]).id == id
                    && shows_fiber(registry@, id, r.plugin_fibers@[i]),
        forall|i: int|
            0 <= i < r.plugin_fibers@.len() ==> {
                let id = (#[trigger] r.plugin_fibers@[i]).id;
                registry@.fibers.contains_key(id) && registry@.fibers[id].registered
            },
{
    let model = registry@;
    let ids = registry.fiber_ids();
    let listed = registry.listed_fibers();
    registry.lemma_fiber_ids();
    assert forall|id: u64| #[trigger]
        model.fibers.contains_key(id) && model.fibers[id].registered implies exists|i: int|
        0 <= i < r.plugin_fibers@.len() && (#[trigger] r.plugin_fibers@[i]).id == id
            && shows_fiber(model, id, r.plugin_fibers@[i]) by {
        assert(ids.contains(id));
        runs::lemma_filter_iff(ids, |id: u64| registry@.fibers[id].registered, id);
        assert(listed.contains(id));
        let i = choose|i: int| 0 <= i < listed.len() && listed[i] == id;
        assert(shows_fiber(model, listed[i], r.plugin_fibers@[i]));
    }
    assert forall|i: int| 0 <= i < r.plugin_fibers@.len() implies {
        let id = (#[trigger] r.plugin_fibers@[i]).id;
        model.fibers.contains_key(id) && model.fibers[id].registered
    } by {
        assert(shows_fiber(model, listed[i], r.plugin_fibers@[i]));
        assert(listed.contains(listed[i]));
        runs::lemma_filter_iff(ids, |id: u64| registry@.fibers[id].registered, listed[i]);
    }
}

proof fn lemma_group_rows_shown(
    registry: Registry,
    scopes: Map<u64, ScopeModel>,
    r: RuntimeSnapshot,
)
    requires
        registry.shown_by(scopes, r),
    ensures
        r.plugin_registry@.len() == registry@.groups.len(),
        forall|g: int|
            0 <= g < registry@.groups.len() ==> is_shown(
                registry@,
                #[trigger] registry@.groups[g],
                r.plugin_registry@,
            ),
        forall|i: int, j: int|
            0 <= i < j < r.plugin_registry@.len() ==> text::text_before(
                (#[trigger] r.plugin_registry@[i]).plugin_key@,
                (#[trigger] r.plugin_registry@[j]).plugin_key@,
            ),
{
    broadcast use vstd::seq_lib::group_to_multiset_ensures;

    let shown = snapshot::group_row_views(r.plugin_registry@);
    let held = registry@.group_views();
    assert(shown.len() == r.plugin_registry@.len());
    assert(held.len() == registry@.groups.len());
    assert(shown.to_multiset().len() == shown.len());
    assert(held.to_multiset().len() == held.len());
    assert forall|g: int| 0 <= g < registry@.groups.len() implies is_shown(
        registry@,
        #[trigger] registry@.groups[g],
        r.plugin_registry@,
    ) by {
        let view = held[g];
        assert(held.contains(view));
        assert(held.to_multiset().count(view) > 0);
        assert(shown.contains(view));
        let i = choose|i: int| 0 <= i < shown.len() && shown[i] == view;
        assert(r.plugin_registry@[i]@ == registry@.group_view(registry@.groups[g]));
        law_group_row(registry@, registry@.groups[g], r.plugin_registry@[i]);
    }
    assert forall|i: int, j: int| 0 <= i < j < r.plugin_registry@.len() implies text::text_before(
        (#[trigger] r.plugin_registry@[i]).plugin_key@,
        (#[trigger] r.plugin_registry@[j]).plugin_key@,
    ) by {
        assert(shown[i] == r.plugin_registry@[i]@);
        assert(shown[j] == r.plugin_registry@[j]@);
    }
}

} // verus!
