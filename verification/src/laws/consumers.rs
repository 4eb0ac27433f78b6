//! How injections and the scheduler follow the providers.

use crate::effect;
use crate::effect::ScopeModel;
use crate::fiber::ProviderRevision;
use crate::injection::{InjectionModel, InjectionPhase};
use crate::laws::services;
use crate::provider;
use crate::provider::ProviderAvailability;
use crate::registry::activate::{ActivationEnd, ActivationStart};
use crate::registry::RegistryModel;
use crate::service::ServiceId;
use crate::view::Layer;
use vstd::prelude::*;

verus! {

/// The revisions that a consumer is built on are the current ones of registered providers.
pub proof fn law_revisions_are_current(
    registry: RegistryModel,
    layers: Seq<Layer>,
    services: Seq<ServiceId>,
    revision: ProviderRevision,
)
    requires
        registry.revisions(layers, services).contains(revision),
    ensures
        registry.providers.contains_key(revision.id),
        revision == provider::revision_of(registry.providers, revision.id),
        provider::ready(registry.fibers, registry.providers[revision.id]),
    decreases services.len(),
{
    if services.len() > 0 {
        let front = registry.revisions(layers, services.drop_last());
        services::lemma_visible_known(registry.providers, layers, services.last()@);
        if front.contains(revision) {
            law_revisions_are_current(registry, layers, services.drop_last(), revision);
        } else {
            let all = registry.revisions(layers, services);
            let i = choose|i: int| 0 <= i < all.len() && all[i] == revision;
            if i < front.len() {
                assert(front[i] == revision);
            }
        }
    }
}

/// An active injection has to be rebuilt once a provider that it was built on is withdrawn.
pub proof fn law_withdrawn_provider_makes_stale(
    registry: RegistryModel,
    scopes: Map<u64, ScopeModel>,
    injection: InjectionModel,
    revision: ProviderRevision,
)
    requires
        !effect::scope_disposed(scopes, injection.parent_scope),
        injection.phase is Active,
        injection.resolved.contains(revision),
        registry.providers.contains_key(revision.id),
    ensures
        registry.without_provider(revision.id).stale(scopes, injection),
        registry.without_provider(revision.id).dirty,
{
    let after = registry.without_provider(revision.id);
    let now = after.revisions(injection.layers, injection.dependencies);
    if now.contains(revision) {
        law_revisions_are_current(after, injection.layers, injection.dependencies, revision);
    }
}

/// An active injection has to be rebuilt once a provider that it was built on became
/// unavailable.
pub proof fn law_unavailable_provider_makes_stale(
    registry: RegistryModel,
    scopes: Map<u64, ScopeModel>,
    injection: InjectionModel,
    id: u64,
    availability: ProviderAvailability,
)
    requires
        !effect::scope_disposed(scopes, injection.parent_scope),
        injection.phase is Active,
        registry.providers.contains_key(id),
        injection.resolved.contains(provider::revision_of(registry.providers, id)),
        registry.providers[id].availability is Ready,
        !(availability is Ready),
    ensures
        registry.refreshed(id, availability).stale(scopes, injection),
        registry.refreshed(id, availability).dirty,
{
    let after = registry.refreshed(id, availability);
    let revision = provider::revision_of(registry.providers, id);
    let now = after.revisions(injection.layers, injection.dependencies);
    if now.contains(revision) {
        law_revisions_are_current(after, injection.layers, injection.dependencies, revision);
    }
}

/// A run of a callback ends in a state that needs no further run while the providers stay
/// as they are: an active injection is not stale, a failed one is not tried again.
pub proof fn law_finished_run_is_settled(
    registry: RegistryModel,
    scopes: Map<u64, ScopeModel>,
    id: u64,
    child: u64,
    failure: Option<Seq<char>>,
)
    requires
        registry.injections.contains_key(id),
        !effect::scope_disposed(scopes, registry.injections[id].parent_scope),
        registry.satisfied(registry.injections[id].layers, registry.injections[id].dependencies),
    ensures
        ({
            let injection = registry.injections[id];
            let providers = registry.revisions(injection.layers, injection.dependencies);
            let after = registry.ran(scopes, id, child, providers, failure).0;
            &&& after.injections[id].phase == (if failure is Some {
                InjectionPhase::Failed
            } else {
                InjectionPhase::Active
            })
            &&& !after.stale(scopes, after.injections[id])
            &&& !after.runnable(scopes, after.injections[id])
        }),
{
}

/// When the providers changed while a callback ran, its result is discarded: the injection
/// waits again, and the scheduler is asked for a round.
pub proof fn law_overtaken_run_is_discarded(
    registry: RegistryModel,
    scopes: Map<u64, ScopeModel>,
    id: u64,
    child: u64,
    providers: Seq<ProviderRevision>,
)
    requires
        registry.injections.contains_key(id),
        !effect::scope_disposed(scopes, registry.injections[id].parent_scope),
        providers != registry.revisions(
            registry.injections[id].layers,
            registry.injections[id].dependencies,
        ),
    ensures
        ({
            let outcome = registry.ran(scopes, id, child, providers, None);
            &&& outcome.1
            &&& outcome.0.injections[id].phase is Pending
            &&& outcome.0.injections[id].child_scope is None
            &&& outcome.0.dirty
        }),
{
}

/// An injection with a missing dependency is left alone, whatever else happens: injections
/// that wait for each other stay pending.
pub proof fn law_missing_dependency_keeps_injection_pending(
    registry: RegistryModel,
    scopes: Map<u64, ScopeModel>,
    injection: InjectionModel,
    i: int,
)
    requires
        0 <= i < injection.dependencies.len(),
        registry.resolve(injection.layers, injection.dependencies[i]@) is None,
    ensures
        !registry.runnable(scopes, injection),
{
}

/// A plugin with a missing dependency is not activated.
pub proof fn law_missing_dependency_keeps_fiber_pending(
    registry: RegistryModel,
    scopes: Map<u64, ScopeModel>,
    next_scope: u64,
    id: u64,
    initial_mount: bool,
    after: RegistryModel,
    scopes_after: Map<u64, ScopeModel>,
    start: ActivationStart,
    i: int,
)
    requires
        registry.fibers.contains_key(id),
        0 <= i < registry.fibers[id].dependencies.len(),
        registry.fibers[id].state is Pending,
        registry.resolve(registry.fibers[id].layers, registry.fibers[id].dependencies[i]@) is None,
        registry.activation_begun(
            scopes,
            next_scope,
            id,
            initial_mount,
            after,
            scopes_after,
            start,
        ),
    ensures
        !registry.fiber_due(id),
        !(start is Apply),
        scopes_after == scopes,
{
    let fiber = registry.fibers[id];
    let claimed = registry.with_fiber(id, fiber.loading());
    let service = fiber.dependencies[i]@;
    assert(claimed.providers == registry.providers);
    assert forall|other: u64| provider::fiber_active(claimed.fibers, other) implies
        provider::fiber_active(registry.fibers, other) by {}
    assert(claimed.resolve(fiber.layers, service) is None);
}

/// Resolution by consumers that do not use what fiber `id` provides does not depend on the
/// state of that fiber.
proof fn lemma_own_state_irrelevant(
    before: RegistryModel,
    after: RegistryModel,
    id: u64,
    layers: Seq<Layer>,
    services: Seq<ServiceId>,
)
    requires
        before.providers == after.providers,
        forall|other: u64|
            other != id ==> provider::fiber_active(before.fibers, other) == #[trigger]
            provider::fiber_active(after.fibers, other),
        forall|i: int|
            0 <= i < services.len() ==> (provider::visible(
                before.providers,
                layers,
                (#[trigger] services[i])@,
            ) matches Some(found) ==> before.providers[found].fiber != Some(id)),
    ensures
        before.revisions(layers, services) == after.revisions(layers, services),
    decreases services.len(),
{
    if services.len() > 0 {
        let front = services.drop_last();
        assert forall|i: int| 0 <= i < front.len() implies (provider::visible(
            before.providers,
            layers,
            (#[trigger] front[i])@,
        ) matches Some(found) ==> before.providers[found].fiber != Some(id)) by {
            assert(front[i] == services[i]);
        }
        lemma_own_state_irrelevant(before, after, id, layers, front);
        assert(services[services.len() - 1] == services.last());
        let service = services.last()@;
        if let Some(found) = provider::visible(before.providers, layers, service) {
            if let Some(fiber) = before.providers[found].fiber {
                assert(provider::fiber_active(before.fibers, fiber) == provider::fiber_active(
                    after.fibers,
                    fiber,
                ));
            }
        }
    }
}

/// A plugin that became active was built on the current providers, so that it need not be
/// unloaded, unless it depends on what it provides itself.
pub proof fn law_active_plugin_is_current(
    registry: RegistryModel,
    scopes: Map<u64, ScopeModel>,
    id: u64,
    initial_mount: bool,
    scope: u64,
    providers: Seq<ProviderRevision>,
    outcome: Result<(), String>,
    after: RegistryModel,
    end: ActivationEnd,
)
    requires
        registry.fibers.contains_key(id),
        registry.activation_ended(
            scopes,
            id,
            initial_mount,
            scope,
            providers,
            outcome,
            after,
            end,
        ),
        end.dispose is None,
        forall|i: int|
            0 <= i < registry.fibers[id].dependencies.len() ==> (provider::visible(
                registry.providers,
                registry.fibers[id].layers,
                (#[trigger] registry.fibers[id].dependencies[i])@,
            ) matches Some(found) ==> registry.providers[found].fiber != Some(id)),
    ensures
        after.fibers[id].state is Active,
        after.fibers[id].resolved == after.fiber_revisions(id),
        !after.fiber_stale(id),
{
    let fiber = registry.fibers[id];
    assert forall|other: u64| other != id implies provider::fiber_active(registry.fibers, other)
        == #[trigger] provider::fiber_active(after.fibers, other) by {}
    lemma_own_state_irrelevant(registry, after, id, fiber.layers, fiber.dependencies);
}

/// What a fiber provides counts only while the fiber is active.
pub proof fn law_provider_follows_its_fiber(
    registry: RegistryModel,
    layers: Seq<Layer>,
    service: Seq<char>,
    fiber: u64,
)
    requires
        registry.fibers.contains_key(fiber),
        !(registry.fibers[fiber].state is Active),
    ensures
        registry.resolve(layers, service) matches Some(id) ==> registry.providers[id].fiber
            != Some(fiber),
{
}

} // verus!
