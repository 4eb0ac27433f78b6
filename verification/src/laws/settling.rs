//! The settled state: once nothing is left to do, every consumer is as its providers ask.

use crate::effect;
use crate::effect::disposal;
use crate::effect::disposal::DisposeStep;
use crate::effect::dispose;
use crate::effect::dispose::FrameModel;
use crate::effect::{Cleanup, ManagedWork, ScopeModel};
use crate::error::CoreError;
use crate::fiber::{
    EffectOwnership, FiberModel, FiberRelease, FiberState, HandleHandoff, ProviderRevision,
};
use crate::laws::effects;
use crate::laws::release;
use crate::laws::services;
use crate::plugin::PluginKey;
use crate::provider;
use crate::provider::{ProviderAvailability, ProviderRecord, Slot};
use crate::registry::activate::{ActivationEnd, ActivationStart};
use crate::registry::lifecycle::UnloadStart;
use crate::registry::provide::Offer;
use crate::registry::RegistryModel;
use crate::runtime::RuntimeModel;
use crate::service::ServiceId;
use crate::view::Layer;
use vstd::prelude::*;

verus! {

/// The plugin fiber is about to change or on its way out: an operation is in flight on it, or
/// it is disposed.
pub open spec fn in_transit(fibers: Map<u64, FiberModel>, id: u64) -> bool {
    fibers.contains_key(id) ==> fibers[id].busy || fibers[id].lifecycle is Some
        || fibers[id].disposed
}

/// None of the providers that a consumer looks at comes from a plugin in transit.
pub open spec fn upheld(
    registry: RegistryModel,
    layers: Seq<Layer>,
    services: Seq<ServiceId>,
) -> bool {
    forall|i: int|
        0 <= i < services.len() ==> (provider::visible(
            registry.providers,
            layers,
            (#[trigger] services[i])@,
        ) matches Some(found) ==> (registry.providers[found].fiber matches Some(fiber)
            ==> !in_transit(registry.fibers, fiber)))
}

/// No consumer has to react to anything, those aside whose providers come from a plugin in
/// transit: they react when its operation ends or its providers are withdrawn.
pub open spec fn at_rest(registry: RegistryModel, scopes: Map<u64, ScopeModel>) -> bool {
    &&& forall|id: u64| #[trigger]
        registry.injections.contains_key(id) && upheld(
            registry,
            registry.injections[id].layers,
            registry.injections[id].dependencies,
        ) ==> !registry.runnable(scopes, registry.injections[id]) && !registry.stale(
            scopes,
            registry.injections[id],
        )
    &&& forall|id: u64| #[trigger]
        registry.fibers.contains_key(id) && upheld(
            registry,
            registry.fibers[id].layers,
            registry.fibers[id].dependencies,
        ) ==> !registry.fiber_stale(id) && !registry.fiber_due(id)
}

/// A registry with the scopes beside it.
#[verifier::ext_equal]
pub struct State {
    pub registry: RegistryModel,
    pub scopes: Map<u64, ScopeModel>,
    pub next_scope: u64,
    /// The last batch that the scheduler took in its round was empty.
    pub idle: bool,
}

impl State {
    /// The registry and the tree are what the library keeps them, and identifiers are left.
    pub open spec fn valid(self) -> bool {
        &&& self.registry.ok()
        &&& self.registry.next_id < u64::MAX
        &&& effect::tree_ok(self.scopes, self.next_scope)
        &&& self.next_scope < u64::MAX
    }

    /// Fibers and scopes that are spoken of have been there.
    pub open spec fn known(self) -> bool {
        &&& forall|id: u64| #[trigger]
            self.registry.providers.contains_key(id) ==> (
            self.registry.providers[id].fiber matches Some(fiber) ==> fiber
                < self.registry.next_id)
        &&& forall|id: u64| #[trigger]
            self.registry.injections.contains_key(id) ==> self.registry.injections[id].parent_scope
                < self.next_scope
    }

    /// The scheduler knows of all that is left to do: it has been told, or it is at work, or
    /// there is nothing to do.
    pub open spec fn settled(self) -> bool {
        &&& self.known()
        &&& self.registry.dirty || (self.registry.recomputing && !self.idle) || at_rest(
            self.registry,
            self.scopes,
        )
    }
}

/// Scopes are created, or change, or are disposed; none comes back.
pub open spec fn only_closes(
    before: Map<u64, ScopeModel>,
    after: Map<u64, ScopeModel>,
    next: u64,
) -> bool {
    forall|id: u64|
        id < next && effect::scope_disposed(before, id) ==> #[trigger] effect::scope_disposed(
            after,
            id,
        )
}

/// A consumer sees the same versions in both registries.
proof fn lemma_same_resolution(
    a: RegistryModel,
    b: RegistryModel,
    layers: Seq<Layer>,
    services: Seq<ServiceId>,
)
    requires
        forall|i: int|
            0 <= i < services.len() ==> {
                let service = (#[trigger] services[i])@;
                &&& provider::visible(a.providers, layers, service) == provider::visible(
                    b.providers,
                    layers,
                    service,
                )
                &&& provider::visible(a.providers, layers, service) matches Some(found) ==> {
                    &&& provider::ready(a.fibers, a.providers[found]) == provider::ready(
                        b.fibers,
                        b.providers[found],
                    )
                    &&& a.providers[found].availability_revision
                        == b.providers[found].availability_revision
                }
            },
    ensures
        a.revisions(layers, services) == b.revisions(layers, services),
        a.satisfied(layers, services) == b.satisfied(layers, services),
    decreases services.len(),
{
    if services.len() > 0 {
        let front = services.drop_last();
        assert forall|i: int| 0 <= i < front.len() implies {
            let service = (#[trigger] front[i])@;
            &&& provider::visible(a.providers, layers, service) == provider::visible(
                b.providers,
                layers,
                service,
            )
            &&& provider::visible(a.providers, layers, service) matches Some(found) ==> {
                &&& provider::ready(a.fibers, a.providers[found]) == provider::ready(
                    b.fibers,
                    b.providers[found],
                )
                &&& a.providers[found].availability_revision
                    == b.providers[found].availability_revision
            }
        } by {
            assert(front[i] == services[i]);
        }
        lemma_same_resolution(a, b, layers, front);
        assert(services[services.len() - 1] == services.last());
    }
    assert forall|i: int| 0 <= i < services.len() implies provider::resolved(
        a.providers,
        a.fibers,
        layers,
        (#[trigger] services[i])@,
    ) == provider::resolved(b.providers, b.fibers, layers, services[i]@) by {}
    assert(a.satisfied(layers, services) == b.satisfied(layers, services)) by {
        if a.satisfied(layers, services) {
            assert forall|i: int| 0 <= i < services.len() implies provider::resolved(
                b.providers,
                b.fibers,
                layers,
                (#[trigger] services[i])@,
            ) is Some by {}
        }
        if b.satisfied(layers, services) {
            assert forall|i: int| 0 <= i < services.len() implies provider::resolved(
                a.providers,
                a.fibers,
                layers,
                (#[trigger] services[i])@,
            ) is Some by {}
        }
    }
}

/// What fiber `id` may have become: it is in transit, or nothing changed that consumers see
/// or that makes it one itself, or it is new.
spec fn slight_change(a: RegistryModel, b: RegistryModel, id: u64) -> bool {
    ||| in_transit(b.fibers, id)
    ||| {
        let before = a.fibers[id];
        let after = b.fibers[id];
        &&& a.fibers.contains_key(id)
        &&& before.state == after.state
        &&& before.layers == after.layers
        &&& before.dependencies == after.dependencies
        &&& before.resolved == after.resolved
        &&& in_transit(a.fibers, id) == in_transit(b.fibers, id)
        &&& after.served() ==> before.served()
    }
    ||| {
        &&& !a.fibers.contains_key(id)
        &&& !b.fibers[id].served()
        &&& !(b.fibers[id].state is Active)
        &&& forall|other: u64| #[trigger]
            a.providers.contains_key(other) ==> a.providers[other].fiber != Some(id)
    }
}

/// The registries differ in fiber `id` at most.
spec fn differs_at(a: RegistryModel, b: RegistryModel, id: u64) -> bool {
    &&& a.providers == b.providers
    &&& a.injections == b.injections
    &&& forall|other: u64|
        other != id ==> (a.fibers.contains_key(other) <==> #[trigger] b.fibers.contains_key(other))
            && a.fibers[other] == b.fibers[other]
}

proof fn lemma_same_consumer(
    a: RegistryModel,
    b: RegistryModel,
    id: u64,
    layers: Seq<Layer>,
    services: Seq<ServiceId>,
)
    requires
        differs_at(a, b, id),
        slight_change(a, b, id),
        upheld(b, layers, services),
    ensures
        upheld(a, layers, services),
        a.revisions(layers, services) == b.revisions(layers, services),
        a.satisfied(layers, services) == b.satisfied(layers, services),
{
    assert forall|i: int| 0 <= i < services.len() implies {
        let service = (#[trigger] services[i])@;
        provider::visible(a.providers, layers, service) matches Some(found) ==> {
            &&& provider::ready(a.fibers, a.providers[found]) == provider::ready(
                b.fibers,
                b.providers[found],
            )
            &&& a.providers[found].fiber matches Some(fiber) ==> !in_transit(a.fibers, fiber)
        }
    } by {
        let service = services[i]@;
        services::lemma_visible_known(a.providers, layers, service);
        if let Some(found) = provider::visible(a.providers, layers, service) {
            assert(a.providers.contains_key(found));
            if let Some(fiber) = a.providers[found].fiber {
                assert(!in_transit(b.fibers, fiber));
                assert(b.fibers.contains_key(fiber));
                if fiber != id {
                    assert(a.fibers.contains_key(fiber));
                }
            }
        }
    }
    lemma_same_resolution(a, b, layers, services);
}

/// Nothing is left to do after such a change if nothing was left before.
proof fn lemma_stays_at_rest(
    a: RegistryModel,
    b: RegistryModel,
    id: u64,
    scopes: Map<u64, ScopeModel>,
    scopes2: Map<u64, ScopeModel>,
    next: u64,
)
    requires
        at_rest(a, scopes),
        differs_at(a, b, id),
        slight_change(a, b, id),
        only_closes(scopes, scopes2, next),
        forall|other: u64| #[trigger]
            a.injections.contains_key(other) ==> a.injections[other].parent_scope < next,
    ensures
        at_rest(b, scopes2),
{
    assert forall|other: u64| #[trigger]
        b.injections.contains_key(other) && upheld(
            b,
            b.injections[other].layers,
            b.injections[other].dependencies,
        ) implies !b.runnable(scopes2, b.injections[other]) && !b.stale(
        scopes2,
        b.injections[other],
    ) by {
        let injection = b.injections[other];
        assert(a.injections.contains_key(other));
        lemma_same_consumer(a, b, id, injection.layers, injection.dependencies);
        assert(!a.runnable(scopes, injection) && !a.stale(scopes, injection));
        assert(effect::scope_disposed(scopes, injection.parent_scope) ==> effect::scope_disposed(
            scopes2,
            injection.parent_scope,
        ));
    }
    assert forall|other: u64| #[trigger]
        b.fibers.contains_key(other) && upheld(
            b,
            b.fibers[other].layers,
            b.fibers[other].dependencies,
        ) implies !b.fiber_stale(other) && !b.fiber_due(other) by {
        let fiber = b.fibers[other];
        lemma_same_consumer(a, b, id, fiber.layers, fiber.dependencies);
        if fiber.served() {
            assert(a.fibers.contains_key(other));
            assert(!a.fiber_stale(other) && !a.fiber_due(other));
        }
    }
}

/// A check that leaves a provider as available as it was changes nothing for any consumer.
proof fn lemma_refresh_stays_at_rest(
    a: RegistryModel,
    b: RegistryModel,
    scopes: Map<u64, ScopeModel>,
    id: u64,
    availability: ProviderAvailability,
)
    requires
        a.ok(),
        b.ok(),
        at_rest(a, scopes),
        a.providers.contains_key(id),
        a.providers[id].availability is Ready == availability is Ready,
        b == a.refreshed(id, availability),
    ensures
        at_rest(b, scopes),
{
    assert forall|slot: Slot| #[trigger] provider::holder(a.providers, slot) == provider::holder(
        b.providers,
        slot,
    ) by {
        assert forall|other: u64|
            provider::occupies(a.providers, other, slot) == provider::occupies(
                b.providers,
                other,
                slot,
            ) by {}
        if exists|other: u64| provider::occupies(a.providers, other, slot) {
            let other = choose|other: u64| provider::occupies(a.providers, other, slot);
            assert(provider::occupies(b.providers, other, slot));
            provider::lemma_holder(a.providers, other, slot);
            provider::lemma_holder(b.providers, other, slot);
        }
    }
    assert forall|layers: Seq<Layer>, services: Seq<ServiceId>|
        #![trigger upheld(b, layers, services)]
        upheld(b, layers, services) == upheld(a, layers, services) && a.revisions(layers, services)
            == b.revisions(layers, services) && a.satisfied(layers, services) == b.satisfied(
            layers,
            services,
        ) by {
        assert forall|i: int| 0 <= i < services.len() implies {
            let service = (#[trigger] services[i])@;
            &&& provider::visible(a.providers, layers, service) == provider::visible(
                b.providers,
                layers,
                service,
            )
            &&& provider::visible(a.providers, layers, service) matches Some(found) ==> {
                &&& provider::ready(a.fibers, a.providers[found]) == provider::ready(
                    b.fibers,
                    b.providers[found],
                )
                &&& a.providers[found].availability_revision
                    == b.providers[found].availability_revision
                &&& a.providers[found].fiber == b.providers[found].fiber
            }
        } by {
            lemma_same_local(a.providers, b.providers, layers, services[i]@);
        }
        lemma_same_resolution(a, b, layers, services);
    }
    assert forall|other: u64| #[trigger]
        b.injections.contains_key(other) && upheld(
            b,
            b.injections[other].layers,
            b.injections[other].dependencies,
        ) implies !b.runnable(scopes, b.injections[other]) && !b.stale(
        scopes,
        b.injections[other],
    ) by {
        assert(a.injections.contains_key(other));
    }
    assert forall|other: u64| #[trigger]
        b.fibers.contains_key(other) && upheld(
            b,
            b.fibers[other].layers,
            b.fibers[other].dependencies,
        ) implies !b.fiber_stale(other) && !b.fiber_due(other) by {
        assert(a.fibers.contains_key(other));
    }
}

proof fn lemma_same_local(
    a: Map<u64, ProviderRecord>,
    b: Map<u64, ProviderRecord>,
    layers: Seq<Layer>,
    service: Seq<char>,
)
    requires
        forall|slot: Slot| #[trigger] provider::holder(a, slot) == provider::holder(b, slot),
    ensures
        provider::local_holder(a, layers, service) == provider::local_holder(b, layers, service),
    decreases layers.len(),
{
    if layers.len() > 0 {
        lemma_same_local(a, b, layers.drop_last(), service);
    }
}

/// What can happen to a registry and the scopes beside it: the operations of the library,
/// with what they are given and what they return.
pub enum Change {
    Provide { layers: Seq<Layer>, offer: Offer, owner: u64 },
    RemoveProvider { id: u64 },
    RefreshProvider {
        id: u64,
        service: ServiceId,
        checked: Result<ProviderAvailability, String>,
        result: Result<(), CoreError>,
    },
    Inject { layers: Seq<Layer>, parent: u64, dependencies: Seq<ServiceId>, callback: u64 },
    RemoveInjection { id: u64 },
    Mount {
        layers: Seq<Layer>,
        parent: u64,
        key: PluginKey,
        plugin: u64,
        dependencies: Seq<ServiceId>,
    },
    Unlist { id: u64 },
    Forget { id: u64 },
    OfferHandle { id: u64 },
    ClaimHandle { id: u64 },
    AbandonHandle { id: u64 },
    StartOperation { id: u64 },
    FinishOperation { id: u64 },
    BeginActivation { id: u64, initial_mount: bool, start: ActivationStart },
    FinishActivation {
        id: u64,
        initial_mount: bool,
        scope: u64,
        providers: Seq<ProviderRevision>,
        outcome: Result<(), String>,
        end: ActivationEnd,
    },
    BeginUnload { id: u64, start: UnloadStart },
    FinishUnload {
        id: u64,
        scope: u64,
        errors: Seq<Seq<char>>,
        result: Result<(), CoreError>,
    },
    Install { id: u64, plugin: u64, dependencies: Seq<ServiceId> },
    BeginRecovery { id: u64 },
    FinishRecovery { id: u64 },
    RequestDisposal { id: u64, announce: bool },
    DisposeNow { id: u64 },
    MarkRelease { id: u64, scope: u64 },
    StoreResult { id: u64, errors: Seq<Seq<char>> },
    Finalize { id: u64, scope: u64, errors: Seq<Seq<char>> },
    Vacate { id: u64 },
    /// A round of the scheduler begins, unless one runs.
    BeginRound,
    /// The scheduler takes a batch of work.
    TakeBatch,
    /// The scheduler, at work, sorts out the injections alone.
    TakeReady,
    /// The callback of an injection of the batch ran.
    FinishInjection {
        id: u64,
        child: u64,
        providers: Seq<ProviderRevision>,
        failure: Option<Seq<char>>,
    },
    /// The scheduler, having taken an empty batch, asks whether the round is over.
    CloseRound { epoch: u64 },
    /// The scheduler is told of a change, or somebody waits for it.
    Mark,
    /// Something that no consumer of services depends on: events, views, labels, effects,
    /// groups, the log of state changes.
    Elsewhere,
    /// Scopes are created, change or are disposed.
    Scopes,
}

/// The handle of fiber `id` is passed on.
pub open spec fn handed(
    registry: RegistryModel,
    id: u64,
    handoff: HandleHandoff,
) -> RegistryModel {
    registry.with_fiber(id, FiberModel { handoff, ..registry.fibers[id] })
}

/// The change takes one state to the next. The stages of an operation on a fiber come while
/// it is in flight, and the callbacks of injections run in a round that found work.
pub open spec fn follows(a: State, change: Change, b: State) -> bool {
    let before = a.registry;
    let after = b.registry;
    let here = b == (State { registry: after, ..a });
    match change {
        Change::Provide { layers, offer, owner } => {
            let outcome = before.provide_outcome(a.scopes, layers, offer, owner);
            &&& offer.fiber matches Some(fiber) ==> fiber < before.next_id
            &&& b == (State { registry: outcome.1, scopes: outcome.2, ..a })
        },
        Change::RemoveProvider { id } => here && after == before.without_provider(id),
        Change::RefreshProvider { id, service, checked, result } => here
            && before.refresh_ended(id, service, checked, after, result),
        Change::Inject { layers, parent, dependencies, callback } => {
            let outcome = before.inject_outcome(a.scopes, layers, parent, dependencies, callback);
            b == (State { registry: outcome.1, scopes: outcome.2, ..a })
        },
        Change::RemoveInjection { id } => here && after == before.cleaned(Cleanup::Injection(id)),
        Change::Mount { layers, parent, key, plugin, dependencies } => here && after
            == before.mounted(
            before.next_id,
            FiberModel::created(key, layers, parent, plugin, dependencies),
        ),
        Change::Unlist { id } => here && before.fibers.contains_key(id) && after
            == before.unlisted(id),
        Change::Forget { id } => here && after == (RegistryModel {
            fibers: before.fibers.remove(id),
            ..before
        }),
        Change::OfferHandle { id } => {
            &&& here
            &&& before.fibers.contains_key(id)
            &&& in_transit(before.fibers, id)
            &&& after == handed(
                before,
                id,
                if before.fibers[id].handoff is Preparing {
                    HandleHandoff::ReadyForHandle
                } else {
                    before.fibers[id].handoff
                },
            )
        },
        Change::ClaimHandle { id } => {
            &&& here
            &&& before.fibers.contains_key(id)
            &&& after == handed(
                before,
                id,
                if before.fibers[id].handoff is ReadyForHandle {
                    HandleHandoff::HandleClaimed
                } else {
                    before.fibers[id].handoff
                },
            )
        },
        Change::AbandonHandle { id } => {
            &&& here
            &&& before.fibers.contains_key(id)
            &&& before.fibers[id].handoff is Preparing ==> in_transit(before.fibers, id)
            &&& after == handed(
                before,
                id,
                if before.fibers[id].handoff is HandleClaimed {
                    HandleHandoff::HandleClaimed
                } else {
                    HandleHandoff::Abandoned
                },
            )
        },
        Change::StartOperation { id } => here && before.fibers.contains_key(id) && after
            == before.lifecycle_started(id).1,
        Change::FinishOperation { id } => here && before.fibers.contains_key(id) && after
            == before.lifecycle_closed(id),
        Change::BeginActivation { id, initial_mount, start } => {
            &&& before.fibers.contains_key(id)
            &&& in_transit(before.fibers, id)
            &&& before.activation_begun(
                a.scopes,
                a.next_scope,
                id,
                initial_mount,
                after,
                b.scopes,
                start,
            )
            &&& b.idle == a.idle
            &&& b.next_scope == if start is Apply {
                (a.next_scope + 1) as u64
            } else {
                a.next_scope
            }
        },
        Change::FinishActivation { id, initial_mount, scope, providers, outcome, end } => {
            &&& here
            &&& before.fibers.contains_key(id)
            &&& in_transit(before.fibers, id)
            &&& before.activation_ended(
                a.scopes,
                id,
                initial_mount,
                scope,
                providers,
                outcome,
                after,
                end,
            )
        },
        Change::BeginUnload { id, start } => {
            &&& here
            &&& before.fibers.contains_key(id)
            &&& in_transit(before.fibers, id)
            &&& before.unload_begun(id, after, start)
        },
        Change::FinishUnload { id, scope, errors, result } => {
            &&& here
            &&& before.fibers.contains_key(id)
            &&& in_transit(before.fibers, id)
            &&& before.unload_ended(id, scope, errors, after, result)
        },
        Change::Install { id, plugin, dependencies } => {
            &&& here
            &&& before.fibers.contains_key(id)
            &&& in_transit(before.fibers, id)
            &&& after == before.with_fiber(
                id,
                FiberModel { plugin, dependencies, ..before.fibers[id] }.waiting(),
            )
        },
        Change::BeginRecovery { id } => {
            let fiber = before.fibers[id];
            &&& here
            &&& before.fibers.contains_key(id)
            &&& in_transit(before.fibers, id)
            &&& after == if !fiber.disposed && fiber.state is Loading {
                before.with_fiber(
                    id,
                    FiberModel {
                        ownership: match fiber.ownership {
                            EffectOwnership::Activating(_) => EffectOwnership::Empty,
                            other => other,
                        },
                        ..fiber
                    }.waiting(),
                )
            } else {
                before
            }
        },
        Change::FinishRecovery { id } => {
            &&& here
            &&& before.fibers.contains_key(id)
            &&& in_transit(before.fibers, id)
            &&& after == if before.fibers[id].disposed {
                before
            } else {
                before.with_fiber(id, before.fibers[id].aimed(FiberState::Failed))
            }
        },
        Change::RequestDisposal { id, announce } => {
            let requested = before.fibers[id].dispose_requested();
            &&& here
            &&& before.fibers.contains_key(id)
            &&& after == before.with_fiber(
                id,
                if announce && before.fibers[id].terminal() is Run && !(
                requested.state is Disposed) {
                    FiberModel { state: FiberState::Unloading, ..requested }
                } else {
                    requested
                },
            )
        },
        Change::DisposeNow { id } => here && after == before.dispose_now(id).1,
        Change::MarkRelease { id, scope } => {
            &&& here
            &&& before.fibers.contains_key(id)
            &&& after == (RegistryModel {
                fibers: before.fibers.insert(
                    id,
                    FiberModel {
                        ownership: match before.fibers[id].ownership {
                            EffectOwnership::Releasing(release) if release.scope == scope => {
                                EffectOwnership::Releasing(
                                    FiberRelease { scope, dispose_started: true },
                                )
                            },
                            other => other,
                        },
                        ..before.fibers[id]
                    },
                ),
                ..before
            })
        },
        Change::StoreResult { id, errors } => {
            &&& here
            &&& before.fibers.contains_key(id)
            &&& after == before.with_fiber(id, before.fibers[id].result_stored(errors))
        },
        Change::Finalize { id, scope, errors } => {
            &&& here
            &&& before.fibers.contains_key(id)
            &&& in_transit(before.fibers, id)
            &&& after == before.finalized(id, scope, errors)
        },
        Change::Vacate { id } => {
            &&& here
            &&& before.fibers.contains_key(id)
            &&& in_transit(before.fibers, id)
            &&& after == before.vacated(id)
        },
        Change::BeginRound => b == (State {
            registry: RegistryModel { recomputing: true, ..before },
            idle: a.idle && before.recomputing,
            ..a
        }),
        Change::TakeBatch => {
            &&& before.recomputing
            &&& b == (State { registry: after, idle: b.idle, ..a })
            &&& after == (RegistryModel { dirty: false, ..before }).without_stale(a.scopes)
            &&& b.idle ==> after.quiet(a.scopes)
        },
        Change::TakeReady => {
            &&& here
            &&& before.recomputing && !a.idle
            &&& after == before.without_stale(a.scopes)
        },
        Change::FinishInjection { id, child, providers, failure } => {
            &&& here
            &&& before.recomputing && !a.idle
            &&& after == before.ran(a.scopes, id, child, providers, failure).0
        },
        Change::CloseRound { epoch } => {
            &&& here
            &&& a.idle
            &&& after == if before.dirty || before.epoch != epoch {
                before
            } else {
                RegistryModel { recomputing: false, ..before }
            }
        },
        Change::Mark => here && after == before.marked(),
        Change::Elsewhere => {
            &&& here
            &&& after == (RegistryModel {
                providers: before.providers,
                injections: before.injections,
                fibers: before.fibers,
                dirty: before.dirty,
                epoch: before.epoch,
                recomputing: before.recomputing,
                ..after
            })
            &&& before.next_id <= after.next_id
        },
        Change::Scopes => {
            &&& b == (State { scopes: b.scopes, next_scope: b.next_scope, ..a })
            &&& only_closes(a.scopes, b.scopes, a.next_scope)
            &&& a.next_scope <= b.next_scope
        },
    }
}

/// A change of one fiber at most that is slight, or that the scheduler is told of.
proof fn lemma_fiber_change(a: State, b: State, id: u64)
    requires
        a.settled(),
        differs_at(a.registry, b.registry, id),
        b.registry.dirty || slight_change(a.registry, b.registry, id),
        a.registry.dirty ==> b.registry.dirty,
        a.registry.recomputing == b.registry.recomputing,
        a.idle == b.idle,
        a.registry.next_id <= b.registry.next_id,
        a.next_scope <= b.next_scope,
        only_closes(a.scopes, b.scopes, a.next_scope),
    ensures
        b.settled(),
{
    if !b.registry.dirty && !(b.registry.recomputing && !b.idle) {
        lemma_stays_at_rest(a.registry, b.registry, id, a.scopes, b.scopes, a.next_scope);
    }
}

/// The operations on providers and injections.
proof fn lemma_registrations_keep_settled(a: State, change: Change, b: State)
    requires
        a.valid(),
        b.valid(),
        a.settled(),
        follows(a, change, b),
        change is Provide || change is RemoveProvider || change is Inject
            || change is RemoveInjection,
    ensures
        b.settled(),
{
    let id = a.registry.next_id;
    if change is Provide || change is Inject {
        assert(b.registry.dirty || (a.registry.providers == b.registry.providers
            && a.registry.injections == b.registry.injections && a.registry.fibers
            == b.registry.fibers && a.scopes == b.scopes));
        if !b.registry.dirty {
            lemma_fiber_change(a, b, id);
        }
    }
}

/// A check of a provider.
proof fn lemma_refresh_keeps_settled(a: State, change: Change, b: State)
    requires
        a.valid(),
        b.valid(),
        a.settled(),
        follows(a, change, b),
        change is RefreshProvider,
    ensures
        b.settled(),
{
    let id = change->RefreshProvider_id;
    if b.registry != a.registry {
        let availability = choose|availability: ProviderAvailability|
            b.registry == a.registry.refreshed(id, availability);
        assert(b.registry == a.registry.refreshed(id, availability));
        if !b.registry.dirty && !(b.registry.recomputing && !b.idle) {
            lemma_refresh_stays_at_rest(a.registry, b.registry, a.scopes, id, availability);
        }
    }
}

/// One fiber changed at most, and it is in transit or the scheduler was told.
spec fn staged(a: RegistryModel, b: RegistryModel, id: u64) -> bool {
    &&& differs_at(a, b, id)
    &&& b.dirty || in_transit(b.fibers, id)
    &&& a.dirty ==> b.dirty
    &&& a.recomputing == b.recomputing
    &&& a.next_id <= b.next_id
}

proof fn lemma_activation_begun_staged(
    a: RegistryModel,
    b: RegistryModel,
    scopes: Map<u64, ScopeModel>,
    scopes2: Map<u64, ScopeModel>,
    next_scope: u64,
    id: u64,
    initial_mount: bool,
    start: ActivationStart,
)
    requires
        a.fibers.contains_key(id),
        in_transit(a.fibers, id),
        a.activation_begun(scopes, next_scope, id, initial_mount, b, scopes2, start),
    ensures
        staged(a, b, id),
        only_closes(scopes, scopes2, next_scope),
        !(start is Apply) ==> scopes2 == scopes,
{
    let fiber = a.fibers[id];
    if fiber.disposed {
    } else if fiber.revocable(initial_mount) {
        assert(b.fibers[id].disposed);
    } else if !(fiber.state is Pending) {
    } else {
        assert(b.fibers[id].busy == fiber.busy);
        assert(b.fibers[id].lifecycle == fiber.lifecycle);
    }
}

proof fn lemma_activation_ended_staged(
    a: RegistryModel,
    b: RegistryModel,
    scopes: Map<u64, ScopeModel>,
    id: u64,
    initial_mount: bool,
    scope: u64,
    providers: Seq<ProviderRevision>,
    outcome: Result<(), String>,
    end: ActivationEnd,
)
    requires
        a.fibers.contains_key(id),
        in_transit(a.fibers, id),
        a.activation_ended(scopes, id, initial_mount, scope, providers, outcome, b, end),
    ensures
        staged(a, b, id),
{
    let fiber = a.fibers[id].without_temporary(scope);
    if fiber.revocable(initial_mount) {
        assert(b.fibers[id].disposed);
    } else {
        assert(b.fibers[id].busy == fiber.busy);
        assert(b.fibers[id].lifecycle == fiber.lifecycle);
        assert(b.fibers[id].disposed == fiber.disposed);
    }
}

proof fn lemma_unload_begun_staged(
    a: RegistryModel,
    b: RegistryModel,
    id: u64,
    start: UnloadStart,
)
    requires
        a.fibers.contains_key(id),
        in_transit(a.fibers, id),
        a.unload_begun(id, b, start),
    ensures
        staged(a, b, id),
{
    assert(b.fibers[id].busy == a.fibers[id].busy);
    assert(b.fibers[id].lifecycle == a.fibers[id].lifecycle);
    assert(b.fibers[id].disposed == a.fibers[id].disposed);
}

proof fn lemma_unload_ended_staged(
    a: RegistryModel,
    b: RegistryModel,
    id: u64,
    scope: u64,
    errors: Seq<Seq<char>>,
    result: Result<(), CoreError>,
)
    requires
        a.fibers.contains_key(id),
        in_transit(a.fibers, id),
        a.unload_ended(id, scope, errors, b, result),
    ensures
        staged(a, b, id),
{
    assert(b.fibers[id].busy == a.fibers[id].busy);
    assert(b.fibers[id].lifecycle == a.fibers[id].lifecycle);
    assert(b.fibers[id].disposed == a.fibers[id].disposed);
}

proof fn lemma_disposal_staged(
    a: RegistryModel,
    id: u64,
    scope: u64,
    errors: Seq<Seq<char>>,
)
    requires
        a.fibers.contains_key(id),
    ensures
        staged(a, a.dispose_now(id).1, id),
        in_transit(a.fibers, id) ==> staged(a, a.finalized(id, scope, errors), id),
        in_transit(a.fibers, id) ==> staged(a, a.vacated(id), id),
{
    let requested = a.fibers[id].dispose_requested();
    assert(requested.disposed);
    assert(a.dispose_now(id).1.fibers[id].disposed);
}

/// The stages of an activation.
proof fn lemma_activations_keep_settled(a: State, change: Change, b: State, id: u64)
    requires
        a.valid(),
        b.valid(),
        a.settled(),
        follows(a, change, b),
        (change is BeginActivation && id == change->BeginActivation_id) || (
        change is FinishActivation && id == change->FinishActivation_id),
    ensures
        b.settled(),
{
    match change {
        Change::BeginActivation { initial_mount, start, .. } => {
            lemma_activation_begun_staged(
                a.registry,
                b.registry,
                a.scopes,
                b.scopes,
                a.next_scope,
                id,
                initial_mount,
                start,
            );
        },
        Change::FinishActivation { initial_mount, scope, providers, outcome, end, .. } => {
            lemma_activation_ended_staged(
                a.registry,
                b.registry,
                a.scopes,
                id,
                initial_mount,
                scope,
                providers,
                outcome,
                end,
            );
        },
        _ => {},
    }
    lemma_fiber_change(a, b, id);
}

/// The stages of the other operations on a fiber.
proof fn lemma_stages_keep_settled(a: State, change: Change, b: State, id: u64)
    requires
        a.valid(),
        b.valid(),
        a.settled(),
        follows(a, change, b),
        match change {
            Change::StartOperation { id: fiber } => id == fiber,
            Change::FinishOperation { id: fiber } => id == fiber,
            Change::BeginUnload { id: fiber, .. } => id == fiber,
            Change::FinishUnload { id: fiber, .. } => id == fiber,
            Change::Install { id: fiber, .. } => id == fiber,
            Change::BeginRecovery { id: fiber } => id == fiber,
            Change::FinishRecovery { id: fiber } => id == fiber,
            _ => false,
        },
    ensures
        b.settled(),
{
    match change {
        Change::BeginUnload { start, .. } => {
            lemma_unload_begun_staged(a.registry, b.registry, id, start);
        },
        Change::FinishUnload { scope, errors, result, .. } => {
            lemma_unload_ended_staged(a.registry, b.registry, id, scope, errors, result);
        },
        _ => {
            assert(staged(a.registry, b.registry, id));
        },
    }
    lemma_fiber_change(a, b, id);
}

/// The disposal of a fiber.
proof fn lemma_disposals_keep_settled(a: State, change: Change, b: State, id: u64)
    requires
        a.valid(),
        b.valid(),
        a.settled(),
        follows(a, change, b),
        match change {
            Change::RequestDisposal { id: fiber, .. } => id == fiber,
            Change::DisposeNow { id: fiber } => id == fiber,
            Change::Finalize { id: fiber, .. } => id == fiber,
            Change::Vacate { id: fiber } => id == fiber,
            Change::Forget { id: fiber } => id == fiber,
            _ => false,
        },
    ensures
        b.settled(),
{
    match change {
        Change::DisposeNow { .. } => {
            if a.registry.fibers.contains_key(id) {
                lemma_disposal_staged(a.registry, id, 0, Seq::empty());
            }
        },
        Change::Finalize { scope, errors, .. } => {
            lemma_disposal_staged(a.registry, id, scope, errors);
        },
        Change::Vacate { .. } => {
            lemma_disposal_staged(a.registry, id, 0, Seq::empty());
        },
        _ => {
            assert(staged(a.registry, b.registry, id));
        },
    }
    lemma_fiber_change(a, b, id);
}

/// What changes a fiber slightly.
proof fn lemma_slight_changes_keep_settled(a: State, change: Change, b: State, id: u64)
    requires
        a.valid(),
        b.valid(),
        a.settled(),
        follows(a, change, b),
        match change {
            Change::Mount { .. } => id == a.registry.next_id,
            Change::Unlist { id: fiber } => id == fiber,
            Change::OfferHandle { id: fiber } => id == fiber,
            Change::ClaimHandle { id: fiber } => id == fiber,
            Change::AbandonHandle { id: fiber } => id == fiber,
            Change::MarkRelease { id: fiber, .. } => id == fiber,
            Change::StoreResult { id: fiber, .. } => id == fiber,
            _ => false,
        },
    ensures
        b.settled(),
{
    assert(differs_at(a.registry, b.registry, id));
    if change is Mount {
        assert(!a.registry.fibers.dom().contains(id));
    }
    assert(slight_change(a.registry, b.registry, id));
    lemma_fiber_change(a, b, id);
}

/// The rounds of the scheduler.
proof fn lemma_rounds_keep_settled(a: State, change: Change, b: State)
    requires
        a.valid(),
        b.valid(),
        a.settled(),
        follows(a, change, b),
        change is BeginRound || change is TakeBatch || change is TakeReady
            || change is FinishInjection || change is CloseRound || change is Mark,
    ensures
        b.settled(),
{
    let id = a.registry.next_id;
    if change is CloseRound {
        assert(!a.registry.fibers.dom().contains(id));
        if !a.registry.dirty {
            lemma_stays_at_rest(a.registry, b.registry, id, a.scopes, b.scopes, a.next_scope);
        }
    }
    if change is BeginRound && a.registry.recomputing {
        assert(a.registry =~= b.registry);
    }
}

/// What concerns no consumer, and the scopes.
proof fn lemma_others_keep_settled(a: State, change: Change, b: State)
    requires
        a.valid(),
        b.valid(),
        a.settled(),
        follows(a, change, b),
        change is Elsewhere || change is Scopes,
    ensures
        b.settled(),
{
    let id = b.registry.next_id;
    assert(!b.registry.fibers.dom().contains(id));
    lemma_fiber_change(a, b, id);
}

/// Every operation keeps the scheduler informed: whatever happens, it has been told of what is
/// left to do, or it is at work, or every consumer is as its providers ask, those aside whose
/// providers come from a plugin in transit.
pub proof fn law_operations_keep_settled(a: State, change: Change, b: State)
    requires
        a.valid(),
        b.valid(),
        a.settled(),
        follows(a, change, b),
    ensures
        b.settled(),
{
    match change {
        Change::Provide { .. } => lemma_registrations_keep_settled(a, change, b),
        Change::RemoveProvider { .. } => lemma_registrations_keep_settled(a, change, b),
        Change::RefreshProvider { .. } => lemma_refresh_keeps_settled(a, change, b),
        Change::Inject { .. } => lemma_registrations_keep_settled(a, change, b),
        Change::RemoveInjection { .. } => lemma_registrations_keep_settled(a, change, b),
        Change::Mount { .. } => {
            lemma_slight_changes_keep_settled(a, change, b, a.registry.next_id);
        },
        Change::Unlist { id } => lemma_slight_changes_keep_settled(a, change, b, id),
        Change::Forget { id } => lemma_disposals_keep_settled(a, change, b, id),
        Change::OfferHandle { id } => lemma_slight_changes_keep_settled(a, change, b, id),
        Change::ClaimHandle { id } => lemma_slight_changes_keep_settled(a, change, b, id),
        Change::AbandonHandle { id } => lemma_slight_changes_keep_settled(a, change, b, id),
        Change::StartOperation { id } => lemma_stages_keep_settled(a, change, b, id),
        Change::FinishOperation { id } => lemma_stages_keep_settled(a, change, b, id),
        Change::BeginActivation { id, .. } => lemma_activations_keep_settled(a, change, b, id),
        Change::FinishActivation { id, .. } => lemma_activations_keep_settled(a, change, b, id),
        Change::BeginUnload { id, .. } => lemma_stages_keep_settled(a, change, b, id),
        Change::FinishUnload { id, .. } => lemma_stages_keep_settled(a, change, b, id),
        Change::Install { id, .. } => lemma_stages_keep_settled(a, change, b, id),
        Change::BeginRecovery { id } => lemma_stages_keep_settled(a, change, b, id),
        Change::FinishRecovery { id } => lemma_stages_keep_settled(a, change, b, id),
        Change::RequestDisposal { id, .. } => lemma_disposals_keep_settled(a, change, b, id),
        Change::DisposeNow { id } => lemma_disposals_keep_settled(a, change, b, id),
        Change::MarkRelease { id, .. } => lemma_slight_changes_keep_settled(a, change, b, id),
        Change::StoreResult { id, .. } => lemma_slight_changes_keep_settled(a, change, b, id),
        Change::Finalize { id, .. } => lemma_disposals_keep_settled(a, change, b, id),
        Change::Vacate { id } => lemma_disposals_keep_settled(a, change, b, id),
        Change::BeginRound => lemma_rounds_keep_settled(a, change, b),
        Change::TakeBatch => lemma_rounds_keep_settled(a, change, b),
        Change::TakeReady => lemma_rounds_keep_settled(a, change, b),
        Change::FinishInjection { .. } => lemma_rounds_keep_settled(a, change, b),
        Change::CloseRound { .. } => lemma_rounds_keep_settled(a, change, b),
        Change::Mark => lemma_rounds_keep_settled(a, change, b),
        Change::Elsewhere => lemma_others_keep_settled(a, change, b),
        Change::Scopes => lemma_others_keep_settled(a, change, b),
    }
}

/// The operations on scopes dispose scopes or leave them as they are: none brings one back.
pub proof fn law_scope_operations_only_close(
    scopes: Map<u64, ScopeModel>,
    next: u64,
    id: u64,
    name: Seq<char>,
    cleanup: Cleanup,
    disposer: u64,
    work: ManagedWork,
    errors: Seq<Seq<char>>,
)
    ensures
        only_closes(scopes, effect::child_added(scopes, id, next, name), next),
        only_closes(scopes, effect::cleanup_added(scopes, id, cleanup), next),
        only_closes(scopes, effect::work_added(scopes, id, work), next),
        !effect::scope_disposed(scopes, id) ==> only_closes(
            scopes,
            scopes.insert(
                id,
                ScopeModel { disposers: scopes[id].disposers.push(disposer), ..scopes[id] },
            ),
            next,
        ),
        only_closes(scopes, scopes.insert(id, dispose::begun(scopes[id])), next),
        only_closes(scopes, dispose::finished(scopes, id, errors), next),
        only_closes(scopes, scopes.remove(id), next),
        only_closes(
            scopes,
            disposal::works_added(scopes, id, scopes[disposer].work).remove(disposer),
            next,
        ),
{
    assert forall|other: u64|
        other < next && effect::scope_disposed(scopes, other) implies (
    #[trigger] effect::scope_disposed(effect::child_added(scopes, id, next, name), other)) by {}
    assert forall|other: u64|
        effect::scope_disposed(scopes, other) implies #[trigger] effect::scope_disposed(
        dispose::finished(scopes, id, errors),
        other,
    ) by {}
}

/// So does every step of a disposal.
pub proof fn law_disposal_steps_only_close(
    frames: Seq<FrameModel>,
    scopes: Map<u64, ScopeModel>,
    frames2: Seq<FrameModel>,
    scopes2: Map<u64, ScopeModel>,
    step: DisposeStep,
    next: u64,
)
    requires
        disposal::stepped(frames, scopes, frames2, scopes2, step),
        release::frames_closed(frames, scopes),
    ensures
        only_closes(scopes, scopes2, next),
{
    if frames.len() > 0 {
        let top = frames.last();
        assert(frames[frames.len() - 1] == top);
        if top.children.len() == 0 && top.cleanups.len() == 0 {
            effects::lemma_closed_advances(scopes, top);
        } else if top.children.len() > 0 && effect::scope_disposed(scopes, top.children.last()) {
            let child = top.children.last();
            let added = effect::work_added(scopes, top.scope, ManagedWork::ChildWait(child));
            assert(effect::scope_disposed(added, child));
            effects::lemma_detached_advances(scopes, child);
            effects::lemma_detached_advances(added, child);
            assert(only_closes(scopes, added, next));
        }
    }
}

/// What a registry with its scopes looks like in a runtime that was just created.
pub open spec fn new_state(identity: u64) -> State {
    let runtime = RuntimeModel::initial(identity);
    State {
        registry: runtime.registry,
        scopes: runtime.scopes,
        next_scope: runtime.next_scope,
        idle: false,
    }
}

/// A run of a runtime from its creation on.
pub open spec fn run_of(identity: u64, states: Seq<State>, changes: Seq<Change>) -> bool {
    &&& states.len() == changes.len() + 1
    &&& states[0] == new_state(identity)
    &&& forall|i: int| 0 <= i < states.len() ==> (#[trigger] states[i]).valid()
    &&& forall|i: int|
        0 <= i < changes.len() ==> follows(states[i], #[trigger] changes[i], states[i + 1])
}

proof fn lemma_runs_stay_settled(
    identity: u64,
    states: Seq<State>,
    changes: Seq<Change>,
    at: int,
)
    requires
        run_of(identity, states, changes),
        0 <= at < states.len(),
    ensures
        states[at].settled(),
    decreases at,
{
    if at > 0 {
        lemma_runs_stay_settled(identity, states, changes, at - 1);
        let change = changes[at - 1];
        assert(states[at - 1].valid() && states[at].valid());
        law_operations_keep_settled(states[at - 1], change, states[at]);
    }
}

/// When a runtime has settled, that is, nothing was reported to the scheduler that it has not
/// dealt with and no round runs, every consumer is as its providers ask. An active injection
/// or plugin was built on the providers that its dependencies resolve to, and one that waits
/// has a dependency that does not resolve. This holds at every such moment of every run, for
/// every consumer of a live scope and every plugin that nobody operates on, unless one of its
/// providers comes from a plugin in transit.
pub proof fn law_settled_consumers_follow_their_providers(
    identity: u64,
    states: Seq<State>,
    changes: Seq<Change>,
    at: int,
)
    requires
        run_of(identity, states, changes),
        0 <= at < states.len(),
        !states[at].registry.dirty,
        !states[at].registry.recomputing,
    ensures
        ({
            let registry = states[at].registry;
            let scopes = states[at].scopes;
            &&& forall|id: u64| #[trigger]
                registry.injections.contains_key(id) ==> {
                    let injection = registry.injections[id];
                    let layers = injection.layers;
                    let services = injection.dependencies;
                    !effect::scope_disposed(scopes, injection.parent_scope) && upheld(
                        registry,
                        layers,
                        services,
                    ) ==> {
                        &&& injection.phase is Active ==> injection.resolved
                            == registry.revisions(layers, services)
                        &&& injection.phase is Failed ==> injection.resolved
                            == registry.revisions(layers, services) || some_missing(
                            registry,
                            layers,
                            services,
                        )
                        &&& injection.phase is Pending ==> some_missing(registry, layers, services)
                    }
                }
            &&& forall|id: u64| #[trigger]
                registry.fibers.contains_key(id) ==> {
                    let fiber = registry.fibers[id];
                    let layers = fiber.layers;
                    let services = fiber.dependencies;
                    let served = fiber.registered && !fiber.disposed && !fiber.busy
                        && fiber.lifecycle is None && !(fiber.handoff is Preparing);
                    served && upheld(registry, layers, services) ==> {
                        &&& fiber.state is Active ==> fiber.resolved == registry.revisions(
                            layers,
                            services,
                        )
                        &&& fiber.state is Pending ==> some_missing(registry, layers, services)
                    }
                }
        }),
{
    lemma_runs_stay_settled(identity, states, changes, at);
}

/// One of the services does not resolve.
pub open spec fn some_missing(
    registry: RegistryModel,
    layers: Seq<Layer>,
    services: Seq<ServiceId>,
) -> bool {
    exists|i: int|
        0 <= i < services.len() && registry.resolve(layers, (#[trigger] services[i])@) is None
}

} // verus!
