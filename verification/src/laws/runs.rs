//! The runs of injections: when one is due, what it is given, and what becomes of it.

use crate::effect::{Cleanup, ScopeModel};
use crate::error::CoreError;
use crate::fiber::{FiberState, ProviderRevision};
use crate::injection::{InjectionModel, InjectionPhase};
use crate::registry::inject;
use crate::registry::RegistryModel;
use crate::service::ServiceId;
use crate::view::Layer;
use vstd::prelude::*;

verus! {

/// The scope is known and not disposed.
pub open spec fn alive(scopes: Map<u64, ScopeModel>, id: u64) -> bool {
    scopes.contains_key(id) && !scopes[id].disposed
}

/// A run of an injection is given every service that it depends on, with the object that its
/// view resolves the name to, and nothing else.
pub proof fn law_run_is_given_every_service(
    registry: RegistryModel,
    layers: Seq<Layer>,
    services: Seq<ServiceId>,
    k: int,
    name: Seq<char>,
)
    requires
        forall|k: int|
            0 <= k < services.len() ==> registry.resolve(layers, (#[trigger] services[k])@) is Some,
    ensures
        0 <= k < services.len() ==> {
            let id = registry.resolve(layers, services[k]@)->0;
            let given = registry.service_objects(layers, services);
            &&& given.contains_key(services[k]@)
            &&& given[services[k]@].tag == registry.providers[id].tag
            &&& given[services[k]@].value == registry.providers[id].value
        },
        registry.service_objects(layers, services).contains_key(name) ==> exists|j: int|
            0 <= j < services.len() && (#[trigger] services[j])@ == name,
{
    registry.lemma_service_objects(layers, services);
    if 0 <= k < services.len() {
        assert(registry.resolve(layers, services[k]@) is Some);
        assert(registry.service_object(layers, services[k]@) is Some);
        assert(registry.service_objects(layers, services).contains_key(services[k]@));
    }
}

/// An injection is due exactly if its scope is alive, all its dependencies resolve, and it
/// waits, or it failed on other providers than there are now.
pub proof fn law_due_injections(
    registry: RegistryModel,
    scopes: Map<u64, ScopeModel>,
    injection: InjectionModel,
    ids: Seq<u64>,
    id: u64,
)
    ensures
        registry.runnable(scopes, injection) <==> {
            &&& alive(scopes, injection.parent_scope)
            &&& forall|k: int|
                0 <= k < injection.dependencies.len() ==> registry.resolve(
                    injection.layers,
                    (#[trigger] injection.dependencies[k])@,
                ) is Some
            &&& injection.phase == InjectionPhase::Pending || (injection.phase
                == InjectionPhase::Failed && injection.resolved != registry.revisions(
                injection.layers,
                injection.dependencies,
            ))
        },
        registry.runnable_ids(scopes, ids).contains(id) <==> ids.contains(id)
            && registry.runnable(scopes, registry.injections[id]),
{
    lemma_filter_iff(ids, |id: u64| registry.runnable(scopes, registry.injections[id]), id);
    if registry.satisfied(injection.layers, injection.dependencies) {
        assert forall|k: int| 0 <= k < injection.dependencies.len() implies registry.resolve(
            injection.layers,
            (#[trigger] injection.dependencies[k])@,
        ) is Some by {}
    }
}

/// What a filter keeps of a list of identifiers.
pub proof fn lemma_filter_iff(ids: Seq<u64>, pred: spec_fn(u64) -> bool, id: u64)
    ensures
        ids.filter(pred).contains(id) <==> ids.contains(id) && pred(id),
    decreases ids.len(),
{
    reveal(Seq::filter);
    if ids.len() > 0 {
        let front = ids.drop_last();
        lemma_filter_iff(front, pred, id);
        let held = front.filter(pred);
        let kept = ids.filter(pred);
        if kept.contains(id) {
            let i = choose|i: int| 0 <= i < kept.len() && kept[i] == id;
            if i < held.len() {
                assert(held[i] == id);
                let k = choose|k: int| 0 <= k < front.len() && front[k] == id;
                assert(ids[k] == id);
            } else {
                assert(ids[ids.len() - 1] == id);
            }
        }
        if ids.contains(id) && pred(id) {
            let i = choose|i: int| 0 <= i < ids.len() && ids[i] == id;
            if i < front.len() {
                assert(front[i] == id);
                let k = choose|k: int| 0 <= k < held.len() && held[k] == id;
                assert(kept[k] == id);
            } else {
                assert(kept[kept.len() - 1] == id);
            }
        }
    }
}

/// An injection has to be rebuilt exactly if its scope is alive, it is active, and the
/// providers that it was built on are not those that there are now.
pub proof fn law_outdated_injections(
    registry: RegistryModel,
    scopes: Map<u64, ScopeModel>,
    injection: InjectionModel,
)
    ensures
        registry.stale(scopes, injection) <==> alive(scopes, injection.parent_scope)
            && injection.phase == InjectionPhase::Active && injection.resolved
            != registry.revisions(injection.layers, injection.dependencies),
{
}

/// The scheduler gives the scopes of all outdated injections up, and of no other, and lets
/// these injections wait again with nothing left of the run. All others stay as they are.
pub proof fn law_outdated_injections_start_over(
    registry: RegistryModel,
    scopes: Map<u64, ScopeModel>,
    ids: Seq<u64>,
    id: u64,
    scope: u64,
)
    requires
        registry.injections.contains_key(id),
        ids.contains(id),
    ensures
        ({
            let held = registry.injections[id];
            let after = registry.without_stale(scopes);
            &&& after.injections.dom() == registry.injections.dom()
            &&& after == (RegistryModel { injections: after.injections, ..registry })
            &&& registry.stale(scopes, held) ==> after.injections[id] == (InjectionModel {
                phase: InjectionPhase::Pending,
                child_scope: None,
                resolved: Seq::empty(),
                last_error: None,
                ..held
            })
            &&& !registry.stale(scopes, held) ==> after.injections[id] == held
            &&& registry.stale(scopes, held) && held.child_scope == Some(scope)
                ==> registry.stale_scopes(scopes, ids).contains(scope)
        }),
        registry.stale_scopes(scopes, ids).contains(scope) ==> exists|k: int|
            0 <= k < ids.len() && registry.stale(
                scopes,
                registry.injections[#[trigger] ids[k]],
            ) && registry.injections[ids[k]].child_scope == Some(scope),
{
    assert(registry.without_stale(scopes).injections.dom() =~= registry.injections.dom());
    lemma_stale_scopes(registry, scopes, ids, scope);
    if registry.stale(scopes, registry.injections[id]) && registry.injections[id].child_scope
        == Some(scope) {
        let k = choose|k: int| 0 <= k < ids.len() && ids[k] == id;
        assert(registry.stale(scopes, registry.injections[ids[k]]));
    }
}

proof fn lemma_stale_scopes(
    registry: RegistryModel,
    scopes: Map<u64, ScopeModel>,
    ids: Seq<u64>,
    scope: u64,
)
    ensures
        registry.stale_scopes(scopes, ids).contains(scope) <==> exists|k: int|
            0 <= k < ids.len() && registry.stale(
                scopes,
                registry.injections[#[trigger] ids[k]],
            ) && registry.injections[ids[k]].child_scope == Some(scope),
    decreases ids.len(),
{
    if ids.len() > 0 {
        let front = ids.drop_last();
        lemma_stale_scopes(registry, scopes, front, scope);
        let held = registry.stale_scopes(scopes, front);
        let all = registry.stale_scopes(scopes, ids);
        let n = ids.len() - 1;
        assert(ids[n] == ids.last());
        if all.contains(scope) {
            let i = choose|i: int| 0 <= i < all.len() && all[i] == scope;
            if i < held.len() {
                assert(held[i] == scope);
                let k = choose|k: int|
                    0 <= k < front.len() && registry.stale(
                        scopes,
                        registry.injections[#[trigger] front[k]],
                    ) && registry.injections[front[k]].child_scope == Some(scope);
                assert(ids[k] == front[k]);
            } else {
                assert(registry.stale(scopes, registry.injections[ids[n]]));
            }
        }
        if exists|k: int|
            0 <= k < ids.len() && registry.stale(
                scopes,
                registry.injections[#[trigger] ids[k]],
            ) && registry.injections[ids[k]].child_scope == Some(scope) {
            let k = choose|k: int|
                0 <= k < ids.len() && registry.stale(
                    scopes,
                    registry.injections[#[trigger] ids[k]],
                ) && registry.injections[ids[k]].child_scope == Some(scope);
            if k < n {
                assert(front[k] == ids[k]);
                assert(held.contains(scope));
                let i = choose|i: int| 0 <= i < held.len() && held[i] == scope;
                assert(all[i] == scope);
            } else {
                assert(all[all.len() - 1] == scope);
            }
        }
    }
}

/// What becomes of a run. One that comes too late, as its injection or the scope above is gone,
/// is given up and changes nothing. One that failed leaves its message, and is given up. One
/// that was overtaken by other providers is given up, and the injection waits again. Otherwise
/// the injection is active, in the scope of the run, on the providers of the run.
pub proof fn law_run_ends(
    registry: RegistryModel,
    scopes: Map<u64, ScopeModel>,
    id: u64,
    child: u64,
    providers: Seq<ProviderRevision>,
    failure: Option<Seq<char>>,
)
    ensures
        ({
            let held = registry.injections[id];
            let (after, given_up) = registry.ran(scopes, id, child, providers, failure);
            let made = after.injections[id];
            let known = registry.injections.contains_key(id) && alive(scopes, held.parent_scope);
            let current = (forall|k: int|
                0 <= k < held.dependencies.len() ==> registry.resolve(
                    held.layers,
                    (#[trigger] held.dependencies[k])@,
                ) is Some) && registry.revisions(held.layers, held.dependencies) == providers;
            &&& !known ==> given_up && after == registry
            &&& known && failure is Some ==> {
                &&& given_up
                &&& made.phase == InjectionPhase::Failed
                &&& made.last_error == failure
                &&& made.resolved == providers
                &&& made.child_scope is None
            }
            &&& known && failure is None && !current ==> {
                &&& given_up
                &&& made.phase == InjectionPhase::Pending
                &&& made.last_error is None
                &&& made.resolved.len() == 0
                &&& made.child_scope is None
                &&& after.dirty
            }
            &&& known && failure is None && current ==> {
                &&& !given_up
                &&& made.phase == InjectionPhase::Active
                &&& made.last_error is None
                &&& made.resolved == providers
                &&& made.child_scope == Some(child)
            }
            &&& known ==> {
                &&& after.injections.dom() == registry.injections.dom()
                &&& made.layers == held.layers
                &&& made.dependencies == held.dependencies
                &&& made.parent_scope == held.parent_scope
                &&& made.callback == held.callback
            }
            &&& forall|other: u64|
                other != id && #[trigger] registry.injections.contains_key(other)
                    ==> after.injections[other] == registry.injections[other]
            &&& after == (RegistryModel {
                injections: after.injections,
                dirty: after.dirty,
                epoch: after.epoch,
                ..registry
            })
            &&& registry.dirty ==> after.dirty
            &&& after.dirty || after.epoch == registry.epoch
        }),
{
    let held = registry.injections[id];
    let after = registry.ran(scopes, id, child, providers, failure).0;
    if registry.injections.contains_key(id) {
        assert(after.injections.dom() =~= registry.injections.dom());
    }
    if registry.satisfied(held.layers, held.dependencies) {
        assert forall|k: int| 0 <= k < held.dependencies.len() implies registry.resolve(
            held.layers,
            (#[trigger] held.dependencies[k])@,
        ) is Some by {}
    }
}

/// What a host reports of a run: the message of a failure, or nothing.
pub proof fn law_failure_is_its_message(outcome: Result<(), String>)
    ensures
        outcome is Ok <==> inject::failure_of(outcome) is None,
        outcome matches Err(message) ==> inject::failure_of(outcome) == Some(message@),
{
}

/// An injection is taken exactly if it depends on something and its scope is alive. It waits
/// then, as it was asked for, the scope withdraws it, and the scheduler is told.
pub proof fn law_injection_is_registered_as_asked(
    registry: RegistryModel,
    scopes: Map<u64, ScopeModel>,
    layers: Seq<Layer>,
    parent: u64,
    dependencies: Seq<ServiceId>,
    callback: u64,
)
    ensures
        ({
            let id = registry.next_id;
            let (r, after, scopes2) = registry.inject_outcome(
                scopes,
                layers,
                parent,
                dependencies,
                callback,
            );
            &&& dependencies.len() == 0 ==> r == Err::<u64, CoreError>(CoreError::EmptyInjection)
            &&& dependencies.len() > 0 && !alive(scopes, parent) ==> r == Err::<u64, CoreError>(
                CoreError::ContextDisposed,
            )
            &&& r is Err ==> after == registry && scopes2 == scopes
            &&& dependencies.len() > 0 && alive(scopes, parent) ==> {
                &&& r == Ok::<u64, CoreError>(id)
                &&& after.injections == registry.injections.insert(
                    id,
                    InjectionModel {
                        layers,
                        parent_scope: parent,
                        dependencies,
                        callback,
                        child_scope: None,
                        phase: InjectionPhase::Pending,
                        resolved: Seq::empty(),
                        last_error: None,
                    },
                )
                &&& after.dirty
                &&& after == (RegistryModel {
                    next_id: (id + 1) as u64,
                    injections: after.injections,
                    dirty: true,
                    epoch: after.epoch,
                    ..registry
                })
                &&& scopes2 == scopes.insert(
                    parent,
                    ScopeModel {
                        cleanups: scopes[parent].cleanups.push(Cleanup::Injection(id)),
                        ..scopes[parent]
                    },
                )
            }
        }),
{
}

/// The scheduler takes care of a plugin exactly if it is listed and not disposed, no operation
/// runs on it, and its first mount is over. It unloads an active one that was built on other
/// providers than there are now, and activates one that waits and whose dependencies all
/// resolve.
pub proof fn law_scheduled_plugins(registry: RegistryModel, id: u64)
    ensures
        ({
            let fiber = registry.fibers[id];
            let served = fiber.registered && !fiber.disposed && !fiber.busy
                && fiber.lifecycle is None && !(fiber.handoff is Preparing);
            &&& registry.fiber_stale(id) <==> served && fiber.state == FiberState::Active
                && fiber.resolved != registry.revisions(fiber.layers, fiber.dependencies)
            &&& registry.fiber_due(id) <==> served && fiber.state == FiberState::Pending
                && forall|k: int|
                0 <= k < fiber.dependencies.len() ==> registry.resolve(
                    fiber.layers,
                    (#[trigger] fiber.dependencies[k])@,
                ) is Some
        }),
{
    let fiber = registry.fibers[id];
    if registry.satisfied(fiber.layers, fiber.dependencies) {
        assert forall|k: int| 0 <= k < fiber.dependencies.len() implies registry.resolve(
            fiber.layers,
            (#[trigger] fiber.dependencies[k])@,
        ) is Some by {}
    }
}

/// All is quiet exactly if no injection is due or outdated and no plugin is to be unloaded or
/// activated.
pub proof fn law_quiet_means_nothing_to_do(
    registry: RegistryModel,
    scopes: Map<u64, ScopeModel>,
)
    ensures
        registry.quiet(scopes) <==> {
            &&& forall|id: u64| #[trigger]
                registry.injections.contains_key(id) ==> !registry.runnable(
                    scopes,
                    registry.injections[id],
                ) && !registry.stale(scopes, registry.injections[id])
            &&& forall|id: u64| #[trigger]
                registry.fibers.contains_key(id) ==> !registry.fiber_stale(id)
                    && !registry.fiber_due(id)
        },
{
}

/// This injection is outdated and has a scope of a run.
pub open spec fn outdated_run(
    registry: RegistryModel,
    scopes: Map<u64, ScopeModel>,
    id: u64,
) -> bool {
    registry.stale(scopes, registry.injections[id]) && registry.injections[id].child_scope is Some
}

/// The work of a round comes in order of the identifiers, each piece once: the injections that
/// are due, and the scopes of those that are outdated.
pub proof fn law_round_keeps_the_order(
    registry: RegistryModel,
    scopes: Map<u64, ScopeModel>,
    ids: Seq<u64>,
)
    ensures
        registry.runnable_ids(scopes, ids) == ids.filter(
            |id: u64| registry.runnable(scopes, registry.injections[id]),
        ),
        ({
            let outdated = ids.filter(|id: u64| outdated_run(registry, scopes, id));
            let given_up = registry.stale_scopes(scopes, ids);
            &&& given_up.len() == outdated.len()
            &&& forall|k: int|
                0 <= k < given_up.len() ==> Some(#[trigger] given_up[k])
                    == registry.injections[outdated[k]].child_scope
        }),
    decreases ids.len(),
{
    reveal(Seq::filter);
    if ids.len() > 0 {
        law_round_keeps_the_order(registry, scopes, ids.drop_last());
    }
}

} // verus!
