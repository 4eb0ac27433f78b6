//! The operations on plugin fibers: what each does to a fiber, and what it tells the host.

use crate::effect;
use crate::effect::completion;
use crate::effect::{Cleanup, ScopeModel};
use crate::error::CoreError;
use crate::fiber::{
    EffectOwnership, FiberModel, FiberRelease, FiberState, HandleHandoff, ProviderRevision,
};
use crate::laws::runs;
use crate::plugin::PluginKey;
use crate::provider;
use crate::registry;
use crate::registry::activate::{ActivationEnd, ActivationStart};
use crate::registry::groups;
use crate::registry::lifecycle::{TerminalRelease, UnloadStart};
use crate::registry::{GroupModel, RegistryModel};
use crate::service::ServiceId;
use crate::view::Layer;
use vstd::prelude::*;

verus! {

/// Nothing changed but fiber `id`, its place in the groups, what is announced of it, and what
/// the scheduler is told.
pub open spec fn concerns_only(a: RegistryModel, b: RegistryModel, id: u64) -> bool {
    &&& b == (RegistryModel {
        fibers: b.fibers,
        groups: b.groups,
        effects: b.effects,
        outbox: b.outbox,
        dirty: b.dirty,
        epoch: b.epoch,
        next_id: b.next_id,
        ..a
    })
    &&& forall|other: u64|
        other != id ==> (#[trigger] b.fibers.contains_key(other) <==> a.fibers.contains_key(other))
            && b.fibers[other] == a.fibers[other]
    &&& b.fibers.contains_key(id) <==> a.fibers.contains_key(id)
    &&& a.fibers[id].registered == b.fibers[id].registered ==> a.groups == b.groups
    &&& a.dirty ==> b.dirty
    &&& b.dirty || a.epoch == b.epoch
    &&& a.outbox.len() <= b.outbox.len()
    &&& forall|k: int| 0 <= k < a.outbox.len() ==> #[trigger] b.outbox[k] == a.outbox[k]
    &&& forall|k: int| a.outbox.len() <= k < b.outbox.len() ==> (#[trigger] b.outbox[k]).fiber_id
        == id
}

/// It is still the same fiber: what it was mounted with and whose handle it has did not change.
pub open spec fn same_mount(held: FiberModel, made: FiberModel) -> bool {
    &&& made.plugin_key == held.plugin_key
    &&& made.layers == held.layers
    &&& made.parent_scope == held.parent_scope
    &&& made.plugin == held.plugin
    &&& made.dependencies == held.dependencies
    &&& made.handoff == held.handoff
}

/// Nobody started or ended an operation on the fiber.
pub open spec fn same_operation(held: FiberModel, made: FiberModel) -> bool {
    made.busy == held.busy && made.lifecycle == held.lifecycle
}

/// All dependencies of the fiber resolve.
pub open spec fn all_there(registry: RegistryModel, fiber: FiberModel) -> bool {
    forall|k: int|
        0 <= k < fiber.dependencies.len() ==> registry.resolve(
            fiber.layers,
            (#[trigger] fiber.dependencies[k])@,
        ) is Some
}

/// The same providers are seen while the same fibers are active.
proof fn lemma_same_sight(
    a: RegistryModel,
    b: RegistryModel,
    layers: Seq<Layer>,
    services: Seq<ServiceId>,
)
    requires
        a.providers == b.providers,
        forall|fiber: u64| #[trigger]
            provider::fiber_active(a.fibers, fiber) == provider::fiber_active(b.fibers, fiber),
    ensures
        a.revisions(layers, services) == b.revisions(layers, services),
        forall|name: Seq<char>| #[trigger] a.resolve(layers, name) == b.resolve(layers, name),
        a.satisfied(layers, services) == b.satisfied(layers, services),
    decreases services.len(),
{
    assert forall|name: Seq<char>| #[trigger]
        a.resolve(layers, name) == b.resolve(layers, name) by {
        if let Some(found) = provider::visible(a.providers, layers, name) {
            if let Some(fiber) = a.providers[found].fiber {
                assert(provider::fiber_active(a.fibers, fiber) == provider::fiber_active(
                    b.fibers,
                    fiber,
                ));
            }
        }
    }
    if services.len() > 0 {
        lemma_same_sight(a, b, layers, services.drop_last());
    }
    assert(a.satisfied(layers, services) == b.satisfied(layers, services)) by {
        if a.satisfied(layers, services) {
            assert forall|i: int| 0 <= i < services.len() implies provider::resolved(
                b.providers,
                b.fibers,
                layers,
                (#[trigger] services[i])@,
            ) is Some by {
                assert(a.resolve(layers, services[i]@) == b.resolve(layers, services[i]@));
            }
        }
        if b.satisfied(layers, services) {
            assert forall|i: int| 0 <= i < services.len() implies provider::resolved(
                a.providers,
                a.fibers,
                layers,
                (#[trigger] services[i])@,
            ) is Some by {
                assert(a.resolve(layers, services[i]@) == b.resolve(layers, services[i]@));
            }
        }
    }
}

/// A plugin is applied exactly if its fiber is not disposed, its first mount was not given up,
/// it waits, all its dependencies resolve, and the scope above is alive. It is applied in a new
/// scope below that one, on the providers that its dependencies resolve to, and the fiber is
/// loading. In every other case the host is told why there is nothing to apply.
pub proof fn law_activation_begins(
    registry: RegistryModel,
    scopes: Map<u64, ScopeModel>,
    next_scope: u64,
    id: u64,
    initial_mount: bool,
    after: RegistryModel,
    scopes_after: Map<u64, ScopeModel>,
    start: ActivationStart,
)
    requires
        registry.fibers.contains_key(id),
        registry.activation_begun(
            scopes,
            next_scope,
            id,
            initial_mount,
            after,
            scopes_after,
            start,
        ),
    ensures
        ({
            let held = registry.fibers[id];
            let made = after.fibers[id];
            let given_up = initial_mount && held.handoff == HandleHandoff::Abandoned;
            let waits = !held.disposed && !given_up && held.state == FiberState::Pending;
            let applied = waits && all_there(registry, held) && runs::alive(
                scopes,
                held.parent_scope,
            );
            &&& start is Apply <==> applied
            &&& held.disposed ==> start == ActivationStart::Refused(CoreError::FiberDisposed)
                && after == registry
            &&& !held.disposed && given_up ==> {
                &&& start == ActivationStart::Revoked(
                    match held.ownership {
                        EffectOwnership::Activating(scope) => Some(scope),
                        EffectOwnership::Active(scope) => Some(scope),
                        _ => None,
                    },
                )
                &&& made.disposed
                &&& made.state == FiberState::Disposed
                &&& !made.registered
                &&& made.ownership == match held.ownership {
                    EffectOwnership::Releasing(release) => held.ownership,
                    _ => EffectOwnership::Empty,
                }
            }
            &&& !held.disposed && !given_up && held.state != FiberState::Pending ==> start is Idle
                && after == registry
            &&& waits && !all_there(registry, held) ==> {
                &&& start is Idle
                &&& made.state == FiberState::Pending
                &&& made.ownership == held.ownership
            }
            &&& waits && all_there(registry, held) && !runs::alive(scopes, held.parent_scope) ==> {
                &&& start == ActivationStart::Refused(CoreError::ContextDisposed)
                &&& made.state == FiberState::Failed
                &&& made.last_error == Some("parent scope disposed before apply"@)
            }
            &&& applied ==> {
                &&& start->Apply_scope == next_scope
                &&& start->Apply_plugin == held.plugin
                &&& start->Apply_providers@ == registry.revisions(held.layers, held.dependencies)
                &&& made.state == FiberState::Loading
                &&& made.ownership == EffectOwnership::Activating(next_scope)
                &&& made.plugin == held.plugin
                &&& made.dependencies == held.dependencies
                &&& made.layers == held.layers
                &&& after.effects.contains_key(next_scope)
                &&& after.effects[next_scope].name == "plugin"@
                &&& after.effects[next_scope].parent == Some(held.parent_scope)
                &&& after.effects[next_scope].fiber_id == Some(id)
                &&& next_scope != held.parent_scope ==> {
                    &&& runs::alive(scopes_after, next_scope)
                    &&& scopes_after[next_scope].parent == Some(held.parent_scope)
                    &&& scopes_after[next_scope].cleanups == seq![Cleanup::Effect(next_scope)]
                    &&& scopes_after[held.parent_scope].children
                        == scopes[held.parent_scope].children.push(next_scope)
                }
            }
            &&& !applied ==> scopes_after == scopes && after.effects == registry.effects
            &&& applied ==> {
                &&& after.effects == registry.effects.insert(
                    next_scope,
                    after.effects[next_scope],
                )
                &&& forall|other: u64|
                    other != next_scope && other != held.parent_scope
                        && #[trigger] scopes.contains_key(other) ==> scopes_after[other]
                        == scopes[other]
            }
            &&& same_mount(held, made)
            &&& same_operation(held, made)
            &&& made.dispose_result == held.dispose_result
            &&& !given_up ==> made.disposed == held.disposed && made.registered
                == held.registered
            &&& concerns_only(registry, after, id)
            &&& after.next_id == registry.next_id
            &&& after.dirty == registry.dirty
        }),
{
    let held = registry.fibers[id];
    if held.state is Pending {
        let claimed = registry.with_fiber(id, held.loading());
        assert forall|fiber: u64| #[trigger]
            provider::fiber_active(registry.fibers, fiber) == provider::fiber_active(
                claimed.fibers,
                fiber,
            ) by {}
        lemma_same_sight(registry, claimed, held.layers, held.dependencies);
        assert(registry.satisfied(held.layers, held.dependencies) == all_there(registry, held)) by {
            if registry.satisfied(held.layers, held.dependencies) {
                assert forall|k: int| 0 <= k < held.dependencies.len() implies registry.resolve(
                    held.layers,
                    (#[trigger] held.dependencies[k])@,
                ) is Some by {}
            }
        }
        assert(Seq::<Cleanup>::empty().push(Cleanup::Effect(next_scope))
            =~= seq![Cleanup::Effect(next_scope)]);
    }
}

/// An applied plugin is active exactly if its fiber is still wanted, it did not fail, its scope
/// and the one above are alive, and its dependencies still resolve to the providers that it was
/// applied on. It owns its scope then, and the scheduler is told. In every other case its scope
/// is given up and the host is told why.
pub proof fn law_activation_ends(
    registry: RegistryModel,
    scopes: Map<u64, ScopeModel>,
    id: u64,
    initial_mount: bool,
    scope: u64,
    providers: Seq<ProviderRevision>,
    outcome: Result<(), String>,
    after: RegistryModel,
    end: ActivationEnd,
)
    requires
        registry.fibers.contains_key(id),
        registry.activation_ended(
            scopes,
            id,
            initial_mount,
            scope,
            providers,
            outcome,
            after,
            end,
        ),
    ensures
        ({
            let held = registry.fibers[id];
            let made = after.fibers[id];
            let given_up = initial_mount && held.handoff == HandleHandoff::Abandoned;
            let wanted = !given_up && !held.disposed;
            let alive = runs::alive(scopes, scope) && runs::alive(scopes, held.parent_scope);
            let current = all_there(registry, held) && registry.revisions(
                held.layers,
                held.dependencies,
            ) == providers;
            let active = wanted && outcome is Ok && alive && current && held.state
                != FiberState::Disposed;
            &&& active ==> {
                &&& end.result is Ok
                &&& end.dispose is None
                &&& made.state == FiberState::Active
                &&& made.ownership == EffectOwnership::Active(scope)
                &&& made.resolved == providers
                &&& made.last_error is None
                &&& after.dirty
            }
            &&& !active ==> end.dispose == Some(scope)
            &&& !active ==> made.ownership != EffectOwnership::Activating(scope)
            &&& !active && !given_up && held.ownership != EffectOwnership::Activating(scope)
                ==> made.ownership == held.ownership
            &&& !active && held.ownership == EffectOwnership::Activating(scope)
                ==> made.ownership is Empty
            &&& !active && held.state != FiberState::Active ==> made.state != FiberState::Active
            &&& wanted && outcome is Ok && alive && current && held.state == FiberState::Disposed
                ==> end.result == Err::<(), CoreError>(CoreError::FiberDisposed)
            &&& !wanted ==> end.result == Err::<(), CoreError>(CoreError::FiberDisposed)
                && made.state == FiberState::Disposed && made.disposed
            &&& given_up ==> !made.registered
            &&& wanted ==> (outcome matches Err(message) ==> {
                &&& end.result == Err::<(), CoreError>(CoreError::PluginApply(message))
                &&& made.last_error == Some(message@)
                &&& held.state != FiberState::Disposed ==> made.state == FiberState::Failed
            })
            &&& wanted && outcome is Ok && !alive ==> {
                &&& end.result matches Err(CoreError::PluginApply(message)) && message@
                    == "plugin scope was disposed during apply"@
                &&& made.last_error == Some("plugin scope was disposed during apply"@)
                &&& held.state != FiberState::Disposed ==> made.state == FiberState::Failed
            }
            &&& wanted && outcome is Ok && alive && !current ==> {
                &&& end.result is Ok
                &&& made.resolved.len() == 0
                &&& made.last_error is None
                &&& held.state != FiberState::Disposed ==> made.state == FiberState::Pending
                &&& after.dirty
            }
            &&& same_mount(held, made)
            &&& same_operation(held, made)
            &&& made.dispose_result == held.dispose_result
            &&& !given_up ==> made.disposed == held.disposed && made.registered
                == held.registered
            &&& after.effects == registry.effects
            &&& after.next_id == registry.next_id
            &&& concerns_only(registry, after, id)
        }),
{
    let held = registry.fibers[id];
    assert(registry.satisfied(held.layers, held.dependencies) == all_there(registry, held)) by {
        if registry.satisfied(held.layers, held.dependencies) {
            assert forall|k: int| 0 <= k < held.dependencies.len() implies registry.resolve(
                held.layers,
                (#[trigger] held.dependencies[k])@,
            ) is Some by {}
        }
    }
}

/// To unload a fiber is to release the scope that it owns, whatever its stage, and to let the
/// fiber wait then. A fiber that owns none waits at once. A disposed one stays disposed.
pub proof fn law_unload_begins(
    registry: RegistryModel,
    id: u64,
    after: RegistryModel,
    start: UnloadStart,
)
    requires
        registry.fibers.contains_key(id),
        registry.unload_begun(id, after, start),
    ensures
        ({
            let held = registry.fibers[id];
            let made = after.fibers[id];
            let living = !held.disposed && held.state != FiberState::Disposed;
            let owned = match held.ownership {
                EffectOwnership::Empty => None,
                EffectOwnership::Activating(scope) => Some(scope),
                EffectOwnership::Active(scope) => Some(scope),
                EffectOwnership::Releasing(release) => Some(release.scope),
            };
            &&& owned is Some && living ==> {
                &&& start == UnloadStart::Release(owned->0)
                &&& made.state == FiberState::Unloading
                &&& made.ownership matches EffectOwnership::Releasing(release) && release.scope
                    == owned->0
            }
            &&& owned is Some && held.disposed ==> {
                &&& start == UnloadStart::ReleaseOnly(owned->0)
                &&& made.state == FiberState::Disposed
            }
            &&& owned is None && living ==> {
                &&& start matches UnloadStart::Over(result) && result is Ok
                &&& made.state == FiberState::Pending
                &&& made.resolved.len() == 0
                &&& made.last_error is None
            }
            &&& owned is None && !living ==> {
                &&& start matches UnloadStart::Over(result) && result == Err::<(), CoreError>(
                    CoreError::FiberDisposed,
                )
            }
            &&& made.disposed == held.disposed
            &&& made.registered == held.registered
            &&& made.dispose_result == held.dispose_result
            &&& same_mount(held, made)
            &&& same_operation(held, made)
            &&& after.effects == registry.effects
            &&& after.dirty == registry.dirty
            &&& after.next_id == registry.next_id
            &&& concerns_only(registry, after, id)
        }),
{
}

/// The end of an unload lets the fiber wait, without a scope and with nothing left of the last
/// activation. If the release failed, the fiber fails with what it reported.
pub proof fn law_unload_ends(
    registry: RegistryModel,
    id: u64,
    scope: u64,
    errors: Seq<Seq<char>>,
    after: RegistryModel,
    result: Result<(), CoreError>,
)
    requires
        registry.fibers.contains_key(id),
        registry.unload_ended(id, scope, errors, after, result),
    ensures
        ({
            let held = registry.fibers[id];
            let made = after.fibers[id];
            let living = !held.disposed && held.state != FiberState::Disposed;
            &&& living && errors.len() == 0 ==> {
                &&& result is Ok
                &&& made.state == FiberState::Pending
                &&& made.resolved.len() == 0
                &&& made.last_error is None
            }
            &&& !held.disposed && errors.len() > 0 ==> {
                &&& completion::release_result(errors, result)
                &&& result is Err
                &&& made.last_error == Some(result->Err_0.message_text())
            }
            &&& living && errors.len() > 0 ==> made.state == FiberState::Failed
            &&& made.ownership == match held.ownership {
                EffectOwnership::Releasing(release) if release.scope == scope && !held.disposed => {
                    EffectOwnership::Empty
                },
                _ => held.ownership,
            }
            &&& held.disposed ==> {
                &&& result is Err
                &&& errors.len() == 0 ==> result == Err::<(), CoreError>(CoreError::FiberDisposed)
                &&& errors.len() > 0 ==> completion::release_result(errors, result)
                &&& made.dispose_result == Some(
                    match held.dispose_result {
                        Some(first) => first,
                        None => errors,
                    },
                )
                &&& made.state == held.state
            }
            &&& !held.disposed ==> made.dispose_result == held.dispose_result
            &&& made.disposed == held.disposed
            &&& made.registered == held.registered
            &&& same_mount(held, made)
            &&& same_operation(held, made)
            &&& after.effects == registry.effects
            &&& after.dirty == registry.dirty
            &&& after.next_id == registry.next_id
            &&& concerns_only(registry, after, id)
        }),
{
}

/// A disposal makes the fiber unusable at once and frees it from the operation in flight. The
/// host is told what to release: the scope that the fiber owns, or to join the release that
/// runs. A fiber that owns nothing is disposed and gone from its plugin's group.
pub proof fn law_disposal_releases_what_the_fiber_owns(registry: RegistryModel, id: u64)
    requires
        registry.fibers.contains_key(id),
    ensures
        ({
            let held = registry.fibers[id];
            let (release, after) = registry.dispose_now(id);
            let made = after.fibers[id];
            &&& made.disposed
            &&& !made.busy
            &&& !held.disposed ==> made.lifecycle is None
            &&& match held.ownership {
                EffectOwnership::Activating(scope) => release == TerminalRelease::Run(scope)
                    && made.ownership == EffectOwnership::Releasing(
                    FiberRelease { scope, dispose_started: false },
                ),
                EffectOwnership::Active(scope) => release == TerminalRelease::Run(scope)
                    && made.ownership == EffectOwnership::Releasing(
                    FiberRelease { scope, dispose_started: false },
                ),
                EffectOwnership::Releasing(running) => release == TerminalRelease::Join(
                    running.scope,
                ) && made.ownership == held.ownership,
                EffectOwnership::Empty => made.ownership is Empty && if held.disposed {
                    release is Observe
                } else {
                    release is Vacant && made.state == FiberState::Disposed && !made.registered
                        && made.dispose_result is Some
                },
            }
            &&& release is Run && held.state != FiberState::Disposed ==> made.state
                == FiberState::Unloading
            &&& !(release is Run) && !(release is Vacant) ==> made.state == held.state
            &&& !(release is Vacant) ==> made.registered == held.registered && made.dispose_result
                == held.dispose_result
            &&& made.last_error == held.last_error
            &&& made.resolved == held.resolved
            &&& same_mount(held, made)
            &&& after.effects == registry.effects
            &&& after.dirty == registry.dirty
            &&& after.next_id == registry.next_id
            &&& concerns_only(registry, after, id)
        }),
{
}

/// To dispose a fiber that is not known any more is to look at its result.
pub proof fn law_unknown_fiber_is_disposed(registry: RegistryModel, id: u64)
    requires
        !registry.fibers.contains_key(id),
    ensures
        registry.dispose_now(id) == (TerminalRelease::Observe, registry),
{
}

/// The end of a release for good disposes the fiber: it owns nothing of that release, is gone
/// from its plugin's group, and keeps the errors of the first end.
pub proof fn law_final_release_disposes(
    registry: RegistryModel,
    id: u64,
    scope: u64,
    errors: Seq<Seq<char>>,
)
    requires
        registry.fibers.contains_key(id),
    ensures
        ({
            let held = registry.fibers[id];
            let after = registry.finalized(id, scope, errors);
            let made = after.fibers[id];
            &&& made.state == FiberState::Disposed
            &&& !made.registered
            &&& made.dispose_result == Some(
                match held.dispose_result {
                    Some(first) => first,
                    None => errors,
                },
            )
            &&& made.ownership == match held.ownership {
                EffectOwnership::Releasing(release) if release.scope == scope => {
                    EffectOwnership::Empty
                },
                _ => held.ownership,
            }
            &&& made.disposed == held.disposed
            &&& made.last_error == held.last_error
            &&& same_mount(held, made)
            &&& same_operation(held, made)
            &&& after.effects == registry.effects
            &&& after.dirty == registry.dirty
            &&& after.next_id == registry.next_id
            &&& concerns_only(registry, after, id)
        }),
{
}

/// An operation starts exactly if the fiber is not disposed and none runs; it bears a token that
/// was not given out. Its end frees the fiber, tells the scheduler, and lets a fiber that was
/// left half-way wait again, giving up the scope of an unfinished activation.
pub proof fn law_operations_start_and_end(registry: RegistryModel, id: u64)
    requires
        registry.fibers.contains_key(id),
        registry.next_id < u64::MAX,
    ensures
        ({
            let held = registry.fibers[id];
            let (r, after) = registry.lifecycle_started(id);
            &&& r is Ok <==> !held.disposed && !held.busy && held.lifecycle is None
            &&& held.disposed ==> r == Err::<u64, CoreError>(CoreError::FiberDisposed)
            &&& !held.disposed && (held.busy || held.lifecycle is Some) ==> r == Err::<
                u64,
                CoreError,
            >(CoreError::FiberBusy)
            &&& r is Err ==> after == registry
            &&& r is Ok ==> {
                &&& r == Ok::<u64, CoreError>(registry.next_id)
                &&& after.next_id == registry.next_id + 1
                &&& after.fibers[id] == (FiberModel {
                    busy: true,
                    lifecycle: Some(registry.next_id),
                    ..held
                })
                &&& after.dirty == registry.dirty
                &&& after.outbox == registry.outbox
                &&& after.effects == registry.effects
            }
            &&& concerns_only(registry, after, id)
        }),
        ({
            let held = registry.fibers[id];
            let after = registry.lifecycle_closed(id);
            let made = after.fibers[id];
            let left = (held.state == FiberState::Loading || held.state == FiberState::Unloading)
                && !held.disposed;
            &&& !made.busy
            &&& made.lifecycle is None
            &&& made.disposed == held.disposed
            &&& made.resolved == held.resolved
            &&& made.handoff == held.handoff
            &&& made.registered == held.registered
            &&& made.last_error == held.last_error
            &&& made.dispose_result == held.dispose_result
            &&& same_mount(held, made)
            &&& after.effects == registry.effects
            &&& after.next_id == registry.next_id
            &&& after.dirty
            &&& !left ==> made.state == held.state && made.ownership == held.ownership
                && registry.discarded_scope(id) is None
            &&& left ==> made.state == FiberState::Pending
            &&& left ==> match held.ownership {
                EffectOwnership::Activating(scope) => registry.discarded_scope(id) == Some(scope)
                    && made.ownership is Empty,
                _ => registry.discarded_scope(id) is None && made.ownership == held.ownership,
            }
            &&& concerns_only(registry, after, id)
        }),
{
}

/// A mounted fiber is what it was asked for: it waits, owns nothing, is listed and idle, and its
/// handle is not handed out yet.
pub proof fn law_new_fiber_waits(
    key: PluginKey,
    layers: Seq<Layer>,
    parent: u64,
    plugin: u64,
    dependencies: Seq<ServiceId>,
)
    ensures
        ({
            let made = FiberModel::created(key, layers, parent, plugin, dependencies);
            &&& made.plugin_key == key
            &&& made.layers == layers
            &&& made.parent_scope == parent
            &&& made.plugin == plugin
            &&& made.dependencies == dependencies
            &&& made.ownership is Empty
            &&& made.dispose_result is None
            &&& made.state == FiberState::Pending
            &&& made.last_error is None
            &&& made.resolved.len() == 0
            &&& !made.disposed
            &&& !made.busy
            &&& made.lifecycle is None
            &&& made.registered
            &&& made.handoff == HandleHandoff::Preparing
        }),
{
}

/// A state that a living fiber is meant to reach it reaches; a disposed one is disposed.
pub proof fn law_disposed_fibers_stay_disposed(fiber: FiberModel, next: FiberState)
    ensures
        !fiber.disposed && fiber.state != FiberState::Disposed ==> fiber.aimed(next).state == next,
        fiber.disposed || fiber.state == FiberState::Disposed ==> fiber.aimed(next).state
            == FiberState::Disposed,
        fiber.aimed(next) == (FiberModel { state: fiber.aimed(next).state, ..fiber }),
        fiber.waiting() == (FiberModel {
            resolved: Seq::empty(),
            last_error: None,
            state: fiber.waiting().state,
            ..fiber
        }),
        fiber.waiting().state == fiber.aimed(FiberState::Pending).state,
{
}

/// A failure leaves its message, a load marks its begin, a release takes the scope over and an
/// end is final; none of them changes anything else of the fiber.
pub proof fn law_fiber_steps_are_small(
    fiber: FiberModel,
    message: Seq<char>,
    scope: u64,
    errors: Seq<Seq<char>>,
)
    ensures
        fiber.failed(message) == (FiberModel {
            last_error: Some(message),
            state: if fiber.disposed || fiber.state == FiberState::Disposed {
                FiberState::Disposed
            } else {
                FiberState::Failed
            },
            ..fiber
        }),
        fiber.loading() == (FiberModel { state: FiberState::Loading, ..fiber }),
        fiber.terminated() == (FiberModel { state: FiberState::Disposed, ..fiber }),
        fiber.reset() == (FiberModel { resolved: Seq::empty(), last_error: None, ..fiber }),
        fiber.result_stored(errors) == (FiberModel {
            dispose_result: Some(
                match fiber.dispose_result {
                    Some(first) => first,
                    None => errors,
                },
            ),
            ..fiber
        }),
        fiber.releasing() == (FiberModel {
            ownership: match fiber.ownership {
                EffectOwnership::Activating(held) => EffectOwnership::Releasing(
                    FiberRelease { scope: held, dispose_started: false },
                ),
                EffectOwnership::Active(held) => EffectOwnership::Releasing(
                    FiberRelease { scope: held, dispose_started: false },
                ),
                other => other,
            },
            ..fiber
        }),
        fiber.release_cleared(scope) == (FiberModel {
            ownership: match fiber.ownership {
                EffectOwnership::Releasing(release) if release.scope == scope => {
                    EffectOwnership::Empty
                },
                other => other,
            },
            ..fiber
        }),
        fiber.without_temporary(scope) == (FiberModel {
            ownership: match fiber.ownership {
                EffectOwnership::Activating(held) if held == scope => EffectOwnership::Empty,
                other => other,
            },
            ..fiber
        }),
{
}

/// An unmount names every fiber of the plugin that is not disposed, whatever its state, and
/// every one that still owns a scope, and no other, in order of mounting; their number is what
/// the unmount counts. The plugin is being unmounted from then on, and no other is concerned.
pub proof fn law_unmount_names_every_fiber(
    registry: RegistryModel,
    key: PluginKey,
    after: RegistryModel,
    named: Vec<u64>,
    token: u64,
    at: int,
)
    requires
        registry::groups_ok(registry.groups),
        registry.unmount_begun(key, after, Ok::<(Vec<u64>, u64), CoreError>((named, token))),
        0 <= at < registry.groups.len(),
        registry.groups[at].key@ == key@,
    ensures
        ({
            let group = registry.groups[at];
            &&& forall|id: u64| #[trigger]
                group.fibers.contains(id) && registry.fibers.contains_key(id)
                    && !registry.fibers[id].disposed ==> named@.contains(id)
            &&& forall|id: u64| #[trigger]
                named@.contains(id) <==> group.fibers.contains(id)
                    && registry.fibers.contains_key(id) && (!registry.fibers[id].disposed
                    || registry.fibers[id].ownership != EffectOwnership::Empty)
            &&& named@ == group.fibers.filter(|id: u64| to_be_released(registry, id))
            &&& !group.unmounting
            &&& token == registry.next_id
            &&& after.groups == registry.groups.update(
                at,
                GroupModel { unmounting: true, completion: Some(token), ..group },
            )
            &&& after.fibers == registry.fibers
            &&& after.providers == registry.providers
            &&& after.injections == registry.injections
        }),
{
    groups::lemma_group_at(registry.groups, at);
    let group = registry.groups[at];
    lemma_same_ids(
        group.fibers,
        |id: u64| groups::awaited(registry.fibers, id),
        |id: u64| to_be_released(registry, id),
    );
    assert forall|id: u64| #[trigger] named@.contains(id) <==> group.fibers.contains(id)
        && registry.fibers.contains_key(id) && (!registry.fibers[id].disposed
        || registry.fibers[id].ownership != EffectOwnership::Empty) by {
        runs::lemma_filter_iff(group.fibers, |id: u64| to_be_released(registry, id), id);
    }
}

/// The fiber is known, and it is not disposed or still owns a scope.
pub open spec fn to_be_released(registry: RegistryModel, id: u64) -> bool {
    registry.fibers.contains_key(id) && (!registry.fibers[id].disposed
        || registry.fibers[id].ownership != EffectOwnership::Empty)
}

proof fn lemma_same_ids(ids: Seq<u64>, one: spec_fn(u64) -> bool, two: spec_fn(u64) -> bool)
    requires
        forall|id: u64| #[trigger] one(id) == two(id),
    ensures
        ids.filter(one) == ids.filter(two),
    decreases ids.len(),
{
    reveal(Seq::filter);
    if ids.len() > 0 {
        lemma_same_ids(ids.drop_last(), one, two);
        assert(one(ids.last()) == two(ids.last()));
    }
}

/// An unmount is refused exactly while one of the plugin runs. A plugin without a group has no
/// fiber to release, and is being unmounted all the same.
pub proof fn law_unmount_is_refused_while_one_runs(
    registry: RegistryModel,
    key: PluginKey,
    after: RegistryModel,
    r: Result<(Vec<u64>, u64), CoreError>,
)
    requires
        registry::groups_ok(registry.groups),
        registry.unmount_begun(key, after, r),
    ensures
        r is Err <==> exists|i: int|
            0 <= i < registry.groups.len() && (#[trigger] registry.groups[i]).key@ == key@
                && registry.groups[i].unmounting,
        r matches Err(error) ==> error == (CoreError::PluginUnmounting { plugin: key }) && after
            == registry,
        (forall|i: int|
            0 <= i < registry.groups.len() ==> (#[trigger] registry.groups[i]).key@ != key@) ==> {
            &&& r is Ok
            &&& r->Ok_0.0@.len() == 0
            &&& after.groups == registry.groups.push(
                GroupModel {
                    key,
                    fibers: Seq::empty(),
                    unmounting: true,
                    completion: Some(registry.next_id),
                },
            )
        },
{
    reveal(Seq::filter);
    if exists|i: int|
        0 <= i < registry.groups.len() && (#[trigger] registry.groups[i]).key@ == key@
            && registry.groups[i].unmounting {
        let i = choose|i: int|
            0 <= i < registry.groups.len() && (#[trigger] registry.groups[i]).key@ == key@
                && registry.groups[i].unmounting;
        groups::lemma_group_at(registry.groups, i);
    }
}

/// The end of an unmount takes the group of the plugin out, if it is that unmount's, and touches
/// no other.
pub proof fn law_finished_unmount_takes_the_group_out(
    groups: Seq<GroupModel>,
    key: PluginKey,
    token: u64,
    at: int,
)
    requires
        registry::groups_ok(groups),
        0 <= at < groups.len(),
        groups[at].key@ == key@,
    ensures
        groups::group_closed(groups, key@, token) == (if groups[at].completion == Some(token) {
            groups.remove(at)
        } else {
            groups
        }),
{
    groups::lemma_group_at(groups, at);
}

/// A fiber joins the group of its plugin at the end, or opens it.
pub proof fn law_fiber_joins_its_group(
    groups: Seq<GroupModel>,
    key: PluginKey,
    fiber: u64,
    at: int,
)
    requires
        registry::groups_ok(groups),
    ensures
        0 <= at < groups.len() && groups[at].key@ == key@ ==> groups::group_joined(
            groups,
            key,
            fiber,
        ) == groups.update(
            at,
            GroupModel { fibers: groups[at].fibers.push(fiber), ..groups[at] },
        ),
        (forall|i: int| 0 <= i < groups.len() ==> (#[trigger] groups[i]).key@ != key@)
            ==> groups::group_joined(groups, key, fiber) == groups.push(
            GroupModel { key, fibers: seq![fiber], unmounting: false, completion: None },
        ),
{
    if 0 <= at < groups.len() && groups[at].key@ == key@ {
        groups::lemma_group_at(groups, at);
    }
}

/// A fiber that is listed no more leaves the group of its plugin, and nobody else does. A group
/// without fibers is gone, unless the plugin is being unmounted.
pub proof fn law_unlisted_fiber_leaves_its_group(registry: RegistryModel, id: u64, at: int)
    requires
        registry::groups_ok(registry.groups),
        registry.fibers.contains_key(id),
        registry.fibers[id].registered,
        0 <= at < registry.groups.len(),
        registry.groups[at].key@ == registry.fibers[id].plugin_key@,
    ensures
        ({
            let group = registry.groups[at];
            let rest = all_but(group.fibers, id);
            let after = registry.unlisted(id);
            &&& after.fibers == registry.fibers.insert(
                id,
                FiberModel { registered: false, ..registry.fibers[id] },
            )
            &&& after.groups == (if rest.len() == 0 && !group.unmounting {
                registry.groups.remove(at)
            } else {
                registry.groups.update(at, GroupModel { fibers: rest, ..group })
            })
            &&& concerns_only(registry, after, id)
        }),
{
    groups::lemma_group_at(registry.groups, at);
    lemma_all_but(registry.groups[at].fibers, id);
}

/// The list without this identifier, otherwise as it is.
pub open spec fn all_but(ids: Seq<u64>, id: u64) -> Seq<u64> {
    ids.filter(|other: u64| other != id)
}

proof fn lemma_all_but(ids: Seq<u64>, id: u64)
    ensures
        effect::without(ids, id) == all_but(ids, id),
    decreases ids.len(),
{
    reveal(Seq::filter);
    if ids.len() > 0 {
        lemma_all_but(ids.drop_last(), id);
    }
}

/// The fibers of a plugin are those of its group.
pub proof fn law_group_is_found_by_its_name(groups: Seq<GroupModel>, key: Seq<char>, at: int)
    requires
        registry::groups_ok(groups),
    ensures
        0 <= at < groups.len() && groups[at].key@ == key ==> groups::group_fibers(groups, key)
            == groups[at].fibers && groups::unmounting(groups, key) == groups[at].unmounting,
        (forall|i: int| 0 <= i < groups.len() ==> (#[trigger] groups[i]).key@ != key)
            ==> groups::group_fibers(groups, key).len() == 0 && !groups::unmounting(groups, key),
{
    if 0 <= at < groups.len() && groups[at].key@ == key {
        groups::lemma_group_at(groups, at);
    }
}

/// A change of state is announced with the plugin, the state before and after it, and the
/// dependencies that cannot be used at that moment; the first state has none before it.
pub proof fn law_announcement_names_the_plugin(
    registry: RegistryModel,
    id: u64,
    next: FiberModel,
    fresh: FiberModel,
)
    requires
        next.plugin_key == registry.fibers[id].plugin_key,
    ensures
        registry.with_fiber(id, next).fibers == registry.fibers.insert(id, next),
        next.state != registry.fibers[id].state ==> {
            let told = registry.with_fiber(id, next).outbox.last();
            &&& told.fiber_id == id
            &&& told.plugin_key == next.plugin_key
            &&& told.previous == Some(registry.fibers[id].state)
            &&& told.current == next.state
            &&& told.unavailable == crate::diagnostics::unavailable(
                registry.providers,
                registry.fibers.insert(id, next),
                next.layers,
                next.dependencies,
            )
        },
        ({
            let at = registry.next_id;
            let after = registry.mounted(at, fresh);
            &&& after.outbox.drop_last() == registry.outbox
            &&& after.outbox.last().fiber_id == at
            &&& after.outbox.last().plugin_key == fresh.plugin_key
            &&& after.outbox.last().previous is None
            &&& after.outbox.last().current == FiberState::Pending
        }),
{
    let after = registry.mounted(registry.next_id, fresh);
    assert(after.outbox.drop_last() =~= registry.outbox);
}

} // verus!
