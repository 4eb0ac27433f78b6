//! The life of a plugin fiber and of its group.

use crate::effect::ScopeModel;
use crate::error::CoreError;
use crate::fiber::{EffectOwnership, FiberModel, ProviderRevision};
use crate::plugin::PluginKey;
use crate::registry;
use crate::registry::activate::{ActivationEnd, ActivationStart};
use crate::registry::groups;
use crate::registry::lifecycle::UnloadStart;
use crate::registry::{GroupModel, RegistryModel};
use vstd::prelude::*;

verus! {

/// The one fiber model can follow the other: the fiber stays where it was mounted under its
/// key, and what is disposed stays disposed, with its result.
pub open spec fn follows(before: FiberModel, after: FiberModel) -> bool {
    &&& after.plugin_key == before.plugin_key
    &&& after.layers == before.layers
    &&& after.parent_scope == before.parent_scope
    &&& before.disposed ==> after.disposed
    &&& before.state is Disposed ==> after.state is Disposed
    &&& before.dispose_result is Some ==> after.dispose_result == before.dispose_result
}

/// All fibers are still there and each follows what it was.
pub open spec fn all_follow(before: RegistryModel, after: RegistryModel) -> bool {
    forall|id: u64| #[trigger]
        before.fibers.contains_key(id) ==> after.fibers.contains_key(id) && follows(
            before.fibers[id],
            after.fibers[id],
        )
}

/// An activation brings no disposed fiber back, neither at its begin nor at its end.
pub proof fn law_activation_revives_nothing(
    registry: RegistryModel,
    scopes: Map<u64, ScopeModel>,
    next_scope: u64,
    id: u64,
    initial_mount: bool,
    after: RegistryModel,
    scopes_after: Map<u64, ScopeModel>,
    start: ActivationStart,
)
    requires
        registry.fibers.contains_key(id),
        registry.activation_begun(
            scopes,
            next_scope,
            id,
            initial_mount,
            after,
            scopes_after,
            start,
        ),
    ensures
        all_follow(registry, after),
{
}

/// The end of an activation brings no disposed fiber back; its scope is then released.
pub proof fn law_activation_end_revives_nothing(
    registry: RegistryModel,
    scopes: Map<u64, ScopeModel>,
    id: u64,
    initial_mount: bool,
    scope: u64,
    providers: Seq<ProviderRevision>,
    outcome: Result<(), String>,
    after: RegistryModel,
    end: ActivationEnd,
)
    requires
        registry.fibers.contains_key(id),
        registry.activation_ended(
            scopes,
            id,
            initial_mount,
            scope,
            providers,
            outcome,
            after,
            end,
        ),
    ensures
        all_follow(registry, after),
        !registry.fibers[id].alive() ==> end.dispose == Some(scope) && !(
        after.fibers[id].state is Active),
        end.dispose is None ==> end.result is Ok && after.fibers[id].state is Active
            && after.fibers[id].ownership == EffectOwnership::Active(scope)
            && after.fibers[id].resolved == providers,
{
}

/// The end of an activation loses no scope. The fiber keeps the scope of the activation, or
/// the host is told to dispose it, never both; and as an activation in its own scope owns no
/// other, there is no second scope to dispose.
pub proof fn law_activation_end_loses_no_scope(
    registry: RegistryModel,
    scopes: Map<u64, ScopeModel>,
    id: u64,
    initial_mount: bool,
    scope: u64,
    providers: Seq<ProviderRevision>,
    outcome: Result<(), String>,
    after: RegistryModel,
    end: ActivationEnd,
)
    requires
        registry.fibers.contains_key(id),
        registry.fibers[id].ownership == EffectOwnership::Activating(scope),
        registry.activation_ended(
            scopes,
            id,
            initial_mount,
            scope,
            providers,
            outcome,
            after,
            end,
        ),
    ensures
        end.withdrawn is None,
        end.dispose == Some(scope) <==> after.fibers[id].ownership == EffectOwnership::Empty,
        end.dispose is None <==> after.fibers[id].ownership == EffectOwnership::Active(scope),
{
}

/// An unload brings no disposed fiber back.
pub proof fn law_unload_revives_nothing(
    registry: RegistryModel,
    id: u64,
    scope: u64,
    errors: Seq<Seq<char>>,
    after: RegistryModel,
    start: UnloadStart,
    ended: RegistryModel,
    result: Result<(), CoreError>,
)
    requires
        registry.fibers.contains_key(id),
        registry.unload_begun(id, after, start),
        after.unload_ended(id, scope, errors, ended, result),
    ensures
        all_follow(registry, after),
        all_follow(after, ended),
        !registry.fibers[id].alive() ==> result is Err,
{
}

/// A disposal makes the fiber unusable for good, whatever else is under way, and its first
/// result stays.
pub proof fn law_disposal_is_final(
    registry: RegistryModel,
    id: u64,
    scope: u64,
    errors: Seq<Seq<char>>,
    later: Seq<Seq<char>>,
)
    requires
        registry.fibers.contains_key(id),
    ensures
        all_follow(registry, registry.dispose_now(id).1),
        registry.dispose_now(id).1.fibers[id].disposed,
        all_follow(registry, registry.finalized(id, scope, errors)),
        registry.finalized(id, scope, errors).fibers[id].state is Disposed,
        !registry.finalized(id, scope, errors).fibers[id].registered,
        registry.finalized(id, scope, errors).finalized(id, scope, later).fibers
            == registry.finalized(id, scope, errors).fibers,
{
    assert(all_follow(registry, registry.dispose_now(id).1));
    let once = registry.finalized(id, scope, errors);
    assert(all_follow(registry, once));
    assert(once.finalized(id, scope, later).fibers == once.fibers) by {
        let twice = once.finalized(id, scope, later);
        assert(twice.fibers[id] == once.fibers[id]);
        assert(twice.fibers =~= once.fibers);
    }
}

/// A disposed fiber is served by the scheduler no more and refuses every operation.
pub proof fn law_disposed_fiber_is_inert(
    registry: RegistryModel,
    scopes: Map<u64, ScopeModel>,
    next_scope: u64,
    id: u64,
    initial_mount: bool,
    after: RegistryModel,
    scopes_after: Map<u64, ScopeModel>,
    start: ActivationStart,
)
    requires
        registry.fibers[id].disposed,
        registry.activation_begun(
            scopes,
            next_scope,
            id,
            initial_mount,
            after,
            scopes_after,
            start,
        ),
    ensures
        !registry.fiber_due(id),
        !registry.fiber_stale(id),
        start == ActivationStart::Refused(CoreError::FiberDisposed),
        after == registry,
        registry.lifecycle_started(id) == (
            Err::<u64, CoreError>(CoreError::FiberDisposed),
            registry,
        ),
{
}

/// A plugin is applied by one activation at a time: while one is under way, another finds
/// nothing to do.
pub proof fn law_activation_is_exclusive(
    registry: RegistryModel,
    scopes: Map<u64, ScopeModel>,
    next_scope: u64,
    id: u64,
    initial_mount: bool,
    after: RegistryModel,
    scopes_after: Map<u64, ScopeModel>,
    start: ActivationStart,
    later_scope: u64,
    later: RegistryModel,
    scopes_later: Map<u64, ScopeModel>,
    second: ActivationStart,
)
    requires
        registry.fibers.contains_key(id),
        registry.activation_begun(
            scopes,
            next_scope,
            id,
            initial_mount,
            after,
            scopes_after,
            start,
        ),
        start is Apply,
        after.activation_begun(
            scopes_after,
            later_scope,
            id,
            false,
            later,
            scopes_later,
            second,
        ),
    ensures
        second is Idle,
        later == after,
        scopes_later == scopes_after,
{
}

/// A mount whose caller is gone is withdrawn before the plugin is applied.
pub proof fn law_abandoned_mount_is_not_applied(
    registry: RegistryModel,
    scopes: Map<u64, ScopeModel>,
    next_scope: u64,
    id: u64,
    after: RegistryModel,
    scopes_after: Map<u64, ScopeModel>,
    start: ActivationStart,
)
    requires
        registry.fibers.contains_key(id),
        !registry.fibers[id].disposed,
        registry.fibers[id].handoff is Abandoned,
        registry.activation_begun(scopes, next_scope, id, true, after, scopes_after, start),
    ensures
        start is Revoked,
        after.fibers[id].disposed,
        after.fibers[id].state is Disposed,
        !after.fibers[id].registered,
        scopes_after == scopes,
{
}

/// One life-cycle operation runs at a time: until it is closed, another is refused, and the
/// scheduler leaves the fiber alone.
pub proof fn law_one_operation_at_a_time(registry: RegistryModel, id: u64)
    requires
        registry.fibers.contains_key(id),
        registry.lifecycle_started(id).0 is Ok,
    ensures
        ({
            let after = registry.lifecycle_started(id).1;
            &&& after.lifecycle_started(id) == (Err::<u64, CoreError>(CoreError::FiberBusy), after)
            &&& !after.fiber_due(id)
            &&& !after.fiber_stale(id)
            &&& after.lifecycle_closed(id).lifecycle_started(id).0 is Ok
        }),
{
}

/// A plugin that failed is not applied again by itself.
pub proof fn law_failed_fiber_waits(
    registry: RegistryModel,
    scopes: Map<u64, ScopeModel>,
    next_scope: u64,
    id: u64,
    after: RegistryModel,
    scopes_after: Map<u64, ScopeModel>,
    start: ActivationStart,
)
    requires
        registry.fibers[id].state is Failed,
        !registry.fibers[id].disposed,
        registry.activation_begun(scopes, next_scope, id, false, after, scopes_after, start),
    ensures
        !registry.fiber_due(id),
        !registry.fiber_stale(id),
        start is Idle,
        after == registry,
{
}

/// Every change of state of a fiber is announced, with the state before and after it.
pub proof fn law_state_changes_are_announced(
    registry: RegistryModel,
    id: u64,
    next: FiberModel,
)
    ensures
        ({
            let after = registry.with_fiber(id, next);
            if next.state == registry.fibers[id].state {
                after.outbox == registry.outbox
            } else {
                &&& after.outbox.len() == registry.outbox.len() + 1
                &&& after.outbox.drop_last() == registry.outbox
                &&& after.outbox.last().fiber_id == id
                &&& after.outbox.last().previous == Some(registry.fibers[id].state)
                &&& after.outbox.last().current == next.state
            }
        }),
{
    let after = registry.with_fiber(id, next);
    if next.state != registry.fibers[id].state {
        assert(after.outbox.drop_last() =~= registry.outbox);
    }
}

/// From the begin of an unmount until its end the plugin cannot be mounted or unmounted
/// again; other plugins are not concerned.
pub proof fn law_unmount_blocks_the_plugin(
    registry: RegistryModel,
    key: PluginKey,
    after: RegistryModel,
    r: Result<(Vec<u64>, u64), CoreError>,
    again: RegistryModel,
    second: Result<(Vec<u64>, u64), CoreError>,
    other: Seq<char>,
)
    requires
        registry::groups_ok(registry.groups),
        registry.unmount_begun(key, after, r),
        after.unmount_begun(key, again, second),
        other != key@,
    ensures
        groups::unmounting(after.groups, key@),
        second == Err::<(Vec<u64>, u64), CoreError>(CoreError::PluginUnmounting { plugin: key }),
        again == after,
        groups::unmounting(after.groups, other) == groups::unmounting(registry.groups, other),
        groups::group_fibers(after.groups, other) == groups::group_fibers(registry.groups, other),
{
    if !groups::unmounting(registry.groups, key@) {
        let token = registry.next_id;
        match groups::group_at(registry.groups, key@) {
            Some(i) => {
                lemma_updated_group(
                    registry.groups,
                    i,
                    GroupModel {
                        unmounting: true,
                        completion: Some(token),
                        ..registry.groups[i]
                    },
                    other,
                );
            },
            None => {
                lemma_added_group(
                    registry.groups,
                    GroupModel {
                        key,
                        fibers: Seq::empty(),
                        unmounting: true,
                        completion: Some(token),
                    },
                    other,
                );
            },
        }
    }
}

/// The end of an unmount makes the plugin mountable again.
pub proof fn law_finished_unmount_frees_the_plugin(
    registry: RegistryModel,
    key: PluginKey,
    after: RegistryModel,
    r: Result<(Vec<u64>, u64), CoreError>,
)
    requires
        registry::groups_ok(registry.groups),
        registry.unmount_begun(key, after, r),
        r is Ok,
    ensures
        !groups::unmounting(groups::group_closed(after.groups, key@, r->Ok_0.1), key@),
        groups::group_fibers(groups::group_closed(after.groups, key@, r->Ok_0.1), key@).len() == 0,
{
    let token = registry.next_id;
    match groups::group_at(registry.groups, key@) {
        Some(i) => {
            lemma_updated_group(
                registry.groups,
                i,
                GroupModel { unmounting: true, completion: Some(token), ..registry.groups[i] },
                key@,
            );
            lemma_removed_group(after.groups, i);
        },
        None => {
            let group = GroupModel {
                key,
                fibers: Seq::empty(),
                unmounting: true,
                completion: Some(token),
            };
            lemma_added_group(registry.groups, group, key@);
            lemma_removed_group(after.groups, registry.groups.len() as int);
        },
    }
}

proof fn lemma_updated_group(
    groups: Seq<GroupModel>,
    i: int,
    group: GroupModel,
    other: Seq<char>,
)
    requires
        registry::groups_ok(groups),
        0 <= i < groups.len(),
        group.key == groups[i].key,
    ensures
        registry::groups_ok(groups.update(i, group)),
        groups::group_at(groups.update(i, group), group.key@) == Some(i),
        other != group.key@ ==> groups::unmounting(groups.update(i, group), other)
            == groups::unmounting(groups, other) && groups::group_fibers(
            groups.update(i, group),
            other,
        ) == groups::group_fibers(groups, other),
{
    let after = groups.update(i, group);
    assert forall|a: int, b: int| 0 <= a < b < after.len() implies (#[trigger] after[a]).key@ != (
    #[trigger] after[b]).key@ by {
        assert(after[a].key == groups[a].key);
        assert(after[b].key == groups[b].key);
    }
    groups::lemma_group_at(after, i);
    if other != group.key@ {
        match groups::group_at(groups, other) {
            Some(j) => {
                assert(after[j] == groups[j]);
                groups::lemma_group_at(after, j);
            },
            None => {
                assert forall|j: int| 0 <= j < after.len() implies (#[trigger] after[j]).key@
                    != other by {
                    assert(after[j].key == groups[j].key);
                }
            },
        }
    }
}

proof fn lemma_added_group(groups: Seq<GroupModel>, group: GroupModel, other: Seq<char>)
    requires
        registry::groups_ok(groups),
        groups::group_at(groups, group.key@) is None,
    ensures
        registry::groups_ok(groups.push(group)),
        groups::group_at(groups.push(group), group.key@) == Some(groups.len() as int),
        other != group.key@ ==> groups::unmounting(groups.push(group), other)
            == groups::unmounting(groups, other) && groups::group_fibers(
            groups.push(group),
            other,
        ) == groups::group_fibers(groups, other),
{
    let after = groups.push(group);
    assert forall|a: int, b: int| 0 <= a < b < after.len() implies (#[trigger] after[a]).key@ != (
    #[trigger] after[b]).key@ by {
        assert(after[a] == groups[a]);
    }
    groups::lemma_group_at(after, groups.len() as int);
    if other != group.key@ {
        match groups::group_at(groups, other) {
            Some(j) => {
                assert(after[j] == groups[j]);
                groups::lemma_group_at(after, j);
            },
            None => {
                assert forall|j: int| 0 <= j < after.len() implies (#[trigger] after[j]).key@
                    != other by {
                    if j < groups.len() {
                        assert(after[j] == groups[j]);
                    }
                }
            },
        }
    }
}

proof fn lemma_removed_group(groups: Seq<GroupModel>, i: int)
    requires
        registry::groups_ok(groups),
        0 <= i < groups.len(),
    ensures
        groups::group_at(groups.remove(i), groups[i].key@) is None,
{
    let after = groups.remove(i);
    assert forall|j: int| 0 <= j < after.len() implies (#[trigger] after[j]).key@
        != groups[i].key@ by {
        if j < i {
            assert(after[j] == groups[j]);
        } else {
            assert(after[j] == groups[j + 1]);
        }
    }
}

/// A mounted fiber is pending and listed with its plugin; other plugins and other fibers
/// are not concerned.
pub proof fn law_mount_lists_the_fiber(
    registry: RegistryModel,
    fiber: FiberModel,
    other: Seq<char>,
)
    requires
        registry.ok(),
        other != fiber.plugin_key@,
    ensures
        ({
            let id = registry.next_id;
            let after = registry.mounted(id, fiber);
            let key = fiber.plugin_key@;
            &&& after.fibers[id] == fiber
            &&& groups::group_fibers(after.groups, key) == groups::group_fibers(
                registry.groups,
                key,
            ).push(id)
            &&& groups::group_fibers(after.groups, other) == groups::group_fibers(
                registry.groups,
                other,
            )
            &&& forall|known: u64| #[trigger]
                registry.fibers.contains_key(known) ==> after.fibers.contains_key(known)
                    && after.fibers[known] == registry.fibers[known]
        }),
{
    let id = registry.next_id;
    let key = fiber.plugin_key;
    assert(!registry.fibers.dom().contains(id));
    match groups::group_at(registry.groups, key@) {
        Some(i) => {
            lemma_updated_group(
                registry.groups,
                i,
                GroupModel { fibers: registry.groups[i].fibers.push(id), ..registry.groups[i] },
                other,
            );
        },
        None => {
            let group = GroupModel {
                key,
                fibers: seq![id],
                unmounting: false,
                completion: None,
            };
            lemma_added_group(registry.groups, group, other);
            assert(seq![id] =~= Seq::<u64>::empty().push(id));
        },
    }
}

} // verus!
