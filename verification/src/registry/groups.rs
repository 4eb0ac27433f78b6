//! Grouping of fibers by plugin, and unmounting of a whole group.

use super::{GroupModel, PluginGroup, Registry, RegistryModel};
use crate::effect;
use crate::effect::{drop_id, EffectTree};
use crate::error::CoreError;
use crate::fiber::{FiberModel, FiberRecord, FiberState};
use crate::plugin::PluginKey;
use crate::provider;
use crate::service::ServiceId;
use crate::view::Layer;
use vstd::prelude::*;

verus! {

/// The position of the group of a plugin.
pub open spec fn group_at(groups: Seq<GroupModel>, key: Seq<char>) -> Option<int> {
    if exists|i: int| 0 <= i < groups.len() && (#[trigger] groups[i]).key@ == key {
        Some(choose|i: int| 0 <= i < groups.len() && (#[trigger] groups[i]).key@ == key)
    } else {
        None
    }
}

/// The group of this plugin is being unmounted.
pub open spec fn unmounting(groups: Seq<GroupModel>, key: Seq<char>) -> bool {
    group_at(groups, key) matches Some(i) && groups[i].unmounting
}

/// The groups with a fiber added to the group of its plugin.
pub open spec fn group_joined(groups: Seq<GroupModel>, key: PluginKey, fiber: u64) -> Seq<
    GroupModel,
> {
    match group_at(groups, key@) {
        Some(i) => groups.update(
            i,
            GroupModel { fibers: groups[i].fibers.push(fiber), ..groups[i] },
        ),
        None => groups.push(
            GroupModel { key, fibers: seq![fiber], unmounting: false, completion: None },
        ),
    }
}

/// The groups with a fiber removed from the group of its plugin. A group without fibers
/// vanishes unless it is being unmounted.
pub open spec fn group_left(groups: Seq<GroupModel>, key: Seq<char>, fiber: u64) -> Seq<
    GroupModel,
> {
    match group_at(groups, key) {
        None => groups,
        Some(i) => {
            let rest = effect::without(groups[i].fibers, fiber);
            if rest.len() == 0 && !groups[i].unmounting {
                groups.remove(i)
            } else {
                groups.update(i, GroupModel { fibers: rest, ..groups[i] })
            }
        },
    }
}

/// The groups after the unmount `token` of a plugin began.
pub open spec fn group_closing(groups: Seq<GroupModel>, key: PluginKey, token: u64) -> Seq<
    GroupModel,
> {
    match group_at(groups, key@) {
        Some(i) => groups.update(
            i,
            GroupModel { unmounting: true, completion: Some(token), ..groups[i] },
        ),
        None => groups.push(
            GroupModel {
                key,
                fibers: Seq::empty(),
                unmounting: true,
                completion: Some(token),
            },
        ),
    }
}

/// The groups after the unmount `token` of a plugin ended.
pub open spec fn group_closed(groups: Seq<GroupModel>, key: Seq<char>, token: u64) -> Seq<
    GroupModel,
> {
    match group_at(groups, key) {
        Some(i) if groups[i].completion == Some(token) => groups.remove(i),
        _ => groups,
    }
}

/// The fibers in the group of a plugin.
pub open spec fn group_fibers(groups: Seq<GroupModel>, key: Seq<char>) -> Seq<u64> {
    match group_at(groups, key) {
        Some(i) => groups[i].fibers,
        None => Seq::empty(),
    }
}

/// An unmount has to wait for this fiber.
pub open spec fn awaited(fibers: Map<u64, FiberModel>, id: u64) -> bool {
    fibers.contains_key(id) && (!(fibers[id].ownership is Empty) || !fibers[id].disposed)
}

/// A key is found where it stands.
pub proof fn lemma_group_at(groups: Seq<GroupModel>, i: int)
    requires
        super::groups_ok(groups),
        0 <= i < groups.len(),
    ensures
        group_at(groups, groups[i].key@) == Some(i),
{
    let key = groups[i].key@;
    let j = choose|j: int| 0 <= j < groups.len() && (#[trigger] groups[j]).key@ == key;
    assert(0 <= j < groups.len() && groups[j].key@ == key);
    if i < j {
        assert(groups[i].key@ != groups[j].key@);
    } else if j < i {
        assert(groups[j].key@ != groups[i].key@);
    }
}

impl RegistryModel {
    /// The registry after fiber `id` was mounted: it is listed and its first state is
    /// announced.
    pub open spec fn mounted(self, id: u64, fiber: FiberModel) -> RegistryModel {
        let listed = RegistryModel {
            next_id: (id + 1) as u64,
            fibers: self.fibers.insert(id, fiber),
            groups: group_joined(self.groups, fiber.plugin_key, id),
            ..self
        };
        RegistryModel {
            outbox: listed.outbox.push(listed.change_of(id, None, FiberState::Pending)),
            ..listed
        }
    }

    /// What the begin of an unmount gives: the fibers to wait for and the token of the
    /// unmount, or the refusal while another one runs.
    pub open spec fn unmount_begun(
        self,
        key: PluginKey,
        after: RegistryModel,
        r: Result<(Vec<u64>, u64), CoreError>,
    ) -> bool {
        if unmounting(self.groups, key@) {
            &&& r == Err::<(Vec<u64>, u64), CoreError>(CoreError::PluginUnmounting { plugin: key })
            &&& after == self
        } else {
            &&& r matches Ok((fibers, token)) && token == self.next_id && fibers@ == group_fibers(
                self.groups,
                key@,
            ).filter(|id: u64| awaited(self.fibers, id))
            &&& after == (RegistryModel {
                next_id: (self.next_id + 1) as u64,
                groups: group_closing(self.groups, key, self.next_id),
                ..self
            })
        }
    }

    /// The registry after fiber `id` was taken off the lists.
    pub open spec fn unlisted(self, id: u64) -> RegistryModel {
        if self.fibers[id].registered {
            RegistryModel {
                fibers: self.fibers.insert(
                    id,
                    FiberModel { registered: false, ..self.fibers[id] },
                ),
                groups: group_left(self.groups, self.fibers[id].plugin_key@, id),
                ..self
            }
        } else {
            self
        }
    }
}

impl Registry {
    fn find_group(&self, key: PluginKey) -> (r: Option<usize>)
        requires
            self.wf(),
        ensures
            match r {
                Some(i) => i < self.groups@.len() && group_at(self@.groups, key@) == Some(i as int)
                    && self@.groups[i as int] == self.groups@[i as int]@,
                None => group_at(self@.groups, key@) is None,
            },
    {
        let mut i: usize = 0;
        while i < self.groups.len()
            invariant
                self.wf(),
                i <= self.groups@.len(),
                forall|j: int| 0 <= j < i ==> (#[trigger] self@.groups[j]).key@ != key@,
            decreases self.groups@.len() - i,
        {
            assert(self@.groups[i as int] == self.groups@[i as int]@);
            if self.groups[i].key.same(key) {
                proof {
                    lemma_group_at(self@.groups, i as int);
                }
                return Some(i);
            }
            i += 1;
        }
        None
    }

    /// Mounts a plugin: creates its fiber, unless the plugin is being unmounted.
    pub fn register_plugin_fiber(
        &mut self,
        layers: Vec<Layer>,
        parent_scope: u64,
        key: PluginKey,
        plugin: u64,
        dependencies: Vec<ServiceId>,
    ) -> (r: Result<u64, CoreError>)
        requires
            old(self).wf(),
            old(self)@.next_id < u64::MAX,
            layers@.len() > 0,
        ensures
            final(self).wf(),
            if unmounting(old(self)@.groups, key@) {
                &&& r == Err::<u64, CoreError>(CoreError::PluginUnmounting { plugin: key })
                &&& final(self)@ == old(self)@
            } else {
                &&& r == Ok::<u64, CoreError>(old(self)@.next_id)
                &&& final(self)@ == old(self)@.mounted(
                    old(self)@.next_id,
                    FiberModel::created(key, layers@, parent_scope, plugin, dependencies@),
                )
            },
    {
        let ghost before = self@;
        let slot = self.find_group(key);
        if let Some(i) = slot {
            if self.groups[i].unmounting {
                return Err(CoreError::PluginUnmounting { plugin: key });
            }
        }
        let id = self.allocate_id();
        let fiber = FiberRecord::new(key, layers, parent_scope, plugin, dependencies);
        let ghost model = fiber@;
        proof {
            assert forall|other: u64| self.fibers@.contains_key(other) implies other < id by {
                assert(self@.fibers.dom().contains(other));
            }
            super::lemma_fiber_insert(self.fibers@, id, fiber);
        }
        self.fibers.append(id, fiber);
        let ghost groups = self.groups@;
        match slot {
            Some(i) => {
                self.groups[i].fibers.push(id);
                proof {
                    assert(super::group_models(self.groups@) =~= group_joined(
                        before.groups,
                        key,
                        id,
                    ));
                }
            },
            None => {
                let mut members: Vec<u64> = Vec::new();
                members.push(id);
                let group = PluginGroup {
                    key,
                    fibers: members,
                    unmounting: false,
                    completion: None,
                };
                self.groups.push(group);
                proof {
                    assert(members@ =~= seq![id]);
                    assert(super::group_models(self.groups@) =~= group_joined(
                        before.groups,
                        key,
                        id,
                    ));
                }
            },
        }
        proof {
            assert(super::groups_ok(self@.groups));
            assert(self@ =~= (RegistryModel {
                next_id: (id + 1) as u64,
                fibers: before.fibers.insert(id, model),
                groups: group_joined(before.groups, key, id),
                ..before
            }));
        }
        self.publish(id, None, FiberState::Pending);
        Ok(id)
    }

    /// Takes a fiber off the lists. The record stays until it is forgotten.
    pub fn unregister_plugin_fiber(&mut self, id: u64)
        requires
            old(self).wf(),
            old(self)@.fibers.contains_key(id),
        ensures
            final(self).wf(),
            final(self)@ == old(self)@.unlisted(id),
    {
        let ghost before = self@;
        let fiber = self.fiber_mut(id);
        if !fiber.registered {
            assert(before.fibers.insert(id, before.fibers[id]) =~= before.fibers);
            return;
        }
        fiber.registered = false;
        let key = fiber.plugin_key;
        let ghost model = fiber@;
        assert(model =~= (FiberModel { registered: false, ..before.fibers[id] }));
        match self.find_group(key) {
            Some(i) => {
                let ghost groups = self.groups@;
                let rest = drop_id(&self.groups[i].fibers, id);
                if rest.len() == 0 && !self.groups[i].unmounting {
                    self.groups.remove(i);
                    assert(super::group_models(self.groups@) =~= group_left(
                        before.groups,
                        key@,
                        id,
                    ));
                } else {
                    self.groups[i].fibers = rest;
                    assert(super::group_models(self.groups@) =~= group_left(
                        before.groups,
                        key@,
                        id,
                    ));
                }
            },
            None => {},
        }
        proof {
            assert(super::groups_ok(self@.groups));
            assert(self@ =~= before.unlisted(id));
        }
    }

    /// Forgets a fiber that is off the lists and that nobody holds any more.
    pub fn forget_fiber(&mut self, id: u64)
        requires
            old(self).wf(),
            old(self)@.fibers.contains_key(id),
            !old(self)@.fibers[id].registered,
        ensures
            final(self).wf(),
            final(self)@ == (RegistryModel {
                fibers: old(self)@.fibers.remove(id),
                ..old(self)@
            }),
    {
        let ghost before = self@;
        self.fibers.remove(id);
        proof {
            assert(provider::fiber_models(self.fibers@) =~= before.fibers.remove(id));
        }
    }

    /// The fibers of a plugin.
    pub fn plugin_fibers_for_key(&self, key: PluginKey) -> (r: Vec<u64>)
        requires
            self.wf(),
        ensures
            r@ == group_fibers(self@.groups, key@),
    {
        match self.find_group(key) {
            Some(i) => {
                let r = self.groups[i].fibers.clone();
                assert(r@ =~= self.groups@[i as int].fibers@);
                r
            },
            None => Vec::new(),
        }
    }

    /// Begins to unmount a plugin: no fiber can join until the unmount ended. Returns the
    /// fibers to wait for and the token of the unmount.
    pub fn begin_plugin_unmount(&mut self, key: PluginKey) -> (r: Result<
        (Vec<u64>, u64),
        CoreError,
    >)
        requires
            old(self).wf(),
            old(self)@.next_id < u64::MAX,
        ensures
            final(self).wf(),
            old(self)@.unmount_begun(key, final(self)@, r),
    {
        let ghost before = self@;
        let slot = self.find_group(key);
        if let Some(i) = slot {
            if self.groups[i].unmounting {
                return Err(CoreError::PluginUnmounting { plugin: key });
            }
        }
        let members = self.plugin_fibers_for_key(key);
        let mut waiting: Vec<u64> = Vec::new();
        let mut k: usize = 0;
        while k < members.len()
            invariant
                self.wf(),
                self@ == before,
                k <= members@.len(),
                waiting@ == members@.take(k as int).filter(|id: u64| awaited(before.fibers, id)),
            decreases members@.len() - k,
        {
            proof {
                assert(members@.take(k + 1).drop_last() =~= members@.take(k as int));
                reveal(Seq::filter);
            }
            let id = members[k];
            let needed = match self.fibers.get(id) {
                Some(fiber) => {
                    assert(before.fibers[id] == fiber@);
                    fiber.needs_unmount_wait()
                },
                None => {
                    assert(!before.fibers.contains_key(id));
                    false
                },
            };
            if needed {
                waiting.push(id);
            }
            k += 1;
        }
        assert(members@.take(k as int) =~= members@);
        let token = self.allocate_id();
        match slot {
            Some(i) => {
                self.groups[i].unmounting = true;
                self.groups[i].completion = Some(token);
            },
            None => {
                self.groups.push(
                    PluginGroup {
                        key,
                        fibers: Vec::new(),
                        unmounting: true,
                        completion: Some(token),
                    },
                );
            },
        }
        proof {
            assert(super::group_models(self.groups@) =~= group_closing(before.groups, key, token));
            assert(super::groups_ok(self@.groups));
            assert(self@ =~= (RegistryModel {
                next_id: (before.next_id + 1) as u64,
                groups: group_closing(before.groups, key, token),
                ..before
            }));
        }
        Ok((waiting, token))
    }

    /// Ends an unmount; the token of another unmount has no effect.
    pub fn finish_plugin_unmount(&mut self, key: PluginKey, token: u64)
        requires
            old(self).wf(),
        ensures
            final(self).wf(),
            final(self)@ == (RegistryModel {
                groups: group_closed(old(self)@.groups, key@, token),
                ..old(self)@
            }),
    {
        let ghost before = self@;
        if let Some(i) = self.find_group(key) {
            if self.groups[i].completion == Some(token) {
                self.groups.remove(i);
                assert(super::group_models(self.groups@) =~= before.groups.remove(i as int));
                assert(super::groups_ok(self@.groups));
            }
        }
    }
}

/// The result of an unmount that is being gathered.
pub struct UnmountTally {
    count: usize,
    errors: Vec<String>,
}

impl UnmountTally {
    pub closed spec fn count_spec(&self) -> usize {
        self.count
    }

    pub closed spec fn errors_spec(&self) -> Seq<Seq<char>> {
        crate::text::texts(self.errors@)
    }

    /// The tally of an unmount of `count` fibers.
    pub fn new(count: usize) -> (r: UnmountTally)
        ensures
            r.count_spec() == count,
            r.errors_spec() == Seq::<Seq<char>>::empty(),
    {
        let r = UnmountTally { count, errors: Vec::new() };
        assert(r.errors_spec() =~= Seq::<Seq<char>>::empty());
        r
    }

    /// Adds how the release of one fiber ended. The errors of a failed release are
    /// listed one by one.
    pub fn released(&mut self, result: Result<(), CoreError>)
        ensures
            final(self).count_spec() == old(self).count_spec(),
            final(self).errors_spec() == old(self).errors_spec() + (match result {
                Ok(_) => Seq::empty(),
                Err(CoreError::DisposeFailed { errors }) => crate::text::texts(errors@),
                Err(other) => seq![other.message_text()],
            }),
    {
        let ghost before = self.errors@;
        match result {
            Ok(()) => {
                assert(crate::text::texts(before) + Seq::<Seq<char>>::empty()
                    =~= crate::text::texts(before));
            },
            Err(CoreError::DisposeFailed { errors }) => {
                let ghost added = errors@;
                let mut nested = errors;
                self.errors.append(&mut nested);
                assert(crate::text::texts(self.errors@) =~= crate::text::texts(before)
                    + crate::text::texts(added));
            },
            Err(other) => {
                let message = other.message();
                self.errors.push(message);
                assert(crate::text::texts(self.errors@) =~= crate::text::texts(before)
                    + seq![message@]);
            },
        }
    }

    /// The result of the unmount: the number of fibers, or all errors together.
    pub fn finish(self) -> (r: Result<usize, CoreError>)
        ensures
            match r {
                Ok(count) => self.errors_spec().len() == 0 && count == self.count_spec(),
                Err(CoreError::DisposeFailed { errors }) => self.errors_spec().len() > 0
                    && crate::text::texts(errors@) == self.errors_spec(),
                Err(_) => false,
            },
    {
        if self.errors.len() == 0 {
            Ok(self.count)
        } else {
            Err(CoreError::DisposeFailed { errors: self.errors })
        }
    }
}

} // verus!
