//! The coordination hub of a runtime: providers, injections, listeners, fibers and the
//! recompute schedule.
//!
//! The registry is plain data behind one lock of the host. Every operation is a step
//! from one consistent state to the next.

use crate::diagnostics;
use crate::diagnostics::{unavailable_services, FiberStateChange, Unavailable};
use crate::event::{EventContract, EventListener};
use crate::fiber::{FiberModel, FiberRecord, FiberState, FiberTransition};
use crate::injection::{InjectionModel, InjectionRecord};
use crate::isolation::RuntimeToken;
use crate::names::NameTable;
use crate::plugin::PluginKey;
use crate::provider;
use crate::provider::ProviderRecord;
use crate::table::Table;
use std::any::TypeId;
use std::collections::HashSet;
use vstd::prelude::*;

pub mod activate;
pub mod events;
pub mod groups;
pub mod inject;
pub mod lifecycle;
pub mod provide;
pub mod scheduler;
pub mod snapshot;
pub mod views;

verus! {

broadcast use vstd::std_specs::hash::group_hash_axioms;

/// A live effect as diagnostics show it.
pub struct EffectRecord {
    pub name: String,
    pub parent: Option<u64>,
    pub depth: Option<usize>,
    pub fiber_id: Option<u64>,
}

/// What an [`EffectRecord`] holds.
pub struct EffectModel {
    pub name: Seq<char>,
    pub parent: Option<u64>,
    pub depth: Option<usize>,
    pub fiber_id: Option<u64>,
}

impl View for EffectRecord {
    type V = EffectModel;

    open spec fn view(&self) -> EffectModel {
        EffectModel {
            name: self.name@,
            parent: self.parent,
            depth: self.depth,
            fiber_id: self.fiber_id,
        }
    }
}

/// The models of all effects.
pub open spec fn effect_models(effects: Map<u64, EffectRecord>) -> Map<u64, EffectModel> {
    effects.map_values(|effect: EffectRecord| effect@)
}

/// The fibers of one plugin.
pub struct PluginGroup {
    pub key: PluginKey,
    pub fibers: Vec<u64>,
    pub unmounting: bool,
    /// The unmount in progress.
    pub completion: Option<u64>,
}

/// What a [`PluginGroup`] holds.
pub struct GroupModel {
    pub key: PluginKey,
    pub fibers: Seq<u64>,
    pub unmounting: bool,
    pub completion: Option<u64>,
}

impl View for PluginGroup {
    type V = GroupModel;

    open spec fn view(&self) -> GroupModel {
        GroupModel {
            key: self.key,
            fibers: self.fibers@,
            unmounting: self.unmounting,
            completion: self.completion,
        }
    }
}

/// What a [`FiberStateChange`] holds.
pub struct ChangeModel {
    pub fiber_id: u64,
    pub plugin_key: PluginKey,
    pub previous: Option<FiberState>,
    pub current: FiberState,
    pub unavailable: Seq<Unavailable>,
}

impl View for FiberStateChange {
    type V = ChangeModel;

    open spec fn view(&self) -> ChangeModel {
        ChangeModel {
            fiber_id: self.fiber_id,
            plugin_key: self.plugin_key,
            previous: self.previous,
            current: self.current,
            unavailable: diagnostics::unavailable_models(self.unavailable_dependencies@),
        }
    }
}

/// The state of one runtime, but for its scopes and its log.
pub struct Registry {
    next_id: u64,
    token: RuntimeToken,
    providers: Table<ProviderRecord>,
    service_types: NameTable<TypeId>,
    config_types: NameTable<TypeId>,
    contracts: NameTable<EventContract>,
    listeners: Vec<EventListener>,
    claimed: HashSet<u64>,
    injections: Table<InjectionRecord>,
    effects: Table<EffectRecord>,
    fibers: Table<FiberRecord>,
    groups: Vec<PluginGroup>,
    isolations: Vec<u64>,
    dirty: bool,
    epoch: u64,
    recomputing: bool,
    started: bool,
    stopped: bool,
    outbox: Vec<FiberStateChange>,
}

/// What a [`Registry`] holds.
#[verifier::ext_equal]
pub struct RegistryModel {
    pub next_id: u64,
    /// The identity of the runtime.
    pub identity: u64,
    pub next_label: u64,
    pub providers: Map<u64, ProviderRecord>,
    /// The type that each service name is bound to.
    pub service_types: Map<Seq<char>, TypeId>,
    /// The type that each configuration name is bound to.
    pub config_types: Map<Seq<char>, TypeId>,
    /// The contract that each event name is bound to.
    pub contracts: Map<Seq<char>, EventContract>,
    /// All listeners of all events, in dispatch order.
    pub listeners: Seq<EventListener>,
    /// The one-shot listeners that ran.
    pub claimed: Set<u64>,
    pub injections: Map<u64, InjectionModel>,
    pub effects: Map<u64, EffectModel>,
    pub fibers: Map<u64, FiberModel>,
    pub groups: Seq<GroupModel>,
    /// The isolation labels that are in use, in order of first use.
    pub isolations: Seq<u64>,
    pub dirty: bool,
    pub epoch: u64,
    pub recomputing: bool,
    pub started: bool,
    pub stopped: bool,
    /// The state changes that the host has not published yet.
    pub outbox: Seq<ChangeModel>,
}

/// The models of all injections.
pub open spec fn injection_models(injections: Map<u64, InjectionRecord>) -> Map<
    u64,
    InjectionModel,
> {
    injections.map_values(|injection: InjectionRecord| injection@)
}

pub proof fn lemma_injection_insert(
    injections: Map<u64, InjectionRecord>,
    id: u64,
    record: InjectionRecord,
)
    ensures
        injection_models(injections.insert(id, record)) == injection_models(injections).insert(
            id,
            record@,
        ),
{
    assert(injection_models(injections.insert(id, record)) =~= injection_models(injections).insert(
        id,
        record@,
    ));
}

pub proof fn lemma_fiber_insert(fibers: Map<u64, FiberRecord>, id: u64, record: FiberRecord)
    ensures
        provider::fiber_models(fibers.insert(id, record)) == provider::fiber_models(fibers).insert(
            id,
            record@,
        ),
{
    assert(provider::fiber_models(fibers.insert(id, record)) =~= provider::fiber_models(
        fibers,
    ).insert(id, record@));
}

/// The models of all groups.
pub open spec fn group_models(groups: Seq<PluginGroup>) -> Seq<GroupModel> {
    groups.map_values(|group: PluginGroup| group@)
}

/// The models of all published changes.
pub open spec fn change_models(changes: Seq<FiberStateChange>) -> Seq<ChangeModel> {
    changes.map_values(|change: FiberStateChange| change@)
}

impl View for Registry {
    type V = RegistryModel;

    closed spec fn view(&self) -> RegistryModel {
        RegistryModel {
            next_id: self.next_id,
            identity: self.token.identity_spec(),
            next_label: self.token.next_spec(),
            providers: self.providers@,
            service_types: self.service_types@,
            config_types: self.config_types@,
            contracts: self.contracts@,
            listeners: self.listeners@,
            claimed: self.claimed@,
            injections: injection_models(self.injections@),
            effects: effect_models(self.effects@),
            fibers: provider::fiber_models(self.fibers@),
            groups: group_models(self.groups@),
            isolations: self.isolations@,
            dirty: self.dirty,
            epoch: self.epoch,
            recomputing: self.recomputing,
            started: self.started,
            stopped: self.stopped,
            outbox: change_models(self.outbox@),
        }
    }
}

/// All identifiers in use were allocated.
pub open spec fn ids_below(ids: Set<u64>, next: u64) -> bool {
    forall|id: u64| #[trigger] ids.contains(id) ==> id < next
}

/// Listener identifiers are unique, and no claimed one-shot listener is registered.
pub open spec fn listeners_ok(
    listeners: Seq<EventListener>,
    claimed: Set<u64>,
    next: u64,
) -> bool {
    &&& forall|i: int| 0 <= i < listeners.len() ==> (#[trigger] listeners[i]).id < next
    &&& forall|i: int, j: int|
        0 <= i < j < listeners.len() ==> (#[trigger] listeners[i]).id != (
        #[trigger] listeners[j]).id
    &&& forall|i: int|
        0 <= i < listeners.len() ==> !claimed.contains((#[trigger] listeners[i]).id)
    &&& forall|id: u64| #[trigger] claimed.contains(id) ==> id < next
}

/// Every fiber was mounted on a view.
pub open spec fn fibers_ok(fibers: Map<u64, FiberModel>) -> bool {
    forall|id: u64| #[trigger] fibers.contains_key(id) ==> fibers[id].layers.len() > 0
}

/// There is one group per plugin.
pub open spec fn groups_ok(groups: Seq<GroupModel>) -> bool {
    forall|i: int, j: int|
        0 <= i < j < groups.len() ==> (#[trigger] groups[i]).key@ != (#[trigger] groups[j]).key@
}

/// The labels in use were allocated and are listed in rising order.
pub open spec fn labels_ok(labels: Seq<u64>, next: u64) -> bool {
    &&& forall|i: int| 0 <= i < labels.len() ==> #[trigger] labels[i] < next
    &&& forall|i: int, j: int| 0 <= i < j < labels.len() ==> labels[i] < labels[j]
}

impl RegistryModel {
    /// A registry of a runtime that was just created.
    pub open spec fn initial(identity: u64) -> RegistryModel {
        RegistryModel {
            next_id: 1,
            identity,
            next_label: 1,
            providers: Map::empty(),
            service_types: Map::empty(),
            config_types: Map::empty(),
            contracts: Map::empty(),
            listeners: Seq::empty(),
            claimed: Set::empty(),
            injections: Map::empty(),
            effects: Map::empty(),
            fibers: Map::empty(),
            groups: Seq::empty(),
            isolations: Seq::empty(),
            dirty: false,
            epoch: 0,
            recomputing: false,
            started: false,
            stopped: false,
            outbox: Seq::empty(),
        }
    }

    /// What holds of every registry.
    pub open spec fn ok(self) -> bool {
        &&& self.next_id >= 1
        &&& ids_below(self.providers.dom(), self.next_id)
        &&& provider::slots_unique(self.providers)
        &&& ids_below(self.injections.dom(), self.next_id)
        &&& ids_below(self.fibers.dom(), self.next_id)
        &&& fibers_ok(self.fibers)
        &&& listeners_ok(self.listeners, self.claimed, self.next_id)
        &&& groups_ok(self.groups)
        &&& labels_ok(self.isolations, self.next_label)
    }

    /// Something changed that consumers have to hear of.
    pub open spec fn marked(self) -> RegistryModel {
        RegistryModel { dirty: true, epoch: self.epoch.wrapping_add(1), ..self }
    }

    /// The usable provider of `service` that a view sees.
    pub open spec fn resolve(
        self,
        layers: Seq<crate::view::Layer>,
        service: Seq<char>,
    ) -> Option<u64> {
        provider::resolved(self.providers, self.fibers, layers, service)
    }

    /// The versions of the usable providers of `services`.
    pub open spec fn revisions(
        self,
        layers: Seq<crate::view::Layer>,
        services: Seq<crate::service::ServiceId>,
    ) -> Seq<crate::fiber::ProviderRevision> {
        provider::revisions(self.providers, self.fibers, layers, services)
    }

    /// Every one of `services` has a usable provider.
    pub open spec fn satisfied(
        self,
        layers: Seq<crate::view::Layer>,
        services: Seq<crate::service::ServiceId>,
    ) -> bool {
        provider::all_resolved(self.providers, self.fibers, layers, services)
    }

    /// The record of a state change of fiber `id`.
    pub open spec fn change_of(
        self,
        id: u64,
        previous: Option<FiberState>,
        current: FiberState,
    ) -> ChangeModel {
        ChangeModel {
            fiber_id: id,
            plugin_key: self.fibers[id].plugin_key,
            previous,
            current,
            unavailable: diagnostics::unavailable(
                self.providers,
                self.fibers,
                self.fibers[id].layers,
                self.fibers[id].dependencies,
            ),
        }
    }

    /// The registry after the change of state of fiber `id` was noted, if there was one.
    pub open spec fn noted(self, id: u64, change: Option<FiberTransition>) -> RegistryModel {
        match change {
            Some(transition) => RegistryModel {
                outbox: self.outbox.push(
                    self.change_of(id, Some(transition.previous), transition.current),
                ),
                ..self
            },
            None => self,
        }
    }

    /// The registry with fiber `id` in state `next`, the change noted.
    pub open spec fn with_fiber(self, id: u64, next: FiberModel) -> RegistryModel {
        RegistryModel { fibers: self.fibers.insert(id, next), ..self }.noted(
            id,
            FiberModel::change(self.fibers[id].state, next.state),
        )
    }
}

impl Registry {
    pub closed spec fn wf(&self) -> bool {
        &&& self.providers.wf()
        &&& self.injections.wf()
        &&& self.effects.wf()
        &&& self.fibers.wf()
        &&& self@.ok()
    }

    /// The identifiers of all injections, in order of registration.
    pub closed spec fn injection_ids(&self) -> Seq<u64> {
        self.injections.keys()
    }

    /// The identifiers of all fibers, in order of creation.
    pub closed spec fn fiber_ids(&self) -> Seq<u64> {
        self.fibers.keys()
    }

    pub proof fn lemma_wf(&self)
        requires
            self.wf(),
        ensures
            self@.ok(),
    {
    }

    /// The registry of the runtime with this identity.
    pub fn new(identity: u64) -> (r: Registry)
        ensures
            r.wf(),
            r@ == RegistryModel::initial(identity),
    {
        let r = Registry {
            next_id: 1,
            token: RuntimeToken::new(identity),
            providers: Table::new(),
            service_types: NameTable::new(),
            config_types: NameTable::new(),
            contracts: NameTable::new(),
            listeners: Vec::new(),
            claimed: HashSet::new(),
            injections: Table::new(),
            effects: Table::new(),
            fibers: Table::new(),
            groups: Vec::new(),
            isolations: Vec::new(),
            dirty: false,
            epoch: 0,
            recomputing: false,
            started: false,
            stopped: false,
            outbox: Vec::new(),
        };
        assert(r@ =~= RegistryModel::initial(identity));
        r
    }

    /// An identifier that was not allocated before.
    pub fn allocate_id(&mut self) -> (id: u64)
        requires
            old(self).wf(),
            old(self)@.next_id < u64::MAX,
        ensures
            final(self).wf(),
            id == old(self)@.next_id,
            final(self)@ == (RegistryModel { next_id: (id + 1) as u64, ..old(self)@ }),
    {
        let id: u64 = self.next_id;
        self.next_id = id + 1;
        id
    }

    /// There are identifiers and labels left to give out.
    pub fn has_room(&self) -> (r: bool)
        ensures
            r == (self@.next_id < u64::MAX && self@.next_label < u64::MAX),
    {
        self.next_id < u64::MAX && self.token.has_room()
    }

    /// Notes that something changed that consumers have to hear of.
    pub fn mark_dirty(&mut self)
        requires
            old(self).wf(),
        ensures
            final(self).wf(),
            final(self)@ == old(self)@.marked(),
    {
        self.dirty = true;
        self.epoch = self.epoch.wrapping_add(1);
    }

    /// Gives mutable access to a fiber, whose view has to stay.
    pub(crate) fn fiber_mut(&mut self, id: u64) -> (r: &mut FiberRecord)
        requires
            old(self).wf(),
            old(self)@.fibers.contains_key(id),
        ensures
            final(r)@.layers.len() > 0 ==> final(self).wf(),
            r@.layers.len() > 0,
            r@ == old(self)@.fibers[id],
            final(self)@ == (RegistryModel {
                fibers: old(self)@.fibers.insert(id, final(r)@),
                ..old(self)@
            }),
    {
        proof {
            let raw = self.fibers@;
            assert(raw.contains_key(id));
            assert forall|record: FiberRecord|
                provider::fiber_models(#[trigger] raw.insert(id, record)) == provider::fiber_models(
                    raw,
                ).insert(id, record@) by {
                lemma_fiber_insert(raw, id, record);
            }
        }
        self.fibers.at_mut(id)
    }

    /// A fiber that is known.
    pub fn fiber(&self, id: u64) -> (r: Option<&FiberRecord>)
        requires
            self.wf(),
        ensures
            match r {
                Some(fiber) => self@.fibers.contains_key(id) && fiber@ == self@.fibers[id],
                None => !self@.fibers.contains_key(id),
            },
    {
        self.fibers.get(id)
    }

    /// The state of a fiber that is known.
    pub fn fiber_state(&self, id: u64) -> (r: Option<FiberState>)
        requires
            self.wf(),
        ensures
            r == (if self@.fibers.contains_key(id) {
                Some(self@.fibers[id].state)
            } else {
                None
            }),
    {
        match self.fiber(id) {
            Some(fiber) => Some(fiber.state),
            None => None,
        }
    }

    /// Notes a change of state of a fiber, if there was one.
    pub(crate) fn note(&mut self, id: u64, change: Option<FiberTransition>)
        requires
            old(self).wf(),
            old(self)@.fibers.contains_key(id),
        ensures
            final(self).wf(),
            final(self)@ == old(self)@.noted(id, change),
    {
        if let Some(transition) = change {
            self.publish(id, Some(transition.previous), transition.current);
        }
    }

    pub(crate) fn publish(&mut self, id: u64, previous: Option<FiberState>, current: FiberState)
        requires
            old(self).wf(),
            old(self)@.fibers.contains_key(id),
        ensures
            final(self).wf(),
            final(self)@ == (RegistryModel {
                outbox: old(self)@.outbox.push(old(self)@.change_of(id, previous, current)),
                ..old(self)@
            }),
    {
        let ghost before = self.outbox@;
        match self.fibers.get(id) {
            Some(fiber) => {
                assert(self@.fibers[id] == fiber@);
                let change = FiberStateChange {
                    fiber_id: id,
                    plugin_key: fiber.plugin_key,
                    previous,
                    current,
                    unavailable_dependencies: unavailable_services(
                        &self.providers,
                        &self.fibers,
                        &fiber.layers,
                        &fiber.dependencies,
                    ),
                };
                self.outbox.push(change);
                assert(change_models(self.outbox@) =~= change_models(before).push(change@));
            },
            None => {},
        }
    }

    /// Hands out the state changes that were noted since the last call.
    pub fn drain_changes(&mut self) -> (r: Vec<FiberStateChange>)
        requires
            old(self).wf(),
        ensures
            final(self).wf(),
            change_models(r@) == old(self)@.outbox,
            final(self)@ == (RegistryModel { outbox: Seq::empty(), ..old(self)@ }),
    {
        let mut out: Vec<FiberStateChange> = Vec::new();
        std::mem::swap(&mut out, &mut self.outbox);
        assert(change_models(self.outbox@) =~= Seq::<ChangeModel>::empty());
        out
    }
}

} // verus!
