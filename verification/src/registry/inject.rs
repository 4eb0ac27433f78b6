//! Convergence of reactive injections.

use super::{Registry, RegistryModel};
use crate::effect;
use crate::effect::{Cleanup, EffectTree, ScopeModel};
use crate::error::CoreError;
use crate::fiber::{same_revisions, ProviderRevision};
use crate::injection::{InjectionModel, InjectionPhase, InjectionRecord, InjectionSnapshot};
use crate::provider;
use crate::provider::{provider_ids, resolve_provider};
use crate::service::{ErasedService, ServiceId, Services};
use crate::view::{copy_layers, Layer};
use vstd::prelude::*;

verus! {

impl RegistryModel {
    /// An active injection whose providers are no longer those it was built on.
    pub open spec fn stale(
        self,
        scopes: Map<u64, ScopeModel>,
        injection: InjectionModel,
    ) -> bool {
        &&& !effect::scope_disposed(scopes, injection.parent_scope)
        &&& injection.phase is Active
        &&& injection.resolved != self.revisions(injection.layers, injection.dependencies)
    }

    /// An injection after a stale one was sent back to wait.
    pub open spec fn converged(
        self,
        scopes: Map<u64, ScopeModel>,
        injection: InjectionModel,
    ) -> InjectionModel {
        if self.stale(scopes, injection) {
            injection.idle()
        } else {
            injection
        }
    }

    /// An injection whose callback is due: it waits, or it failed on other providers,
    /// and all its dependencies are there.
    pub open spec fn runnable(
        self,
        scopes: Map<u64, ScopeModel>,
        injection: InjectionModel,
    ) -> bool {
        &&& !effect::scope_disposed(scopes, injection.parent_scope)
        &&& self.satisfied(injection.layers, injection.dependencies)
        &&& injection.phase is Pending || (injection.phase is Failed && injection.resolved
            != self.revisions(injection.layers, injection.dependencies))
    }

    /// The registry after all stale injections were sent back to wait.
    pub open spec fn without_stale(self, scopes: Map<u64, ScopeModel>) -> RegistryModel {
        RegistryModel {
            injections: self.injections.map_values(
                |injection: InjectionModel| self.converged(scopes, injection),
            ),
            ..self
        }
    }

    /// The scopes of the stale injections among `ids`, in order.
    pub open spec fn stale_scopes(self, scopes: Map<u64, ScopeModel>, ids: Seq<u64>) -> Seq<u64>
        decreases ids.len(),
    {
        if ids.len() == 0 {
            Seq::empty()
        } else {
            let front = self.stale_scopes(scopes, ids.drop_last());
            let injection = self.injections[ids.last()];
            match injection.child_scope {
                Some(child) if self.stale(scopes, injection) => front.push(child),
                _ => front,
            }
        }
    }

    /// The injections among `ids` whose callback is due, in order.
    pub open spec fn runnable_ids(self, scopes: Map<u64, ScopeModel>, ids: Seq<u64>) -> Seq<u64> {
        ids.filter(|id: u64| self.runnable(scopes, self.injections[id]))
    }

    /// The service objects that a run over `services` is given.
    pub open spec fn service_objects(self, layers: Seq<Layer>, services: Seq<ServiceId>) -> Map<
        Seq<char>,
        ErasedService,
    >
        decreases services.len(),
    {
        if services.len() == 0 {
            Map::empty()
        } else {
            let front = self.service_objects(layers, services.drop_last());
            match self.service_object(layers, services.last()@) {
                Some(object) => front.insert(services.last()@, object),
                None => front,
            }
        }
    }

    /// The objects are those that the names resolve to, for every name that resolves and for
    /// no other.
    pub proof fn lemma_service_objects(self, layers: Seq<Layer>, services: Seq<ServiceId>)
        ensures
            forall|i: int|
                0 <= i < services.len() && self.service_object(layers, (#[trigger] services[i])@)
                    is Some ==> self.service_objects(layers, services).contains_key(services[i]@),
            forall|name: Seq<char>| #[trigger]
                self.service_objects(layers, services).contains_key(name) ==> {
                    &&& self.service_object(layers, name) == Some(
                        self.service_objects(layers, services)[name],
                    )
                    &&& exists|i: int| 0 <= i < services.len() && (#[trigger] services[i])@ == name
                },
        decreases services.len(),
    {
        if services.len() > 0 {
            let front = services.drop_last();
            self.lemma_service_objects(layers, front);
            let held = self.service_objects(layers, front);
            let all = self.service_objects(layers, services);
            assert forall|i: int|
                0 <= i < services.len() && self.service_object(layers, (#[trigger] services[i])@)
                    is Some implies all.contains_key(services[i]@) by {
                if i < front.len() {
                    assert(front[i] == services[i]);
                }
            }
            assert forall|name: Seq<char>| #[trigger] all.contains_key(name) implies {
                &&& self.service_object(layers, name) == Some(all[name])
                &&& exists|i: int| 0 <= i < services.len() && (#[trigger] services[i])@ == name
            } by {
                if name == services.last()@ {
                    assert(services[services.len() - 1]@ == name);
                } else {
                    assert(held.contains_key(name));
                    let i = choose|i: int| 0 <= i < front.len() && (#[trigger] front[i])@ == name;
                    assert(services[i]@ == name);
                }
            }
        }
    }

    /// The registry after injection `id` was registered.
    pub open spec fn injected(self, id: u64, injection: InjectionModel) -> RegistryModel {
        RegistryModel {
            next_id: (id + 1) as u64,
            injections: self.injections.insert(id, injection),
            ..self
        }.marked()
    }

    /// What the registration of an injection gives: its identifier or the refusal, and
    /// registry and scopes afterwards.
    pub open spec fn inject_outcome(
        self,
        scopes: Map<u64, ScopeModel>,
        layers: Seq<Layer>,
        parent: u64,
        dependencies: Seq<ServiceId>,
        callback: u64,
    ) -> (Result<u64, CoreError>, RegistryModel, Map<u64, ScopeModel>) {
        let id = self.next_id;
        if dependencies.len() == 0 {
            (Err(CoreError::EmptyInjection), self, scopes)
        } else if effect::scope_disposed(scopes, parent) {
            (Err(CoreError::ContextDisposed), self, scopes)
        } else {
            (
                Ok(id),
                self.injected(
                    id,
                    InjectionModel {
                        layers,
                        parent_scope: parent,
                        dependencies,
                        callback,
                        child_scope: None,
                        phase: InjectionPhase::Pending,
                        resolved: Seq::empty(),
                        last_error: None,
                    },
                ),
                effect::cleanup_added(scopes, parent, Cleanup::Injection(id)),
            )
        }
    }

    /// The registry after a run of injection `id` on `providers` ended, and whether the
    /// scope of the run has to be disposed.
    pub open spec fn ran(
        self,
        scopes: Map<u64, ScopeModel>,
        id: u64,
        child: u64,
        providers: Seq<ProviderRevision>,
        failure: Option<Seq<char>>,
    ) -> (RegistryModel, bool) {
        let injection = self.injections[id];
        if !self.injections.contains_key(id) || effect::scope_disposed(
            scopes,
            injection.parent_scope,
        ) {
            (self, true)
        } else if failure is Some {
            let failed = InjectionModel {
                child_scope: None,
                phase: InjectionPhase::Failed,
                resolved: providers,
                last_error: failure,
                ..injection
            };
            (RegistryModel { injections: self.injections.insert(id, failed), ..self }, true)
        } else if !self.satisfied(injection.layers, injection.dependencies) || self.revisions(
            injection.layers,
            injection.dependencies,
        ) != providers {
            (
                RegistryModel {
                    injections: self.injections.insert(id, injection.idle()),
                    ..self
                }.marked(),
                true,
            )
        } else {
            let active = InjectionModel {
                child_scope: Some(child),
                phase: InjectionPhase::Active,
                resolved: providers,
                last_error: None,
                ..injection
            };
            (RegistryModel { injections: self.injections.insert(id, active), ..self }, false)
        }
    }
}

/// The message of a run that failed.
pub open spec fn failure_of(outcome: Result<(), String>) -> Option<Seq<char>> {
    match outcome {
        Ok(()) => None,
        Err(message) => Some(message@),
    }
}

/// What one recompute found out about the injections.
pub struct InjectionBatch {
    pub ready: Vec<u64>,
    pub stale_scopes: Vec<u64>,
}

impl Registry {
    /// [`Self::injection_ids`] lists every injection once.
    pub proof fn lemma_injection_ids(&self)
        requires
            self.wf(),
        ensures
            forall|i: int, j: int|
                0 <= i < j < self.injection_ids().len() ==> self.injection_ids()[i]
                    < self.injection_ids()[j],
            forall|id: u64|
                self.injection_ids().contains(id) <==> #[trigger] self@.injections.contains_key(id),
    {
        self.injections.lemma_keys();
        assert forall|id: u64|
            self.injection_ids().contains(id) <==> #[trigger] self@.injections.contains_key(id) by {
            if self.injection_ids().contains(id) {
                let i = choose|i: int|
                    0 <= i < self.injections.keys().len() && self.injections.keys()[i] == id;
                assert(self.injections@.contains_key(self.injections.keys()[i]));
            }
            if self@.injections.contains_key(id) {
                assert(self.injections@.contains_key(id));
            }
        }
    }

    /// Registers an injection; it is removed with the scope `parent`.
    pub fn register_injection(
        &mut self,
        scopes: &mut EffectTree,
        layers: &Vec<Layer>,
        parent: u64,
        dependencies: Vec<ServiceId>,
        callback: u64,
    ) -> (r: Result<u64, CoreError>)
        requires
            old(self).wf(),
            old(scopes).wf(),
            old(self)@.next_id < u64::MAX,
        ensures
            final(self).wf(),
            final(scopes).wf(),
            final(scopes).next_id() == old(scopes).next_id(),
            (r, final(self)@, final(scopes)@) == old(self)@.inject_outcome(
                old(scopes)@,
                layers@,
                parent,
                dependencies@,
                callback,
            ),
    {
        if dependencies.len() == 0 {
            return Err(CoreError::EmptyInjection);
        }
        if scopes.is_disposed(parent) {
            return Err(CoreError::ContextDisposed);
        }
        let ghost before = self@;
        let id = self.allocate_id();
        let record = InjectionRecord {
            layers: copy_layers(layers),
            parent_scope: parent,
            dependencies,
            callback,
            child_scope: None,
            phase: InjectionPhase::Pending,
            resolved: Vec::new(),
            last_error: None,
        };
        let ghost model = record@;
        proof {
            assert forall|other: u64| self.injections@.contains_key(other) implies other < id by {
                assert(self@.injections.dom().contains(other));
            }
            super::lemma_injection_insert(self.injections@, id, record);
        }
        self.injections.append(id, record);
        scopes.on_dispose(parent, Cleanup::Injection(id));
        self.mark_dirty();
        assert(self@ =~= before.injected(id, model));
        Ok(id)
    }

    /// Removes an injection. Returns the scope of its active callback, which the caller
    /// disposes.
    pub fn remove_injection(&mut self, id: u64) -> (r: Option<u64>)
        requires
            old(self).wf(),
        ensures
            final(self).wf(),
            if old(self)@.injections.contains_key(id) {
                &&& r == old(self)@.injections[id].child_scope
                &&& final(self)@ == (RegistryModel {
                    injections: old(self)@.injections.remove(id),
                    ..old(self)@
                }).marked()
            } else {
                &&& r is None
                &&& final(self)@ == old(self)@
            },
    {
        let ghost before = self@;
        let ghost raw = self.injections@;
        match self.injections.remove(id) {
            Some(record) => {
                proof {
                    assert(before.injections.contains_key(id));
                    assert(before.injections[id] == record@);
                    assert(super::injection_models(self.injections@) =~= before.injections.remove(
                        id,
                    ));
                }
                self.mark_dirty();
                assert(self@ =~= (RegistryModel {
                    injections: before.injections.remove(id),
                    ..before
                }).marked());
                record.child_scope
            },
            None => {
                assert(!before.injections.contains_key(id));
                None
            },
        }
    }

    /// The phase of a registered injection.
    pub fn injection_phase(&self, id: u64) -> (r: Option<InjectionPhase>)
        requires
            self.wf(),
        ensures
            r == (if self@.injections.contains_key(id) {
                Some(self@.injections[id].phase)
            } else {
                None
            }),
    {
        match self.injections.get(id) {
            Some(record) => {
                assert(self@.injections[id] == record@);
                Some(record.phase)
            },
            None => {
                assert(!self@.injections.contains_key(id));
                None
            },
        }
    }

    /// Sends stale injections back to wait and collects the injections that are due.
    /// The caller disposes the stale scopes and runs the due callbacks.
    pub fn take_ready(&mut self, scopes: &EffectTree) -> (r: InjectionBatch)
        requires
            old(self).wf(),
            scopes.wf(),
        ensures
            final(self).wf(),
            final(self)@ == old(self)@.without_stale(scopes@),
            final(self).injection_ids() == old(self).injection_ids(),
            final(self).fiber_ids() == old(self).fiber_ids(),
            r.stale_scopes@ == old(self)@.stale_scopes(scopes@, old(self).injection_ids()),
            r.ready@ == final(self)@.runnable_ids(scopes@, old(self).injection_ids()),
    {
        let stale_scopes = self.demote_stale(scopes);
        let ready = self.due_injections(scopes);
        InjectionBatch { ready, stale_scopes }
    }

    fn demote_stale(&mut self, scopes: &EffectTree) -> (r: Vec<u64>)
        requires
            old(self).wf(),
            scopes.wf(),
        ensures
            final(self).wf(),
            final(self)@ == old(self)@.without_stale(scopes@),
            final(self).injection_ids() == old(self).injection_ids(),
            final(self).fiber_ids() == old(self).fiber_ids(),
            r@ == old(self)@.stale_scopes(scopes@, old(self).injection_ids()),
    {
        let ghost before = self@;
        let ghost keys = self.injections.keys();
        let ghost start = self.injections@;
        proof {
            self.injections.lemma_keys();
        }
        let mut stale: Vec<u64> = Vec::new();
        let mut i: usize = 0;
        while i < self.injections.len()
            invariant
                self.injections.wf(),
                self.providers.wf(),
                self.fibers.wf(),
                self.effects.wf(),
                scopes.wf(),
                before.ok(),
                self@ == (RegistryModel { injections: self@.injections, ..before }),
                keys == self.injections.keys(),
                self.fibers.keys() == old(self).fibers.keys(),
                i <= keys.len(),
                before.injections == super::injection_models(start),
                start.dom() == self.injections@.dom(),
                forall|a: int, b: int| 0 <= a < b < keys.len() ==> keys[a] < keys[b],
                forall|a: int| 0 <= a < keys.len() ==> start.contains_key(#[trigger] keys[a]),
                forall|a: int|
                    0 <= a < i ==> self.injections@[#[trigger] keys[a]]@ == before.converged(
                        scopes@,
                        start[keys[a]]@,
                    ),
                forall|a: int|
                    i <= a < keys.len() ==> self.injections@[#[trigger] keys[a]] == start[keys[a]],
                stale@ == before.stale_scopes(scopes@, keys.take(i as int)),
            decreases keys.len() - i,
        {
            let id: u64 = self.injections.key_at(i);
            let ghost now = self.injections@;
            assert(id == keys[i as int]);
            assert(keys.take(i + 1).drop_last() =~= keys.take(i as int));
            assert(keys.take(i + 1).last() == id);
            assert(before.injections[id] == start[id]@);
            let outdated = match self.injections.get(id) {
                Some(record) => record.phase == InjectionPhase::Active && !scopes.is_disposed(
                    record.parent_scope,
                ) && !same_revisions(
                    &record.resolved,
                    &provider_ids(
                        &self.providers,
                        &self.fibers,
                        &record.layers,
                        &record.dependencies,
                    ),
                ),
                None => false,
            };
            assert(outdated == before.stale(scopes@, start[id]@));
            if outdated {
                if let Some(record) = self.injections.get_mut(id) {
                    if let Some(child) = record.child_scope {
                        stale.push(child);
                    }
                    record.child_scope = None;
                    record.phase = InjectionPhase::Pending;
                    record.resolved.clear();
                    record.last_error = None;
                    proof {
                        assert(record@ =~= start[id]@.idle());
                    }
                }
                assert(self.injections@.dom() =~= start.dom());
            }
            proof {
                assert forall|a: int| 0 <= a < keys.len() && a != i implies self.injections@[
                    #[trigger] keys[a]
                ] == now[keys[a]] by {
                    if a < i {
                        assert(keys[a] < keys[i as int]);
                    } else {
                        assert(keys[i as int] < keys[a]);
                    }
                }
            }
            i += 1;
        }
        proof {
            assert(keys.take(i as int) =~= keys);
            assert forall|id: u64| #[trigger] start.contains_key(id) implies self.injections@[id]@
                == before.converged(scopes@, start[id]@) by {
                assert(self.injections@.contains_key(id));
                self.injections.lemma_keys();
                let a = choose|a: int| 0 <= a < keys.len() && keys[a] == id;
                assert(self.injections@[keys[a]]@ == before.converged(scopes@, start[keys[a]]@));
            }
            assert(super::injection_models(self.injections@) =~= before.without_stale(
                scopes@,
            ).injections);
            assert(self@ =~= before.without_stale(scopes@));
        }
        stale
    }

    fn due_injections(&self, scopes: &EffectTree) -> (r: Vec<u64>)
        requires
            self.wf(),
            scopes.wf(),
        ensures
            r@ == self@.runnable_ids(scopes@, self.injection_ids()),
    {
        let ghost keys = self.injections.keys();
        let mut ready: Vec<u64> = Vec::new();
        let mut i: usize = 0;
        while i < self.injections.len()
            invariant
                self.wf(),
                scopes.wf(),
                keys == self.injections.keys(),
                i <= keys.len(),
                ready@ == self@.runnable_ids(scopes@, keys.take(i as int)),
            decreases keys.len() - i,
        {
            let id: u64 = self.injections.key_at(i);
            proof {
                assert(keys.take(i + 1).drop_last() =~= keys.take(i as int));
                assert(keys.take(i + 1).last() == id);
                reveal(Seq::filter);
            }
            let record = self.injections.value_at(i);
            assert(self@.injections[id] == record@);
            let providers = provider_ids(
                &self.providers,
                &self.fibers,
                &record.layers,
                &record.dependencies,
            );
            proof {
                provider::lemma_revisions_len(
                    self@.providers,
                    self@.fibers,
                    record.layers@,
                    record.dependencies@,
                );
            }
            let complete = providers.len() == record.dependencies.len();
            let due = match record.phase {
                InjectionPhase::Pending => true,
                InjectionPhase::Failed => !same_revisions(&record.resolved, &providers),
                _ => false,
            };
            if !scopes.is_disposed(record.parent_scope) && complete && due {
                ready.push(id);
            }
            i += 1;
        }
        assert(keys.take(i as int) =~= keys);
        ready
    }

    /// Collects what a run of an injection is given; there is nothing to run while a
    /// dependency is missing.
    pub fn snapshot_injection(&self, id: u64) -> (r: Option<InjectionSnapshot>)
        requires
            self.wf(),
        ensures
            match r {
                None => !self@.injections.contains_key(id) || !self@.satisfied(
                    self@.injections[id].layers,
                    self@.injections[id].dependencies,
                ),
                Some(snapshot) => {
                    let injection = self@.injections[id];
                    &&& self@.injections.contains_key(id)
                    &&& self@.satisfied(injection.layers, injection.dependencies)
                    &&& snapshot.callback == injection.callback
                    &&& snapshot.parent == injection.parent_scope
                    &&& snapshot.providers@ == self@.revisions(
                        injection.layers,
                        injection.dependencies,
                    )
                    &&& snapshot.services@ == self@.service_objects(
                        injection.layers,
                        injection.dependencies,
                    )
                    &&& forall|i: int|
                        0 <= i < injection.dependencies.len() ==> {
                            let name = (#[trigger] injection.dependencies[i])@;
                            &&& snapshot.services@.contains_key(name)
                            &&& self@.service_object(injection.layers, name) == Some(
                                snapshot.services@[name],
                            )
                        }
                    &&& forall|name: Seq<char>| #[trigger]
                        snapshot.services@.contains_key(name) ==> exists|i: int|
                            0 <= i < injection.dependencies.len() && (
                            #[trigger] injection.dependencies[i])@ == name
                },
            },
    {
        let record = match self.injections.get(id) {
            Some(record) => record,
            None => {
                assert(!self@.injections.contains_key(id));
                return None;
            },
        };
        assert(self@.injections[id] == record@);
        let mut services = Services::new();
        let mut providers: Vec<ProviderRevision> = Vec::new();
        let mut i: usize = 0;
        while i < record.dependencies.len()
            invariant
                self.wf(),
                self@.injections.contains_key(id),
                self@.injections[id] == record@,
                i <= record.dependencies@.len(),
                forall|j: int|
                    0 <= j < i ==> self@.resolve(
                        record.layers@,
                        (#[trigger] record.dependencies@[j])@,
                    ) is Some,
                providers@ == self@.revisions(
                    record.layers@,
                    record.dependencies@.take(i as int),
                ),
                services@ == self@.service_objects(
                    record.layers@,
                    record.dependencies@.take(i as int),
                ),
            decreases record.dependencies@.len() - i,
        {
            let service = record.dependencies[i];
            proof {
                let deps = record.dependencies@;
                assert(deps.take(i + 1).drop_last() =~= deps.take(i as int));
                assert(deps.take(i + 1).last() == service);
            }
            match resolve_provider(&self.providers, &self.fibers, &record.layers, service) {
                Some(provider_id) => {
                    if let Some(found) = self.providers.get(provider_id) {
                        services.insert(
                            service,
                            ErasedService { tag: found.tag, value: found.value },
                        );
                        providers.push(
                            ProviderRevision {
                                id: provider_id,
                                availability_revision: found.availability_revision,
                            },
                        );
                    }
                },
                None => {
                    assert(self@.resolve(record.layers@, record.dependencies@[i as int]@) is None);
                    return None;
                },
            }
            i += 1;
        }
        assert(record.dependencies@.take(i as int) =~= record.dependencies@);
        proof {
            self@.lemma_service_objects(record.layers@, record.dependencies@);
        }
        Some(
            InjectionSnapshot {
                callback: record.callback,
                services,
                parent: record.parent_scope,
                providers,
            },
        )
    }

    /// Takes over the outcome of a run of an injection. Returns whether the scope of
    /// the run has to be disposed: the injection is gone, the run failed, or its
    /// providers changed while it ran.
    pub fn finish_injection(
        &mut self,
        scopes: &EffectTree,
        id: u64,
        child: u64,
        providers: Vec<ProviderRevision>,
        outcome: Result<(), String>,
    ) -> (dispose_child: bool)
        requires
            old(self).wf(),
            scopes.wf(),
        ensures
            final(self).wf(),
            (final(self)@, dispose_child) == old(self)@.ran(
                scopes@,
                id,
                child,
                providers@,
                failure_of(outcome),
            ),
    {
        let ghost before = self@;
        let ghost raw = self.injections@;
        let ghost built_on = providers@;
        let ghost failure = failure_of(outcome);
        let (gone, drifted) = match self.injections.get(id) {
            Some(record) => {
                assert(before.injections[id] == record@);
                let fresh = provider_ids(
                    &self.providers,
                    &self.fibers,
                    &record.layers,
                    &record.dependencies,
                );
                proof {
                    provider::lemma_revisions_len(
                        self@.providers,
                        self@.fibers,
                        record.layers@,
                        record.dependencies@,
                    );
                }
                (
                    scopes.is_disposed(record.parent_scope),
                    fresh.len() != record.dependencies.len() || !same_revisions(
                        &fresh,
                        &providers,
                    ),
                )
            },
            None => (true, true),
        };
        assert(before.injections.contains_key(id) == raw.contains_key(id));
        if gone {
            return true;
        }
        let mut dispose_child = true;
        let mut dirty = false;
        if let Some(record) = self.injections.get_mut(id) {
            match outcome {
                Err(message) => {
                    record.child_scope = None;
                    record.phase = InjectionPhase::Failed;
                    record.resolved = providers;
                    record.last_error = Some(message);
                },
                Ok(()) => {
                    record.last_error = None;
                    if drifted {
                        record.child_scope = None;
                        record.phase = InjectionPhase::Pending;
                        record.resolved.clear();
                        dirty = true;
                        assert(record@ =~= before.injections[id].idle());
                    } else {
                        record.child_scope = Some(child);
                        record.phase = InjectionPhase::Active;
                        record.resolved = providers;
                        dispose_child = false;
                    }
                },
            }
        }
        proof {
            super::lemma_injection_insert(raw, id, self.injections@[id]);
            assert(self@.ok());
        }
        if dirty {
            self.mark_dirty();
        }
        assert(self@ =~= before.ran(scopes@, id, child, built_on, failure).0);
        dispose_child
    }
}

} // verus!
