//! Activation of fibers: applying a plugin once its dependencies are there.

use super::{EffectModel, EffectRecord, Registry, RegistryModel};
use crate::effect;
use crate::effect::{Cleanup, EffectTree, ScopeModel};
use crate::error::CoreError;
use crate::fiber::{
    same_revisions, ActivateClaim, EffectOwnership, FiberModel, FiberRecord, FiberState,
    HandleHandoff, ProviderRevision,
};
use crate::provider;
use crate::provider::provider_ids;
use vstd::prelude::*;

verus! {

/// How an activation begins.
pub enum ActivationStart {
    /// The fiber cannot be activated.
    Refused(CoreError),
    /// The caller of the first mount is gone and the fiber was withdrawn; the host
    /// disposes this scope.
    Revoked(Option<u64>),
    /// There is nothing to do: the fiber is not pending, or a dependency is missing.
    Idle,
    /// The host applies this plugin in this scope and reports the outcome.
    Apply { scope: u64, plugin: u64, providers: Vec<ProviderRevision> },
}

/// How an activation ended.
pub struct ActivationEnd {
    pub result: Result<(), CoreError>,
    /// The host disposes this scope.
    pub dispose: Option<u64>,
    /// Another scope that the fiber still held when it was withdrawn; the host disposes it
    /// too.
    pub withdrawn: Option<u64>,
}

impl FiberModel {
    /// The caller of the first mount is gone.
    pub open spec fn revocable(self, initial_mount: bool) -> bool {
        initial_mount && self.handoff is Abandoned
    }

    /// The scope that the fiber owns and that is not under release.
    pub open spec fn held_scope(self) -> Option<u64> {
        match self.ownership {
            EffectOwnership::Activating(scope) => Some(scope),
            EffectOwnership::Active(scope) => Some(scope),
            _ => None,
        }
    }

    /// The fiber without a scope that is not under release.
    pub open spec fn unowned(self) -> FiberModel {
        FiberModel {
            ownership: if self.held_scope() is Some {
                EffectOwnership::Empty
            } else {
                self.ownership
            },
            ..self
        }
    }

    /// The fiber without the temporary scope `scope`.
    pub open spec fn without_temporary(self, scope: u64) -> FiberModel {
        FiberModel {
            ownership: if self.ownership == EffectOwnership::Activating(scope) {
                EffectOwnership::Empty
            } else {
                self.ownership
            },
            ..self
        }
    }

    pub open spec fn loading(self) -> FiberModel {
        FiberModel { state: FiberState::Loading, ..self }
    }

    /// The fiber in its terminal state, as if it had never been mounted.
    pub open spec fn revoked(self) -> FiberModel {
        FiberModel { disposed: true, state: FiberState::Disposed, ..self.unowned().reset() }
    }

    /// The fiber after a failure with this message.
    pub open spec fn failed(self, message: Seq<char>) -> FiberModel {
        FiberModel { last_error: Some(message), ..self }.aimed(FiberState::Failed)
    }

    /// The fiber back in wait for its dependencies.
    pub open spec fn waiting(self) -> FiberModel {
        self.reset().aimed(FiberState::Pending)
    }
}

impl RegistryModel {
    /// The dependencies of fiber `id` are all there.
    pub open spec fn fiber_satisfied(self, id: u64) -> bool {
        self.satisfied(self.fibers[id].layers, self.fibers[id].dependencies)
    }

    /// The providers that fiber `id` depends on.
    pub open spec fn fiber_revisions(self, id: u64) -> Seq<ProviderRevision> {
        self.revisions(self.fibers[id].layers, self.fibers[id].dependencies)
    }

    /// The registry after fiber `id` was withdrawn for good.
    pub open spec fn revoke(self, id: u64) -> RegistryModel {
        self.with_fiber(id, self.fibers[id].revoked()).unlisted(id)
    }

    /// The registry while fiber `id` is being activated in `scope`.
    pub open spec fn activating(self, id: u64, scope: u64, parent: u64) -> RegistryModel {
        let claimed = self.with_fiber(id, self.fibers[id].loading());
        RegistryModel {
            fibers: claimed.fibers.insert(
                id,
                FiberModel {
                    ownership: EffectOwnership::Activating(scope),
                    ..claimed.fibers[id]
                },
            ),
            effects: claimed.effects.insert(
                scope,
                EffectModel {
                    name: "plugin"@,
                    parent: Some(parent),
                    depth: Some((self.fibers[id].layers.len() - 1) as usize),
                    fiber_id: Some(id),
                },
            ),
            ..claimed
        }
    }

    /// What the begin of an activation of fiber `id` gives.
    pub open spec fn activation_begun(
        self,
        scopes: Map<u64, ScopeModel>,
        next_scope: u64,
        id: u64,
        initial_mount: bool,
        after: RegistryModel,
        scopes_after: Map<u64, ScopeModel>,
        start: ActivationStart,
    ) -> bool {
        let fiber = self.fibers[id];
        let claimed = self.with_fiber(id, fiber.loading());
        if fiber.disposed {
            &&& start == ActivationStart::Refused(CoreError::FiberDisposed)
            &&& after == self
            &&& scopes_after == scopes
        } else if fiber.revocable(initial_mount) {
            &&& start == ActivationStart::Revoked(fiber.held_scope())
            &&& after == self.revoke(id)
            &&& scopes_after == scopes
        } else if !(fiber.state is Pending) {
            &&& start is Idle
            &&& after == self
            &&& scopes_after == scopes
        } else if !claimed.fiber_satisfied(id) {
            &&& start is Idle
            &&& after == claimed.with_fiber(id, fiber.loading().waiting())
            &&& scopes_after == scopes
        } else if effect::scope_disposed(scopes, fiber.parent_scope) {
            &&& start == ActivationStart::Refused(CoreError::ContextDisposed)
            &&& after == claimed.with_fiber(
                id,
                fiber.loading().failed("parent scope disposed before apply"@),
            )
            &&& scopes_after == scopes
        } else {
            &&& start matches ActivationStart::Apply { scope, plugin, providers } && scope
                == next_scope && plugin == fiber.plugin && providers@ == claimed.fiber_revisions(id)
            &&& after == self.activating(id, next_scope, fiber.parent_scope)
            &&& scopes_after == effect::cleanup_added(
                effect::child_added(scopes, fiber.parent_scope, next_scope, "plugin"@),
                next_scope,
                Cleanup::Effect(next_scope),
            )
        }
    }

    /// What the end of an activation of fiber `id` gives that was built on `providers`.
    pub open spec fn activation_ended(
        self,
        scopes: Map<u64, ScopeModel>,
        id: u64,
        initial_mount: bool,
        scope: u64,
        providers: Seq<ProviderRevision>,
        outcome: Result<(), String>,
        after: RegistryModel,
        end: ActivationEnd,
    ) -> bool {
        let fiber = self.fibers[id].without_temporary(scope);
        let released = RegistryModel { fibers: self.fibers.insert(id, fiber), ..self };
        &&& !fiber.revocable(initial_mount) ==> end.withdrawn is None
        &&& if fiber.revocable(initial_mount) {
            &&& end.result == Err::<(), CoreError>(CoreError::FiberDisposed)
            &&& end.dispose == Some(scope)
            &&& end.withdrawn == fiber.held_scope()
            &&& after == released.revoke(id)
        } else if fiber.disposed {
            &&& end.result == Err::<(), CoreError>(CoreError::FiberDisposed)
            &&& end.dispose == Some(scope)
            &&& after == released.with_fiber(
                id,
                FiberModel { state: FiberState::Disposed, ..fiber },
            )
        } else {
            match outcome {
                Err(message) => {
                    &&& end.result == Err::<(), CoreError>(CoreError::PluginApply(message))
                    &&& end.dispose == Some(scope)
                    &&& after == released.with_fiber(id, fiber.failed(message@))
                },
                Ok(_) => if effect::scope_disposed(scopes, scope) || effect::scope_disposed(
                    scopes,
                    fiber.parent_scope,
                ) {
                    &&& end.result matches Err(CoreError::PluginApply(message)) && message@
                        == "plugin scope was disposed during apply"@
                    &&& end.dispose == Some(scope)
                    &&& after == released.with_fiber(
                        id,
                        fiber.failed("plugin scope was disposed during apply"@),
                    )
                } else if !self.fiber_satisfied(id) || self.fiber_revisions(id) != providers {
                    &&& end.result is Ok
                    &&& end.dispose == Some(scope)
                    &&& after == released.with_fiber(id, fiber.waiting()).marked()
                } else if fiber.state is Disposed {
                    &&& end.result == Err::<(), CoreError>(CoreError::FiberDisposed)
                    &&& end.dispose == Some(scope)
                    &&& after == released.with_fiber(id, fiber.reset())
                } else {
                    &&& end.result is Ok
                    &&& end.dispose is None
                    &&& after == released.with_fiber(
                        id,
                        FiberModel {
                            ownership: EffectOwnership::Active(scope),
                            resolved: providers,
                            last_error: None,
                            state: FiberState::Active,
                            ..fiber
                        },
                    ).marked()
                },
            }
        }
    }
}

impl FiberRecord {
    fn drop_temporary(&mut self, scope: u64)
        ensures
            final(self)@ == old(self)@.without_temporary(scope),
    {
        if let EffectOwnership::Activating(held) = self.ownership {
            if held == scope {
                self.ownership = EffectOwnership::Empty;
            }
        }
    }

    fn drop_held(&mut self) -> (r: Option<u64>)
        ensures
            r == old(self)@.held_scope(),
            final(self)@ == old(self)@.unowned(),
    {
        match self.ownership {
            EffectOwnership::Activating(scope) => {
                self.ownership = EffectOwnership::Empty;
                Some(scope)
            },
            EffectOwnership::Active(scope) => {
                self.ownership = EffectOwnership::Empty;
                Some(scope)
            },
            _ => None,
        }
    }
}

impl Registry {
    /// Notes a live effect for diagnostics; it is forgotten with its scope.
    pub fn register_effect(
        &mut self,
        scopes: &mut EffectTree,
        scope: u64,
        name: String,
        parent: Option<u64>,
        depth: Option<usize>,
        fiber_id: Option<u64>,
    )
        requires
            old(self).wf(),
            old(scopes).wf(),
        ensures
            final(self).wf(),
            final(scopes).wf(),
            final(scopes).next_id() == old(scopes).next_id(),
            final(self)@ == (RegistryModel {
                effects: old(self)@.effects.insert(
                    scope,
                    EffectModel { name: name@, parent, depth, fiber_id },
                ),
                ..old(self)@
            }),
            final(scopes)@ == effect::cleanup_added(
                old(scopes)@,
                scope,
                Cleanup::Effect(scope),
            ),
    {
        let ghost before = self@;
        let record = EffectRecord { name, parent, depth, fiber_id };
        let ghost model = record@;
        self.effects.insert(scope, record);
        assert(super::effect_models(self.effects@) =~= before.effects.insert(scope, model));
        scopes.on_dispose(scope, Cleanup::Effect(scope));
    }

    /// Offers the handle of a fiber whose first activation ended; see
    /// [`FiberRecord::offer_handle`]. This comes before the end of the operation, which
    /// tells the scheduler of the fiber.
    pub fn offer_handle(&mut self, id: u64) -> (offered: bool)
        requires
            old(self).wf(),
            old(self)@.fibers.contains_key(id),
        ensures
            final(self).wf(),
            offered == (old(self)@.fibers[id].handoff is Preparing),
            final(self)@ == old(self)@.with_fiber(
                id,
                FiberModel {
                    handoff: if offered {
                        HandleHandoff::ReadyForHandle
                    } else {
                        old(self)@.fibers[id].handoff
                    },
                    ..old(self)@.fibers[id]
                },
            ),
    {
        self.fiber_mut(id).offer_handle()
    }

    /// Claims the handle of a fiber for the caller that mounted it; see
    /// [`FiberRecord::claim_handle`].
    pub fn claim_handle(&mut self, id: u64) -> (claimed: bool)
        requires
            old(self).wf(),
            old(self)@.fibers.contains_key(id),
        ensures
            final(self).wf(),
            claimed == (old(self)@.fibers[id].handoff is ReadyForHandle
                || old(self)@.fibers[id].handoff is HandleClaimed),
            final(self)@ == old(self)@.with_fiber(
                id,
                FiberModel {
                    handoff: if claimed {
                        HandleHandoff::HandleClaimed
                    } else {
                        old(self)@.fibers[id].handoff
                    },
                    ..old(self)@.fibers[id]
                },
            ),
    {
        self.fiber_mut(id).claim_handle()
    }

    /// The caller that mounted a fiber went away; see
    /// [`FiberRecord::abandon_initial_handle`].
    pub fn abandon_initial_handle(&mut self, id: u64) -> (dispose_now: bool)
        requires
            old(self).wf(),
            old(self)@.fibers.contains_key(id),
        ensures
            final(self).wf(),
            dispose_now == (old(self)@.fibers[id].handoff is ReadyForHandle),
            final(self)@ == old(self)@.with_fiber(
                id,
                FiberModel {
                    handoff: if old(self)@.fibers[id].handoff is HandleClaimed {
                        HandleHandoff::HandleClaimed
                    } else {
                        HandleHandoff::Abandoned
                    },
                    ..old(self)@.fibers[id]
                },
            ),
    {
        self.fiber_mut(id).abandon_initial_handle()
    }

    /// Forgets an effect.
    pub fn remove_effect(&mut self, scope: u64)
        requires
            old(self).wf(),
        ensures
            final(self).wf(),
            final(self)@ == (RegistryModel {
                effects: old(self)@.effects.remove(scope),
                ..old(self)@
            }),
    {
        let ghost before = self@;
        self.effects.remove(scope);
        assert(super::effect_models(self.effects@) =~= before.effects.remove(scope));
    }

    /// The versions of the providers that a fiber depends on, if all are there.
    fn fiber_providers(&self, id: u64) -> (r: Option<Vec<ProviderRevision>>)
        requires
            self.wf(),
            self@.fibers.contains_key(id),
        ensures
            match r {
                Some(providers) => self@.fiber_satisfied(id) && providers@
                    == self@.fiber_revisions(id),
                None => !self@.fiber_satisfied(id),
            },
    {
        match self.fibers.get(id) {
            Some(fiber) => {
                assert(self@.fibers[id] == fiber@);
                let providers = provider_ids(
                    &self.providers,
                    &self.fibers,
                    &fiber.layers,
                    &fiber.dependencies,
                );
                proof {
                    provider::lemma_revisions_len(
                        self@.providers,
                        self@.fibers,
                        fiber.layers@,
                        fiber.dependencies@,
                    );
                }
                if providers.len() == fiber.dependencies.len() {
                    Some(providers)
                } else {
                    None
                }
            },
            None => None,
        }
    }

    fn revoke_initial_mount(&mut self, id: u64) -> (held: Option<u64>)
        requires
            old(self).wf(),
            old(self)@.fibers.contains_key(id),
        ensures
            final(self).wf(),
            held == old(self)@.fibers[id].held_scope(),
            final(self)@ == old(self)@.revoke(id),
    {
        let fiber = self.fiber_mut(id);
        let held = fiber.drop_held();
        fiber.reset();
        fiber.disposed = true;
        let change = fiber.transition_disposed();
        self.note(id, change);
        self.unregister_plugin_fiber(id);
        held
    }

    /// Begins to activate a fiber.
    pub fn begin_activation(
        &mut self,
        scopes: &mut EffectTree,
        id: u64,
        initial_mount: bool,
    ) -> (r: ActivationStart)
        requires
            old(self).wf(),
            old(scopes).wf(),
            old(scopes).next_id() < u64::MAX,
            old(self)@.fibers.contains_key(id),
        ensures
            final(self).wf(),
            final(scopes).wf(),
            final(scopes).next_id() == (if r is Apply {
                (old(scopes).next_id() + 1) as u64
            } else {
                old(scopes).next_id()
            }),
            old(self)@.activation_begun(
                old(scopes)@,
                old(scopes).next_id(),
                id,
                initial_mount,
                final(self)@,
                final(scopes)@,
                r,
            ),
    {
        let ghost before = self@;
        let fiber = self.fiber_mut(id);
        if fiber.disposed {
            assert(before.fibers.insert(id, before.fibers[id]) =~= before.fibers);
            return ActivationStart::Refused(CoreError::FiberDisposed);
        }
        let abandoned = fiber.handoff_abandoned();
        if initial_mount && abandoned {
            assert(before.fibers.insert(id, before.fibers[id]) =~= before.fibers);
            return ActivationStart::Revoked(self.revoke_initial_mount(id));
        }
        let (claim, change) = fiber.claim_activation();
        if claim != ActivateClaim::Claimed {
            assert(before.fibers.insert(id, before.fibers[id]) =~= before.fibers);
            return ActivationStart::Idle;
        }
        let parent = fiber.parent_scope;
        let plugin = fiber.plugin;
        let depth: usize = fiber.layers.len() - 1;
        self.note(id, change);
        let ghost claimed = self@;
        assert(claimed == before.with_fiber(id, before.fibers[id].loading()));
        let providers = match self.fiber_providers(id) {
            Some(providers) => providers,
            None => {
                let fiber = self.fiber_mut(id);
                fiber.reset();
                let (_alive, change) = fiber.transition_if_alive(FiberState::Pending);
                self.note(id, change);
                return ActivationStart::Idle;
            },
        };
        if scopes.is_disposed(parent) {
            let fiber = self.fiber_mut(id);
            fiber.last_error = Some("parent scope disposed before apply".to_owned());
            let (_alive, change) = fiber.transition_if_alive(FiberState::Failed);
            self.note(id, change);
            return ActivationStart::Refused(CoreError::ContextDisposed);
        }
        let ghost next_scope = scopes.next_id();
        let scope = scopes.child_named(parent, "plugin".to_owned());
        let fiber = self.fiber_mut(id);
        fiber.ownership = EffectOwnership::Activating(scope);
        self.register_effect(
            scopes,
            scope,
            "plugin".to_owned(),
            Some(parent),
            Some(depth),
            Some(id),
        );
        assert(self@ =~= before.activating(id, scope, parent));
        ActivationStart::Apply { scope, plugin, providers }
    }

    /// Takes over the outcome of an applied plugin.
    pub fn finish_activation(
        &mut self,
        scopes: &EffectTree,
        id: u64,
        initial_mount: bool,
        scope: u64,
        providers: Vec<ProviderRevision>,
        outcome: Result<(), String>,
    ) -> (r: ActivationEnd)
        requires
            old(self).wf(),
            scopes.wf(),
            old(self)@.fibers.contains_key(id),
        ensures
            final(self).wf(),
            old(self)@.activation_ended(
                scopes@,
                id,
                initial_mount,
                scope,
                providers@,
                outcome,
                final(self)@,
                r,
            ),
    {
        let ghost before = self@;
        let current = self.fiber_providers(id);
        let fiber = self.fiber_mut(id);
        fiber.drop_temporary(scope);
        let abandoned = fiber.handoff_abandoned();
        let disposed = fiber.disposed;
        let parent = fiber.parent_scope;
        let terminal = fiber.state == FiberState::Disposed;
        if initial_mount && abandoned {
            let withdrawn = self.revoke_initial_mount(id);
            return ActivationEnd {
                result: Err(CoreError::FiberDisposed),
                dispose: Some(scope),
                withdrawn,
            };
        }
        let fiber = self.fiber_mut(id);
        if disposed {
            let change = fiber.transition_disposed();
            self.note(id, change);
            return ActivationEnd {
                result: Err(CoreError::FiberDisposed),
                dispose: Some(scope),
                withdrawn: None,
            };
        }
        match outcome {
            Err(message) => {
                fiber.last_error = Some(message.clone());
                let (_alive, change) = fiber.transition_if_alive(FiberState::Failed);
                self.note(id, change);
                ActivationEnd {
                    result: Err(CoreError::PluginApply(message)),
                    dispose: Some(scope),
                    withdrawn: None,
                }
            },
            Ok(()) => {
                if scopes.is_disposed(scope) || scopes.is_disposed(parent) {
                    fiber.last_error = Some(
                        "plugin scope was disposed during apply".to_owned(),
                    );
                    let (_alive, change) = fiber.transition_if_alive(FiberState::Failed);
                    self.note(id, change);
                    return ActivationEnd {
                        result: Err(
                            CoreError::PluginApply(
                                "plugin scope was disposed during apply".to_owned(),
                            ),
                        ),
                        dispose: Some(scope),
                        withdrawn: None,
                    };
                }
                let unchanged = match &current {
                    Some(fresh) => same_revisions(fresh, &providers),
                    None => false,
                };
                if !unchanged {
                    fiber.reset();
                    let (_alive, change) = fiber.transition_if_alive(FiberState::Pending);
                    self.note(id, change);
                    self.mark_dirty();
                    return ActivationEnd { result: Ok(()), dispose: Some(scope), withdrawn: None };
                }
                if terminal {
                    fiber.reset();
                    return ActivationEnd {
                        result: Err(CoreError::FiberDisposed),
                        dispose: Some(scope),
                        withdrawn: None,
                    };
                }
                fiber.ownership = EffectOwnership::Active(scope);
                fiber.resolved = providers;
                fiber.last_error = None;
                let (_alive, change) = fiber.transition_if_alive(FiberState::Active);
                self.note(id, change);
                self.mark_dirty();
                ActivationEnd { result: Ok(()), dispose: None, withdrawn: None }
            },
        }
    }
}

} // verus!
