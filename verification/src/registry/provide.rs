//! Registration, refresh and withdrawal of providers.

use super::{Registry, RegistryModel};
use crate::effect;
use crate::effect::{Cleanup, EffectTree, ScopeModel};
use crate::error::CoreError;
use crate::provider;
use crate::provider::{
    find_slot, resolve_provider, ProviderAvailability, ProviderKey, ProviderRecord, Slot,
};
use crate::service::{ErasedService, ServiceId};
use crate::tag::same_tag;
use crate::view;
use crate::view::{lookup_isolation, Layer};
use std::any::TypeId;
use vstd::prelude::*;

verus! {

/// The name `service` is free or bound to the type `tag`.
pub open spec fn type_admitted(
    types: Map<Seq<char>, TypeId>,
    name: Seq<char>,
    tag: TypeId,
) -> bool {
    types.contains_key(name) ==> types[name] == tag
}

/// The bindings after `name` was used with the type `tag`: the first use decides.
pub open spec fn type_locked(
    types: Map<Seq<char>, TypeId>,
    name: Seq<char>,
    tag: TypeId,
) -> Map<Seq<char>, TypeId> {
    if types.contains_key(name) {
        types
    } else {
        types.insert(name, tag)
    }
}

/// What is registered as a provider.
pub struct Offer {
    pub service: ServiceId,
    pub tag: TypeId,
    pub value: u64,
    pub availability: ProviderAvailability,
    /// The offer comes with an availability check.
    pub checked: bool,
    /// The plugin fiber that provides, if any.
    pub fiber: Option<u64>,
}

/// The place for an offer from a view, as a [`ProviderKey`].
pub open spec fn key_for(layers: Seq<Layer>, service: ServiceId) -> ProviderKey {
    match view::nearest_isolation(layers, service@) {
        Some(isolation) => ProviderKey::Isolated { isolation, service },
        None => ProviderKey::Local { domain: layers.last().domain, service },
    }
}

/// The record of an accepted offer.
pub open spec fn record_for(layers: Seq<Layer>, offer: Offer, owner: u64) -> ProviderRecord {
    ProviderRecord {
        key: key_for(layers, offer.service),
        availability_revision: 0,
        availability: offer.availability,
        checked: offer.checked,
        tag: offer.tag,
        value: offer.value,
        effect_id: Some(owner),
        depth: (layers.len() - 1) as usize,
        isolation: view::nearest_isolation(layers, offer.service@),
        fiber: offer.fiber,
    }
}

impl RegistryModel {
    /// The registry after an offer was accepted as provider `id`.
    pub open spec fn provided(
        self,
        id: u64,
        layers: Seq<Layer>,
        offer: Offer,
        owner: u64,
    ) -> RegistryModel {
        RegistryModel {
            next_id: (id + 1) as u64,
            service_types: type_locked(self.service_types, offer.service@, offer.tag),
            providers: self.providers.insert(id, record_for(layers, offer, owner)),
            ..self
        }.marked()
    }

    /// What an offer from a view gives: the identifier of the provider or the refusal,
    /// and registry and scopes afterwards.
    pub open spec fn provide_outcome(
        self,
        scopes: Map<u64, ScopeModel>,
        layers: Seq<Layer>,
        offer: Offer,
        owner: u64,
    ) -> (Result<u64, CoreError>, RegistryModel, Map<u64, ScopeModel>) {
        let id = self.next_id;
        if effect::scope_disposed(scopes, owner) {
            (Err(CoreError::ContextDisposed), self, scopes)
        } else if !type_admitted(self.service_types, offer.service@, offer.tag) {
            (
                Err(CoreError::ServiceKeyTypeConflict { service: offer.service }),
                RegistryModel { next_id: (id + 1) as u64, ..self },
                scopes,
            )
        } else if provider::holder(
            self.providers,
            provider::slot_for(layers, offer.service@),
        ) is Some {
            (
                Err(CoreError::ServiceConflict { service: offer.service }),
                RegistryModel {
                    next_id: (id + 1) as u64,
                    service_types: type_locked(self.service_types, offer.service@, offer.tag),
                    ..self
                },
                scopes,
            )
        } else {
            (
                Ok(id),
                self.provided(id, layers, offer, owner),
                effect::cleanup_added(scopes, owner, Cleanup::Provider(id)),
            )
        }
    }

    /// The registry after provider `id` was withdrawn.
    pub open spec fn without_provider(self, id: u64) -> RegistryModel {
        if self.providers.contains_key(id) {
            RegistryModel { providers: self.providers.remove(id), ..self }.marked()
        } else {
            self
        }
    }

    /// The registry after a check of provider `id` gave `availability`: the revision
    /// moves on with every change of readiness.
    pub open spec fn refreshed(self, id: u64, availability: ProviderAvailability) -> RegistryModel {
        let record = self.providers[id];
        if record.availability is Ready == availability is Ready {
            RegistryModel {
                providers: self.providers.insert(id, ProviderRecord { availability, ..record }),
                ..self
            }
        } else {
            RegistryModel {
                providers: self.providers.insert(
                    id,
                    ProviderRecord {
                        availability,
                        availability_revision: record.availability_revision.wrapping_add(1),
                        ..record
                    },
                ),
                ..self
            }.marked()
        }
    }
}

impl RegistryModel {
    /// What the result of an availability check of provider `id` gives. A check that
    /// failed leaves the provider unavailable with the failure as the reason.
    pub open spec fn refresh_ended(
        self,
        id: u64,
        service: ServiceId,
        checked: Result<ProviderAvailability, String>,
        after: RegistryModel,
        r: Result<(), CoreError>,
    ) -> bool {
        if !self.providers.contains_key(id) || !self.providers[id].checked {
            &&& r == Err::<(), CoreError>(CoreError::ProviderDisposed { service })
            &&& after == self
        } else {
            match checked {
                Ok(availability) => {
                    &&& r is Ok
                    &&& after == self.refreshed(id, availability)
                },
                Err(message) => {
                    &&& r == Err::<(), CoreError>(CoreError::ProviderCheck(message))
                    &&& exists|reason: String|
                        reason@ == CoreError::ProviderCheck(message).message_text() && after
                            == #[trigger] self.refreshed(
                            id,
                            ProviderAvailability::Unavailable { reason },
                        )
                },
            }
        }
    }
}

impl Registry {
    /// Binds a service name to a type, unless it is bound to another one.
    fn lock_service_type(&mut self, service: ServiceId, tag: TypeId) -> (r: Result<(), CoreError>)
        requires
            old(self).wf(),
        ensures
            final(self).wf(),
            if type_admitted(old(self)@.service_types, service@, tag) {
                &&& r is Ok
                &&& final(self)@ == (RegistryModel {
                    service_types: type_locked(old(self)@.service_types, service@, tag),
                    ..old(self)@
                })
            } else {
                &&& r == Err::<(), CoreError>(CoreError::ServiceKeyTypeConflict { service })
                &&& final(self)@ == old(self)@
            },
    {
        match self.service_types.get(service.as_str()) {
            Some(bound) => if same_tag(bound, tag) {
                Ok(())
            } else {
                Err(CoreError::ServiceKeyTypeConflict { service })
            },
            None => {
                self.service_types.bind(service.as_str(), tag);
                Ok(())
            },
        }
    }

    /// Registers a provider from a view. It takes the place that the view gives the
    /// service and is withdrawn with the scope `owner`.
    pub fn provide(
        &mut self,
        scopes: &mut EffectTree,
        layers: &Vec<Layer>,
        offer: Offer,
        owner: u64,
    ) -> (r: Result<u64, CoreError>)
        requires
            old(self).wf(),
            old(scopes).wf(),
            old(self)@.next_id < u64::MAX,
            layers@.len() > 0,
        ensures
            final(self).wf(),
            final(scopes).wf(),
            final(scopes).next_id() == old(scopes).next_id(),
            (r, final(self)@, final(scopes)@) == old(self)@.provide_outcome(
                old(scopes)@,
                layers@,
                offer,
                owner,
            ),
    {
        if scopes.is_disposed(owner) {
            return Err(CoreError::ContextDisposed);
        }
        let ghost before = self@;
        let service = offer.service;
        let id = self.allocate_id();
        match self.lock_service_type(service, offer.tag) {
            Err(error) => {
                return Err(error);
            },
            Ok(()) => {},
        }
        let isolation = lookup_isolation(layers, service);
        let key = match isolation {
            Some(label) => ProviderKey::Isolated { isolation: label, service },
            None => ProviderKey::Local { domain: layers[layers.len() - 1].domain, service },
        };
        assert(key == key_for(layers@, service));
        assert(key@ == provider::slot_for(layers@, service@));
        if find_slot(&self.providers, &key).is_some() {
            return Err(CoreError::ServiceConflict { service });
        }
        let ghost record = record_for(layers@, offer, owner);
        let ghost providers = self.providers@;
        self.providers.append(
            id,
            ProviderRecord {
                key,
                availability_revision: 0,
                availability: offer.availability,
                checked: offer.checked,
                tag: offer.tag,
                value: offer.value,
                effect_id: Some(owner),
                depth: layers.len() - 1,
                isolation,
                fiber: offer.fiber,
            },
        );
        proof {
            lemma_insert_unique(providers, id, record);
        }
        scopes.on_dispose(owner, Cleanup::Provider(id));
        self.mark_dirty();
        assert(self@ =~= before.provided(id, layers@, offer, owner));
        Ok(id)
    }

    /// Withdraws a provider.
    pub fn remove_provider(&mut self, id: u64) -> (removed: bool)
        requires
            old(self).wf(),
        ensures
            final(self).wf(),
            removed == old(self)@.providers.contains_key(id),
            final(self)@ == old(self)@.without_provider(id),
    {
        let ghost before = self@;
        match self.providers.remove(id) {
            Some(_) => {
                assert(provider::slots_unique(self.providers@));
                self.mark_dirty();
                assert(self@ =~= before.without_provider(id));
                true
            },
            None => false,
        }
    }

    /// Whether a provider has an availability check that can be run.
    pub fn checked_provider(&self, id: u64, service: ServiceId) -> (r: Result<(), CoreError>)
        requires
            self.wf(),
        ensures
            r == (if self@.providers.contains_key(id) && self@.providers[id].checked {
                Ok(())
            } else {
                Err(CoreError::ProviderDisposed { service })
            }),
    {
        match self.providers.get(id) {
            Some(record) => if record.checked {
                Ok(())
            } else {
                Err(CoreError::ProviderDisposed { service })
            },
            None => Err(CoreError::ProviderDisposed { service }),
        }
    }

    /// Takes over the result of an availability check. A check that failed leaves the
    /// provider unavailable with the failure as the reason.
    pub fn refresh_checked_provider(
        &mut self,
        id: u64,
        service: ServiceId,
        checked: Result<ProviderAvailability, String>,
    ) -> (r: Result<(), CoreError>)
        requires
            old(self).wf(),
        ensures
            final(self).wf(),
            old(self)@.refresh_ended(id, service, checked, final(self)@, r),
    {
        let ghost before = self@;
        match self.checked_provider(id, service) {
            Err(error) => {
                return Err(error);
            },
            Ok(()) => {},
        }
        let (availability, result) = match checked {
            Ok(availability) => (availability, Ok(())),
            Err(message) => {
                let error = CoreError::ProviderCheck(message);
                (ProviderAvailability::Unavailable { reason: error.message() }, Err(error))
            },
        };
        let ghost target = availability;
        let mut flipped = false;
        match self.providers.get_mut(id) {
            Some(record) => {
                flipped = record.availability.is_ready() != availability.is_ready();
                record.availability = availability;
                if flipped {
                    record.availability_revision = record.availability_revision.wrapping_add(1);
                }
            },
            None => {
                return Err(CoreError::ProviderDisposed { service });
            },
        }
        proof {
            assert forall|a: u64, b: u64|
                #![trigger self.providers@[a], self.providers@[b]]
                self.providers@.contains_key(a) && self.providers@.contains_key(b)
                    && self.providers@[a].key@ == self.providers@[b].key@ implies a == b by {
                assert(before.providers[a].key@ == before.providers[b].key@);
            }
        }
        if flipped {
            self.mark_dirty();
        }
        assert(self@ =~= before.refreshed(id, target));
        result
    }

    /// The service object of the usable provider that a view sees.
    pub fn resolve(&self, layers: &Vec<Layer>, service: ServiceId) -> (r: Option<ErasedService>)
        requires
            self.wf(),
        ensures
            r == self@.service_object(layers@, service@),
    {
        match resolve_provider(&self.providers, &self.fibers, layers, service) {
            Some(id) => match self.providers.get(id) {
                Some(record) => Some(ErasedService { tag: record.tag, value: record.value }),
                None => None,
            },
            None => None,
        }
    }
}

impl RegistryModel {
    /// The service object of the usable provider that a view sees.
    pub open spec fn service_object(self, layers: Seq<Layer>, service: Seq<char>) -> Option<
        ErasedService,
    > {
        match self.resolve(layers, service) {
            Some(id) => Some(
                ErasedService { tag: self.providers[id].tag, value: self.providers[id].value },
            ),
            None => None,
        }
    }
}

proof fn lemma_insert_unique(
    providers: Map<u64, ProviderRecord>,
    id: u64,
    record: ProviderRecord,
)
    requires
        provider::slots_unique(providers),
        !providers.contains_key(id),
        provider::holder(providers, record.key@) is None,
    ensures
        provider::slots_unique(providers.insert(id, record)),
{
    let after = providers.insert(id, record);
    assert forall|a: u64, b: u64|
        #![trigger after[a], after[b]]
        after.contains_key(a) && after.contains_key(b) && after[a].key@
            == after[b].key@ implies a == b by {
        if a != b {
            if a == id {
                assert(provider::occupies(providers, b, record.key@));
            } else if b == id {
                assert(provider::occupies(providers, a, record.key@));
            } else {
                assert(providers[a].key@ == providers[b].key@);
            }
        }
    }
}

} // verus!
