//! What views see of services and configuration.

use crate::diagnostics;
use crate::effect;
use crate::effect::ScopeModel;
use crate::error::CoreError;
use crate::fiber::FiberModel;
use crate::injection::InjectionModel;
use crate::provider;
use crate::provider::{ProviderAvailability, ProviderRecord, Slot};
use crate::registry::provide;
use crate::registry::provide::Offer;
use crate::registry::snapshot;
use crate::registry::views;
use crate::registry::{GroupModel, RegistryModel};
use crate::service;
use crate::service::{ErasedService, ServiceId};
use crate::view;
use crate::view::{ConfigBinding, IsolationBinding, Layer};
use std::any::TypeId;
use vstd::prelude::*;

verus! {

/// A provider in this slot can matter to this view of this service.
pub open spec fn looks_at(layers: Seq<Layer>, service: Seq<char>, slot: Slot) -> bool {
    match view::nearest_isolation(layers, service) {
        Some(isolation) => slot == (Slot::Isolated { isolation, service }),
        None => exists|i: int|
            0 <= i < layers.len() && slot == (Slot::Local {
                domain: (#[trigger] layers[i]).domain,
                service,
            }),
    }
}

/// What an offer is answered: an owner that is gone, a name that is settled for another
/// type, and a slot that is taken are told so, in this order; otherwise the offer is taken.
pub proof fn law_offers_are_answered(
    registry: RegistryModel,
    scopes: Map<u64, ScopeModel>,
    layers: Seq<Layer>,
    offer: Offer,
    owner: u64,
)
    ensures
        registry.provide_outcome(scopes, layers, offer, owner).0 == (if effect::scope_disposed(
            scopes,
            owner,
        ) {
            Err::<u64, CoreError>(CoreError::ContextDisposed)
        } else if registry.service_types.contains_key(offer.service@)
            && registry.service_types[offer.service@] != offer.tag {
            Err(CoreError::ServiceKeyTypeConflict { service: offer.service })
        } else if exists|id: u64|
            provider::occupies(
                registry.providers,
                id,
                provider::slot_for(layers, offer.service@),
            ) {
            Err(CoreError::ServiceConflict { service: offer.service })
        } else {
            Ok(registry.next_id)
        }),
{
}

/// As long as a provider holds the slot in which a view looks a service up first, the view
/// resolves the service to it while it can serve, and to nothing while it cannot.
pub proof fn law_slot_holder_resolves(
    registry: RegistryModel,
    layers: Seq<Layer>,
    service: Seq<char>,
    id: u64,
)
    requires
        registry.ok(),
        layers.len() > 0,
        provider::occupies(registry.providers, id, provider::slot_for(layers, service)),
    ensures
        registry.resolve(layers, service) == (if provider::ready(
            registry.fibers,
            registry.providers[id],
        ) {
            Some(id)
        } else {
            None
        }),
{
    provider::lemma_holder(registry.providers, id, provider::slot_for(layers, service));
}

/// A service that was provided is what the providing view then resolves the name to, with
/// the type and the object that were provided, as soon as the provider is available and
/// the plugin that provides it, if any, is active.
pub proof fn law_provided_service_resolves(
    registry: RegistryModel,
    scopes: Map<u64, ScopeModel>,
    layers: Seq<Layer>,
    offer: Offer,
    owner: u64,
)
    requires
        registry.ok(),
        layers.len() > 0,
        !effect::scope_disposed(scopes, owner),
        provide::type_admitted(registry.service_types, offer.service@, offer.tag),
        provider::holder(registry.providers, provider::slot_for(layers, offer.service@)) is None,
    ensures
        ({
            let id = registry.next_id;
            let outcome = registry.provide_outcome(scopes, layers, offer, owner);
            let serves = offer.availability is Ready && (offer.fiber matches Some(fiber)
                ==> provider::fiber_active(registry.fibers, fiber));
            &&& outcome.0 == Ok::<u64, CoreError>(id)
            &&& provider::occupies(
                outcome.1.providers,
                id,
                provider::slot_for(layers, offer.service@),
            )
            &&& outcome.1.resolve(layers, offer.service@) == (if serves {
                Some(id)
            } else {
                None
            })
            &&& serves ==> outcome.1.service_object(layers, offer.service@) == Some(
                ErasedService { tag: offer.tag, value: offer.value },
            )
            &&& serves ==> service::typed(
                outcome.1.service_object(layers, offer.service@),
                offer.service,
                offer.tag,
            ) == Ok::<u64, CoreError>(offer.value)
        }),
{
    let id = registry.next_id;
    let slot = provider::slot_for(layers, offer.service@);
    let after = registry.provided(id, layers, offer, owner);
    assert(!registry.providers.dom().contains(id));
    lemma_inserted_holder(registry.providers, id, provide::record_for(layers, offer, owner));
    assert(after.providers[id].key@ == slot);
    assert(provider::occupies(after.providers, id, slot));
    assert(provider::holder(after.providers, slot) == Some(id));
    assert(provider::visible(after.providers, layers, offer.service@) == Some(id));
}

/// Who holds a slot after a provider joined.
proof fn lemma_inserted_holder(
    providers: Map<u64, ProviderRecord>,
    id: u64,
    record: ProviderRecord,
)
    requires
        provider::slots_unique(providers),
        !providers.contains_key(id),
        provider::holder(providers, record.key@) is None,
    ensures
        provider::holder(providers.insert(id, record), record.key@) == Some(id),
        forall|slot: Slot|
            slot != record.key@ ==> #[trigger] provider::holder(
                providers.insert(id, record),
                slot,
            ) == provider::holder(providers, slot),
{
    let after = providers.insert(id, record);
    assert(provider::occupies(after, id, record.key@));
    assert forall|a: u64| provider::occupies(after, a, record.key@) implies a == id by {
        if a != id {
            assert(provider::occupies(providers, a, record.key@));
        }
    }
    assert forall|slot: Slot| slot != record.key@ implies #[trigger] provider::holder(after, slot)
        == provider::holder(providers, slot) by {
        assert forall|a: u64|
            provider::occupies(after, a, slot) == provider::occupies(providers, a, slot) by {}
        if exists|a: u64| provider::occupies(providers, a, slot) {
            let a = choose|a: u64| provider::occupies(providers, a, slot);
            let b = choose|b: u64| provider::occupies(after, b, slot);
            assert(provider::occupies(after, a, slot));
            assert(provider::occupies(providers, b, slot));
            assert(providers[a].key@ == providers[b].key@);
        }
    }
}

/// The same slots are held: the same is seen.
proof fn lemma_local_holder_same(
    before: Map<u64, ProviderRecord>,
    after: Map<u64, ProviderRecord>,
    layers: Seq<Layer>,
    service: Seq<char>,
)
    requires
        forall|i: int|
            0 <= i < layers.len() ==> provider::holder(
                after,
                Slot::Local { domain: (#[trigger] layers[i]).domain, service },
            ) == provider::holder(before, Slot::Local { domain: layers[i].domain, service }),
    ensures
        provider::local_holder(after, layers, service) == provider::local_holder(
            before,
            layers,
            service,
        ),
    decreases layers.len(),
{
    if layers.len() > 0 {
        let front = layers.drop_last();
        assert(layers[layers.len() - 1] == layers.last());
        assert forall|i: int| 0 <= i < front.len() implies provider::holder(
            after,
            Slot::Local { domain: (#[trigger] front[i]).domain, service },
        ) == provider::holder(before, Slot::Local { domain: front[i].domain, service }) by {
            assert(front[i] == layers[i]);
        }
        lemma_local_holder_same(before, after, front, service);
    }
}

/// Who is visible is among the providers.
pub proof fn lemma_visible_known(
    providers: Map<u64, ProviderRecord>,
    layers: Seq<Layer>,
    service: Seq<char>,
)
    ensures
        provider::local_holder(providers, layers, service) matches Some(id)
            ==> providers.contains_key(id),
        provider::visible(providers, layers, service) matches Some(id) ==> providers.contains_key(
            id,
        ),
    decreases layers.len(),
{
    if layers.len() > 0 {
        lemma_visible_known(providers, layers.drop_last(), service);
    }
}

/// A new provider is seen by no view that does not look at its slot: views of other
/// services, views behind another label, and views that do not derive from its domain
/// resolve as before.
pub proof fn law_provide_leaves_other_views(
    registry: RegistryModel,
    layers: Seq<Layer>,
    offer: Offer,
    owner: u64,
    other: Seq<Layer>,
    service: Seq<char>,
)
    requires
        registry.ok(),
        layers.len() > 0,
        provider::holder(registry.providers, provider::slot_for(layers, offer.service@)) is None,
        !looks_at(other, service, provider::slot_for(layers, offer.service@)),
    ensures
        registry.provided(registry.next_id, layers, offer, owner).resolve(other, service)
            == registry.resolve(other, service),
        registry.provided(registry.next_id, layers, offer, owner).service_object(other, service)
            == registry.service_object(other, service),
{
    let id = registry.next_id;
    let record = provide::record_for(layers, offer, owner);
    let after = registry.provided(id, layers, offer, owner);
    assert(!registry.providers.dom().contains(id));
    assert(record.key@ == provider::slot_for(layers, offer.service@));
    lemma_inserted_holder(registry.providers, id, record);
    lemma_visible_known(registry.providers, other, service);
    match view::nearest_isolation(other, service) {
        Some(isolation) => {
            assert(record.key@ != (Slot::Isolated { isolation, service }));
        },
        None => {
            assert forall|i: int| 0 <= i < other.len() implies provider::holder(
                after.providers,
                Slot::Local { domain: (#[trigger] other[i]).domain, service },
            ) == provider::holder(
                registry.providers,
                Slot::Local { domain: other[i].domain, service },
            ) by {
                assert(record.key@ != (Slot::Local { domain: other[i].domain, service }));
            }
            lemma_local_holder_same(registry.providers, after.providers, other, service);
        },
    }
}

/// Withdrawing a provider undoes its registration: every view resolves every service as it
/// did before, in particular to a provider further out that was covered.
pub proof fn law_withdrawal_undoes_provide(
    registry: RegistryModel,
    layers: Seq<Layer>,
    offer: Offer,
    owner: u64,
    other: Seq<Layer>,
    service: Seq<char>,
)
    requires
        registry.ok(),
    ensures
        ({
            let id = registry.next_id;
            let after = registry.provided(id, layers, offer, owner).without_provider(id);
            &&& after.providers == registry.providers
            &&& after.resolve(other, service) == registry.resolve(other, service)
            &&& after.service_object(other, service) == registry.service_object(other, service)
        }),
{
    let id = registry.next_id;
    assert(!registry.providers.dom().contains(id));
    let after = registry.provided(id, layers, offer, owner).without_provider(id);
    assert(after.providers =~= registry.providers);
}

/// The nearest provider covers those further out, also while it cannot serve.
pub proof fn law_nearest_provider_shadows(
    registry: RegistryModel,
    layers: Seq<Layer>,
    service: Seq<char>,
    id: u64,
)
    requires
        registry.ok(),
        layers.len() > 0,
        view::nearest_isolation(layers, service) is None,
        provider::occupies(
            registry.providers,
            id,
            Slot::Local { domain: layers.last().domain, service },
        ),
    ensures
        registry.resolve(layers, service) == (if provider::ready(
            registry.fibers,
            registry.providers[id],
        ) {
            Some(id)
        } else {
            None
        }),
{
    provider::lemma_holder(
        registry.providers,
        id,
        Slot::Local { domain: layers.last().domain, service },
    );
}

/// A view that opens a new domain sees what its parent sees as long as nothing is provided
/// in that domain.
pub proof fn law_extended_view_inherits(
    registry: RegistryModel,
    layers: Seq<Layer>,
    id: u64,
    service: Seq<char>,
    config: Seq<char>,
)
    requires
        provider::holder(registry.providers, Slot::Local { domain: id, service }) is None,
    ensures
        registry.resolve(view::extended(layers, id), service) == registry.resolve(layers, service),
        view::nearest_config(view::extended(layers, id), config) == view::nearest_config(
            layers,
            config,
        ),
{
    let derived = view::extended(layers, id);
    assert(derived.drop_last() =~= layers);
    assert(view::nearest_isolation(derived, service) == view::nearest_isolation(layers, service));
}

/// A layer in the same domain does not change where local services are found.
proof fn lemma_same_domain(
    providers: Map<u64, ProviderRecord>,
    layers: Seq<Layer>,
    layer: Layer,
    service: Seq<char>,
)
    requires
        layers.len() > 0,
        layer.domain == layers.last().domain,
    ensures
        provider::local_holder(providers, layers.push(layer), service) == provider::local_holder(
            providers,
            layers,
            service,
        ),
{
    assert(layers.push(layer).drop_last() =~= layers);
}

/// An isolated service is found under its label only; all other services are found as
/// before, and configuration is unchanged.
pub proof fn law_isolation_hides_one_service(
    registry: RegistryModel,
    layers: Seq<Layer>,
    id: u64,
    binding: IsolationBinding,
    service: Seq<char>,
    config: Seq<char>,
)
    requires
        layers.len() > 0,
    ensures
        ({
            let derived = view::isolated(layers, id, binding);
            &&& service == binding.service@ ==> registry.resolve(derived, service) == (
            match provider::holder(
                registry.providers,
                Slot::Isolated { isolation: binding.label, service },
            ) {
                Some(held) if provider::ready(registry.fibers, registry.providers[held]) => Some(
                    held,
                ),
                _ => None,
            })
            &&& service != binding.service@ ==> registry.resolve(derived, service)
                == registry.resolve(layers, service)
            &&& view::nearest_config(derived, config) == view::nearest_config(layers, config)
        }),
{
    let derived = view::isolated(layers, id, binding);
    assert(derived.drop_last() =~= layers);
    if service != binding.service@ {
        lemma_same_domain(registry.providers, layers, derived.last(), service);
    }
}

/// Each isolation that asks for a new label gets one that no other has.
pub proof fn law_new_labels_differ(registry: RegistryModel)
    requires
        registry.ok(),
        registry.next_label < u64::MAX,
    ensures
        !registry.isolations.contains(registry.next_label),
        registry.labelled().next_label > registry.next_label,
        registry.labelled().isolations.contains(registry.next_label),
{
    let labels = registry.labelled().isolations;
    assert(labels[labels.len() - 1] == registry.next_label);
}

/// Views that look a service up under the same label see the same provider.
pub proof fn law_shared_label_shares(
    registry: RegistryModel,
    one: Seq<Layer>,
    two: Seq<Layer>,
    service: Seq<char>,
)
    requires
        view::nearest_isolation(one, service) is Some,
        view::nearest_isolation(one, service) == view::nearest_isolation(two, service),
    ensures
        registry.resolve(one, service) == registry.resolve(two, service),
        registry.service_object(one, service) == registry.service_object(two, service),
{
}

/// A configuration override is seen in the derived view, where it covers the one further
/// out. Other entries and all services are seen as before.
pub proof fn law_intercept_overrides_one_entry(
    registry: RegistryModel,
    layers: Seq<Layer>,
    id: u64,
    binding: ConfigBinding,
    service: Seq<char>,
    config: Seq<char>,
)
    requires
        layers.len() > 0,
        provide::type_admitted(registry.config_types, binding.config@, binding.tag),
    ensures
        ({
            let derived = view::intercepted(layers, id, binding);
            let types = provide::type_locked(registry.config_types, binding.config@, binding.tag);
            &&& views::config_value(types, derived, binding.config, binding.tag) == Ok::<
                u64,
                CoreError,
            >(binding.value)
            &&& config != binding.config@ ==> view::nearest_config(derived, config)
                == view::nearest_config(layers, config)
            &&& registry.resolve(derived, service) == registry.resolve(layers, service)
            &&& provider::slot_for(derived, service) == provider::slot_for(layers, service)
        }),
{
    let derived = view::intercepted(layers, id, binding);
    assert(derived.drop_last() =~= layers);
    lemma_same_domain(registry.providers, layers, derived.last(), service);
    assert(view::nearest_isolation(derived, service) == view::nearest_isolation(layers, service));
}

/// The type of a service name is settled by its first provider and stays settled when that
/// provider is withdrawn: an offer with another type is refused from then on.
pub proof fn law_service_type_stays(
    registry: RegistryModel,
    scopes: Map<u64, ScopeModel>,
    layers: Seq<Layer>,
    offer: Offer,
    owner: u64,
    later_scopes: Map<u64, ScopeModel>,
    later_layers: Seq<Layer>,
    later: Offer,
    later_owner: u64,
)
    requires
        registry.ok(),
        registry.provide_outcome(scopes, layers, offer, owner).0 is Ok,
        later.service@ == offer.service@,
        later.tag != offer.tag,
        !effect::scope_disposed(later_scopes, later_owner),
    ensures
        ({
            let after = registry.provide_outcome(scopes, layers, offer, owner).1;
            let gone = after.without_provider(registry.next_id);
            &&& after.provide_outcome(later_scopes, later_layers, later, later_owner).0 == Err::<
                u64,
                CoreError,
            >(CoreError::ServiceKeyTypeConflict { service: later.service })
            &&& gone.provide_outcome(later_scopes, later_layers, later, later_owner).0 == Err::<
                u64,
                CoreError,
            >(CoreError::ServiceKeyTypeConflict { service: later.service })
        }),
{
}

/// No attempt to provide changes a type that is settled.
pub proof fn law_settled_types_never_change(
    registry: RegistryModel,
    scopes: Map<u64, ScopeModel>,
    layers: Seq<Layer>,
    offer: Offer,
    owner: u64,
    name: Seq<char>,
    tag: TypeId,
)
    requires
        registry.service_types.contains_key(name),
        registry.service_types[name] == tag,
    ensures
        ({
            let after = registry.provide_outcome(scopes, layers, offer, owner).1;
            after.service_types.contains_key(name) && after.service_types[name] == tag
        }),
{
}

/// A refused offer leaves the providers and the scopes alone: every view resolves every
/// service as before.
pub proof fn law_refused_offer_changes_no_provider(
    registry: RegistryModel,
    scopes: Map<u64, ScopeModel>,
    layers: Seq<Layer>,
    offer: Offer,
    owner: u64,
    other: Seq<Layer>,
    service: Seq<char>,
)
    requires
        registry.provide_outcome(scopes, layers, offer, owner).0 is Err,
    ensures
        registry.provide_outcome(scopes, layers, offer, owner).1.providers == registry.providers,
        registry.provide_outcome(scopes, layers, offer, owner).2 == scopes,
        registry.provide_outcome(scopes, layers, offer, owner).1.resolve(other, service)
            == registry.resolve(other, service),
        registry.provide_outcome(scopes, layers, offer, owner).1.service_object(other, service)
            == registry.service_object(other, service),
{
}

/// A check that makes a provider available or unavailable gives it another revision and
/// asks the scheduler for a round. One that does not leaves both alone.
pub proof fn law_availability_changes_revision(
    registry: RegistryModel,
    id: u64,
    availability: ProviderAvailability,
)
    requires
        registry.providers.contains_key(id),
    ensures
        ({
            let after = registry.refreshed(id, availability);
            let flips = registry.providers[id].availability is Ready != availability is Ready;
            &&& after.providers[id].availability == availability
            &&& flips ==> after.dirty && after.epoch != registry.epoch && provider::revision_of(
                after.providers,
                id,
            ) != provider::revision_of(registry.providers, id)
            &&& !flips ==> after.dirty == registry.dirty && after.epoch == registry.epoch
                && provider::revision_of(after.providers, id) == provider::revision_of(
                registry.providers,
                id,
            )
        }),
{
}

/// The layers differ in the configuration payloads at most.
pub open spec fn same_but_config(a: Seq<Layer>, b: Seq<Layer>) -> bool {
    &&& a.len() == b.len()
    &&& forall|i: int|
        0 <= i < a.len() ==> {
            &&& (#[trigger] a[i]).id == b[i].id
            &&& a[i].domain == b[i].domain
            &&& a[i].isolation == b[i].isolation
            &&& match (a[i].config, b[i].config) {
                (Some(x), Some(y)) => x.config == y.config && x.tag == y.tag,
                (None, None) => true,
                _ => false,
            }
        }
}

/// The registries differ in the service objects and the configuration payloads at most.
pub open spec fn same_but_payloads(a: RegistryModel, b: RegistryModel) -> bool {
    &&& a == (RegistryModel {
        providers: a.providers,
        injections: a.injections,
        fibers: a.fibers,
        ..b
    })
    &&& a.providers.dom() == b.providers.dom()
    &&& a.injections.dom() == b.injections.dom()
    &&& a.fibers.dom() == b.fibers.dom()
    &&& forall|id: u64| #[trigger]
        a.providers.contains_key(id) ==> a.providers[id] == (ProviderRecord {
            value: a.providers[id].value,
            ..b.providers[id]
        })
    &&& forall|id: u64| #[trigger]
        a.injections.contains_key(id) ==> a.injections[id] == (InjectionModel {
            layers: a.injections[id].layers,
            ..b.injections[id]
        }) && same_but_config(a.injections[id].layers, b.injections[id].layers)
    &&& forall|id: u64| #[trigger]
        a.fibers.contains_key(id) ==> a.fibers[id] == (FiberModel {
            layers: a.fibers[id].layers,
            ..b.fibers[id]
        }) && same_but_config(a.fibers[id].layers, b.fibers[id].layers)
}

proof fn lemma_same_lookup(
    a: RegistryModel,
    b: RegistryModel,
    x: Seq<Layer>,
    y: Seq<Layer>,
    service: Seq<char>,
)
    requires
        a.ok(),
        b.ok(),
        same_but_payloads(a, b),
        same_but_config(x, y),
    ensures
        view::nearest_isolation(x, service) == view::nearest_isolation(y, service),
        forall|slot: Slot| #[trigger]
            provider::holder(a.providers, slot) == provider::holder(b.providers, slot),
        provider::local_holder(a.providers, x, service) == provider::local_holder(
            b.providers,
            y,
            service,
        ),
    decreases x.len(),
{
    assert forall|slot: Slot| #[trigger] provider::holder(a.providers, slot) == provider::holder(
        b.providers,
        slot,
    ) by {
        assert forall|id: u64|
            provider::occupies(a.providers, id, slot) == provider::occupies(
                b.providers,
                id,
                slot,
            ) by {
            if a.providers.dom().contains(id) {
                assert(a.providers.contains_key(id));
            }
        }
        if exists|id: u64| provider::occupies(a.providers, id, slot) {
            let id = choose|id: u64| provider::occupies(a.providers, id, slot);
            assert(provider::occupies(b.providers, id, slot));
            provider::lemma_holder(a.providers, id, slot);
            provider::lemma_holder(b.providers, id, slot);
        }
    }
    if x.len() > 0 {
        let front_x = x.drop_last();
        let front_y = y.drop_last();
        assert forall|i: int| 0 <= i < front_x.len() implies {
            &&& (#[trigger] front_x[i]).id == front_y[i].id
            &&& front_x[i].domain == front_y[i].domain
            &&& front_x[i].isolation == front_y[i].isolation
            &&& match (front_x[i].config, front_y[i].config) {
                (Some(p), Some(q)) => p.config == q.config && p.tag == q.tag,
                (None, None) => true,
                _ => false,
            }
        } by {
            assert(front_x[i] == x[i] && front_y[i] == y[i]);
        }
        lemma_same_lookup(a, b, front_x, front_y, service);
        assert(x[x.len() - 1] == x.last() && y[y.len() - 1] == y.last());
    }
}

proof fn lemma_same_visible(
    a: RegistryModel,
    b: RegistryModel,
    x: Seq<Layer>,
    y: Seq<Layer>,
    service: Seq<char>,
)
    requires
        a.ok(),
        b.ok(),
        same_but_payloads(a, b),
        same_but_config(x, y),
    ensures
        provider::visible(a.providers, x, service) == provider::visible(
            b.providers,
            y,
            service,
        ),
        provider::visible(a.providers, x, service) matches Some(id) ==> provider::ready(
            a.fibers,
            a.providers[id],
        ) == provider::ready(b.fibers, b.providers[id]) && diagnostics::reason_of(
            a.providers[id],
        ) == diagnostics::reason_of(b.providers[id]),
        a.resolve(x, service) == b.resolve(y, service),
{
    lemma_same_lookup(a, b, x, y, service);
    lemma_visible_known(a.providers, x, service);
    if let Some(id) = provider::visible(a.providers, x, service) {
        assert(a.providers.contains_key(id));
        if let Some(fiber) = a.providers[id].fiber {
            assert(a.fibers.dom().contains(fiber) == b.fibers.dom().contains(fiber));
            if a.fibers.contains_key(fiber) {
                assert(a.fibers[fiber].state == b.fibers[fiber].state);
            }
        }
    }
}

proof fn lemma_same_reports(
    a: RegistryModel,
    b: RegistryModel,
    x: Seq<Layer>,
    y: Seq<Layer>,
    services: Seq<ServiceId>,
)
    requires
        a.ok(),
        b.ok(),
        same_but_payloads(a, b),
        same_but_config(x, y),
    ensures
        provider::unresolved(a.providers, a.fibers, x, services) == provider::unresolved(
            b.providers,
            b.fibers,
            y,
            services,
        ),
        diagnostics::unavailable(a.providers, a.fibers, x, services) == diagnostics::unavailable(
            b.providers,
            b.fibers,
            y,
            services,
        ),
    decreases services.len(),
{
    reveal(Seq::filter);
    if services.len() > 0 {
        lemma_same_reports(a, b, x, y, services.drop_last());
        lemma_same_visible(a, b, x, y, services.last()@);
    }
}

proof fn lemma_same_rows(a: RegistryModel, b: RegistryModel, ids: Seq<u64>)
    requires
        same_but_payloads(a, b),
    ensures
        snapshot::group_rows(a.fibers, ids) == snapshot::group_rows(b.fibers, ids),
    decreases ids.len(),
{
    if ids.len() > 0 {
        lemma_same_rows(a, b, ids.drop_last());
        assert(a.fibers.dom().contains(ids.last()) == b.fibers.dom().contains(ids.last()));
        if a.fibers.contains_key(ids.last()) {
            assert(a.fibers[ids.last()].state == b.fibers[ids.last()].state);
        }
    }
}

/// Diagnostics do not depend on payloads: what they show is the same whatever service objects
/// are provided and whatever configuration is put in.
pub proof fn law_diagnostics_hide_payloads(
    a: RegistryModel,
    b: RegistryModel,
    scopes: Map<u64, ScopeModel>,
    id: u64,
)
    requires
        a.ok(),
        b.ok(),
        same_but_payloads(a, b),
    ensures
        a.providers.contains_key(id) ==> a.provider_view(id) == b.provider_view(id),
        a.injections.contains_key(id) ==> a.inject_view(id) == b.inject_view(id),
        a.fibers.contains_key(id) ==> a.fiber_view(id) == b.fiber_view(id),
        a.group_views() == b.group_views(),
        a.effect_view(scopes, id) == b.effect_view(scopes, id),
        a.isolations == b.isolations,
{
    if a.injections.contains_key(id) {
        lemma_same_reports(
            a,
            b,
            a.injections[id].layers,
            b.injections[id].layers,
            a.injections[id].dependencies,
        );
    }
    if a.fibers.contains_key(id) {
        lemma_same_reports(
            a,
            b,
            a.fibers[id].layers,
            b.fibers[id].layers,
            a.fibers[id].dependencies,
        );
    }
    if a.providers.contains_key(id) {
        if let Some(fiber) = a.providers[id].fiber {
            assert(a.fibers.dom().contains(fiber) == b.fibers.dom().contains(fiber));
            if a.fibers.contains_key(fiber) {
                assert(a.fibers[fiber].state == b.fibers[fiber].state);
            }
        }
    }
    assert forall|group: GroupModel| #[trigger] a.group_view(group) == b.group_view(group) by {
        lemma_same_rows(a, b, group.fibers);
    }
    assert(a.group_views() =~= b.group_views());
}

} // verus!
