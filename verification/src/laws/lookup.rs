//! What a view finds, told by its layers one by one.

use crate::config::ConfigId;
use crate::diagnostics;
use crate::diagnostics::Unavailable;
use crate::effect::{Cleanup, ScopeModel};
use crate::error::CoreError;
use crate::fiber::FiberState;
use crate::laws::services;
use crate::provider;
use crate::provider::{ProviderAvailability, ProviderKey, ProviderRecord, Slot};
use crate::registry::provide::Offer;
use crate::registry::views;
use crate::registry::RegistryModel;
use crate::service;
use crate::service::{ErasedService, ServiceId};
use crate::view;
use crate::view::{ConfigBinding, IsolationBinding, Layer};
use std::any::TypeId;
use vstd::prelude::*;

verus! {

/// The layer hides the service behind a label.
pub open spec fn isolates(layer: Layer, service: Seq<char>) -> bool {
    layer.isolation is Some && layer.isolation->0.service@ == service
}

/// Provider `id` stands in this domain under this name.
pub open spec fn stands_in(
    registry: RegistryModel,
    id: u64,
    domain: u64,
    service: Seq<char>,
) -> bool {
    registry.providers.contains_key(id) && (registry.providers[id].key matches ProviderKey::Local {
        domain: held,
        service: name,
    } && held == domain && name@ == service)
}

/// Provider `id` stands behind this label under this name.
pub open spec fn stands_behind(
    registry: RegistryModel,
    id: u64,
    label: u64,
    service: Seq<char>,
) -> bool {
    registry.providers.contains_key(id) && (
    registry.providers[id].key matches ProviderKey::Isolated { isolation, service: name }
        && isolation == label && name@ == service)
}

/// Provider `id` says that it is available, and the plugin that registered it, if any, is known
/// and active.
pub open spec fn usable(registry: RegistryModel, id: u64) -> bool {
    registry.providers[id].availability is Ready && match registry.providers[id].fiber {
        Some(fiber) => registry.fibers.contains_key(fiber) && registry.fibers[fiber].state
            == FiberState::Active,
        None => true,
    }
}

/// The innermost layer that isolates the service gives the label.
pub proof fn law_innermost_isolation_counts(layers: Seq<Layer>, service: Seq<char>, i: int)
    requires
        0 <= i < layers.len(),
        isolates(layers[i], service),
        forall|j: int| i < j < layers.len() ==> !isolates(#[trigger] layers[j], service),
    ensures
        view::nearest_isolation(layers, service) == Some(layers[i].isolation->0.label),
    decreases layers.len(),
{
    if i < layers.len() - 1 {
        let front = layers.drop_last();
        assert(!isolates(layers[layers.len() - 1], service));
        assert forall|j: int| i < j < front.len() implies !isolates(
            #[trigger] front[j],
            service,
        ) by {
            assert(front[j] == layers[j]);
        }
        law_innermost_isolation_counts(front, service, i);
    }
}

/// A service that no layer isolates is looked up by position.
pub proof fn law_no_isolation_no_label(layers: Seq<Layer>, service: Seq<char>)
    requires
        forall|j: int| 0 <= j < layers.len() ==> !isolates(#[trigger] layers[j], service),
    ensures
        view::nearest_isolation(layers, service) is None,
    decreases layers.len(),
{
    if layers.len() > 0 {
        let front = layers.drop_last();
        assert(!isolates(layers[layers.len() - 1], service));
        assert forall|j: int| 0 <= j < front.len() implies !isolates(
            #[trigger] front[j],
            service,
        ) by {
            assert(front[j] == layers[j]);
        }
        law_no_isolation_no_label(front, service);
    }
}

/// A service that is isolated nowhere resolves to the provider in the innermost domain that has
/// one, however far out that is, if the provider can be used, and to nothing else.
pub proof fn law_innermost_provider_is_found(
    registry: RegistryModel,
    layers: Seq<Layer>,
    service: Seq<char>,
    i: int,
    id: u64,
)
    requires
        registry.ok(),
        0 <= i < layers.len(),
        forall|j: int| 0 <= j < layers.len() ==> !isolates(#[trigger] layers[j], service),
        stands_in(registry, id, layers[i].domain, service),
        forall|j: int, other: u64|
            #![trigger stands_in(registry, other, layers[j].domain, service)]
            i < j < layers.len() ==> !stands_in(registry, other, layers[j].domain, service),
    ensures
        provider::visible(registry.providers, layers, service) == Some(id),
        registry.resolve(layers, service) == (if usable(registry, id) {
            Some(id)
        } else {
            None
        }),
        registry.service_object(layers, service) == (if usable(registry, id) {
            Some(
                ErasedService {
                    tag: registry.providers[id].tag,
                    value: registry.providers[id].value,
                },
            )
        } else {
            None
        }),
{
    law_no_isolation_no_label(layers, service);
    lemma_innermost(registry, layers, service, i, id);
}

proof fn lemma_innermost(
    registry: RegistryModel,
    layers: Seq<Layer>,
    service: Seq<char>,
    i: int,
    id: u64,
)
    requires
        registry.ok(),
        0 <= i < layers.len(),
        stands_in(registry, id, layers[i].domain, service),
        forall|j: int, other: u64|
            #![trigger stands_in(registry, other, layers[j].domain, service)]
            i < j < layers.len() ==> !stands_in(registry, other, layers[j].domain, service),
    ensures
        provider::local_holder(registry.providers, layers, service) == Some(id),
    decreases layers.len(),
{
    let last = layers.len() - 1;
    let slot = Slot::Local { domain: layers[last].domain, service };
    if i == last {
        provider::lemma_holder(registry.providers, id, slot);
    } else {
        let front = layers.drop_last();
        assert forall|other: u64| !provider::occupies(registry.providers, other, slot) by {
            assert(!stands_in(registry, other, layers[last].domain, service));
        }
        assert forall|j: int, other: u64|
            #![trigger stands_in(registry, other, front[j].domain, service)]
            i < j < front.len() implies !stands_in(registry, other, front[j].domain, service) by {
            assert(front[j] == layers[j]);
            assert(!stands_in(registry, other, layers[j].domain, service));
        }
        lemma_innermost(registry, front, service, i, id);
    }
}

/// A service that is isolated nowhere and that no domain of the view has resolves to nothing.
pub proof fn law_missing_provider_is_not_found(
    registry: RegistryModel,
    layers: Seq<Layer>,
    service: Seq<char>,
)
    requires
        forall|j: int| 0 <= j < layers.len() ==> !isolates(#[trigger] layers[j], service),
        forall|j: int, other: u64|
            #![trigger stands_in(registry, other, layers[j].domain, service)]
            0 <= j < layers.len() ==> !stands_in(registry, other, layers[j].domain, service),
    ensures
        provider::visible(registry.providers, layers, service) is None,
        registry.resolve(layers, service) is None,
        registry.service_object(layers, service) is None,
    decreases layers.len(),
{
    law_no_isolation_no_label(layers, service);
    if layers.len() > 0 {
        let last = layers.len() - 1;
        let slot = Slot::Local { domain: layers[last].domain, service };
        let front = layers.drop_last();
        assert forall|other: u64| !provider::occupies(registry.providers, other, slot) by {
            assert(!stands_in(registry, other, layers[last].domain, service));
        }
        assert forall|j: int| 0 <= j < front.len() implies !isolates(
            #[trigger] front[j],
            service,
        ) by {
            assert(front[j] == layers[j]);
        }
        assert forall|j: int, other: u64|
            #![trigger stands_in(registry, other, front[j].domain, service)]
            0 <= j < front.len() implies !stands_in(registry, other, front[j].domain, service) by {
            assert(front[j] == layers[j]);
            assert(!stands_in(registry, other, layers[j].domain, service));
        }
        law_missing_provider_is_not_found(registry, front, service);
        law_no_isolation_no_label(front, service);
    }
}

/// A service that is isolated resolves to the provider behind the innermost label and to no
/// other, wherever that provider was registered.
pub proof fn law_isolated_provider_is_found(
    registry: RegistryModel,
    layers: Seq<Layer>,
    service: Seq<char>,
    i: int,
    id: u64,
)
    requires
        registry.ok(),
        0 <= i < layers.len(),
        isolates(layers[i], service),
        forall|j: int| i < j < layers.len() ==> !isolates(#[trigger] layers[j], service),
    ensures
        stands_behind(registry, id, layers[i].isolation->0.label, service) ==> provider::visible(
            registry.providers,
            layers,
            service,
        ) == Some(id) && registry.resolve(layers, service) == (if usable(registry, id) {
            Some(id)
        } else {
            None
        }),
        registry.resolve(layers, service) == Some(id) ==> stands_behind(
            registry,
            id,
            layers[i].isolation->0.label,
            service,
        ) && usable(registry, id),
{
    law_innermost_isolation_counts(layers, service, i);
    let isolation = layers[i].isolation->0.label;
    let slot = Slot::Isolated { isolation, service };
    if stands_behind(registry, id, isolation, service) {
        provider::lemma_holder(registry.providers, id, slot);
    }
    if registry.resolve(layers, service) == Some(id) {
        assert(provider::occupies(registry.providers, id, slot));
    }
}

/// The innermost layer that binds a configuration entry gives its value.
pub proof fn law_innermost_config_counts(layers: Seq<Layer>, config: Seq<char>, i: int)
    requires
        0 <= i < layers.len(),
        layers[i].config is Some,
        layers[i].config->0.config@ == config,
        forall|j: int|
            i < j < layers.len() ==> ((#[trigger] layers[j]).config is None
                || layers[j].config->0.config@ != config),
    ensures
        view::nearest_config(layers, config) == layers[i].config,
    decreases layers.len(),
{
    if i < layers.len() - 1 {
        let front = layers.drop_last();
        assert(layers[layers.len() - 1].config is None || layers[layers.len()
            - 1].config->0.config@ != config);
        assert forall|j: int| i < j < front.len() implies ((#[trigger] front[j]).config is None
            || front[j].config->0.config@ != config) by {
            assert(front[j] == layers[j]);
        }
        law_innermost_config_counts(front, config, i);
    }
}

/// An entry that no layer binds has no value.
pub proof fn law_unbound_config_is_not_found(layers: Seq<Layer>, config: Seq<char>)
    requires
        forall|j: int|
            0 <= j < layers.len() ==> ((#[trigger] layers[j]).config is None
                || layers[j].config->0.config@ != config),
    ensures
        view::nearest_config(layers, config) is None,
    decreases layers.len(),
{
    if layers.len() > 0 {
        let front = layers.drop_last();
        assert(layers[layers.len() - 1].config is None || layers[layers.len()
            - 1].config->0.config@ != config);
        assert forall|j: int| 0 <= j < front.len() implies ((#[trigger] front[j]).config is None
            || front[j].config->0.config@ != config) by {
            assert(front[j] == layers[j]);
        }
        law_unbound_config_is_not_found(front, config);
    }
}

/// Each way to derive a view adds one layer to it and keeps the others: a new domain, a label
/// for one service in the domain of the view, or a value for one entry in that domain.
pub proof fn law_derived_view_adds_one_layer(
    layers: Seq<Layer>,
    id: u64,
    isolation: IsolationBinding,
    config: ConfigBinding,
)
    requires
        layers.len() > 0,
    ensures
        view::extended(layers, id).drop_last() == layers,
        view::extended(layers, id).last() == (Layer {
            id,
            domain: id,
            isolation: None,
            config: None,
        }),
        view::isolated(layers, id, isolation).drop_last() == layers,
        view::isolated(layers, id, isolation).last() == (Layer {
            id,
            domain: layers[layers.len() - 1].domain,
            isolation: Some(isolation),
            config: None,
        }),
        view::intercepted(layers, id, config).drop_last() == layers,
        view::intercepted(layers, id, config).last() == (Layer {
            id,
            domain: layers[layers.len() - 1].domain,
            isolation: None,
            config: Some(config),
        }),
{
    assert(view::extended(layers, id).drop_last() =~= layers);
    assert(view::isolated(layers, id, isolation).drop_last() =~= layers);
    assert(view::intercepted(layers, id, config).drop_last() =~= layers);
}

/// A look-up with a type gives the object if it is of that type, and says otherwise what is
/// wrong.
pub proof fn law_typed_lookup(found: Option<ErasedService>, service: ServiceId, tag: TypeId)
    ensures
        service::typed(found, service, tag) is Ok <==> found is Some && found->0.tag == tag,
        service::typed(found, service, tag) matches Ok(value) ==> value == found->0.value,
        found is None ==> service::typed(found, service, tag) == Err::<u64, CoreError>(
            CoreError::ServiceUnavailable { service },
        ),
        found is Some && found->0.tag != tag ==> service::typed(found, service, tag) == Err::<
            u64,
            CoreError,
        >(CoreError::ServiceTypeMismatch { service }),
{
}

/// A consumer is built on the current versions of the providers of its dependencies, one for
/// each that resolves, in order.
pub proof fn law_versions_follow_the_dependencies(
    registry: RegistryModel,
    layers: Seq<Layer>,
    services: Seq<ServiceId>,
)
    ensures
        ({
            let found = services.filter(
                |name: ServiceId| registry.resolve(layers, name@) is Some,
            );
            let versions = registry.revisions(layers, services);
            &&& versions.len() == found.len()
            &&& forall|k: int|
                0 <= k < versions.len() ==> {
                    let id = (#[trigger] versions[k]).id;
                    &&& registry.resolve(layers, found[k]@) == Some(id)
                    &&& versions[k].availability_revision
                        == registry.providers[id].availability_revision
                }
        }),
        registry.satisfied(layers, services) <==> forall|k: int|
            0 <= k < services.len() ==> registry.resolve(layers, (#[trigger] services[k])@) is Some,
    decreases services.len(),
{
    reveal(Seq::filter);
    if services.len() > 0 {
        law_versions_follow_the_dependencies(registry, layers, services.drop_last());
    }
}

/// In particular, where all dependencies resolve, there is one version for each.
pub proof fn law_satisfied_consumer_has_all_versions(
    registry: RegistryModel,
    layers: Seq<Layer>,
    services: Seq<ServiceId>,
    k: int,
)
    requires
        forall|k: int|
            0 <= k < services.len() ==> registry.resolve(layers, (#[trigger] services[k])@) is Some,
        0 <= k < services.len(),
    ensures
        registry.revisions(layers, services).len() == services.len(),
        registry.resolve(layers, services[k]@) == Some(
            registry.revisions(layers, services)[k].id,
        ),
        registry.revisions(layers, services)[k].availability_revision
            == registry.providers[registry.revisions(layers, services)[k].id].availability_revision,
    decreases services.len(),
{
    let front = services.drop_last();
    assert forall|j: int| 0 <= j < front.len() implies registry.resolve(
        layers,
        (#[trigger] front[j])@,
    ) is Some by {
        assert(front[j] == services[j]);
    }
    assert(registry.resolve(layers, services[services.len() - 1]@) is Some);
    if front.len() > 0 {
        if k < front.len() {
            law_satisfied_consumer_has_all_versions(registry, layers, front, k);
        } else {
            law_satisfied_consumer_has_all_versions(registry, layers, front, 0);
        }
    }
}

/// The dependencies that are reported as missing are exactly those that do not resolve, in
/// order.
pub proof fn law_missing_dependencies_do_not_resolve(
    registry: RegistryModel,
    layers: Seq<Layer>,
    services: Seq<ServiceId>,
)
    ensures
        provider::unresolved(registry.providers, registry.fibers, layers, services)
            == services.filter(|name: ServiceId| registry.resolve(layers, name@) is None),
    decreases services.len(),
{
    reveal(Seq::filter);
    if services.len() > 0 {
        law_missing_dependencies_do_not_resolve(registry, layers, services.drop_last());
    }
}

/// The dependencies that are reported as unavailable are exactly those whose nearest provider
/// cannot be used, in order, with what the provider says, or else that its plugin is not
/// active.
pub proof fn law_unavailable_dependencies_are_seen_and_not_usable(
    registry: RegistryModel,
    layers: Seq<Layer>,
    services: Seq<ServiceId>,
)
    ensures
        ({
            let seen = services.filter(|name: ServiceId| seen_unusable(registry, layers, name));
            let told = diagnostics::unavailable(
                registry.providers,
                registry.fibers,
                layers,
                services,
            );
            &&& told.len() == seen.len()
            &&& forall|k: int|
                0 <= k < told.len() ==> {
                    let id = provider::visible(registry.providers, layers, seen[k]@)->0;
                    &&& (#[trigger] told[k]).service == seen[k]@
                    &&& told[k].reason == (match registry.providers[id].availability {
                        ProviderAvailability::Unavailable { reason } => reason@,
                        ProviderAvailability::Ready => "provider plugin is not active"@,
                    })
                }
        }),
    decreases services.len(),
{
    reveal(Seq::filter);
    if services.len() > 0 {
        law_unavailable_dependencies_are_seen_and_not_usable(
            registry,
            layers,
            services.drop_last(),
        );
    }
}

/// The view sees a provider of the service that cannot be used.
pub open spec fn seen_unusable(
    registry: RegistryModel,
    layers: Seq<Layer>,
    name: ServiceId,
) -> bool {
    match provider::visible(registry.providers, layers, name@) {
        Some(id) => !usable(registry, id),
        None => false,
    }
}

/// A provider is recorded as it was offered, by the scope that owns it, on the view that offers
/// it: behind the innermost label if the service is isolated there, otherwise in the innermost
/// domain. The name is bound to the type, the scheduler is told, and all other providers stay.
pub proof fn law_provider_is_recorded_as_offered(
    registry: RegistryModel,
    scopes: Map<u64, ScopeModel>,
    layers: Seq<Layer>,
    offer: Offer,
    owner: u64,
)
    requires
        registry.provide_outcome(scopes, layers, offer, owner).0 is Ok,
        layers.len() > 0,
    ensures
        ({
            let id = registry.next_id;
            let outcome = registry.provide_outcome(scopes, layers, offer, owner);
            let made = outcome.1.providers[id];
            let label = view::nearest_isolation(layers, offer.service@);
            &&& outcome.0 == Ok::<u64, CoreError>(id)
            &&& outcome.1.providers.dom() == registry.providers.dom().insert(id)
            &&& forall|other: u64|
                other != id && #[trigger] registry.providers.contains_key(other)
                    ==> outcome.1.providers[other] == registry.providers[other]
            &&& made.tag == offer.tag
            &&& made.value == offer.value
            &&& made.availability == offer.availability
            &&& made.checked == offer.checked
            &&& made.fiber == offer.fiber
            &&& made.availability_revision == 0
            &&& made.effect_id == Some(owner)
            &&& made.depth == (layers.len() - 1) as usize
            &&& made.isolation == label
            &&& made.key == match label {
                Some(isolation) => ProviderKey::Isolated { isolation, service: offer.service },
                None => ProviderKey::Local {
                    domain: layers[layers.len() - 1].domain,
                    service: offer.service,
                },
            }
            &&& outcome.1.service_types[offer.service@] == offer.tag
            &&& outcome.1 == (RegistryModel {
                next_id: (id + 1) as u64,
                service_types: registry.service_types.insert(offer.service@, offer.tag),
                providers: outcome.1.providers,
                dirty: true,
                epoch: outcome.1.epoch,
                ..registry
            })
            &&& outcome.2 == scopes.insert(
                owner,
                ScopeModel {
                    cleanups: scopes[owner].cleanups.push(Cleanup::Provider(id)),
                    ..scopes[owner]
                },
            )
        }),
{
    let id = registry.next_id;
    let outcome = registry.provide_outcome(scopes, layers, offer, owner);
    assert(outcome.1.providers.dom() =~= registry.providers.dom().insert(id));
    if registry.service_types.contains_key(offer.service@) {
        assert(registry.service_types.insert(offer.service@, offer.tag)
            =~= registry.service_types);
    }
}

/// A check records what it found of the provider, and of nobody else. If the provider became
/// available or unavailable by it, it has another version and the scheduler is told.
pub proof fn law_check_is_recorded(
    registry: RegistryModel,
    id: u64,
    availability: ProviderAvailability,
)
    requires
        registry.providers.contains_key(id),
    ensures
        ({
            let after = registry.refreshed(id, availability);
            let held = registry.providers[id];
            let flips = held.availability is Ready != availability is Ready;
            &&& after.providers == registry.providers.insert(
                id,
                ProviderRecord {
                    availability,
                    availability_revision: if flips {
                        held.availability_revision.wrapping_add(1)
                    } else {
                        held.availability_revision
                    },
                    ..held
                },
            )
            &&& flips ==> after.dirty
            &&& !flips ==> after.dirty == registry.dirty && after.epoch == registry.epoch
            &&& after == (RegistryModel {
                providers: after.providers,
                dirty: after.dirty,
                epoch: after.epoch,
                ..registry
            })
        }),
{
}

/// A check that fails makes the provider unavailable, with the message of the failure as the
/// reason; the caller is told.
pub proof fn law_failed_check_makes_unavailable(
    registry: RegistryModel,
    id: u64,
    service: ServiceId,
    message: String,
    after: RegistryModel,
    r: Result<(), CoreError>,
)
    requires
        registry.providers.contains_key(id),
        registry.providers[id].checked,
        registry.refresh_ended(
            id,
            service,
            Err::<ProviderAvailability, String>(message),
            after,
            r,
        ),
    ensures
        r == Err::<(), CoreError>(CoreError::ProviderCheck(message)),
        after.providers[id].availability matches ProviderAvailability::Unavailable { reason }
            && reason@ == CoreError::ProviderCheck(message).message_text(),
        registry.providers[id].availability is Ready ==> after.dirty,
{
}

/// A check can be made while a checked provider is registered; its outcome is what it reports.
pub proof fn law_checks_need_a_checked_provider(
    registry: RegistryModel,
    id: u64,
    service: ServiceId,
    checked: Result<ProviderAvailability, String>,
    after: RegistryModel,
    r: Result<(), CoreError>,
)
    requires
        registry.refresh_ended(id, service, checked, after, r),
    ensures
        !registry.providers.contains_key(id) || !registry.providers[id].checked ==> after
            == registry && r == Err::<(), CoreError>(CoreError::ProviderDisposed { service }),
        registry.providers.contains_key(id) && registry.providers[id].checked ==> (checked is Ok
            <==> r is Ok),
        registry.providers.contains_key(id) && registry.providers[id].checked ==> (
        checked matches Ok(availability) ==> after.providers[id].availability == availability),
{
}

/// The value of a configuration entry is that of the innermost binding if its type is the one
/// that is asked for.
pub proof fn law_config_value_is_the_innermost(
    types: Map<Seq<char>, TypeId>,
    layers: Seq<Layer>,
    config: ConfigId,
    tag: TypeId,
    i: int,
)
    requires
        0 <= i < layers.len(),
        layers[i].config is Some,
        layers[i].config->0.config@ == config@,
        forall|j: int|
            i < j < layers.len() ==> ((#[trigger] layers[j]).config is None
                || layers[j].config->0.config@ != config@),
        layers[i].config->0.tag == tag,
        types.contains_key(config@) ==> types[config@] == tag,
    ensures
        views::config_value(types, layers, config, tag) == Ok::<u64, CoreError>(
            layers[i].config->0.value,
        ),
{
    law_innermost_config_counts(layers, config@, i);
}

/// A look-up of a configuration entry says what is wrong: another type is asked for than the
/// name is bound to or the value has, or no layer binds the entry.
pub proof fn law_config_lookup_is_refused_for_a_reason(
    types: Map<Seq<char>, TypeId>,
    layers: Seq<Layer>,
    config: ConfigId,
    tag: TypeId,
)
    ensures
        types.contains_key(config@) && types[config@] != tag ==> views::config_value(
            types,
            layers,
            config,
            tag,
        ) == Err::<u64, CoreError>(CoreError::ConfigTypeMismatch { config }),
        (!types.contains_key(config@) || types[config@] == tag) && (forall|j: int|
            0 <= j < layers.len() ==> ((#[trigger] layers[j]).config is None
                || layers[j].config->0.config@ != config@)) ==> views::config_value(
            types,
            layers,
            config,
            tag,
        ) == Err::<u64, CoreError>(CoreError::ConfigUnavailable { config }),
        views::config_value(types, layers, config, tag) matches Ok(value) ==> exists|i: int|
            0 <= i < layers.len() && (#[trigger] layers[i]).config is Some
                && layers[i].config->0.config@ == config@ && layers[i].config->0.value == value
                && layers[i].config->0.tag == tag,
{
    if forall|j: int|
        0 <= j < layers.len() ==> ((#[trigger] layers[j]).config is None
            || layers[j].config->0.config@ != config@) {
        law_unbound_config_is_not_found(layers, config@);
    }
    lemma_config_known(layers, config@);
}

proof fn lemma_config_known(layers: Seq<Layer>, config: Seq<char>)
    ensures
        view::nearest_config(layers, config) matches Some(binding) ==> exists|i: int|
            0 <= i < layers.len() && (#[trigger] layers[i]).config == Some(binding)
                && binding.config@ == config,
    decreases layers.len(),
{
    if layers.len() > 0 {
        let front = layers.drop_last();
        lemma_config_known(front, config);
        assert(layers[layers.len() - 1] == layers.last());
        if let Some(binding) = view::nearest_config(layers, config) {
            if exists|i: int|
                0 <= i < front.len() && (#[trigger] front[i]).config == Some(binding)
                    && binding.config@ == config {
                let i = choose|i: int|
                    0 <= i < front.len() && (#[trigger] front[i]).config == Some(binding)
                        && binding.config@ == config;
                assert(layers[i].config == Some(binding));
            }
        }
    }
}

} // verus!
