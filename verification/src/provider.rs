//! Providers of services, and how a view resolves a service.

use crate::fiber::{FiberModel, FiberRecord, FiberState, ProviderRevision};
use crate::service::ServiceId;
use crate::table::Table;
use crate::view;
use crate::view::{lookup_isolation, Layer};
use std::any::TypeId;
use vstd::prelude::*;

verus! {

/// Whether a registered provider can be used.
#[derive(Debug, Clone)]
pub enum ProviderAvailability {
    Ready,
    Unavailable { reason: String },
}

impl ProviderAvailability {
    pub fn is_ready(&self) -> (r: bool)
        ensures
            r == (*self is Ready),
    {
        match self {
            ProviderAvailability::Ready => true,
            ProviderAvailability::Unavailable { .. } => false,
        }
    }
}

/// The place that a provider occupies; at most one provider per place.
#[derive(Clone, Copy)]
pub enum ProviderKey {
    /// In a service domain.
    Local { domain: u64, service: ServiceId },
    /// Under an isolation label.
    Isolated { isolation: u64, service: ServiceId },
}

/// What a [`ProviderKey`] stands for.
pub enum Slot {
    Local { domain: u64, service: Seq<char> },
    Isolated { isolation: u64, service: Seq<char> },
}

impl View for ProviderKey {
    type V = Slot;

    open spec fn view(&self) -> Slot {
        match *self {
            ProviderKey::Local { domain, service } => Slot::Local { domain, service: service@ },
            ProviderKey::Isolated { isolation, service } => Slot::Isolated {
                isolation,
                service: service@,
            },
        }
    }
}

impl ProviderKey {
    fn same(&self, other: &ProviderKey) -> (r: bool)
        ensures
            r == (self@ == other@),
    {
        match (*self, *other) {
            (
                ProviderKey::Local { domain, service },
                ProviderKey::Local { domain: domain2, service: service2 },
            ) => domain == domain2 && service.same(service2),
            (
                ProviderKey::Isolated { isolation, service },
                ProviderKey::Isolated { isolation: isolation2, service: service2 },
            ) => isolation == isolation2 && service.same(service2),
            _ => false,
        }
    }

    pub open spec fn service_spec(self) -> ServiceId {
        match self {
            ProviderKey::Local { service, .. } => service,
            ProviderKey::Isolated { service, .. } => service,
        }
    }

    pub fn service(&self) -> (r: ServiceId)
        ensures
            r == self.service_spec(),
    {
        match *self {
            ProviderKey::Local { service, .. } => service,
            ProviderKey::Isolated { service, .. } => service,
        }
    }
}

/// A registered provider. The service object stays with the host under `value`.
pub struct ProviderRecord {
    pub key: ProviderKey,
    pub availability_revision: u64,
    pub availability: ProviderAvailability,
    /// The provider came with an availability check.
    pub checked: bool,
    pub tag: TypeId,
    pub value: u64,
    /// The scope whose disposal withdraws the provider.
    pub effect_id: Option<u64>,
    /// The number of layers below the providing view.
    pub depth: usize,
    pub isolation: Option<u64>,
    /// The plugin fiber that provides, if any.
    pub fiber: Option<u64>,
}

/// The models of all fibers.
pub open spec fn fiber_models(fibers: Map<u64, FiberRecord>) -> Map<u64, FiberModel> {
    fibers.map_values(|fiber: FiberRecord| fiber@)
}

/// Provider `id` occupies `slot`.
pub open spec fn occupies(providers: Map<u64, ProviderRecord>, id: u64, slot: Slot) -> bool {
    providers.contains_key(id) && providers[id].key@ == slot
}

/// No two providers share a place.
pub open spec fn slots_unique(providers: Map<u64, ProviderRecord>) -> bool {
    forall|a: u64, b: u64|
        #![trigger providers[a], providers[b]]
        providers.contains_key(a) && providers.contains_key(b) && providers[a].key@
            == providers[b].key@ ==> a == b
}

/// The provider in a place.
pub open spec fn holder(providers: Map<u64, ProviderRecord>, slot: Slot) -> Option<u64> {
    if exists|id: u64| occupies(providers, id, slot) {
        Some(choose|id: u64| occupies(providers, id, slot))
    } else {
        None
    }
}

/// The provider of `service` in the innermost domain of `layers` that has one.
pub open spec fn local_holder(
    providers: Map<u64, ProviderRecord>,
    layers: Seq<Layer>,
    service: Seq<char>,
) -> Option<u64>
    decreases layers.len(),
{
    if layers.len() == 0 {
        None
    } else {
        match holder(providers, Slot::Local { domain: layers.last().domain, service }) {
            Some(id) => Some(id),
            None => local_holder(providers, layers.drop_last(), service),
        }
    }
}

/// The provider of `service` that a view sees: under a label if the view isolates the
/// service, without any fallback; otherwise by domain from the inside out.
pub open spec fn visible(
    providers: Map<u64, ProviderRecord>,
    layers: Seq<Layer>,
    service: Seq<char>,
) -> Option<u64> {
    match view::nearest_isolation(layers, service) {
        Some(isolation) => holder(providers, Slot::Isolated { isolation, service }),
        None => local_holder(providers, layers, service),
    }
}

/// The place that a provider of `service` takes when it is registered from a view.
pub open spec fn slot_for(layers: Seq<Layer>, service: Seq<char>) -> Slot {
    match view::nearest_isolation(layers, service) {
        Some(isolation) => Slot::Isolated { isolation, service },
        None => Slot::Local { domain: layers.last().domain, service },
    }
}

/// The plugin fiber is known and active.
pub open spec fn fiber_active(fibers: Map<u64, FiberModel>, id: u64) -> bool {
    fibers.contains_key(id) && fibers[id].state is Active
}

/// The provider can be used: it says so itself, and the plugin that registered it, if
/// any, is active.
pub open spec fn ready(fibers: Map<u64, FiberModel>, provider: ProviderRecord) -> bool {
    provider.availability is Ready && (provider.fiber matches Some(fiber) ==> fiber_active(
        fibers,
        fiber,
    ))
}

/// The usable provider of `service` that a view sees. An unusable provider hides those
/// further out.
pub open spec fn resolved(
    providers: Map<u64, ProviderRecord>,
    fibers: Map<u64, FiberModel>,
    layers: Seq<Layer>,
    service: Seq<char>,
) -> Option<u64> {
    match visible(providers, layers, service) {
        Some(id) if ready(fibers, providers[id]) => Some(id),
        _ => None,
    }
}

/// The version of a provider.
pub open spec fn revision_of(providers: Map<u64, ProviderRecord>, id: u64) -> ProviderRevision {
    ProviderRevision { id, availability_revision: providers[id].availability_revision }
}

/// The versions of the usable providers of `services`, in order; services without one
/// are left out.
pub open spec fn revisions(
    providers: Map<u64, ProviderRecord>,
    fibers: Map<u64, FiberModel>,
    layers: Seq<Layer>,
    services: Seq<ServiceId>,
) -> Seq<ProviderRevision>
    decreases services.len(),
{
    if services.len() == 0 {
        Seq::empty()
    } else {
        let front = revisions(providers, fibers, layers, services.drop_last());
        match resolved(providers, fibers, layers, services.last()@) {
            Some(id) => front.push(revision_of(providers, id)),
            None => front,
        }
    }
}

/// Every one of `services` has a usable provider.
pub open spec fn all_resolved(
    providers: Map<u64, ProviderRecord>,
    fibers: Map<u64, FiberModel>,
    layers: Seq<Layer>,
    services: Seq<ServiceId>,
) -> bool {
    forall|i: int|
        0 <= i < services.len() ==> resolved(
            providers,
            fibers,
            layers,
            (#[trigger] services[i])@,
        ) is Some
}

/// As many versions as services means that every service has a usable provider.
pub proof fn lemma_revisions_len(
    providers: Map<u64, ProviderRecord>,
    fibers: Map<u64, FiberModel>,
    layers: Seq<Layer>,
    services: Seq<ServiceId>,
)
    ensures
        revisions(providers, fibers, layers, services).len() <= services.len(),
        revisions(providers, fibers, layers, services).len() == services.len() <==> all_resolved(
            providers,
            fibers,
            layers,
            services,
        ),
    decreases services.len(),
{
    if services.len() > 0 {
        let front = services.drop_last();
        lemma_revisions_len(providers, fibers, layers, front);
        let last = resolved(providers, fibers, layers, services.last()@);
        if revisions(providers, fibers, layers, services).len() == services.len() {
            assert forall|i: int| 0 <= i < services.len() implies resolved(
                providers,
                fibers,
                layers,
                (#[trigger] services[i])@,
            ) is Some by {
                if i < front.len() {
                    assert(front[i] == services[i]);
                }
            }
        }
        if all_resolved(providers, fibers, layers, services) {
            assert forall|i: int| 0 <= i < front.len() implies resolved(
                providers,
                fibers,
                layers,
                (#[trigger] front[i])@,
            ) is Some by {
                assert(front[i] == services[i]);
            }
            assert(services[services.len() - 1] == services.last());
        }
    }
}

/// With unique places, the provider of a place is the one that occupies it.
pub proof fn lemma_holder(providers: Map<u64, ProviderRecord>, id: u64, slot: Slot)
    requires
        slots_unique(providers),
        occupies(providers, id, slot),
    ensures
        holder(providers, slot) == Some(id),
{
    let other = choose|other: u64| occupies(providers, other, slot);
    assert(occupies(providers, other, slot));
    assert(providers[id].key@ == providers[other].key@);
}

/// The provider in a place.
pub(crate) fn find_slot(providers: &Table<ProviderRecord>, key: &ProviderKey) -> (r: Option<u64>)
    requires
        providers.wf(),
        slots_unique(providers@),
    ensures
        r == holder(providers@, key@),
        r matches Some(id) ==> occupies(providers@, id, key@),
{
    let mut i: usize = 0;
    while i < providers.len()
        invariant
            providers.wf(),
            slots_unique(providers@),
            i <= providers.keys().len(),
            forall|j: int|
                0 <= j < i ==> !occupies(providers@, #[trigger] providers.keys()[j], key@),
        decreases providers.keys().len() - i,
    {
        let id: u64 = providers.key_at(i);
        if providers.value_at(i).key.same(key) {
            proof {
                lemma_holder(providers@, id, key@);
            }
            return Some(id);
        }
        i += 1;
    }
    proof {
        providers.lemma_keys();
        if exists|id: u64| occupies(providers@, id, key@) {
            let id = choose|id: u64| occupies(providers@, id, key@);
            let j = choose|j: int| 0 <= j < providers.keys().len() && providers.keys()[j] == id;
            assert(!occupies(providers@, providers.keys()[j], key@));
        }
    }
    None
}

/// The provider of `service` that a view sees, usable or not.
pub fn visible_provider(
    providers: &Table<ProviderRecord>,
    layers: &Vec<Layer>,
    service: ServiceId,
) -> (r: Option<u64>)
    requires
        providers.wf(),
        slots_unique(providers@),
    ensures
        r == visible(providers@, layers@, service@),
        r matches Some(id) ==> providers@.contains_key(id),
{
    if let Some(isolation) = lookup_isolation(layers, service) {
        return find_slot(providers, &ProviderKey::Isolated { isolation, service });
    }
    let mut i: usize = layers.len();
    assert(layers@.take(i as int) =~= layers@);
    while i > 0
        invariant
            providers.wf(),
            slots_unique(providers@),
            i <= layers@.len(),
            view::nearest_isolation(layers@, service@) is None,
            local_holder(providers@, layers@, service@) == local_holder(
                providers@,
                layers@.take(i as int),
                service@,
            ),
        decreases i,
    {
        i -= 1;
        assert(layers@.take(i + 1).drop_last() =~= layers@.take(i as int));
        assert(layers@.take(i + 1).last() == layers@[i as int]);
        let found = find_slot(
            providers,
            &ProviderKey::Local { domain: layers[i].domain, service },
        );
        if found.is_some() {
            return found;
        }
    }
    None
}

/// Whether a provider can be used.
pub(crate) fn is_ready(fibers: &Table<FiberRecord>, provider: &ProviderRecord) -> (r: bool)
    requires
        fibers.wf(),
    ensures
        r == ready(fiber_models(fibers@), *provider),
{
    if !provider.availability.is_ready() {
        return false;
    }
    match provider.fiber {
        None => true,
        Some(id) => is_fiber_active(fibers, id),
    }
}

/// Whether a plugin fiber is known and active.
pub(crate) fn is_fiber_active(fibers: &Table<FiberRecord>, id: u64) -> (r: bool)
    requires
        fibers.wf(),
    ensures
        r == fiber_active(fiber_models(fibers@), id),
{
    match fibers.get(id) {
        Some(fiber) => {
            assert(fiber_models(fibers@)[id] == fiber@);
            fiber.state == FiberState::Active
        },
        None => {
            assert(!fiber_models(fibers@).contains_key(id));
            false
        },
    }
}

/// The usable provider of `service` that a view sees.
pub fn resolve_provider(
    providers: &Table<ProviderRecord>,
    fibers: &Table<FiberRecord>,
    layers: &Vec<Layer>,
    service: ServiceId,
) -> (r: Option<u64>)
    requires
        providers.wf(),
        fibers.wf(),
        slots_unique(providers@),
    ensures
        r == resolved(providers@, fiber_models(fibers@), layers@, service@),
        r matches Some(id) ==> providers@.contains_key(id),
{
    match visible_provider(providers, layers, service) {
        Some(id) => match providers.get(id) {
            Some(provider) => if is_ready(fibers, provider) {
                Some(id)
            } else {
                None
            },
            None => None,
        },
        None => None,
    }
}

/// The versions of the usable providers of `services`.
pub fn provider_ids(
    providers: &Table<ProviderRecord>,
    fibers: &Table<FiberRecord>,
    layers: &Vec<Layer>,
    services: &Vec<ServiceId>,
) -> (r: Vec<ProviderRevision>)
    requires
        providers.wf(),
        fibers.wf(),
        slots_unique(providers@),
    ensures
        r@ == revisions(providers@, fiber_models(fibers@), layers@, services@),
{
    let mut out: Vec<ProviderRevision> = Vec::new();
    let mut i: usize = 0;
    while i < services.len()
        invariant
            providers.wf(),
            fibers.wf(),
            slots_unique(providers@),
            i <= services@.len(),
            out@ == revisions(
                providers@,
                fiber_models(fibers@),
                layers@,
                services@.take(i as int),
            ),
        decreases services@.len() - i,
    {
        assert(services@.take(i + 1).drop_last() =~= services@.take(i as int));
        assert(services@.take(i + 1).last() == services@[i as int]);
        if let Some(id) = resolve_provider(providers, fibers, layers, services[i]) {
            if let Some(provider) = providers.get(id) {
                out.push(
                    ProviderRevision { id, availability_revision: provider.availability_revision },
                );
            }
        }
        i += 1;
    }
    assert(services@.take(i as int) =~= services@);
    out
}

/// The services without a usable provider, in order.
pub open spec fn unresolved(
    providers: Map<u64, ProviderRecord>,
    fibers: Map<u64, FiberModel>,
    layers: Seq<Layer>,
    services: Seq<ServiceId>,
) -> Seq<ServiceId> {
    services.filter(
        |service: ServiceId| resolved(providers, fibers, layers, service@) is None,
    )
}

/// The services without a usable provider, in order.
pub fn missing_services(
    providers: &Table<ProviderRecord>,
    fibers: &Table<FiberRecord>,
    layers: &Vec<Layer>,
    services: &Vec<ServiceId>,
) -> (r: Vec<ServiceId>)
    requires
        providers.wf(),
        fibers.wf(),
        slots_unique(providers@),
    ensures
        r@ == unresolved(providers@, fiber_models(fibers@), layers@, services@),
{
    let mut out: Vec<ServiceId> = Vec::new();
    let mut i: usize = 0;
    while i < services.len()
        invariant
            providers.wf(),
            fibers.wf(),
            slots_unique(providers@),
            i <= services@.len(),
            out@ == unresolved(
                providers@,
                fiber_models(fibers@),
                layers@,
                services@.take(i as int),
            ),
        decreases services@.len() - i,
    {
        proof {
            assert(services@.take(i + 1).drop_last() =~= services@.take(i as int));
            assert(services@.take(i + 1).last() == services@[i as int]);
            reveal(Seq::filter);
        }
        if resolve_provider(providers, fibers, layers, services[i]).is_none() {
            out.push(services[i]);
        }
        i += 1;
    }
    assert(services@.take(i as int) =~= services@);
    out
}

} // verus!
