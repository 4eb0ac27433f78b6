//! Read-only snapshots of a runtime.
//!
//! Snapshots carry identifiers, states and labels; service and configuration payloads
//! never appear in them.

use crate::fiber::{FiberModel, FiberRecord, FiberState};
use crate::injection::InjectionPhase;
use crate::plugin::PluginKey;
use crate::provider;
use crate::provider::{visible_provider, ProviderAvailability, ProviderRecord};
use crate::service::ServiceId;
use crate::table::Table;
use crate::view::Layer;
use vstd::prelude::*;

verus! {

/// A runtime at one moment.
#[derive(Debug, Clone)]
pub struct RuntimeSnapshot {
    pub isolations: Vec<IsolationSnapshot>,
    pub providers: Vec<ProviderSnapshot>,
    pub plugin_fibers: Vec<PluginFiberSnapshot>,
    pub plugin_registry: Vec<PluginRegistrySnapshot>,
    pub inject_fibers: Vec<InjectFiberSnapshot>,
    pub effects: Vec<EffectSnapshot>,
}

/// An isolation label in use.
#[derive(Debug, Clone, Copy)]
pub struct IsolationSnapshot {
    pub id: u64,
}

/// A registered provider.
#[derive(Debug, Clone)]
pub struct ProviderSnapshot {
    pub context_depth: usize,
    pub isolation: Option<u64>,
    pub service: &'static str,
    pub provider_id: u64,
    pub effect_id: Option<u64>,
    /// The availability that counts for consumers: that of the provider and of the
    /// plugin that registered it.
    pub availability: ProviderAvailability,
}

/// A declared dependency with a provider that cannot be used at present.
#[derive(Debug, Clone)]
pub struct UnavailableDependencySnapshot {
    pub service: &'static str,
    pub reason: String,
}

/// The state of a fiber.
#[derive(Debug, Clone, Copy, PartialEq, Eq, Structural)]
pub enum FiberStateSnapshot {
    Pending,
    Loading,
    Active,
    Failed,
    Unloading,
    Disposed,
}

/// An injection.
#[derive(Debug, Clone)]
pub struct InjectFiberSnapshot {
    pub id: u64,
    pub context_depth: usize,
    pub phase: FiberStateSnapshot,
    pub dependencies: Vec<&'static str>,
    pub missing_dependencies: Vec<&'static str>,
    pub unavailable_dependencies: Vec<UnavailableDependencySnapshot>,
    pub last_error: Option<String>,
}

/// A plugin fiber.
#[derive(Debug, Clone)]
pub struct PluginFiberSnapshot {
    pub id: u64,
    pub plugin_key: &'static str,
    pub context_depth: usize,
    pub state: FiberStateSnapshot,
    pub dependencies: Vec<&'static str>,
    pub missing_dependencies: Vec<&'static str>,
    pub unavailable_dependencies: Vec<UnavailableDependencySnapshot>,
    pub last_error: Option<String>,
    pub root_effect: Option<u64>,
}

/// The fibers of one plugin.
#[derive(Debug, Clone)]
pub struct PluginRegistrySnapshot {
    pub plugin_key: &'static str,
    pub unmounting: bool,
    pub fibers: Vec<PluginRegistryFiberSnapshot>,
}

/// A fiber in the group of its plugin.
#[derive(Debug, Clone, Copy)]
pub struct PluginRegistryFiberSnapshot {
    pub id: u64,
    pub state: FiberStateSnapshot,
}

/// An effect.
#[derive(Debug, Clone)]
pub struct EffectSnapshot {
    pub id: u64,
    pub name: String,
    pub parent: Option<u64>,
    pub context_depth: Option<usize>,
    pub fiber_id: Option<u64>,
    pub cancelled: bool,
    pub disposed: bool,
    pub child_count: usize,
    pub task_count: usize,
    pub cleanup_count: usize,
}

/// A change of state of a plugin fiber.
#[derive(Debug, Clone)]
pub struct FiberStateChange {
    pub fiber_id: u64,
    pub plugin_key: PluginKey,
    /// `None` for the first state.
    pub previous: Option<FiberState>,
    pub current: FiberState,
    /// The dependencies that are registered and cannot be used at this moment.
    pub unavailable_dependencies: Vec<UnavailableDependencySnapshot>,
}

impl FiberStateSnapshot {
    pub open spec fn of_state(state: FiberState) -> FiberStateSnapshot {
        match state {
            FiberState::Pending => FiberStateSnapshot::Pending,
            FiberState::Loading => FiberStateSnapshot::Loading,
            FiberState::Active => FiberStateSnapshot::Active,
            FiberState::Failed => FiberStateSnapshot::Failed,
            FiberState::Unloading => FiberStateSnapshot::Unloading,
            FiberState::Disposed => FiberStateSnapshot::Disposed,
        }
    }

    pub open spec fn of_phase(phase: InjectionPhase) -> FiberStateSnapshot {
        match phase {
            InjectionPhase::Pending => FiberStateSnapshot::Pending,
            InjectionPhase::Active => FiberStateSnapshot::Active,
            InjectionPhase::Failed => FiberStateSnapshot::Failed,
            InjectionPhase::Disposed => FiberStateSnapshot::Disposed,
        }
    }

    pub fn from_state(state: FiberState) -> (r: FiberStateSnapshot)
        ensures
            r == FiberStateSnapshot::of_state(state),
    {
        match state {
            FiberState::Pending => FiberStateSnapshot::Pending,
            FiberState::Loading => FiberStateSnapshot::Loading,
            FiberState::Active => FiberStateSnapshot::Active,
            FiberState::Failed => FiberStateSnapshot::Failed,
            FiberState::Unloading => FiberStateSnapshot::Unloading,
            FiberState::Disposed => FiberStateSnapshot::Disposed,
        }
    }

    pub fn from_phase(phase: InjectionPhase) -> (r: FiberStateSnapshot)
        ensures
            r == FiberStateSnapshot::of_phase(phase),
    {
        match phase {
            InjectionPhase::Pending => FiberStateSnapshot::Pending,
            InjectionPhase::Active => FiberStateSnapshot::Active,
            InjectionPhase::Failed => FiberStateSnapshot::Failed,
            InjectionPhase::Disposed => FiberStateSnapshot::Disposed,
        }
    }
}

/// What an [`UnavailableDependencySnapshot`] holds.
pub struct Unavailable {
    pub service: Seq<char>,
    pub reason: Seq<char>,
}

impl View for UnavailableDependencySnapshot {
    type V = Unavailable;

    open spec fn view(&self) -> Unavailable {
        Unavailable { service: self.service@, reason: self.reason@ }
    }
}

/// What a list of [`UnavailableDependencySnapshot`]s holds.
pub open spec fn unavailable_models(items: Seq<UnavailableDependencySnapshot>) -> Seq<Unavailable> {
    items.map_values(|item: UnavailableDependencySnapshot| item@)
}

/// Why a provider that is not ready cannot be used.
pub open spec fn reason_of(record: ProviderRecord) -> Seq<char> {
    match record.availability {
        ProviderAvailability::Unavailable { reason } => reason@,
        ProviderAvailability::Ready => "provider plugin is not active"@,
    }
}

/// The dependencies among `services` whose provider cannot be used, in order.
pub open spec fn unavailable(
    providers: Map<u64, ProviderRecord>,
    fibers: Map<u64, FiberModel>,
    layers: Seq<Layer>,
    services: Seq<ServiceId>,
) -> Seq<Unavailable>
    decreases services.len(),
{
    if services.len() == 0 {
        Seq::empty()
    } else {
        let front = unavailable(providers, fibers, layers, services.drop_last());
        match provider::visible(providers, layers, services.last()@) {
            Some(id) if !provider::ready(fibers, providers[id]) => front.push(
                Unavailable { service: services.last()@, reason: reason_of(providers[id]) },
            ),
            _ => front,
        }
    }
}

/// Why a provider that is not ready cannot be used.
pub(crate) fn unavailable_reason(record: &ProviderRecord) -> (r: String)
    ensures
        r@ == reason_of(*record),
{
    match &record.availability {
        ProviderAvailability::Unavailable { reason } => reason.clone(),
        ProviderAvailability::Ready => "provider plugin is not active".to_owned(),
    }
}

/// The dependencies among `services` whose provider cannot be used, in order.
pub fn unavailable_services(
    providers: &Table<ProviderRecord>,
    fibers: &Table<FiberRecord>,
    layers: &Vec<Layer>,
    services: &Vec<ServiceId>,
) -> (r: Vec<UnavailableDependencySnapshot>)
    requires
        providers.wf(),
        fibers.wf(),
        provider::slots_unique(providers@),
    ensures
        unavailable_models(r@) == unavailable(
            providers@,
            provider::fiber_models(fibers@),
            layers@,
            services@,
        ),
{
    let mut out: Vec<UnavailableDependencySnapshot> = Vec::new();
    let mut i: usize = 0;
    assert(unavailable_models(out@) =~= Seq::<Unavailable>::empty());
    while i < services.len()
        invariant
            providers.wf(),
            fibers.wf(),
            provider::slots_unique(providers@),
            i <= services@.len(),
            unavailable_models(out@) == unavailable(
                providers@,
                provider::fiber_models(fibers@),
                layers@,
                services@.take(i as int),
            ),
        decreases services@.len() - i,
    {
        assert(services@.take(i + 1).drop_last() =~= services@.take(i as int));
        assert(services@.take(i + 1).last() == services@[i as int]);
        if let Some(id) = visible_provider(providers, layers, services[i]) {
            if let Some(record) = providers.get(id) {
                if !provider::is_ready(fibers, record) {
                    let item = UnavailableDependencySnapshot {
                        service: services[i].as_str(),
                        reason: unavailable_reason(record),
                    };
                    let ghost before = out@;
                    out.push(item);
                    assert(unavailable_models(out@) =~= unavailable_models(before).push(item@));
                }
            }
        }
        i += 1;
    }
    assert(services@.take(i as int) =~= services@);
    out
}

} // verus!
