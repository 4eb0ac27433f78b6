//! Diagnostic snapshots.

use super::{EffectModel, GroupModel, PluginGroup, Registry, RegistryModel};
use crate::diagnostics;
use crate::diagnostics::{
    unavailable_reason, unavailable_services, EffectSnapshot, FiberStateSnapshot,
    InjectFiberSnapshot, IsolationSnapshot, PluginFiberSnapshot, PluginRegistryFiberSnapshot,
    PluginRegistrySnapshot, ProviderSnapshot, RuntimeSnapshot, Unavailable,
};
use crate::effect;
use crate::effect::{EffectTree, ScopeModel};
use crate::fiber;
use crate::fiber::{FiberModel, FiberRecord};
use crate::injection::InjectionModel;
use crate::provider;
use crate::provider::{missing_services, ProviderAvailability, ProviderRecord};
use crate::service::ServiceId;
use crate::text;
use crate::text::is_text_before;
use crate::view::Layer;
use vstd::prelude::*;

verus! {

/// What a [`ProviderSnapshot`] shows.
pub struct ProviderView {
    pub context_depth: usize,
    pub isolation: Option<u64>,
    pub service: Seq<char>,
    pub provider_id: u64,
    pub effect_id: Option<u64>,
    /// Why the provider cannot be used, or nothing.
    pub unavailable: Option<Seq<char>>,
}

impl View for ProviderSnapshot {
    type V = ProviderView;

    open spec fn view(&self) -> ProviderView {
        ProviderView {
            context_depth: self.context_depth,
            isolation: self.isolation,
            service: self.service@,
            provider_id: self.provider_id,
            effect_id: self.effect_id,
            unavailable: match self.availability {
                ProviderAvailability::Ready => None,
                ProviderAvailability::Unavailable { reason } => Some(reason@),
            },
        }
    }
}

/// What an [`InjectFiberSnapshot`] shows.
pub struct InjectView {
    pub id: u64,
    pub context_depth: usize,
    pub phase: FiberStateSnapshot,
    pub dependencies: Seq<Seq<char>>,
    pub missing: Seq<Seq<char>>,
    pub unavailable: Seq<Unavailable>,
    pub last_error: Option<Seq<char>>,
}

/// The characters of each label.
pub open spec fn label_texts(labels: Seq<&'static str>) -> Seq<Seq<char>> {
    labels.map_values(|label: &'static str| label@)
}

/// The names of services.
pub open spec fn service_texts(services: Seq<ServiceId>) -> Seq<Seq<char>> {
    services.map_values(|service: ServiceId| service@)
}

impl View for InjectFiberSnapshot {
    type V = InjectView;

    open spec fn view(&self) -> InjectView {
        InjectView {
            id: self.id,
            context_depth: self.context_depth,
            phase: self.phase,
            dependencies: label_texts(self.dependencies@),
            missing: label_texts(self.missing_dependencies@),
            unavailable: diagnostics::unavailable_models(self.unavailable_dependencies@),
            last_error: fiber::optional_text(self.last_error),
        }
    }
}

/// What a [`PluginFiberSnapshot`] shows.
pub struct FiberView {
    pub id: u64,
    pub plugin_key: Seq<char>,
    pub context_depth: usize,
    pub state: FiberStateSnapshot,
    pub dependencies: Seq<Seq<char>>,
    pub missing: Seq<Seq<char>>,
    pub unavailable: Seq<Unavailable>,
    pub last_error: Option<Seq<char>>,
    pub root_effect: Option<u64>,
}

impl View for PluginFiberSnapshot {
    type V = FiberView;

    open spec fn view(&self) -> FiberView {
        FiberView {
            id: self.id,
            plugin_key: self.plugin_key@,
            context_depth: self.context_depth,
            state: self.state,
            dependencies: label_texts(self.dependencies@),
            missing: label_texts(self.missing_dependencies@),
            unavailable: diagnostics::unavailable_models(self.unavailable_dependencies@),
            last_error: fiber::optional_text(self.last_error),
            root_effect: self.root_effect,
        }
    }
}

/// What a [`PluginRegistrySnapshot`] shows.
pub struct GroupView {
    pub plugin_key: Seq<char>,
    pub unmounting: bool,
    pub fibers: Seq<PluginRegistryFiberSnapshot>,
}

impl View for PluginRegistrySnapshot {
    type V = GroupView;

    open spec fn view(&self) -> GroupView {
        GroupView {
            plugin_key: self.plugin_key@,
            unmounting: self.unmounting,
            fibers: self.fibers@,
        }
    }
}

/// What an [`EffectSnapshot`] shows.
pub struct EffectView {
    pub id: u64,
    pub name: Seq<char>,
    pub parent: Option<u64>,
    pub context_depth: Option<usize>,
    pub fiber_id: Option<u64>,
    pub cancelled: bool,
    pub disposed: bool,
    pub child_count: nat,
    pub task_count: nat,
    pub cleanup_count: nat,
}

impl View for EffectSnapshot {
    type V = EffectView;

    open spec fn view(&self) -> EffectView {
        EffectView {
            id: self.id,
            name: self.name@,
            parent: self.parent,
            context_depth: self.context_depth,
            fiber_id: self.fiber_id,
            cancelled: self.cancelled,
            disposed: self.disposed,
            child_count: self.child_count as nat,
            task_count: self.task_count as nat,
            cleanup_count: self.cleanup_count as nat,
        }
    }
}

/// The number of layers below the innermost one.
pub open spec fn depth_of(layers: Seq<Layer>) -> usize {
    if layers.len() == 0 {
        0
    } else {
        (layers.len() - 1) as usize
    }
}

impl RegistryModel {
    /// How provider `id` is shown.
    pub open spec fn provider_view(self, id: u64) -> ProviderView {
        let record = self.providers[id];
        ProviderView {
            context_depth: record.depth,
            isolation: record.isolation,
            service: record.key.service_spec()@,
            provider_id: id,
            effect_id: record.effect_id,
            unavailable: if provider::ready(self.fibers, record) {
                None
            } else {
                Some(diagnostics::reason_of(record))
            },
        }
    }

    /// How injection `id` is shown.
    pub open spec fn inject_view(self, id: u64) -> InjectView {
        let injection = self.injections[id];
        InjectView {
            id,
            context_depth: depth_of(injection.layers),
            phase: FiberStateSnapshot::of_phase(injection.phase),
            dependencies: service_texts(injection.dependencies),
            missing: service_texts(
                provider::unresolved(
                    self.providers,
                    self.fibers,
                    injection.layers,
                    injection.dependencies,
                ),
            ),
            unavailable: diagnostics::unavailable(
                self.providers,
                self.fibers,
                injection.layers,
                injection.dependencies,
            ),
            last_error: injection.last_error,
        }
    }

    /// How fiber `id` is shown.
    pub open spec fn fiber_view(self, id: u64) -> FiberView {
        let fiber = self.fibers[id];
        FiberView {
            id,
            plugin_key: fiber.plugin_key@,
            context_depth: depth_of(fiber.layers),
            state: FiberStateSnapshot::of_state(fiber.state),
            dependencies: service_texts(fiber.dependencies),
            missing: service_texts(
                provider::unresolved(
                    self.providers,
                    self.fibers,
                    fiber.layers,
                    fiber.dependencies,
                ),
            ),
            unavailable: diagnostics::unavailable(
                self.providers,
                self.fibers,
                fiber.layers,
                fiber.dependencies,
            ),
            last_error: fiber.last_error,
            root_effect: fiber.ownership.scope_spec(),
        }
    }

    /// How a group is shown.
    pub open spec fn group_view(self, group: GroupModel) -> GroupView {
        GroupView {
            plugin_key: group.key@,
            unmounting: group.unmounting,
            fibers: group_rows(self.fibers, group.fibers),
        }
    }

    /// How all groups are shown, in order of first mount.
    pub open spec fn group_views(self) -> Seq<GroupView> {
        self.groups.map_values(|group: GroupModel| self.group_view(group))
    }

    /// How effect `id` is shown.
    pub open spec fn effect_view(self, scopes: Map<u64, ScopeModel>, id: u64) -> EffectView {
        let record = self.effects[id];
        let known = scopes.contains_key(id);
        EffectView {
            id,
            name: record.name,
            parent: record.parent,
            context_depth: record.depth,
            fiber_id: record.fiber_id,
            cancelled: effect::scope_cancelled(scopes, id),
            disposed: effect::scope_disposed(scopes, id),
            child_count: if known {
                scopes[id].children.len()
            } else {
                0
            },
            task_count: if known {
                effect::tasks_in(scopes[id].work)
            } else {
                0
            },
            cleanup_count: if known {
                scopes[id].cleanups.len()
            } else {
                0
            },
        }
    }
}

/// The rows of a group: its fibers that are known, with their states.
pub open spec fn group_rows(fibers: Map<u64, FiberModel>, ids: Seq<u64>) -> Seq<
    PluginRegistryFiberSnapshot,
>
    decreases ids.len(),
{
    if ids.len() == 0 {
        Seq::empty()
    } else {
        let front = group_rows(fibers, ids.drop_last());
        if fibers.contains_key(ids.last()) {
            front.push(
                PluginRegistryFiberSnapshot {
                    id: ids.last(),
                    state: FiberStateSnapshot::of_state(fibers[ids.last()].state),
                },
            )
        } else {
            front
        }
    }
}

/// The groups stand in order of their names, each name once.
pub open spec fn groups_sorted(rows: Seq<GroupView>) -> bool {
    forall|i: int, j: int|
        0 <= i < j < rows.len() ==> text::text_before(
            (#[trigger] rows[i]).plugin_key,
            (#[trigger] rows[j]).plugin_key,
        )
}

/// What the group rows show.
pub open spec fn group_row_views(rows: Seq<PluginRegistrySnapshot>) -> Seq<GroupView> {
    rows.map_values(|row: PluginRegistrySnapshot| row@)
}

fn labels_of(services: &Vec<ServiceId>) -> (r: Vec<&'static str>)
    ensures
        label_texts(r@) == service_texts(services@),
{
    let mut out: Vec<&'static str> = Vec::new();
    let mut i: usize = 0;
    while i < services.len()
        invariant
            i <= services@.len(),
            out@.len() == i,
            forall|j: int| 0 <= j < i ==> (#[trigger] out@[j])@ == services@[j]@,
        decreases services@.len() - i,
    {
        out.push(services[i].as_str());
        i += 1;
    }
    assert(label_texts(out@) =~= service_texts(services@));
    out
}

fn copy_optional(text: &Option<String>) -> (r: Option<String>)
    ensures
        fiber::optional_text(r) == fiber::optional_text(*text),
{
    match text {
        Some(string) => Some(string.clone()),
        None => None,
    }
}

fn layer_depth(layers: &Vec<Layer>) -> (r: usize)
    ensures
        r == depth_of(layers@),
{
    if layers.len() == 0 {
        0
    } else {
        layers.len() - 1
    }
}

impl Registry {
    /// The identifiers of all providers, in order of registration.
    pub closed spec fn provider_keys(&self) -> Seq<u64> {
        self.providers.keys()
    }

    /// The identifiers of all effects, in rising order.
    pub closed spec fn effect_keys(&self) -> Seq<u64> {
        self.effects.keys()
    }

    /// [`Self::provider_keys`] and [`Self::effect_keys`] list everything once.
    pub proof fn lemma_snapshot_keys(&self)
        requires
            self.wf(),
        ensures
            forall|i: int, j: int|
                0 <= i < j < self.provider_keys().len() ==> self.provider_keys()[i]
                    < self.provider_keys()[j],
            forall|id: u64|
                self.provider_keys().contains(id) <==> #[trigger] self@.providers.contains_key(id),
            forall|i: int, j: int|
                0 <= i < j < self.effect_keys().len() ==> self.effect_keys()[i]
                    < self.effect_keys()[j],
            forall|id: u64|
                self.effect_keys().contains(id) <==> #[trigger] self@.effects.contains_key(id),
    {
        self.providers.lemma_keys();
        self.effects.lemma_keys();
        assert forall|id: u64|
            self.provider_keys().contains(id) <==> #[trigger] self@.providers.contains_key(id) by {
            if self.provider_keys().contains(id) {
                let i = choose|i: int|
                    0 <= i < self.providers.keys().len() && self.providers.keys()[i] == id;
                assert(self.providers@.contains_key(self.providers.keys()[i]));
            }
        }
        assert forall|id: u64|
            self.effect_keys().contains(id) <==> #[trigger] self@.effects.contains_key(id) by {
            if self.effect_keys().contains(id) {
                let i = choose|i: int|
                    0 <= i < self.effects.keys().len() && self.effects.keys()[i] == id;
                assert(self.effects@.contains_key(self.effects.keys()[i]));
            }
            if self@.effects.contains_key(id) {
                assert(self.effects@.contains_key(id));
            }
        }
    }

    fn provider_rows(&self) -> (r: Vec<ProviderSnapshot>)
        requires
            self.wf(),
        ensures
            r@.len() == self.provider_keys().len(),
            forall|i: int|
                0 <= i < r@.len() ==> (#[trigger] r@[i])@ == self@.provider_view(
                    self.provider_keys()[i],
                ),
    {
        let mut out: Vec<ProviderSnapshot> = Vec::new();
        let mut i: usize = 0;
        while i < self.providers.len()
            invariant
                self.wf(),
                i <= self.provider_keys().len(),
                out@.len() == i,
                forall|j: int|
                    0 <= j < i ==> (#[trigger] out@[j])@ == self@.provider_view(
                        self.provider_keys()[j],
                    ),
            decreases self.provider_keys().len() - i,
        {
            let id: u64 = self.providers.key_at(i);
            let record = self.providers.value_at(i);
            let availability = if provider::is_ready(&self.fibers, record) {
                ProviderAvailability::Ready
            } else {
                ProviderAvailability::Unavailable { reason: unavailable_reason(record) }
            };
            let row = ProviderSnapshot {
                context_depth: record.depth,
                isolation: record.isolation,
                service: record.key.service().as_str(),
                provider_id: id,
                effect_id: record.effect_id,
                availability,
            };
            assert(row@ =~= self@.provider_view(id));
            out.push(row);
            i += 1;
        }
        out
    }

    fn inject_rows(&self) -> (r: Vec<InjectFiberSnapshot>)
        requires
            self.wf(),
        ensures
            r@.len() == self.injection_ids().len(),
            forall|i: int|
                0 <= i < r@.len() ==> (#[trigger] r@[i])@ == self@.inject_view(
                    self.injection_ids()[i],
                ),
    {
        let mut out: Vec<InjectFiberSnapshot> = Vec::new();
        let mut i: usize = 0;
        while i < self.injections.len()
            invariant
                self.wf(),
                i <= self.injection_ids().len(),
                out@.len() == i,
                forall|j: int|
                    0 <= j < i ==> (#[trigger] out@[j])@ == self@.inject_view(
                        self.injection_ids()[j],
                    ),
            decreases self.injection_ids().len() - i,
        {
            let id: u64 = self.injections.key_at(i);
            let record = self.injections.value_at(i);
            assert(self@.injections[id] == record@);
            let missing = missing_services(
                &self.providers,
                &self.fibers,
                &record.layers,
                &record.dependencies,
            );
            let row = InjectFiberSnapshot {
                id,
                context_depth: layer_depth(&record.layers),
                phase: FiberStateSnapshot::from_phase(record.phase),
                dependencies: labels_of(&record.dependencies),
                missing_dependencies: labels_of(&missing),
                unavailable_dependencies: unavailable_services(
                    &self.providers,
                    &self.fibers,
                    &record.layers,
                    &record.dependencies,
                ),
                last_error: copy_optional(&record.last_error),
            };
            assert(row@ =~= self@.inject_view(id));
            out.push(row);
            i += 1;
        }
        out
    }

    fn fiber_row(&self, id: u64, record: &FiberRecord) -> (r: PluginFiberSnapshot)
        requires
            self.wf(),
            self@.fibers.contains_key(id),
            self@.fibers[id] == record@,
        ensures
            r@ == self@.fiber_view(id),
    {
        let missing = missing_services(
            &self.providers,
            &self.fibers,
            &record.layers,
            &record.dependencies,
        );
        let row = PluginFiberSnapshot {
            id,
            plugin_key: record.plugin_key.as_str(),
            context_depth: layer_depth(&record.layers),
            state: FiberStateSnapshot::from_state(record.state),
            dependencies: labels_of(&record.dependencies),
            missing_dependencies: labels_of(&missing),
            unavailable_dependencies: unavailable_services(
                &self.providers,
                &self.fibers,
                &record.layers,
                &record.dependencies,
            ),
            last_error: copy_optional(&record.last_error),
            root_effect: record.ownership.live_scope(),
        };
        assert(row@ =~= self@.fiber_view(id));
        row
    }

    /// The dependencies of a fiber without a usable provider.
    pub fn missing_dependencies(&self, id: u64) -> (r: Vec<ServiceId>)
        requires
            self.wf(),
        ensures
            r@ == (if self@.fibers.contains_key(id) {
                provider::unresolved(
                    self@.providers,
                    self@.fibers,
                    self@.fibers[id].layers,
                    self@.fibers[id].dependencies,
                )
            } else {
                Seq::empty()
            }),
    {
        match self.fibers.get(id) {
            Some(fiber) => {
                assert(self@.fibers[id] == fiber@);
                missing_services(
                    &self.providers,
                    &self.fibers,
                    &fiber.layers,
                    &fiber.dependencies,
                )
            },
            None => {
                assert(!self@.fibers.contains_key(id));
                Vec::new()
            },
        }
    }

    /// A snapshot of one fiber.
    pub fn fiber_snapshot(&self, id: u64) -> (r: Option<PluginFiberSnapshot>)
        requires
            self.wf(),
        ensures
            match r {
                Some(row) => self@.fibers.contains_key(id) && row@ == self@.fiber_view(id),
                None => !self@.fibers.contains_key(id),
            },
    {
        match self.fibers.get(id) {
            Some(record) => {
                assert(self@.fibers[id] == record@);
                Some(self.fiber_row(id, record))
            },
            None => {
                assert(!self@.fibers.contains_key(id));
                None
            },
        }
    }

    /// The identifiers of the fibers that are listed, in order of creation.
    pub open spec fn listed_fibers(&self) -> Seq<u64> {
        self.fiber_ids().filter(|id: u64| self@.fibers[id].registered)
    }

    fn fiber_rows(&self) -> (r: Vec<PluginFiberSnapshot>)
        requires
            self.wf(),
        ensures
            r@.len() == self.listed_fibers().len(),
            forall|i: int|
                0 <= i < r@.len() ==> (#[trigger] r@[i])@ == self@.fiber_view(
                    self.listed_fibers()[i],
                ),
    {
        let ghost keys = self.fiber_ids();
        let mut out: Vec<PluginFiberSnapshot> = Vec::new();
        let mut i: usize = 0;
        while i < self.fibers.len()
            invariant
                self.wf(),
                keys == self.fiber_ids(),
                i <= keys.len(),
                out@.len() == keys.take(i as int).filter(
                    |id: u64| self@.fibers[id].registered,
                ).len(),
                forall|j: int|
                    0 <= j < out@.len() ==> (#[trigger] out@[j])@ == self@.fiber_view(
                        keys.take(i as int).filter(|id: u64| self@.fibers[id].registered)[j],
                    ),
            decreases keys.len() - i,
        {
            let id: u64 = self.fibers.key_at(i);
            let record = self.fibers.value_at(i);
            assert(self@.fibers[id] == record@);
            proof {
                assert(keys.take(i + 1).drop_last() =~= keys.take(i as int));
                assert(keys.take(i + 1).last() == id);
                reveal(Seq::filter);
            }
            if record.registered {
                let row = self.fiber_row(id, record);
                out.push(row);
            }
            i += 1;
        }
        assert(keys.take(i as int) =~= keys);
        out
    }

    fn effect_rows(&self, scopes: &EffectTree) -> (r: Vec<EffectSnapshot>)
        requires
            self.wf(),
            scopes.wf(),
        ensures
            r@.len() == self.effect_keys().len(),
            forall|i: int|
                0 <= i < r@.len() ==> (#[trigger] r@[i])@ == self@.effect_view(
                    scopes@,
                    self.effect_keys()[i],
                ),
    {
        let mut out: Vec<EffectSnapshot> = Vec::new();
        let mut i: usize = 0;
        while i < self.effects.len()
            invariant
                self.wf(),
                scopes.wf(),
                i <= self.effect_keys().len(),
                out@.len() == i,
                forall|j: int|
                    0 <= j < i ==> (#[trigger] out@[j])@ == self@.effect_view(
                        scopes@,
                        self.effect_keys()[j],
                    ),
            decreases self.effect_keys().len() - i,
        {
            let id: u64 = self.effects.key_at(i);
            let record = self.effects.value_at(i);
            assert(self@.effects[id] == record@);
            let row = EffectSnapshot {
                id,
                name: record.name.clone(),
                parent: record.parent,
                context_depth: record.depth,
                fiber_id: record.fiber_id,
                cancelled: scopes.is_cancelled(id),
                disposed: scopes.is_disposed(id),
                child_count: scopes.child_scope_count(id),
                task_count: scopes.task_count(id),
                cleanup_count: scopes.cleanup_count(id),
            };
            assert(row@ =~= self@.effect_view(scopes@, id));
            out.push(row);
            i += 1;
        }
        out
    }

    fn group_row(&self, group: &PluginGroup) -> (r: PluginRegistrySnapshot)
        requires
            self.wf(),
        ensures
            r@ == self@.group_view(group@),
    {
        let mut rows: Vec<PluginRegistryFiberSnapshot> = Vec::new();
        let mut i: usize = 0;
        while i < group.fibers.len()
            invariant
                self.wf(),
                i <= group.fibers@.len(),
                rows@ == group_rows(self@.fibers, group.fibers@.take(i as int)),
            decreases group.fibers@.len() - i,
        {
            assert(group.fibers@.take(i + 1).drop_last() =~= group.fibers@.take(i as int));
            assert(group.fibers@.take(i + 1).last() == group.fibers@[i as int]);
            let id: u64 = group.fibers[i];
            match self.fibers.get(id) {
                Some(record) => {
                    assert(self@.fibers[id] == record@);
                    rows.push(
                        PluginRegistryFiberSnapshot {
                            id,
                            state: FiberStateSnapshot::from_state(record.state),
                        },
                    );
                },
                None => {
                    assert(!self@.fibers.contains_key(id));
                },
            }
            i += 1;
        }
        assert(group.fibers@.take(i as int) =~= group.fibers@);
        PluginRegistrySnapshot {
            plugin_key: group.key.as_str(),
            unmounting: group.unmounting,
            fibers: rows,
        }
    }

    fn registry_rows(&self) -> (r: Vec<PluginRegistrySnapshot>)
        requires
            self.wf(),
        ensures
            groups_sorted(group_row_views(r@)),
            group_row_views(r@).to_multiset() == self@.group_views().to_multiset(),
    {
        let mut out: Vec<PluginRegistrySnapshot> = Vec::new();
        let mut i: usize = 0;
        proof {
            assert(group_row_views(out@) =~= Seq::<GroupView>::empty());
            assert(self@.group_views().take(0) =~= Seq::<GroupView>::empty());
        }
        while i < self.groups.len()
            invariant
                self.wf(),
                i <= self.groups@.len(),
                out@.len() == i,
                groups_sorted(group_row_views(out@)),
                group_row_views(out@).to_multiset() == self@.group_views().take(
                    i as int,
                ).to_multiset(),
            decreases self.groups@.len() - i,
        {
            let row = self.group_row(&self.groups[i]);
            let ghost views = group_row_views(out@);
            let ghost shown = self@.group_views();
            proof {
                assert(self@.groups[i as int] == self.groups@[i as int]@);
                assert(shown[i as int] == row@);
                assert(shown.take(i + 1) =~= shown.take(i as int).push(row@));
                assert forall|j: int| 0 <= j < i implies (#[trigger] views[j]).plugin_key
                    != row@.plugin_key by {
                    lemma_row_origin(views, shown.take(i as int), j);
                    let k = choose|k: int| 0 <= k < i && shown.take(i as int)[k] == views[j];
                    assert(self@.groups[k].key@ != self@.groups[i as int].key@);
                }
            }
            let mut at: usize = 0;
            while at < out.len() && is_text_before(out[at].plugin_key, row.plugin_key)
                invariant
                    at <= out@.len(),
                    views == group_row_views(out@),
                    forall|j: int|
                        0 <= j < at ==> text::text_before(
                            (#[trigger] views[j]).plugin_key,
                            row@.plugin_key,
                        ),
                decreases out@.len() - at,
            {
                assert(views[at as int].plugin_key == out@[at as int].plugin_key@);
                at += 1;
            }
            let ghost row_view = row@;
            out.insert(at, row);
            proof {
                assert(group_row_views(out@) =~= views.insert(at as int, row_view));
                if at < views.len() {
                    assert(views[at as int].plugin_key != row_view.plugin_key);
                    text::lemma_before_total(views[at as int].plugin_key, row_view.plugin_key);
                }
                lemma_sorted_insert(views, at as int, row_view);
                vstd::seq_lib::to_multiset_insert(views, at as int, row_view);
                vstd::seq_lib::to_multiset_build(shown.take(i as int), row_view);
            }
            i += 1;
        }
        assert(self@.group_views().take(i as int) =~= self@.group_views());
        out
    }

    fn isolation_rows(&self) -> (r: Vec<IsolationSnapshot>)
        ensures
            r@ == self@.isolations.map_values(|id: u64| IsolationSnapshot { id }),
    {
        let mut out: Vec<IsolationSnapshot> = Vec::new();
        let mut i: usize = 0;
        while i < self.isolations.len()
            invariant
                i <= self.isolations@.len(),
                out@.len() == i,
                forall|j: int| 0 <= j < i ==> (#[trigger] out@[j]).id == self.isolations@[j],
            decreases self.isolations@.len() - i,
        {
            out.push(IsolationSnapshot { id: self.isolations[i] });
            i += 1;
        }
        assert(out@ =~= self@.isolations.map_values(|id: u64| IsolationSnapshot { id }));
        out
    }

    /// The snapshot shows labels by identifier, groups by name and everything else in
    /// order of creation.
    pub open spec fn shown_by(&self, scopes: Map<u64, ScopeModel>, r: RuntimeSnapshot) -> bool {
        &&& r.isolations@ == self@.isolations.map_values(|id: u64| IsolationSnapshot { id })
        &&& r.providers@.len() == self.provider_keys().len()
        &&& forall|i: int|
            0 <= i < r.providers@.len() ==> (#[trigger] r.providers@[i])@
                == self@.provider_view(self.provider_keys()[i])
        &&& r.inject_fibers@.len() == self.injection_ids().len()
        &&& forall|i: int|
            0 <= i < r.inject_fibers@.len() ==> (#[trigger] r.inject_fibers@[i])@
                == self@.inject_view(self.injection_ids()[i])
        &&& r.plugin_fibers@.len() == self.listed_fibers().len()
        &&& forall|i: int|
            0 <= i < r.plugin_fibers@.len() ==> (#[trigger] r.plugin_fibers@[i])@
                == self@.fiber_view(self.listed_fibers()[i])
        &&& groups_sorted(group_row_views(r.plugin_registry@))
        &&& group_row_views(r.plugin_registry@).to_multiset()
            == self@.group_views().to_multiset()
        &&& r.effects@.len() == self.effect_keys().len()
        &&& forall|i: int|
            0 <= i < r.effects@.len() ==> (#[trigger] r.effects@[i])@ == self@.effect_view(
                scopes,
                self.effect_keys()[i],
            )
    }

    /// A snapshot of the runtime: labels by identifier, groups by name, everything else
    /// in order of creation.
    pub fn diagnostics(&self, scopes: &EffectTree) -> (r: RuntimeSnapshot)
        requires
            self.wf(),
            scopes.wf(),
        ensures
            self.shown_by(scopes@, r),
    {
        RuntimeSnapshot {
            isolations: self.isolation_rows(),
            providers: self.provider_rows(),
            plugin_fibers: self.fiber_rows(),
            plugin_registry: self.registry_rows(),
            inject_fibers: self.inject_rows(),
            effects: self.effect_rows(scopes),
        }
    }
}

proof fn lemma_row_origin(rows: Seq<GroupView>, source: Seq<GroupView>, j: int)
    requires
        rows.to_multiset() == source.to_multiset(),
        0 <= j < rows.len(),
    ensures
        exists|k: int| 0 <= k < source.len() && source[k] == rows[j],
{
    broadcast use vstd::seq_lib::group_to_multiset_ensures;

    assert(rows.contains(rows[j]));
    assert(rows.to_multiset().count(rows[j]) > 0);
    assert(source.to_multiset().count(rows[j]) > 0);
    assert(source.contains(rows[j]));
}

proof fn lemma_sorted_insert(rows: Seq<GroupView>, at: int, row: GroupView)
    requires
        groups_sorted(rows),
        0 <= at <= rows.len(),
        forall|j: int|
            0 <= j < at ==> text::text_before((#[trigger] rows[j]).plugin_key, row.plugin_key),
        at < rows.len() ==> text::text_before(row.plugin_key, rows[at].plugin_key),
    ensures
        groups_sorted(rows.insert(at, row)),
{
    let after = rows.insert(at, row);
    assert forall|i: int, j: int| 0 <= i < j < after.len() implies text::text_before(
        (#[trigger] after[i]).plugin_key,
        (#[trigger] after[j]).plugin_key,
    ) by {
        if i == at {
            assert(after[j] == rows[j - 1]);
            if j - 1 > at {
                text::lemma_before_trans(
                    row.plugin_key,
                    rows[at].plugin_key,
                    rows[j - 1].plugin_key,
                );
            }
        } else if j == at {
            assert(after[i] == rows[i]);
        } else {
            let x = if i < at {
                i
            } else {
                i - 1
            };
            let y = if j < at {
                j
            } else {
                j - 1
            };
            assert(after[i] == rows[x] && after[j] == rows[y]);
        }
    }
}

} // verus!
