//! Plugin fibers: the life of one mounted plugin.
//!
//! A fiber is a state machine. Every operation either refuses or moves it to the next
//! state; the host performs the outside work in between (calling the plugin, waiting
//! for a release) and reports how it went.

use crate::plugin::PluginKey;
use crate::service::ServiceId;
use crate::view::Layer;
use vstd::prelude::*;

verus! {

/// The public life-cycle state of a fiber.
#[derive(Debug, Clone, Copy, PartialEq, Eq, Structural)]
pub enum FiberState {
    Pending,
    Loading,
    Active,
    Failed,
    Unloading,
    Disposed,
}

/// A change of state.
#[derive(Debug, Clone, Copy, PartialEq, Eq, Structural)]
pub struct FiberTransition {
    pub previous: FiberState,
    pub current: FiberState,
}

/// The outcome of an attempt to claim the activation of a fiber.
#[derive(Debug, Clone, Copy, PartialEq, Eq, Structural)]
pub enum ActivateClaim {
    Claimed,
    Skipped,
}

/// Who owns the handle of a fiber that is mounted for the first time.
#[derive(Debug, Clone, Copy, PartialEq, Eq, Structural)]
pub enum HandleHandoff {
    Preparing,
    ReadyForHandle,
    HandleClaimed,
    Abandoned,
}

/// A scope that is being released.
#[derive(Debug, Clone, Copy, PartialEq, Eq, Structural)]
pub struct FiberRelease {
    pub scope: u64,
    pub dispose_started: bool,
}

/// The scope that a fiber owns, if any: exactly one of a temporary scope while the
/// plugin is applied, the scope of the active plugin, or a scope under release.
#[derive(Debug, Clone, Copy, PartialEq, Eq, Structural)]
pub enum EffectOwnership {
    Empty,
    Activating(u64),
    Active(u64),
    Releasing(FiberRelease),
}

impl EffectOwnership {
    pub open spec fn scope_spec(self) -> Option<u64> {
        match self {
            EffectOwnership::Empty => None,
            EffectOwnership::Activating(scope) => Some(scope),
            EffectOwnership::Active(scope) => Some(scope),
            EffectOwnership::Releasing(release) => Some(release.scope),
        }
    }

    /// The scope that is owned.
    pub fn live_scope(&self) -> (r: Option<u64>)
        ensures
            r == self.scope_spec(),
    {
        match *self {
            EffectOwnership::Empty => None,
            EffectOwnership::Activating(scope) => Some(scope),
            EffectOwnership::Active(scope) => Some(scope),
            EffectOwnership::Releasing(release) => Some(release.scope),
        }
    }

    /// An unmount has to wait for the release of the owned scope.
    pub fn needs_unmount_wait(&self) -> (r: bool)
        ensures
            r == !(*self is Empty),
    {
        match *self {
            EffectOwnership::Empty => false,
            _ => true,
        }
    }
}

/// The version of a provider that a consumer was built on. The revision changes with
/// every change of readiness, so that a consumer notices even a short interruption.
#[derive(Clone, Copy, Debug, PartialEq, Eq, Structural)]
pub struct ProviderRevision {
    pub id: u64,
    pub availability_revision: u64,
}

/// Equality of lists of provider versions.
pub(crate) fn same_revisions(a: &Vec<ProviderRevision>, b: &Vec<ProviderRevision>) -> (r: bool)
    ensures
        r == (a@ == b@),
{
    if a.len() != b.len() {
        return false;
    }
    let mut i: usize = 0;
    while i < a.len()
        invariant
            i <= a@.len(),
            a@.len() == b@.len(),
            forall|j: int| 0 <= j < i ==> a@[j] == b@[j],
        decreases a@.len() - i,
    {
        if a[i].id != b[i].id || a[i].availability_revision != b[i].availability_revision {
            assert(a@[i as int] != b@[i as int]);
            return false;
        }
        i += 1;
    }
    assert(a@ =~= b@);
    true
}

/// A mounted plugin.
pub struct FiberRecord {
    pub plugin_key: PluginKey,
    /// The view that the plugin was mounted on.
    pub layers: Vec<Layer>,
    pub parent_scope: u64,
    /// The plugin instance, kept by the host under this handle.
    pub plugin: u64,
    pub dependencies: Vec<ServiceId>,
    pub ownership: EffectOwnership,
    /// The errors of the final release, once it ended.
    pub dispose_result: Option<Vec<String>>,
    pub state: FiberState,
    pub last_error: Option<String>,
    pub resolved: Vec<ProviderRevision>,
    pub disposed: bool,
    pub busy: bool,
    /// The life-cycle operation in flight.
    pub lifecycle: Option<u64>,
    /// The fiber is listed in its plugin's group and served by the scheduler.
    pub registered: bool,
    pub handoff: HandleHandoff,
}

/// What a [`FiberRecord`] holds.
pub struct FiberModel {
    pub plugin_key: PluginKey,
    pub layers: Seq<Layer>,
    pub parent_scope: u64,
    pub plugin: u64,
    pub dependencies: Seq<ServiceId>,
    pub ownership: EffectOwnership,
    pub dispose_result: Option<Seq<Seq<char>>>,
    pub state: FiberState,
    pub last_error: Option<Seq<char>>,
    pub resolved: Seq<ProviderRevision>,
    pub disposed: bool,
    pub busy: bool,
    pub lifecycle: Option<u64>,
    pub registered: bool,
    pub handoff: HandleHandoff,
}

/// The characters of an optional string.
pub open spec fn optional_text(text: Option<String>) -> Option<Seq<char>> {
    match text {
        Some(string) => Some(string@),
        None => None,
    }
}

impl View for FiberRecord {
    type V = FiberModel;

    open spec fn view(&self) -> FiberModel {
        FiberModel {
            plugin_key: self.plugin_key,
            layers: self.layers@,
            parent_scope: self.parent_scope,
            plugin: self.plugin,
            dependencies: self.dependencies@,
            ownership: self.ownership,
            dispose_result: match self.dispose_result {
                Some(errors) => Some(crate::text::texts(errors@)),
                None => None,
            },
            state: self.state,
            last_error: optional_text(self.last_error),
            resolved: self.resolved@,
            disposed: self.disposed,
            busy: self.busy,
            lifecycle: self.lifecycle,
            registered: self.registered,
            handoff: self.handoff,
        }
    }
}

impl FiberModel {
    /// Neither disposed nor about to be.
    pub open spec fn alive(self) -> bool {
        !self.disposed && !(self.state is Disposed)
    }

    /// A fiber that was just created.
    pub open spec fn created(
        plugin_key: PluginKey,
        layers: Seq<Layer>,
        parent_scope: u64,
        plugin: u64,
        dependencies: Seq<ServiceId>,
    ) -> FiberModel {
        FiberModel {
            plugin_key,
            layers,
            parent_scope,
            plugin,
            dependencies,
            ownership: EffectOwnership::Empty,
            dispose_result: None,
            state: FiberState::Pending,
            last_error: None,
            resolved: Seq::empty(),
            disposed: false,
            busy: false,
            lifecycle: None,
            registered: true,
            handoff: HandleHandoff::Preparing,
        }
    }

    /// The state after an attempt to move to `next`: a fiber that is not alive ends in
    /// `Disposed`.
    pub open spec fn aimed(self, next: FiberState) -> FiberModel {
        FiberModel {
            state: if self.alive() {
                next
            } else {
                FiberState::Disposed
            },
            ..self
        }
    }

    /// The published change between two states.
    pub open spec fn change(previous: FiberState, current: FiberState) -> Option<FiberTransition> {
        if previous == current {
            None
        } else {
            Some(FiberTransition { previous, current })
        }
    }

    /// What the fiber looks like back in `Pending` with nothing resolved.
    pub open spec fn reset(self) -> FiberModel {
        FiberModel { resolved: Seq::empty(), last_error: None, ..self }
    }
}

impl FiberRecord {
    pub(crate) fn new(
        plugin_key: PluginKey,
        layers: Vec<Layer>,
        parent_scope: u64,
        plugin: u64,
        dependencies: Vec<ServiceId>,
    ) -> (r: FiberRecord)
        ensures
            r@ == FiberModel::created(plugin_key, layers@, parent_scope, plugin, dependencies@),
    {
        let r = FiberRecord {
            plugin_key,
            layers,
            parent_scope,
            plugin,
            dependencies,
            ownership: EffectOwnership::Empty,
            dispose_result: None,
            state: FiberState::Pending,
            last_error: None,
            resolved: Vec::new(),
            disposed: false,
            busy: false,
            lifecycle: None,
            registered: true,
            handoff: HandleHandoff::Preparing,
        };
        assert(r@ =~= FiberModel::created(
            plugin_key,
            layers@,
            parent_scope,
            plugin,
            dependencies@,
        ));
        r
    }

    fn set_state(&mut self, next: FiberState) -> (changed: Option<FiberTransition>)
        ensures
            final(self)@ == (FiberModel { state: next, ..old(self)@ }),
            changed == FiberModel::change(old(self)@.state, next),
    {
        let previous = self.state;
        self.state = next;
        if previous == next {
            None
        } else {
            Some(FiberTransition { previous, current: next })
        }
    }

    /// Moves a living fiber to `next`; any other fiber converges to `Disposed`.
    pub fn transition_if_alive(&mut self, next: FiberState) -> (r: (bool, Option<FiberTransition>))
        ensures
            r.0 == old(self)@.alive(),
            final(self)@ == old(self)@.aimed(next),
            r.1 == FiberModel::change(old(self)@.state, final(self)@.state),
    {
        if self.disposed || self.state == FiberState::Disposed {
            (false, self.set_state(FiberState::Disposed))
        } else {
            (true, self.set_state(next))
        }
    }

    /// Moves the fiber to its terminal state.
    pub fn transition_disposed(&mut self) -> (changed: Option<FiberTransition>)
        ensures
            final(self)@ == (FiberModel { state: FiberState::Disposed, ..old(self)@ }),
            changed == FiberModel::change(old(self)@.state, FiberState::Disposed),
    {
        self.set_state(FiberState::Disposed)
    }

    /// Shows that the final release runs.
    pub fn transition_disposing(&mut self) -> (changed: Option<FiberTransition>)
        ensures
            final(self)@ == (FiberModel {
                state: if old(self)@.state is Disposed {
                    FiberState::Disposed
                } else {
                    FiberState::Unloading
                },
                ..old(self)@
            }),
            changed == FiberModel::change(old(self)@.state, final(self)@.state),
    {
        if self.state == FiberState::Disposed {
            self.set_state(FiberState::Disposed)
        } else {
            self.set_state(FiberState::Unloading)
        }
    }

    /// Claims the right to apply the plugin: one claim per stay in `Pending`.
    pub fn claim_activation(&mut self) -> (r: (ActivateClaim, Option<FiberTransition>))
        ensures
            if !old(self)@.disposed && old(self)@.state is Pending {
                &&& r.0 is Claimed
                &&& final(self)@ == (FiberModel { state: FiberState::Loading, ..old(self)@ })
                &&& r.1 == Some(
                    FiberTransition {
                        previous: FiberState::Pending,
                        current: FiberState::Loading,
                    },
                )
            } else {
                &&& r.0 is Skipped
                &&& final(self)@ == old(self)@
                &&& r.1 is None
            },
    {
        if self.disposed || self.state != FiberState::Pending {
            return (ActivateClaim::Skipped, None);
        }
        let changed = self.set_state(FiberState::Loading);
        (ActivateClaim::Claimed, changed)
    }

    /// Hands the fiber over to the caller that mounted it. A second claim succeeds too.
    pub fn claim_handle(&mut self) -> (claimed: bool)
        ensures
            claimed == (old(self)@.handoff is ReadyForHandle || old(self)@.handoff is HandleClaimed),
            final(self)@ == (FiberModel {
                handoff: if claimed {
                    HandleHandoff::HandleClaimed
                } else {
                    old(self)@.handoff
                },
                ..old(self)@
            }),
    {
        match self.handoff {
            HandleHandoff::ReadyForHandle => {
                self.handoff = HandleHandoff::HandleClaimed;
                true
            },
            HandleHandoff::HandleClaimed => true,
            HandleHandoff::Preparing | HandleHandoff::Abandoned => false,
        }
    }

    /// The first activation ended: the handle can be claimed unless it was abandoned.
    pub fn offer_handle(&mut self) -> (offered: bool)
        ensures
            offered == (old(self)@.handoff is Preparing),
            final(self)@ == (FiberModel {
                handoff: if offered {
                    HandleHandoff::ReadyForHandle
                } else {
                    old(self)@.handoff
                },
                ..old(self)@
            }),
    {
        if self.handoff == HandleHandoff::Preparing {
            self.handoff = HandleHandoff::ReadyForHandle;
            true
        } else {
            false
        }
    }

    /// The caller that mounted the fiber went away. Returns whether the fiber has to be
    /// disposed now: its first activation is over and nobody holds it.
    pub fn abandon_initial_handle(&mut self) -> (dispose_now: bool)
        ensures
            dispose_now == (old(self)@.handoff is ReadyForHandle),
            final(self)@ == (FiberModel {
                handoff: if old(self)@.handoff is HandleClaimed {
                    HandleHandoff::HandleClaimed
                } else {
                    HandleHandoff::Abandoned
                },
                ..old(self)@
            }),
    {
        let previous = self.handoff;
        if previous != HandleHandoff::HandleClaimed {
            self.handoff = HandleHandoff::Abandoned;
        }
        previous == HandleHandoff::ReadyForHandle
    }

    /// The caller of the first mount is gone.
    pub fn handoff_abandoned(&self) -> (r: bool)
        ensures
            r == (self@.handoff is Abandoned),
    {
        self.handoff == HandleHandoff::Abandoned
    }

    /// A life-cycle operation is in flight.
    pub fn lifecycle_in_flight(&self) -> (r: bool)
        ensures
            r == (self@.lifecycle is Some),
    {
        self.lifecycle.is_some()
    }

    /// An unmount has to wait for this fiber.
    pub fn needs_unmount_wait(&self) -> (r: bool)
        ensures
            r == (!(self@.ownership is Empty) || !self@.disposed),
    {
        self.ownership.needs_unmount_wait() || !self.disposed
    }

    /// Forgets what an earlier activation left.
    pub(crate) fn reset(&mut self)
        ensures
            final(self)@ == old(self)@.reset(),
    {
        self.resolved.clear();
        self.last_error = None;
        assert(self@ =~= old(self)@.reset());
    }

    /// The fiber is disposed or about to be.
    pub fn is_disposed(&self) -> (r: bool)
        ensures
            r == !self@.alive(),
    {
        self.disposed || self.state == FiberState::Disposed
    }
}

} // verus!
