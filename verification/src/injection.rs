//! Reactive injections: callbacks that run while their dependencies are there.

use crate::fiber::ProviderRevision;
use crate::service::{ServiceId, Services};
use crate::view::Layer;
use vstd::prelude::*;

verus! {

/// The phase of an injection.
#[derive(Clone, Copy, PartialEq, Eq, Debug, Structural)]
pub enum InjectionPhase {
    Pending,
    Active,
    Failed,
    Disposed,
}

/// The phase of an injection as its owner sees it.
#[derive(Clone, Copy, Debug, PartialEq, Eq, Structural)]
pub enum InjectionState {
    Pending,
    Active,
    Failed,
    Disposed,
}

impl InjectionState {
    pub open spec fn of_phase(phase: InjectionPhase) -> InjectionState {
        match phase {
            InjectionPhase::Pending => InjectionState::Pending,
            InjectionPhase::Active => InjectionState::Active,
            InjectionPhase::Failed => InjectionState::Failed,
            InjectionPhase::Disposed => InjectionState::Disposed,
        }
    }

    pub fn from_phase(phase: InjectionPhase) -> (r: InjectionState)
        ensures
            r == InjectionState::of_phase(phase),
    {
        match phase {
            InjectionPhase::Pending => InjectionState::Pending,
            InjectionPhase::Active => InjectionState::Active,
            InjectionPhase::Failed => InjectionState::Failed,
            InjectionPhase::Disposed => InjectionState::Disposed,
        }
    }
}

/// A registered injection. The callback stays with the host.
pub struct InjectionRecord {
    pub layers: Vec<Layer>,
    pub parent_scope: u64,
    pub dependencies: Vec<ServiceId>,
    pub callback: u64,
    /// The scope of the active callback.
    pub child_scope: Option<u64>,
    pub phase: InjectionPhase,
    /// The providers that the last run was built on.
    pub resolved: Vec<ProviderRevision>,
    pub last_error: Option<String>,
}

/// What an [`InjectionRecord`] holds.
pub struct InjectionModel {
    pub layers: Seq<Layer>,
    pub parent_scope: u64,
    pub dependencies: Seq<ServiceId>,
    pub callback: u64,
    pub child_scope: Option<u64>,
    pub phase: InjectionPhase,
    pub resolved: Seq<ProviderRevision>,
    pub last_error: Option<Seq<char>>,
}

impl View for InjectionRecord {
    type V = InjectionModel;

    open spec fn view(&self) -> InjectionModel {
        InjectionModel {
            layers: self.layers@,
            parent_scope: self.parent_scope,
            dependencies: self.dependencies@,
            callback: self.callback,
            child_scope: self.child_scope,
            phase: self.phase,
            resolved: self.resolved@,
            last_error: crate::fiber::optional_text(self.last_error),
        }
    }
}

impl InjectionModel {
    /// Waiting for its dependencies, with nothing left of an earlier run.
    pub open spec fn idle(self) -> InjectionModel {
        InjectionModel {
            child_scope: None,
            phase: InjectionPhase::Pending,
            resolved: Seq::empty(),
            last_error: None,
            ..self
        }
    }
}

/// Everything that one run of an injection callback is given.
pub struct InjectionSnapshot {
    pub callback: u64,
    pub services: Services,
    pub parent: u64,
    pub providers: Vec<ProviderRevision>,
}

} // verus!
