//! Handles of what was registered through a context.

use crate::diagnostics::PluginFiberSnapshot;
use crate::error::CoreError;
use crate::fiber::{FiberModel, FiberState};
use crate::injection::InjectionState;
use crate::plugin::PluginKey;
use crate::provider;
use crate::provider::ProviderAvailability;
use crate::registry::lifecycle::TerminalRelease;
use crate::runtime::{Runtime, RuntimeModel};
use crate::service::ServiceId;
use vstd::prelude::*;

verus! {

/// The handle of an injection.
#[derive(Clone, Copy)]
pub struct InjectionHandle {
    id: u64,
}

impl InjectionHandle {
    pub closed spec fn id_spec(self) -> u64 {
        self.id
    }

    pub(crate) fn new(id: u64) -> (r: InjectionHandle)
        ensures
            r.id_spec() == id,
    {
        InjectionHandle { id }
    }

    pub fn id(&self) -> (r: u64)
        ensures
            r == self.id_spec(),
    {
        self.id
    }

    /// The state of the injection; one that is gone is disposed.
    pub fn state(&self, runtime: &Runtime) -> (r: InjectionState)
        requires
            runtime.wf(),
        ensures
            r == (if runtime@.registry.injections.contains_key(self.id_spec()) {
                InjectionState::of_phase(runtime@.registry.injections[self.id_spec()].phase)
            } else {
                InjectionState::Disposed
            }),
    {
        match runtime.registry.injection_phase(self.id) {
            Some(phase) => InjectionState::from_phase(phase),
            None => InjectionState::Disposed,
        }
    }
}

/// The handle of a provider with an availability check.
#[derive(Clone, Copy)]
pub struct ProviderHandle {
    provider_id: u64,
    service: ServiceId,
}

impl ProviderHandle {
    pub closed spec fn provider_spec(self) -> u64 {
        self.provider_id
    }

    pub closed spec fn service_spec(self) -> ServiceId {
        self.service
    }

    pub fn id(&self) -> (r: u64)
        ensures
            r == self.provider_spec(),
    {
        self.provider_id
    }

    pub(crate) fn new(provider_id: u64, service: ServiceId) -> (r: ProviderHandle)
        ensures
            r.provider_spec() == provider_id,
            r.service_spec() == service,
    {
        ProviderHandle { provider_id, service }
    }

    /// Whether there still is a check to run.
    pub fn check(&self, runtime: &Runtime) -> (r: Result<(), CoreError>)
        requires
            runtime.wf(),
        ensures
            r == (if runtime@.registry.providers.contains_key(self.provider_spec())
                && runtime@.registry.providers[self.provider_spec()].checked {
                Ok(())
            } else {
                Err(CoreError::ProviderDisposed { service: self.service_spec() })
            }),
    {
        runtime.registry.checked_provider(self.provider_id, self.service)
    }

    /// Takes over what the host's run of the check said; a check that panicked gives its
    /// message.
    pub fn refresh(
        &self,
        runtime: &mut Runtime,
        checked: Result<ProviderAvailability, String>,
    ) -> (r: Result<(), CoreError>)
        requires
            old(runtime).wf(),
        ensures
            final(runtime).wf(),
            final(runtime)@ == (RuntimeModel {
                registry: final(runtime)@.registry,
                ..old(runtime)@
            }),
            old(runtime)@.registry.refresh_ended(
                self.provider_spec(),
                self.service_spec(),
                checked,
                final(runtime)@.registry,
                r,
            ),
    {
        runtime.registry.refresh_checked_provider(self.provider_id, self.service, checked)
    }
}

/// The handle of a listener.
pub struct Unsubscribe {
    id: u64,
}

impl Unsubscribe {
    pub closed spec fn id_spec(&self) -> u64 {
        self.id
    }

    pub(crate) fn new(id: u64) -> (r: Unsubscribe)
        ensures
            r.id_spec() == id,
    {
        Unsubscribe { id }
    }

    /// Removes the listener.
    pub fn dispose(self, runtime: &mut Runtime)
        requires
            old(runtime).wf(),
        ensures
            final(runtime).wf(),
            final(runtime)@ == (RuntimeModel {
                registry: old(runtime)@.registry.unsubscribed(self.id_spec()),
                ..old(runtime)@
            }),
    {
        runtime.registry.unsubscribe_event(self.id);
    }
}

/// The handle of a mounted plugin. A fiber that is forgotten counts as disposed.
pub struct Fiber {
    id: u64,
}

impl Fiber {
    pub closed spec fn id_spec(&self) -> u64 {
        self.id
    }

    /// The fiber is known to the runtime.
    pub open spec fn known(&self, runtime: RuntimeModel) -> bool {
        runtime.registry.fibers.contains_key(self.id_spec())
    }

    /// What the runtime knows of the fiber.
    pub open spec fn model(&self, runtime: RuntimeModel) -> FiberModel {
        runtime.registry.fibers[self.id_spec()]
    }

    /// The handle of the fiber with this identifier.
    pub fn from_id(id: u64) -> (r: Fiber)
        ensures
            r.id_spec() == id,
    {
        Fiber { id }
    }

    pub fn id(&self) -> (r: u64)
        ensures
            r == self.id_spec(),
    {
        self.id
    }

    pub fn state(&self, runtime: &Runtime) -> (r: FiberState)
        requires
            runtime.wf(),
        ensures
            r == (if self.known(runtime@) {
                self.model(runtime@).state
            } else {
                FiberState::Disposed
            }),
    {
        match runtime.registry.fiber_state(self.id) {
            Some(state) => state,
            None => FiberState::Disposed,
        }
    }

    pub fn last_error(&self, runtime: &Runtime) -> (r: Option<String>)
        requires
            runtime.wf(),
        ensures
            crate::fiber::optional_text(r) == (if self.known(runtime@) {
                self.model(runtime@).last_error
            } else {
                None
            }),
    {
        match runtime.registry.fiber(self.id) {
            Some(fiber) => match &fiber.last_error {
                Some(message) => Some(message.clone()),
                None => None,
            },
            None => None,
        }
    }

    pub fn is_disposed(&self, runtime: &Runtime) -> (r: bool)
        requires
            runtime.wf(),
        ensures
            r == (self.known(runtime@) ==> !self.model(runtime@).alive()),
    {
        match runtime.registry.fiber(self.id) {
            Some(fiber) => fiber.is_disposed(),
            None => true,
        }
    }

    /// The dependencies without a usable provider.
    pub fn missing_dependencies(&self, runtime: &Runtime) -> (r: Vec<ServiceId>)
        requires
            runtime.wf(),
        ensures
            r@ == (if self.known(runtime@) {
                provider::unresolved(
                    runtime@.registry.providers,
                    runtime@.registry.fibers,
                    self.model(runtime@).layers,
                    self.model(runtime@).dependencies,
                )
            } else {
                Seq::empty()
            }),
    {
        runtime.registry.missing_dependencies(self.id)
    }

    /// A snapshot of the fiber.
    pub fn snapshot(&self, runtime: &Runtime) -> (r: Option<PluginFiberSnapshot>)
        requires
            runtime.wf(),
        ensures
            match r {
                Some(row) => self.known(runtime@) && row@ == runtime@.registry.fiber_view(
                    self.id_spec(),
                ),
                None => !self.known(runtime@),
            },
    {
        runtime.registry.fiber_snapshot(self.id)
    }

    /// Disposes the fiber as far as that needs no waiting and says what is left to do.
    pub fn dispose(&self, runtime: &mut Runtime) -> (r: TerminalRelease)
        requires
            old(runtime).wf(),
        ensures
            final(runtime).wf(),
            (r, final(runtime)@.registry) == old(runtime)@.registry.dispose_now(self.id_spec()),
            final(runtime)@ == (RuntimeModel {
                registry: final(runtime)@.registry,
                ..old(runtime)@
            }),
    {
        runtime.dispose_fiber(self.id)
    }

    /// Disposes the fiber for a caller that waits for the release.
    pub fn dispose_wait(&self, runtime: &mut Runtime) -> (r: TerminalRelease)
        requires
            old(runtime).wf(),
        ensures
            final(runtime).wf(),
            if self.known(old(runtime)@) {
                let marked = old(runtime)@.registry.with_fiber(
                    self.id_spec(),
                    self.model(old(runtime)@).dispose_requested(),
                );
                &&& r == self.model(old(runtime)@).terminal()
                &&& final(runtime)@ == (RuntimeModel {
                    registry: if r is Vacant {
                        marked.vacated(self.id_spec())
                    } else {
                        marked
                    },
                    ..old(runtime)@
                })
            } else {
                r is Observe && final(runtime)@ == old(runtime)@
            },
    {
        if runtime.registry.fiber_state(self.id).is_none() {
            return TerminalRelease::Observe;
        }
        let release = runtime.registry.begin_terminal_release(self.id, false);
        if release == TerminalRelease::Vacant {
            runtime.registry.complete_vacant_dispose(self.id);
        }
        release
    }

    /// Starts a restart: the plugin is unloaded and applied again. Returns the token of
    /// the operation, which the host carries out.
    pub fn restart(&self, runtime: &mut Runtime) -> (r: Result<u64, CoreError>)
        requires
            old(runtime).wf(),
            old(runtime)@.registry.next_id < u64::MAX,
        ensures
            final(runtime).wf(),
            final(runtime)@ == (RuntimeModel {
                registry: final(runtime)@.registry,
                ..old(runtime)@
            }),
            if !self.known(old(runtime)@) || !self.model(old(runtime)@).alive() {
                &&& r == Err::<u64, CoreError>(CoreError::FiberDisposed)
                &&& final(runtime)@ == old(runtime)@
            } else {
                (r, final(runtime)@.registry) == old(runtime)@.registry.lifecycle_started(
                    self.id_spec(),
                )
            },
    {
        if self.is_disposed(runtime) {
            return Err(CoreError::FiberDisposed);
        }
        runtime.registry.start_lifecycle(self.id)
    }

    /// Starts a replacement by a plugin with this key, which has to be that of the
    /// fiber. Returns the token of the operation, which the host carries out.
    pub fn replace(&self, runtime: &mut Runtime, key: PluginKey) -> (r: Result<u64, CoreError>)
        requires
            old(runtime).wf(),
            old(runtime)@.registry.next_id < u64::MAX,
        ensures
            final(runtime).wf(),
            final(runtime)@ == (RuntimeModel {
                registry: final(runtime)@.registry,
                ..old(runtime)@
            }),
            if !self.known(old(runtime)@) || !self.model(old(runtime)@).alive() {
                &&& r == Err::<u64, CoreError>(CoreError::FiberDisposed)
                &&& final(runtime)@ == old(runtime)@
            } else if self.model(old(runtime)@).plugin_key@ != key@ {
                &&& r == Err::<u64, CoreError>(
                    CoreError::PluginKeyMismatch {
                        expected: self.model(old(runtime)@).plugin_key,
                        actual: key,
                    },
                )
                &&& final(runtime)@ == old(runtime)@
            } else {
                (r, final(runtime)@.registry) == old(runtime)@.registry.lifecycle_started(
                    self.id_spec(),
                )
            },
    {
        if self.is_disposed(runtime) {
            return Err(CoreError::FiberDisposed);
        }
        match runtime.registry.check_replacement(self.id, key) {
            Err(error) => {
                return Err(error);
            },
            Ok(()) => {},
        }
        runtime.registry.start_lifecycle(self.id)
    }
}

} // verus!
