//! Unloading, restarting, replacing and disposing of fibers.

use super::{Registry, RegistryModel};
use crate::effect::completion;
use crate::error::CoreError;
use crate::fiber::{EffectOwnership, FiberModel, FiberRecord, FiberRelease, FiberState};
use crate::plugin::PluginKey;
use crate::service::ServiceId;
use crate::text;
use crate::text::copy_texts;
use vstd::prelude::*;

verus! {

/// An operation on a fiber. One at a time is in flight.
#[derive(Clone, Copy, Debug, PartialEq, Eq, Structural)]
pub enum LifecycleOp {
    Activate { initial_mount: bool },
    Unload,
    Restart,
    Replace,
}

/// A stage of an operation.
#[derive(Clone, Copy, Debug, PartialEq, Eq, Structural)]
pub enum LifecycleStage {
    /// Release the scope of the fiber and wait for it.
    Unload,
    /// Put the new plugin in.
    Install,
    /// Apply the plugin.
    Activate { initial_mount: bool },
    /// The operation is over.
    Done,
}

impl LifecycleOp {
    /// The first stage of an operation.
    pub fn first_stage(self) -> (r: LifecycleStage)
        ensures
            r == (match self {
                LifecycleOp::Activate { initial_mount } => LifecycleStage::Activate {
                    initial_mount,
                },
                _ => LifecycleStage::Unload,
            }),
    {
        match self {
            LifecycleOp::Activate { initial_mount } => LifecycleStage::Activate { initial_mount },
            _ => LifecycleStage::Unload,
        }
    }

    /// The stage after `stage`; a stage that failed ends the operation.
    pub fn next_stage(self, stage: LifecycleStage, succeeded: bool) -> (r: LifecycleStage)
        ensures
            r == (if !succeeded {
                LifecycleStage::Done
            } else {
                match (self, stage) {
                    (LifecycleOp::Restart, LifecycleStage::Unload) => LifecycleStage::Activate {
                        initial_mount: false,
                    },
                    (LifecycleOp::Replace, LifecycleStage::Unload) => LifecycleStage::Install,
                    (LifecycleOp::Replace, LifecycleStage::Install) => LifecycleStage::Activate {
                        initial_mount: false,
                    },
                    _ => LifecycleStage::Done,
                }
            }),
    {
        if !succeeded {
            return LifecycleStage::Done;
        }
        match (self, stage) {
            (LifecycleOp::Restart, LifecycleStage::Unload) => LifecycleStage::Activate {
                initial_mount: false,
            },
            (LifecycleOp::Replace, LifecycleStage::Unload) => LifecycleStage::Install,
            (LifecycleOp::Replace, LifecycleStage::Install) => LifecycleStage::Activate {
                initial_mount: false,
            },
            _ => LifecycleStage::Done,
        }
    }
}

/// How an unload begins.
pub enum UnloadStart {
    /// There was nothing to release; the unload is over with this result.
    Over(Result<(), CoreError>),
    /// The host releases this scope, waits, and reports its errors.
    Release(u64),
    /// The fiber was disposed meanwhile: the host releases this scope and waits; the
    /// unload is over then and the fiber counts as disposed.
    ReleaseOnly(u64),
}

/// What is left to do for a caller that disposes a fiber.
#[derive(Clone, Copy, Debug, PartialEq, Eq, Structural)]
pub enum TerminalRelease {
    /// Start the release of this scope, wait for it and finalize.
    Run(u64),
    /// The release of this scope runs; wait for it and finalize.
    Join(u64),
    /// Nothing to release: the fiber is disposed.
    Vacant,
    /// Another caller disposed the fiber; look at its result.
    Observe,
}

/// What a caller sees that finds a fiber disposed by another one.
pub enum ObservedDispose {
    /// The final result.
    Known(Result<(), CoreError>),
    /// Wait for this scope, then store its errors with
    /// [`Registry::store_dispose_result`].
    Wait(u64),
}

/// What is left to do after a worker of an operation was lost.
#[derive(Clone, Copy, Debug, PartialEq, Eq, Structural)]
pub enum AbortRecovery {
    /// The fiber is disposed; nothing to do.
    Nothing,
    /// Dispose this scope, then close the recovery.
    Discard(Option<u64>),
    /// Unload the fiber, then close the recovery.
    Unload,
    /// Close the recovery.
    Close,
}

/// The result of a release with these errors.
pub(crate) fn release_outcome(errors: Vec<String>) -> (r: Result<(), CoreError>)
    ensures
        completion::release_result(text::texts(errors@), r),
{
    if errors.len() == 0 {
        Ok(())
    } else {
        Err(CoreError::DisposeFailed { errors })
    }
}

impl FiberModel {
    /// The fiber with its scope handed over to a release.
    pub open spec fn releasing(self) -> FiberModel {
        match self.held_scope() {
            Some(scope) => FiberModel {
                ownership: EffectOwnership::Releasing(
                    FiberRelease { scope, dispose_started: false },
                ),
                ..self
            },
            None => self,
        }
    }

    /// The fiber after the release of `scope` ended.
    pub open spec fn release_cleared(self, scope: u64) -> FiberModel {
        match self.ownership {
            EffectOwnership::Releasing(release) if release.scope == scope => FiberModel {
                ownership: EffectOwnership::Empty,
                ..self
            },
            _ => self,
        }
    }

    /// The fiber with the result of its final release; the first one stays.
    pub open spec fn result_stored(self, errors: Seq<Seq<char>>) -> FiberModel {
        if self.dispose_result is Some {
            self
        } else {
            FiberModel { dispose_result: Some(errors), ..self }
        }
    }

    /// The fiber after a caller asked for its disposal.
    pub open spec fn dispose_requested(self) -> FiberModel {
        FiberModel {
            disposed: true,
            busy: false,
            lifecycle: if self.disposed {
                self.lifecycle
            } else {
                None
            },
            ..self
        }.releasing()
    }

    /// What a caller that asks for disposal has to do.
    pub open spec fn terminal(self) -> TerminalRelease {
        match self.ownership {
            EffectOwnership::Activating(scope) => TerminalRelease::Run(scope),
            EffectOwnership::Active(scope) => TerminalRelease::Run(scope),
            EffectOwnership::Releasing(release) => TerminalRelease::Join(release.scope),
            EffectOwnership::Empty => if self.disposed {
                TerminalRelease::Observe
            } else {
                TerminalRelease::Vacant
            },
        }
    }

    pub open spec fn terminated(self) -> FiberModel {
        FiberModel { state: FiberState::Disposed, ..self }
    }
}

impl FiberRecord {
    fn begin_release(&mut self) -> (scope: Option<u64>)
        ensures
            final(self)@ == old(self)@.releasing(),
            scope == old(self)@.ownership.scope_spec(),
    {
        match self.ownership {
            EffectOwnership::Activating(scope) => {
                self.ownership = EffectOwnership::Releasing(
                    FiberRelease { scope, dispose_started: false },
                );
                Some(scope)
            },
            EffectOwnership::Active(scope) => {
                self.ownership = EffectOwnership::Releasing(
                    FiberRelease { scope, dispose_started: false },
                );
                Some(scope)
            },
            EffectOwnership::Releasing(release) => Some(release.scope),
            EffectOwnership::Empty => None,
        }
    }

    fn clear_release_if_matching(&mut self, scope: u64)
        ensures
            final(self)@ == old(self)@.release_cleared(scope),
    {
        if let EffectOwnership::Releasing(release) = self.ownership {
            if release.scope == scope {
                self.ownership = EffectOwnership::Empty;
            }
        }
    }

    fn store_result(&mut self, errors: Vec<String>)
        ensures
            final(self)@ == old(self)@.result_stored(text::texts(errors@)),
    {
        if self.dispose_result.is_none() {
            self.dispose_result = Some(errors);
        }
    }
}

impl RegistryModel {
    /// What the begin of an unload of fiber `id` gives.
    pub open spec fn unload_begun(
        self,
        id: u64,
        after: RegistryModel,
        start: UnloadStart,
    ) -> bool {
        let fiber = self.fibers[id];
        match fiber.ownership.scope_spec() {
            None => {
                &&& after == self.with_fiber(
                    id,
                    if fiber.disposed {
                        fiber
                    } else {
                        fiber.waiting()
                    },
                )
                &&& start matches UnloadStart::Over(result) && result == (if fiber.alive() {
                    Ok::<(), CoreError>(())
                } else {
                    Err(CoreError::FiberDisposed)
                })
            },
            Some(scope) => if fiber.alive() {
                &&& start == UnloadStart::Release(scope)
                &&& after == self.with_fiber(id, fiber.releasing().aimed(FiberState::Unloading))
            } else if fiber.disposed {
                &&& start == UnloadStart::ReleaseOnly(scope)
                &&& after == self.with_fiber(id, fiber.releasing().terminated())
            } else {
                &&& start matches UnloadStart::Over(result) && result == Err::<(), CoreError>(
                    CoreError::FiberDisposed,
                )
                &&& after == self.with_fiber(id, fiber.releasing().release_cleared(scope))
            },
        }
    }

    /// What the end of an unload of fiber `id` gives, after `scope` was released.
    pub open spec fn unload_ended(
        self,
        id: u64,
        scope: u64,
        errors: Seq<Seq<char>>,
        after: RegistryModel,
        result: Result<(), CoreError>,
    ) -> bool {
        let fiber = self.fibers[id];
        if fiber.disposed {
            &&& after == self.with_fiber(id, fiber.result_stored(errors))
            &&& if errors.len() == 0 {
                result == Err::<(), CoreError>(CoreError::FiberDisposed)
            } else {
                completion::release_result(errors, result)
            }
        } else if errors.len() > 0 {
            &&& completion::release_result(errors, result)
            &&& after == self.with_fiber(
                id,
                fiber.release_cleared(scope).failed(result->Err_0.message_text()),
            )
        } else {
            &&& result == (if fiber.alive() {
                Ok::<(), CoreError>(())
            } else {
                Err(CoreError::FiberDisposed)
            })
            &&& after == self.with_fiber(id, fiber.release_cleared(scope).waiting())
        }
    }

    /// The registry after the final release of fiber `id` ended.
    pub open spec fn finalized(
        self,
        id: u64,
        scope: u64,
        errors: Seq<Seq<char>>,
    ) -> RegistryModel {
        self.with_fiber(
            id,
            self.fibers[id].result_stored(errors).terminated().release_cleared(scope),
        ).unlisted(id)
    }

    /// The registry after fiber `id`, which owned nothing, was disposed.
    pub open spec fn vacated(self, id: u64) -> RegistryModel {
        self.with_fiber(
            id,
            self.fibers[id].result_stored(Seq::empty()).terminated(),
        ).unlisted(id)
    }

    /// What the start of an operation on fiber `id` gives: its token or the refusal, and
    /// the registry afterwards.
    pub open spec fn lifecycle_started(self, id: u64) -> (Result<u64, CoreError>, RegistryModel) {
        let fiber = self.fibers[id];
        if fiber.disposed {
            (Err(CoreError::FiberDisposed), self)
        } else if fiber.busy || fiber.lifecycle is Some {
            (Err(CoreError::FiberBusy), self)
        } else {
            (
                Ok(self.next_id),
                RegistryModel {
                    next_id: (self.next_id + 1) as u64,
                    fibers: self.fibers.insert(
                        id,
                        FiberModel { busy: true, lifecycle: Some(self.next_id), ..fiber },
                    ),
                    ..self
                },
            )
        }
    }

    /// The registry after an operation on fiber `id` ended.
    pub open spec fn lifecycle_closed(self, id: u64) -> RegistryModel {
        let fiber = FiberModel { busy: false, lifecycle: None, ..self.fibers[id] };
        let stuck = (fiber.state is Loading || fiber.state is Unloading) && !fiber.disposed;
        let next = if !stuck {
            fiber
        } else {
            match fiber.ownership {
                EffectOwnership::Activating(_) => FiberModel {
                    ownership: EffectOwnership::Empty,
                    ..fiber
                },
                _ => fiber,
            }.aimed(FiberState::Pending)
        };
        self.with_fiber(id, next).marked()
    }

    /// The temporary scope that the end of an operation on fiber `id` discards.
    pub open spec fn discarded_scope(self, id: u64) -> Option<u64> {
        let fiber = self.fibers[id];
        match fiber.ownership {
            EffectOwnership::Activating(scope) if (fiber.state is Loading
                || fiber.state is Unloading) && !fiber.disposed => Some(scope),
            _ => None,
        }
    }
}

impl Registry {
    /// Begins to unload a fiber: its scope is released and it waits for its
    /// dependencies again.
    pub fn begin_unload(&mut self, id: u64) -> (r: UnloadStart)
        requires
            old(self).wf(),
            old(self)@.fibers.contains_key(id),
        ensures
            final(self).wf(),
            old(self)@.unload_begun(id, final(self)@, r),
    {
        let fiber = self.fiber_mut(id);
        match fiber.begin_release() {
            None => {
                if fiber.disposed {
                    return UnloadStart::Over(Err(CoreError::FiberDisposed));
                }
                fiber.reset();
                let (alive, change) = fiber.transition_if_alive(FiberState::Pending);
                self.note(id, change);
                if alive {
                    UnloadStart::Over(Ok(()))
                } else {
                    UnloadStart::Over(Err(CoreError::FiberDisposed))
                }
            },
            Some(scope) => {
                let (alive, change) = fiber.transition_if_alive(FiberState::Unloading);
                if alive {
                    self.note(id, change);
                    return UnloadStart::Release(scope);
                }
                if fiber.disposed {
                    self.note(id, change);
                    return UnloadStart::ReleaseOnly(scope);
                }
                fiber.clear_release_if_matching(scope);
                UnloadStart::Over(Err(CoreError::FiberDisposed))
            },
        }
    }

    /// Ends an unload after `scope` was released with these errors. A failed release
    /// leaves the fiber failed.
    pub fn finish_unload(&mut self, id: u64, scope: u64, errors: Vec<String>) -> (r: Result<
        (),
        CoreError,
    >)
        requires
            old(self).wf(),
            old(self)@.fibers.contains_key(id),
        ensures
            final(self).wf(),
            old(self)@.unload_ended(id, scope, text::texts(errors@), final(self)@, r),
    {
        let fiber = self.fiber_mut(id);
        if fiber.disposed {
            let clean = errors.len() == 0;
            let result = release_outcome(copy_texts(&errors));
            fiber.store_result(errors);
            return if clean {
                Err(CoreError::FiberDisposed)
            } else {
                result
            };
        }
        fiber.clear_release_if_matching(scope);
        match release_outcome(errors) {
            Err(error) => {
                fiber.last_error = Some(error.message());
                let (_alive, change) = fiber.transition_if_alive(FiberState::Failed);
                self.note(id, change);
                Err(error)
            },
            Ok(()) => {
                fiber.reset();
                let (alive, change) = fiber.transition_if_alive(FiberState::Pending);
                self.note(id, change);
                if alive {
                    Ok(())
                } else {
                    Err(CoreError::FiberDisposed)
                }
            },
        }
    }

    /// Marks a fiber as disposed and says what is left to do. With `announce` a release
    /// that begins is shown as a change of state.
    pub fn begin_terminal_release(&mut self, id: u64, announce: bool) -> (r: TerminalRelease)
        requires
            old(self).wf(),
            old(self)@.fibers.contains_key(id),
        ensures
            final(self).wf(),
            r == old(self)@.fibers[id].terminal(),
            final(self)@ == ({
                let requested = old(self)@.fibers[id].dispose_requested();
                old(self)@.with_fiber(
                    id,
                    if announce && r is Run && !(requested.state is Disposed) {
                        FiberModel { state: FiberState::Unloading, ..requested }
                    } else {
                        requested
                    },
                )
            }),
    {
        let fiber = self.fiber_mut(id);
        let first = !fiber.disposed;
        let owned = fiber.ownership;
        fiber.disposed = true;
        fiber.busy = false;
        if first {
            fiber.lifecycle = None;
        }
        fiber.begin_release();
        match owned {
            EffectOwnership::Activating(scope) => {
                if announce {
                    let change = fiber.transition_disposing();
                    self.note(id, change);
                }
                TerminalRelease::Run(scope)
            },
            EffectOwnership::Active(scope) => {
                if announce {
                    let change = fiber.transition_disposing();
                    self.note(id, change);
                }
                TerminalRelease::Run(scope)
            },
            EffectOwnership::Releasing(release) => TerminalRelease::Join(release.scope),
            EffectOwnership::Empty => if first {
                TerminalRelease::Vacant
            } else {
                TerminalRelease::Observe
            },
        }
    }

    /// Notes that the release of a scope was started.
    pub fn mark_release_started(&mut self, id: u64, scope: u64)
        requires
            old(self).wf(),
            old(self)@.fibers.contains_key(id),
        ensures
            final(self).wf(),
            final(self)@ == (RegistryModel {
                fibers: old(self)@.fibers.insert(
                    id,
                    match old(self)@.fibers[id].ownership {
                        EffectOwnership::Releasing(release) if release.scope == scope => FiberModel {
                            ownership: EffectOwnership::Releasing(
                                FiberRelease { scope, dispose_started: true },
                            ),
                            ..old(self)@.fibers[id]
                        },
                        _ => old(self)@.fibers[id],
                    },
                ),
                ..old(self)@
            }),
    {
        let fiber = self.fiber_mut(id);
        if let EffectOwnership::Releasing(release) = fiber.ownership {
            if release.scope == scope {
                fiber.ownership = EffectOwnership::Releasing(
                    FiberRelease { scope, dispose_started: true },
                );
            }
        }
    }

    /// Ends the final release of a fiber.
    pub fn finalize_terminal_release(
        &mut self,
        id: u64,
        scope: u64,
        errors: Vec<String>,
    ) -> (r: Result<(), CoreError>)
        requires
            old(self).wf(),
            old(self)@.fibers.contains_key(id),
        ensures
            final(self).wf(),
            completion::release_result(text::texts(errors@), r),
            final(self)@ == old(self)@.finalized(id, scope, text::texts(errors@)),
    {
        let result = release_outcome(copy_texts(&errors));
        let fiber = self.fiber_mut(id);
        fiber.store_result(errors);
        let change = fiber.transition_disposed();
        fiber.clear_release_if_matching(scope);
        self.note(id, change);
        self.unregister_plugin_fiber(id);
        result
    }

    /// Disposes a fiber that owns no scope.
    pub fn complete_vacant_dispose(&mut self, id: u64)
        requires
            old(self).wf(),
            old(self)@.fibers.contains_key(id),
        ensures
            final(self).wf(),
            final(self)@ == old(self)@.vacated(id),
    {
        let fiber = self.fiber_mut(id);
        let none: Vec<String> = Vec::new();
        assert(text::texts(none@) =~= Seq::<Seq<char>>::empty());
        fiber.store_result(none);
        let change = fiber.transition_disposed();
        self.note(id, change);
        self.unregister_plugin_fiber(id);
    }

    /// What a caller sees that finds the fiber disposed by another one.
    pub fn observe_dispose_result(&self, id: u64) -> (r: ObservedDispose)
        requires
            self.wf(),
            self@.fibers.contains_key(id),
        ensures
            match self@.fibers[id].dispose_result {
                Some(errors) => r matches ObservedDispose::Known(result)
                    && completion::release_result(errors, result),
                None => match self@.fibers[id].ownership.scope_spec() {
                    Some(scope) => r == ObservedDispose::Wait(scope),
                    None => r == ObservedDispose::Known(Ok(())),
                },
            },
    {
        match self.fibers.get(id) {
            Some(fiber) => {
                assert(self@.fibers[id] == fiber@);
                match &fiber.dispose_result {
                    Some(errors) => ObservedDispose::Known(release_outcome(copy_texts(errors))),
                    None => match fiber.ownership.live_scope() {
                        Some(scope) => ObservedDispose::Wait(scope),
                        None => ObservedDispose::Known(Ok(())),
                    },
                }
            },
            None => ObservedDispose::Known(Ok(())),
        }
    }

    /// Stores the result of the final release unless there is one, and gives the one
    /// that counts.
    pub fn store_dispose_result(&mut self, id: u64, errors: Vec<String>) -> (r: Result<
        (),
        CoreError,
    >)
        requires
            old(self).wf(),
            old(self)@.fibers.contains_key(id),
        ensures
            final(self).wf(),
            final(self)@ == old(self)@.with_fiber(
                id,
                old(self)@.fibers[id].result_stored(text::texts(errors@)),
            ),
            completion::release_result(final(self)@.fibers[id].dispose_result->0, r),
    {
        let fiber = self.fiber_mut(id);
        fiber.store_result(errors);
        match &fiber.dispose_result {
            Some(stored) => release_outcome(copy_texts(stored)),
            None => Ok(()),
        }
    }

    /// Starts an operation on a fiber; one at a time.
    pub fn start_lifecycle(&mut self, id: u64) -> (r: Result<u64, CoreError>)
        requires
            old(self).wf(),
            old(self)@.next_id < u64::MAX,
            old(self)@.fibers.contains_key(id),
        ensures
            final(self).wf(),
            (r, final(self)@) == old(self)@.lifecycle_started(id),
    {
        let ghost before = self@;
        let fiber = self.fiber_mut(id);
        if fiber.disposed {
            assert(before.fibers.insert(id, before.fibers[id]) =~= before.fibers);
            return Err(CoreError::FiberDisposed);
        }
        if fiber.busy || fiber.lifecycle_in_flight() {
            assert(before.fibers.insert(id, before.fibers[id]) =~= before.fibers);
            return Err(CoreError::FiberBusy);
        }
        assert(before.fibers.insert(id, before.fibers[id]) =~= before.fibers);
        let token = self.allocate_id();
        let fiber = self.fiber_mut(id);
        fiber.busy = true;
        fiber.lifecycle = Some(token);
        Ok(token)
    }

    /// Ends an operation on a fiber. A fiber that was left between two states waits for
    /// its dependencies again. Returns the temporary scope that the host disposes.
    pub fn finish_lifecycle(&mut self, id: u64) -> (discard: Option<u64>)
        requires
            old(self).wf(),
            old(self)@.fibers.contains_key(id),
        ensures
            final(self).wf(),
            discard == old(self)@.discarded_scope(id),
            final(self)@ == old(self)@.lifecycle_closed(id),
    {
        let fiber = self.fiber_mut(id);
        fiber.busy = false;
        fiber.lifecycle = None;
        let between = fiber.state == FiberState::Loading || fiber.state == FiberState::Unloading;
        let mut discard: Option<u64> = None;
        if between && !fiber.disposed {
            if let EffectOwnership::Activating(scope) = fiber.ownership {
                fiber.ownership = EffectOwnership::Empty;
                discard = Some(scope);
            }
            let (_alive, change) = fiber.transition_if_alive(FiberState::Pending);
            self.note(id, change);
        }
        self.mark_dirty();
        discard
    }

    /// Puts a new plugin in, after the old one was unloaded.
    pub fn install_replacement(
        &mut self,
        id: u64,
        plugin: u64,
        dependencies: Vec<ServiceId>,
    ) -> (r: Result<(), CoreError>)
        requires
            old(self).wf(),
            old(self)@.fibers.contains_key(id),
        ensures
            final(self).wf(),
            r == (if old(self)@.fibers[id].alive() {
                Ok::<(), CoreError>(())
            } else {
                Err(CoreError::FiberDisposed)
            }),
            final(self)@ == old(self)@.with_fiber(
                id,
                FiberModel {
                    plugin,
                    dependencies: dependencies@,
                    ..old(self)@.fibers[id]
                }.waiting(),
            ),
    {
        let fiber = self.fiber_mut(id);
        fiber.plugin = plugin;
        fiber.dependencies = dependencies;
        fiber.reset();
        let (alive, change) = fiber.transition_if_alive(FiberState::Pending);
        self.note(id, change);
        if alive {
            Ok(())
        } else {
            Err(CoreError::FiberDisposed)
        }
    }

    /// Whether a fiber can be replaced by a plugin with this key.
    pub fn check_replacement(&self, id: u64, key: PluginKey) -> (r: Result<(), CoreError>)
        requires
            self.wf(),
            self@.fibers.contains_key(id),
        ensures
            r == (if !self@.fibers[id].alive() {
                Err(CoreError::FiberDisposed)
            } else if self@.fibers[id].plugin_key@ != key@ {
                Err(
                    CoreError::PluginKeyMismatch {
                        expected: self@.fibers[id].plugin_key,
                        actual: key,
                    },
                )
            } else {
                Ok::<(), CoreError>(())
            }),
    {
        match self.fibers.get(id) {
            Some(fiber) => {
                assert(self@.fibers[id] == fiber@);
                if fiber.is_disposed() {
                    Err(CoreError::FiberDisposed)
                } else if !fiber.plugin_key.same(key) {
                    Err(
                        CoreError::PluginKeyMismatch {
                            expected: fiber.plugin_key,
                            actual: key,
                        },
                    )
                } else {
                    Ok(())
                }
            },
            None => Err(CoreError::FiberDisposed),
        }
    }

    /// Begins to put a fiber in order after the worker of an operation was lost.
    pub fn begin_abort_recovery(&mut self, id: u64) -> (r: AbortRecovery)
        requires
            old(self).wf(),
            old(self)@.fibers.contains_key(id),
        ensures
            final(self).wf(),
            ({
                let fiber = old(self)@.fibers[id];
                if fiber.disposed {
                    &&& r is Nothing
                    &&& final(self)@ == old(self)@
                } else if fiber.state is Loading {
                    &&& r == AbortRecovery::Discard(
                        match fiber.ownership {
                            EffectOwnership::Activating(scope) => Some(scope),
                            _ => None,
                        },
                    )
                    &&& final(self)@ == old(self)@.with_fiber(
                        id,
                        FiberModel {
                            ownership: match fiber.ownership {
                                EffectOwnership::Activating(_) => EffectOwnership::Empty,
                                other => other,
                            },
                            ..fiber
                        }.waiting(),
                    )
                } else {
                    &&& r == (if fiber.state is Unloading {
                        AbortRecovery::Unload
                    } else {
                        AbortRecovery::Close
                    })
                    &&& final(self)@ == old(self)@
                }
            }),
    {
        let ghost before = self@;
        let fiber = self.fiber_mut(id);
        if fiber.disposed {
            assert(before.fibers.insert(id, before.fibers[id]) =~= before.fibers);
            return AbortRecovery::Nothing;
        }
        match fiber.state {
            FiberState::Loading => {
                let mut discard: Option<u64> = None;
                if let EffectOwnership::Activating(scope) = fiber.ownership {
                    fiber.ownership = EffectOwnership::Empty;
                    discard = Some(scope);
                }
                fiber.reset();
                let (_alive, change) = fiber.transition_if_alive(FiberState::Pending);
                self.note(id, change);
                AbortRecovery::Discard(discard)
            },
            FiberState::Unloading => {
                assert(before.fibers.insert(id, before.fibers[id]) =~= before.fibers);
                AbortRecovery::Unload
            },
            _ => {
                assert(before.fibers.insert(id, before.fibers[id]) =~= before.fibers);
                AbortRecovery::Close
            },
        }
    }

    /// Closes a recovery: a fiber that is still alive has failed.
    pub fn finish_abort_recovery(&mut self, id: u64)
        requires
            old(self).wf(),
            old(self)@.fibers.contains_key(id),
        ensures
            final(self).wf(),
            final(self)@ == (if old(self)@.fibers[id].disposed {
                old(self)@
            } else {
                old(self)@.with_fiber(id, old(self)@.fibers[id].aimed(FiberState::Failed))
            }),
    {
        let ghost before = self@;
        let fiber = self.fiber_mut(id);
        if fiber.disposed {
            assert(before.fibers.insert(id, before.fibers[id]) =~= before.fibers);
            return;
        }
        let (_alive, change) = fiber.transition_if_alive(FiberState::Failed);
        self.note(id, change);
    }
}

} // verus!
