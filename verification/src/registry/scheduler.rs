//! The recompute schedule: what changed, who has to react, and when all is quiet.

use super::inject::InjectionBatch;
use super::{Registry, RegistryModel};
use crate::effect::{EffectTree, ScopeModel};
use crate::error::CoreError;
use crate::fiber::{same_revisions, FiberModel, FiberState, HandleHandoff};
use crate::provider;
use crate::provider::provider_ids;
use vstd::prelude::*;

verus! {

/// The work of one recompute round.
pub struct RecomputeBatch {
    pub epoch: u64,
    pub ready: Vec<u64>,
    pub stale_scopes: Vec<u64>,
    pub unload: Vec<u64>,
    pub activate: Vec<u64>,
}

impl RecomputeBatch {
    pub open spec fn empty_spec(&self) -> bool {
        &&& self.ready@.len() == 0
        &&& self.stale_scopes@.len() == 0
        &&& self.unload@.len() == 0
        &&& self.activate@.len() == 0
    }

    pub fn is_empty(&self) -> (r: bool)
        ensures
            r == self.empty_spec(),
    {
        self.ready.len() == 0 && self.stale_scopes.len() == 0 && self.unload.len() == 0
            && self.activate.len() == 0
    }

    /// Takes the next piece of work: stale scopes go first, then plugins that have to be
    /// unloaded, then injections, then plugins that can be activated.
    pub fn next(&mut self) -> (r: BatchStep)
        ensures
            final(self).epoch == old(self).epoch,
            match r {
                BatchStep::Dispose(scope) => {
                    &&& old(self).stale_scopes@ == seq![scope] + final(self).stale_scopes@
                    &&& final(self).unload@ == old(self).unload@
                    &&& final(self).ready@ == old(self).ready@
                    &&& final(self).activate@ == old(self).activate@
                },
                BatchStep::Unload(id) => {
                    &&& old(self).stale_scopes@.len() == 0
                    &&& old(self).unload@ == seq![id] + final(self).unload@
                    &&& final(self).stale_scopes@ == old(self).stale_scopes@
                    &&& final(self).ready@ == old(self).ready@
                    &&& final(self).activate@ == old(self).activate@
                },
                BatchStep::Inject(id) => {
                    &&& old(self).stale_scopes@.len() == 0
                    &&& old(self).unload@.len() == 0
                    &&& old(self).ready@ == seq![id] + final(self).ready@
                    &&& final(self).stale_scopes@ == old(self).stale_scopes@
                    &&& final(self).unload@ == old(self).unload@
                    &&& final(self).activate@ == old(self).activate@
                },
                BatchStep::Activate(id) => {
                    &&& old(self).stale_scopes@.len() == 0
                    &&& old(self).unload@.len() == 0
                    &&& old(self).ready@.len() == 0
                    &&& old(self).activate@ == seq![id] + final(self).activate@
                    &&& final(self).stale_scopes@ == old(self).stale_scopes@
                    &&& final(self).unload@ == old(self).unload@
                    &&& final(self).ready@ == old(self).ready@
                },
                BatchStep::End => old(self).empty_spec() && final(self).empty_spec(),
            },
    {
        if self.stale_scopes.len() > 0 {
            let scope = self.stale_scopes.remove(0);
            assert(old(self).stale_scopes@ =~= seq![scope] + self.stale_scopes@);
            return BatchStep::Dispose(scope);
        }
        if self.unload.len() > 0 {
            let id = self.unload.remove(0);
            assert(old(self).unload@ =~= seq![id] + self.unload@);
            return BatchStep::Unload(id);
        }
        if self.ready.len() > 0 {
            let id = self.ready.remove(0);
            assert(old(self).ready@ =~= seq![id] + self.ready@);
            return BatchStep::Inject(id);
        }
        if self.activate.len() > 0 {
            let id = self.activate.remove(0);
            assert(old(self).activate@ =~= seq![id] + self.activate@);
            return BatchStep::Activate(id);
        }
        BatchStep::End
    }
}

/// A piece of work of a recompute round.
#[derive(Clone, Copy, Debug, PartialEq, Eq, Structural)]
pub enum BatchStep {
    /// Dispose the scope of a stale injection.
    Dispose(u64),
    /// Unload the plugin of this fiber.
    Unload(u64),
    /// Run the callback of this injection.
    Inject(u64),
    /// Activate the plugin of this fiber.
    Activate(u64),
    /// Nothing is left; take another batch.
    End,
}

/// What follows a recompute round without work.
#[derive(Clone, Copy, Debug, PartialEq, Eq, Structural)]
pub enum RoundEnd {
    /// Something changed meanwhile; take another batch.
    Continue,
    /// All is quiet; the waiting callers are told.
    Quiescent,
}

/// What a caller does that waits for quiet.
#[derive(Clone, Copy, Debug, PartialEq, Eq, Structural)]
pub enum SettleStep {
    /// All is quiet, or the caller itself is part of the recompute.
    Return,
    /// The scheduler is stopped; the caller recomputes.
    Recompute,
    /// The scheduler was woken; wait for quiet.
    Wait,
}

impl FiberModel {
    /// The scheduler takes care of the fiber: it is listed, nobody operates on it, and
    /// its first mount is over.
    pub open spec fn served(self) -> bool {
        &&& self.registered
        &&& !self.disposed
        &&& !self.busy
        &&& self.lifecycle is None
        &&& !(self.handoff is Preparing)
    }
}

impl RegistryModel {
    /// An active fiber whose providers are no longer those it was built on.
    pub open spec fn fiber_stale(self, id: u64) -> bool {
        let fiber = self.fibers[id];
        fiber.served() && fiber.state is Active && fiber.resolved != self.revisions(
            fiber.layers,
            fiber.dependencies,
        )
    }

    /// A waiting fiber whose dependencies are all there.
    pub open spec fn fiber_due(self, id: u64) -> bool {
        let fiber = self.fibers[id];
        fiber.served() && fiber.state is Pending && self.satisfied(
            fiber.layers,
            fiber.dependencies,
        )
    }

    /// No consumer has to react to anything.
    pub open spec fn quiet(self, scopes: Map<u64, ScopeModel>) -> bool {
        &&& forall|id: u64| #[trigger]
            self.injections.contains_key(id) ==> !self.runnable(scopes, self.injections[id])
        &&& forall|id: u64| #[trigger]
            self.injections.contains_key(id) ==> !self.stale(scopes, self.injections[id])
        &&& forall|id: u64| #[trigger] self.fibers.contains_key(id) ==> !self.fiber_stale(id)
        &&& forall|id: u64| #[trigger] self.fibers.contains_key(id) ==> !self.fiber_due(id)
    }
}

impl Registry {
    /// [`Self::fiber_ids`] lists every fiber once.
    pub proof fn lemma_fiber_ids(&self)
        requires
            self.wf(),
        ensures
            forall|i: int, j: int|
                0 <= i < j < self.fiber_ids().len() ==> self.fiber_ids()[i] < self.fiber_ids()[j],
            forall|id: u64|
                self.fiber_ids().contains(id) <==> #[trigger] self@.fibers.contains_key(id),
    {
        self.fibers.lemma_keys();
        assert forall|id: u64|
            self.fiber_ids().contains(id) <==> #[trigger] self@.fibers.contains_key(id) by {
            if self.fiber_ids().contains(id) {
                let i = choose|i: int|
                    0 <= i < self.fibers.keys().len() && self.fibers.keys()[i] == id;
                assert(self.fibers@.contains_key(self.fibers.keys()[i]));
            }
            if self@.fibers.contains_key(id) {
                assert(self.fibers@.contains_key(id));
            }
        }
    }

    /// Takes note that the scheduler starts; it starts once at most, and never after it
    /// was stopped. Returns whether this call starts it.
    pub fn start_scheduler(&mut self, executor_available: bool) -> (r: Result<bool, CoreError>)
        requires
            old(self).wf(),
        ensures
            final(self).wf(),
            if !executor_available || old(self)@.stopped {
                &&& r == Err::<bool, CoreError>(CoreError::SchedulerUnavailable)
                &&& final(self)@ == old(self)@
            } else {
                &&& r == Ok::<bool, CoreError>(!old(self)@.started)
                &&& final(self)@ == (RegistryModel { started: true, ..old(self)@ })
            },
    {
        if !executor_available || self.stopped {
            return Err(CoreError::SchedulerUnavailable);
        }
        let first = !self.started;
        self.started = true;
        Ok(first)
    }

    /// Takes note that the scheduler stops.
    pub fn request_stop_scheduler(&mut self)
        requires
            old(self).wf(),
        ensures
            final(self).wf(),
            final(self)@ == (RegistryModel { stopped: true, ..old(self)@ }),
    {
        self.stopped = true;
    }

    pub fn scheduler_stopped(&self) -> (r: bool)
        ensures
            r == self@.stopped,
    {
        self.stopped
    }

    /// The host wakes the scheduler: something changed and it is not stopped.
    pub fn wants_wake(&self) -> (r: bool)
        ensures
            r == (self@.dirty && !self@.stopped),
    {
        self.dirty && !self.stopped
    }

    /// What a caller does that waits for quiet. `nested` says that it runs inside a
    /// callback of the runtime.
    pub fn settle_step(&mut self, nested: bool) -> (r: SettleStep)
        requires
            old(self).wf(),
        ensures
            final(self).wf(),
            if nested || (!old(self)@.dirty && !old(self)@.recomputing) {
                r is Return && final(self)@ == old(self)@
            } else if old(self)@.stopped {
                r is Recompute && final(self)@ == old(self)@
            } else {
                r is Wait && final(self)@ == old(self)@.marked()
            },
    {
        if nested || (!self.dirty && !self.recomputing) {
            return SettleStep::Return;
        }
        if self.stopped {
            return SettleStep::Recompute;
        }
        self.mark_dirty();
        SettleStep::Wait
    }

    /// Begins a recompute unless one runs; that one will see all changes.
    pub fn begin_recompute(&mut self) -> (begun: bool)
        requires
            old(self).wf(),
        ensures
            final(self).wf(),
            begun == !old(self)@.recomputing,
            final(self)@ == (RegistryModel { recomputing: true, ..old(self)@ }),
    {
        let begun = !self.recomputing;
        self.recomputing = true;
        begun
    }

    /// Takes the work of one round.
    pub fn take_batch(&mut self, scopes: &EffectTree) -> (r: RecomputeBatch)
        requires
            old(self).wf(),
            scopes.wf(),
        ensures
            final(self).wf(),
            final(self)@ == (RegistryModel { dirty: false, ..old(self)@ }).without_stale(scopes@),
            final(self).injection_ids() == old(self).injection_ids(),
            final(self).fiber_ids() == old(self).fiber_ids(),
            r.epoch == old(self)@.epoch,
            r.stale_scopes@ == old(self)@.stale_scopes(scopes@, old(self).injection_ids()),
            r.ready@ == final(self)@.runnable_ids(scopes@, old(self).injection_ids()),
            r.unload@ == old(self).fiber_ids().filter(|id: u64| old(self)@.fiber_stale(id)),
            r.activate@ == old(self).fiber_ids().filter(|id: u64| old(self)@.fiber_due(id)),
            r.empty_spec() ==> final(self)@.quiet(scopes@),
            old(self)@.quiet(scopes@) ==> r.empty_spec() && final(self)@ == (RegistryModel {
                dirty: false,
                ..old(self)@
            }),
    {
        let ghost before = self@;
        let ghost ids = self.injection_ids();
        let epoch = self.epoch;
        self.dirty = false;
        proof {
            lemma_dirty_irrelevant(before, self@, scopes@, ids);
        }
        let InjectionBatch { ready, stale_scopes } = self.take_ready(scopes);
        let (unload, activate) = self.classify_plugin_fibers();
        proof {
            lemma_same_filters(self.fiber_ids(), before, self@);
            lemma_batch_quiet(*self, before, scopes@, self@);
        }
        RecomputeBatch { epoch, ready, stale_scopes, unload, activate }
    }

    /// Sorts out the fibers that have to be unloaded and those that can be activated.
    pub fn classify_plugin_fibers(&self) -> (r: (Vec<u64>, Vec<u64>))
        requires
            self.wf(),
        ensures
            r.0@ == self.fiber_ids().filter(|id: u64| self@.fiber_stale(id)),
            r.1@ == self.fiber_ids().filter(|id: u64| self@.fiber_due(id)),
    {
        let ghost keys = self.fibers.keys();
        let mut unload: Vec<u64> = Vec::new();
        let mut activate: Vec<u64> = Vec::new();
        let mut i: usize = 0;
        while i < self.fibers.len()
            invariant
                self.wf(),
                keys == self.fibers.keys(),
                i <= keys.len(),
                unload@ == keys.take(i as int).filter(|id: u64| self@.fiber_stale(id)),
                activate@ == keys.take(i as int).filter(|id: u64| self@.fiber_due(id)),
            decreases keys.len() - i,
        {
            let id: u64 = self.fibers.key_at(i);
            proof {
                assert(keys.take(i + 1).drop_last() =~= keys.take(i as int));
                assert(keys.take(i + 1).last() == id);
                reveal(Seq::filter);
            }
            let fiber = self.fibers.value_at(i);
            assert(self@.fibers[id] == fiber@);
            let served = fiber.registered && !fiber.disposed && !fiber.busy
                && !fiber.lifecycle_in_flight() && fiber.handoff != HandleHandoff::Preparing;
            if served {
                let providers = provider_ids(
                    &self.providers,
                    &self.fibers,
                    &fiber.layers,
                    &fiber.dependencies,
                );
                proof {
                    provider::lemma_revisions_len(
                        self@.providers,
                        self@.fibers,
                        fiber.layers@,
                        fiber.dependencies@,
                    );
                }
                if fiber.state == FiberState::Active {
                    if !same_revisions(&fiber.resolved, &providers) {
                        unload.push(id);
                    }
                } else if fiber.state == FiberState::Pending {
                    if providers.len() == fiber.dependencies.len() {
                        activate.push(id);
                    }
                }
            }
            i += 1;
        }
        assert(keys.take(i as int) =~= keys);
        (unload, activate)
    }

    /// Ends a round whose batch, taken at `epoch`, was empty. When nothing changed since,
    /// the recompute is over.
    pub fn close_round(&mut self, epoch: u64) -> (r: RoundEnd)
        requires
            old(self).wf(),
        ensures
            final(self).wf(),
            if old(self)@.dirty || old(self)@.epoch != epoch {
                r is Continue && final(self)@ == old(self)@
            } else {
                &&& r is Quiescent
                &&& final(self)@ == (RegistryModel { recomputing: false, ..old(self)@ })
            },
    {
        if self.dirty || self.epoch != epoch {
            return RoundEnd::Continue;
        }
        self.recomputing = false;
        RoundEnd::Quiescent
    }
}

/// Whether consumers have to react depends on providers, fibers and the consumer alone.
proof fn lemma_dirty_irrelevant(
    a: RegistryModel,
    b: RegistryModel,
    scopes: Map<u64, ScopeModel>,
    ids: Seq<u64>,
)
    requires
        b == (RegistryModel { dirty: false, ..a }),
    ensures
        b.stale_scopes(scopes, ids) == a.stale_scopes(scopes, ids),
    decreases ids.len(),
{
    if ids.len() > 0 {
        lemma_dirty_irrelevant(a, b, scopes, ids.drop_last());
    }
}

/// What an empty batch says of the registry before and after it was taken.
proof fn lemma_batch_quiet(
    registry: Registry,
    before: RegistryModel,
    scopes: Map<u64, ScopeModel>,
    after: RegistryModel,
)
    requires
        registry.wf(),
        registry@ == after,
        after == (RegistryModel { dirty: false, ..before }).without_stale(scopes),
    ensures
        ({
            let ids = registry.injection_ids();
            let fibers = registry.fiber_ids();
            let ready = after.runnable_ids(scopes, ids);
            let unload = fibers.filter(|id: u64| before.fiber_stale(id));
            let activate = fibers.filter(|id: u64| before.fiber_due(id));
            &&& ready.len() == 0 && unload.len() == 0 && activate.len() == 0 ==> after.quiet(scopes)
            &&& before.quiet(scopes) ==> ready.len() == 0 && unload.len() == 0 && activate.len()
                == 0 && before.stale_scopes(scopes, ids).len() == 0 && after == (RegistryModel {
                dirty: false,
                ..before
            })
        }),
{
    broadcast use vstd::seq_lib::group_filter_ensures;

    registry.lemma_injection_ids();
    registry.lemma_fiber_ids();
    let ids = registry.injection_ids();
    let fibers = registry.fiber_ids();
    let ready = after.runnable_ids(scopes, ids);
    let unload = fibers.filter(|id: u64| before.fiber_stale(id));
    let activate = fibers.filter(|id: u64| before.fiber_due(id));
    if ready.len() == 0 && unload.len() == 0 && activate.len() == 0 {
        assert forall|id: u64| #[trigger] after.injections.contains_key(id) implies !after.runnable(
            scopes,
            after.injections[id],
        ) by {
            let i = choose|i: int| 0 <= i < ids.len() && ids[i] == id;
            if after.runnable(scopes, after.injections[ids[i]]) {
                assert(ready.contains(ids[i]));
            }
        }
        assert forall|id: u64| #[trigger] after.fibers.contains_key(id) implies !after.fiber_stale(
            id,
        ) && !after.fiber_due(id) by {
            let i = choose|i: int| 0 <= i < fibers.len() && fibers[i] == id;
            if before.fiber_stale(fibers[i]) {
                assert(unload.contains(fibers[i]));
            }
            if before.fiber_due(fibers[i]) {
                assert(activate.contains(fibers[i]));
            }
        }
    }
    if before.quiet(scopes) {
        assert(after.injections =~= before.injections);
        if ready.len() > 0 {
            lemma_filtered_in(ids, |id: u64| after.runnable(scopes, after.injections[id]), 0);
            assert(before.injections.contains_key(ready[0]));
        }
        if unload.len() > 0 {
            lemma_filtered_in(fibers, |id: u64| before.fiber_stale(id), 0);
            assert(before.fibers.contains_key(unload[0]));
        }
        if activate.len() > 0 {
            lemma_filtered_in(fibers, |id: u64| before.fiber_due(id), 0);
            assert(before.fibers.contains_key(activate[0]));
        }
        lemma_no_stale_scopes(before, scopes, ids);
    }
}

/// What a filter keeps was there and passes.
proof fn lemma_filtered_in(ids: Seq<u64>, pred: spec_fn(u64) -> bool, i: int)
    requires
        0 <= i < ids.filter(pred).len(),
    ensures
        ids.contains(ids.filter(pred)[i]),
        pred(ids.filter(pred)[i]),
    decreases ids.len(),
{
    reveal(Seq::filter);
    if ids.len() > 0 {
        let front = ids.drop_last();
        if i < front.filter(pred).len() {
            lemma_filtered_in(front, pred, i);
            let kept = front.filter(pred)[i];
            let j = choose|j: int| 0 <= j < front.len() && front[j] == kept;
            assert(ids[j] == kept);
        } else {
            assert(ids.contains(ids.last()));
        }
    }
}

proof fn lemma_no_stale_scopes(
    registry: RegistryModel,
    scopes: Map<u64, ScopeModel>,
    ids: Seq<u64>,
)
    requires
        registry.quiet(scopes),
        forall|i: int|
            0 <= i < ids.len() ==> registry.injections.contains_key(#[trigger] ids[i]),
    ensures
        registry.stale_scopes(scopes, ids).len() == 0,
    decreases ids.len(),
{
    if ids.len() > 0 {
        let front = ids.drop_last();
        assert forall|i: int| 0 <= i < front.len() implies registry.injections.contains_key(
            #[trigger] front[i],
        ) by {
            assert(front[i] == ids[i]);
        }
        lemma_no_stale_scopes(registry, scopes, front);
        assert(registry.injections.contains_key(ids[ids.len() - 1]));
    }
}

proof fn lemma_same_filters(ids: Seq<u64>, a: RegistryModel, b: RegistryModel)
    requires
        a.fibers == b.fibers,
        a.providers == b.providers,
    ensures
        ids.filter(|id: u64| a.fiber_stale(id)) == ids.filter(|id: u64| b.fiber_stale(id)),
        ids.filter(|id: u64| a.fiber_due(id)) == ids.filter(|id: u64| b.fiber_due(id)),
    decreases ids.len(),
{
    reveal(Seq::filter);
    if ids.len() > 0 {
        lemma_same_filters(ids.drop_last(), a, b);
    }
}

} // verus!
