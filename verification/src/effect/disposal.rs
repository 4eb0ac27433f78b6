//! The walk of a disposal over a scope tree.

use super::dispose::{
    Coordinator, CoordinatorModel, DisposeFrame, DisposePolicy, FrameModel,
};
use super::{dispose, Cleanup, EffectTree, ManagedWork, ScopeModel};
use crate::effect;
use vstd::prelude::*;

verus! {

/// A disposal in progress: the scopes that were entered and not yet left, the
/// innermost last.
pub struct Disposal {
    frames: Vec<DisposeFrame>,
}

/// What happened in one step of a [`Disposal`].
pub enum DisposeStep {
    /// The disposal of this child scope began.
    Entered(u64),
    /// This child scope was disposed already.
    Skipped(u64),
    /// The host runs this clean-up of this scope now.
    Run { scope: u64, cleanup: Cleanup },
    /// All clean-ups of a scope ran; the host starts this coordinator.
    Coordinate(Coordinator),
    /// All clean-ups of this scope ran; the host aborts these tasks.
    Abort { scope: u64, tasks: Vec<u64> },
    /// Nothing is left.
    Done,
}

/// What the frames hold.
pub open spec fn frame_models(frames: Seq<DisposeFrame>) -> Seq<FrameModel> {
    frames.map_values(|frame: DisposeFrame| frame@)
}

proof fn lemma_frames_push(frames: Seq<DisposeFrame>, frame: DisposeFrame)
    ensures
        frame_models(frames.push(frame)) == frame_models(frames).push(frame@),
{
    assert(frame_models(frames.push(frame)) =~= frame_models(frames).push(frame@));
}

/// The frames with the innermost one replaced.
pub open spec fn with_top(frames: Seq<FrameModel>, top: FrameModel) -> Seq<FrameModel> {
    frames.drop_last().push(top)
}

/// The work that waits in a scope when its last clean-up has run: what was there when
/// the disposal began, then what came in meanwhile.
pub open spec fn pending_work(scopes: Map<u64, ScopeModel>, frame: FrameModel) -> Seq<ManagedWork> {
    if scopes.contains_key(frame.scope) {
        frame.work + scopes[frame.scope].work
    } else {
        frame.work
    }
}

/// The scopes after the work of `id` was taken out.
pub open spec fn work_taken(scopes: Map<u64, ScopeModel>, id: u64) -> Map<u64, ScopeModel> {
    if scopes.contains_key(id) {
        scopes.insert(id, ScopeModel { work: Seq::empty(), ..scopes[id] })
    } else {
        scopes
    }
}

/// The scopes after all of `work` was handed to `id`.
pub open spec fn works_added(
    scopes: Map<u64, ScopeModel>,
    id: u64,
    work: Seq<ManagedWork>,
) -> Map<u64, ScopeModel> {
    if scopes.contains_key(id) {
        scopes.insert(id, ScopeModel { work: scopes[id].work + work, ..scopes[id] })
    } else {
        scopes
    }
}

/// The scope that inherits the tasks of a dropped scope.
pub open spec fn heir(scopes: Map<u64, ScopeModel>, id: u64) -> Option<u64> {
    if scopes.contains_key(id) {
        match scopes[id].parent {
            Some(parent) if scopes.contains_key(parent) => Some(parent),
            _ => None,
        }
    } else {
        None
    }
}

/// The coordinator of a scope whose last clean-up has run.
pub open spec fn coordinator_of(
    scopes: Map<u64, ScopeModel>,
    frame: FrameModel,
) -> CoordinatorModel {
    CoordinatorModel {
        scope: frame.scope,
        waits: dispose::waits_in(pending_work(scopes, frame)),
        disposers: frame.disposers,
        tasks: dispose::task_ids(pending_work(scopes, frame)),
        errors: frame.errors,
    }
}

/// The scopes after a frame was closed.
pub open spec fn closed_scopes(
    scopes: Map<u64, ScopeModel>,
    frame: FrameModel,
) -> Map<u64, ScopeModel> {
    match frame.policy {
        DisposePolicy::HoistToParent => if scopes.contains_key(frame.scope) {
            dispose::hoisted(work_taken(scopes, frame.scope), frame.scope)
        } else {
            scopes
        },
        DisposePolicy::AwaitLocal => work_taken(scopes, frame.scope),
        DisposePolicy::Abandon => dispose::finished(scopes, frame.scope, Seq::empty()),
        DisposePolicy::Dropped => {
            let inherited = match heir(scopes, frame.scope) {
                Some(parent) => works_added(scopes, parent, frame.work),
                None => scopes,
            };
            dispose::finished(inherited, frame.scope, Seq::empty())
        },
    }
}

/// The tasks to abort when a frame is closed.
pub open spec fn aborted_tasks(scopes: Map<u64, ScopeModel>, frame: FrameModel) -> Seq<u64> {
    if frame.policy is Dropped && heir(scopes, frame.scope) is Some {
        Seq::empty()
    } else {
        dispose::task_ids(frame.work)
    }
}

/// The result of closing a frame.
pub open spec fn closing_step(
    scopes: Map<u64, ScopeModel>,
    frame: FrameModel,
    step: DisposeStep,
) -> bool {
    if frame.policy.coordinated() {
        step matches DisposeStep::Coordinate(coordinator) && coordinator@ == coordinator_of(
            scopes,
            frame,
        )
    } else {
        step matches DisposeStep::Abort { scope, tasks } && scope == frame.scope && tasks@
            == aborted_tasks(scopes, frame)
    }
}

/// One step of a disposal takes `frames` and `scopes` to `frames2` and `scopes2` and
/// yields `step`.
pub open spec fn stepped(
    frames: Seq<FrameModel>,
    scopes: Map<u64, ScopeModel>,
    frames2: Seq<FrameModel>,
    scopes2: Map<u64, ScopeModel>,
    step: DisposeStep,
) -> bool {
    if frames.len() == 0 {
        &&& step is Done
        &&& frames2 == frames
        &&& scopes2 == scopes
    } else {
        let top = frames.last();
        if top.children.len() > 0 {
            let child = top.children.last();
            let rest = with_top(
                frames,
                FrameModel { children: top.children.drop_last(), ..top },
            );
            if effect::scope_disposed(scopes, child) {
                &&& step == DisposeStep::Skipped(child)
                &&& frames2 == rest
                &&& scopes2 == if top.policy.coordinated() {
                    dispose::adopted(scopes, top.scope, child)
                } else {
                    dispose::detached(scopes, child)
                }
            } else {
                &&& step == DisposeStep::Entered(child)
                &&& frames2 == rest.push(
                    dispose::opening_frame(scopes, child, top.policy.below()),
                )
                &&& scopes2 == scopes.insert(child, dispose::begun(scopes[child]))
            }
        } else if top.cleanups.len() > 0 {
            &&& step == (DisposeStep::Run { scope: top.scope, cleanup: top.cleanups.last() })
            &&& frames2 == with_top(
                frames,
                FrameModel { cleanups: top.cleanups.drop_last(), ..top },
            )
            &&& scopes2 == scopes
        } else {
            &&& closing_step(scopes, top, step)
            &&& frames2 == frames.drop_last()
            &&& scopes2 == closed_scopes(scopes, top)
        }
    }
}

impl View for Disposal {
    type V = Seq<FrameModel>;

    closed spec fn view(&self) -> Seq<FrameModel> {
        frame_models(self.frames@)
    }
}

impl Disposal {
    /// Begins the disposal of a scope. On a scope that was disposed before, there is
    /// nothing to do.
    pub fn start(tree: &mut EffectTree, id: u64, policy: DisposePolicy) -> (r: Disposal)
        requires
            old(tree).wf(),
        ensures
            final(tree).wf(),
            final(tree).next_id() == old(tree).next_id(),
            if effect::scope_disposed(old(tree)@, id) {
                &&& r@ == Seq::<FrameModel>::empty()
                &&& final(tree)@ == old(tree)@
            } else {
                &&& r@ == seq![dispose::opening_frame(old(tree)@, id, policy)]
                &&& final(tree)@ == old(tree)@.insert(id, dispose::begun(old(tree)@[id]))
            },
    {
        let mut frames: Vec<DisposeFrame> = Vec::new();
        match tree.begin_dispose(id, policy) {
            Some(frame) => {
                let ghost model = frame@;
                frames.push(frame);
                assert(frame_models(frames@) =~= seq![model]);
            },
            None => {
                assert(frame_models(frames@) =~= Seq::<FrameModel>::empty());
            },
        }
        Disposal { frames }
    }

    /// Takes one step.
    pub fn step(&mut self, tree: &mut EffectTree) -> (r: DisposeStep)
        requires
            old(tree).wf(),
        ensures
            final(tree).wf(),
            final(tree).next_id() == old(tree).next_id(),
            stepped(old(self)@, old(tree)@, final(self)@, final(tree)@, r),
    {
        let ghost frames = self@;
        let ghost scopes = tree@;
        let ghost all = self.frames@;
        let mut top = match self.frames.pop() {
            Some(frame) => frame,
            None => {
                return DisposeStep::Done;
            },
        };
        proof {
            assert(frames.last() == top@);
            assert(all.drop_last() =~= self.frames@);
            assert(self@ =~= frames.drop_last());
        }
        let ghost model = top@;
        match top.children.pop() {
            Some(child) => {
                proof {
                    assert(top@ =~= (FrameModel { children: model.children.drop_last(), ..model }));
                    lemma_frames_push(self.frames@, top);
                }
                let policy = top.policy;
                let scope = top.scope;
                self.frames.push(top);
                match tree.begin_dispose(child, policy.for_children()) {
                    Some(frame) => {
                        proof {
                            lemma_frames_push(self.frames@, frame);
                        }
                        self.frames.push(frame);
                        DisposeStep::Entered(child)
                    },
                    None => {
                        if policy.is_coordinated() {
                            tree.adopt(scope, child);
                        } else {
                            tree.detach_from_parent(child);
                        }
                        DisposeStep::Skipped(child)
                    },
                }
            },
            None => match top.cleanups.pop() {
                Some(cleanup) => {
                    proof {
                        assert(top@ =~= (FrameModel {
                            cleanups: model.cleanups.drop_last(),
                            ..model
                        }));
                        lemma_frames_push(self.frames@, top);
                    }
                    let scope = top.scope;
                    self.frames.push(top);
                    DisposeStep::Run { scope, cleanup }
                },
                None => {
                    assert(top@ =~= model);
                    tree.close_frame(top)
                },
            },
        }
    }

    /// Notes that the clean-up that was run last failed.
    pub fn cleanup_failed(&mut self, message: String)
        requires
            old(self)@.len() > 0,
        ensures
            final(self)@ == with_top(
                old(self)@,
                FrameModel {
                    errors: old(self)@.last().errors.push(message),
                    ..old(self)@.last()
                },
            ),
    {
        let ghost frames = self@;
        let ghost all = self.frames@;
        if let Some(frame) = self.frames.pop() {
            let mut top = frame;
            let ghost model = top@;
            assert(frames.last() == top@);
            assert(all.drop_last() =~= self.frames@);
            assert(self@ =~= frames.drop_last());
            top.errors.push(message);
            proof {
                assert(top@ =~= (FrameModel { errors: model.errors.push(message), ..model }));
                lemma_frames_push(self.frames@, top);
            }
            self.frames.push(top);
        }
    }
}

impl EffectTree {
    fn take_work(&mut self, id: u64) -> (r: Vec<ManagedWork>)
        requires
            old(self).wf(),
        ensures
            final(self).wf(),
            final(self).next_id() == old(self).next_id(),
            r@ == (if old(self)@.contains_key(id) {
                old(self)@[id].work
            } else {
                Seq::empty()
            }),
            final(self)@ == work_taken(old(self)@, id),
    {
        let ghost before = self@;
        let ghost raw = self.scopes@;
        let mut work: Vec<ManagedWork> = Vec::new();
        if let Some(scope) = self.scopes.get_mut(id) {
            std::mem::swap(&mut work, &mut scope.work);
            proof {
                assert(scope@ =~= (ScopeModel { work: Seq::empty(), ..before[id] }));
            }
        }
        proof {
            assert(before.contains_key(id) == raw.contains_key(id));
            if raw.contains_key(id) {
                effect::lemma_models_insert(raw, id, self.scopes@[id]);
            } else {
                assert(self.scopes@ == raw);
            }
            assert(self@ == work_taken(before, id));
        }
        work
    }

    fn push_works(&mut self, id: u64, work: Vec<ManagedWork>)
        requires
            old(self).wf(),
        ensures
            final(self).wf(),
            final(self).next_id() == old(self).next_id(),
            final(self)@ == works_added(old(self)@, id, work@),
    {
        let ghost before = self@;
        let ghost raw = self.scopes@;
        let ghost added = work@;
        let mut extra = work;
        if let Some(scope) = self.scopes.get_mut(id) {
            scope.work.append(&mut extra);
            proof {
                assert(scope@ =~= (ScopeModel { work: before[id].work + added, ..before[id] }));
            }
        }
        proof {
            assert(before.contains_key(id) == raw.contains_key(id));
            if raw.contains_key(id) {
                effect::lemma_models_insert(raw, id, self.scopes@[id]);
            } else {
                assert(self.scopes@ == raw);
            }
            assert(self@ == works_added(before, id, added));
        }
    }

    /// Passes the wait for a scope to its parent, or to the scope itself when it has
    /// none, and detaches it.
    fn hoist(&mut self, id: u64)
        requires
            old(self).wf(),
            old(self)@.contains_key(id),
        ensures
            final(self).wf(),
            final(self).next_id() == old(self).next_id(),
            final(self)@ == dispose::hoisted(old(self)@, id),
    {
        match self.parent_id(id) {
            Some(parent) => {
                self.push_work(parent, ManagedWork::ChildWait(id));
            },
            None => {
                self.push_work(id, ManagedWork::ChildWait(id));
            },
        }
        self.detach_from_parent(id);
    }

    fn close_frame(&mut self, frame: DisposeFrame) -> (r: DisposeStep)
        requires
            old(self).wf(),
        ensures
            final(self).wf(),
            final(self).next_id() == old(self).next_id(),
            closing_step(old(self)@, frame@, r),
            final(self)@ == closed_scopes(old(self)@, frame@),
    {
        let ghost before = self@;
        let ghost model = frame@;
        let id = frame.scope;
        match frame.policy {
            DisposePolicy::HoistToParent => {
                let mut work = frame.work;
                let mut late = self.take_work(id);
                work.append(&mut late);
                assert(work@ =~= pending_work(before, model));
                let (waits, tasks) = dispose::split_work(&work);
                if self.scope(id).is_some() {
                    self.hoist(id);
                }
                DisposeStep::Coordinate(
                    Coordinator::new(id, waits, frame.disposers, tasks, frame.errors),
                )
            },
            DisposePolicy::AwaitLocal => {
                let mut work = frame.work;
                let mut late = self.take_work(id);
                work.append(&mut late);
                assert(work@ =~= pending_work(before, model));
                let (waits, tasks) = dispose::split_work(&work);
                DisposeStep::Coordinate(
                    Coordinator::new(id, waits, frame.disposers, tasks, frame.errors),
                )
            },
            DisposePolicy::Abandon => {
                let (_waits, tasks) = dispose::split_work(&frame.work);
                let none: Vec<String> = Vec::new();
                assert(crate::text::texts(none@) =~= Seq::<Seq<char>>::empty());
                self.finish(id, none);
                DisposeStep::Abort { scope: id, tasks }
            },
            DisposePolicy::Dropped => {
                let mut tasks: Vec<u64> = Vec::new();
                match self.parent_id(id) {
                    Some(parent) => {
                        self.push_works(parent, frame.work);
                    },
                    None => {
                        let (_waits, own) = dispose::split_work(&frame.work);
                        tasks = own;
                    },
                }
                let none: Vec<String> = Vec::new();
                assert(crate::text::texts(none@) =~= Seq::<Seq<char>>::empty());
                self.finish(id, none);
                DisposeStep::Abort { scope: id, tasks }
            },
        }
    }

    /// Forgets a disposed scope that nobody holds any more. Work that it still has
    /// passes to its parent; without a parent its tasks are handed back to be aborted.
    pub fn forget(&mut self, id: u64) -> (tasks: Vec<u64>)
        requires
            old(self).wf(),
            old(self)@.contains_key(id),
            old(self)@[id].disposed,
        ensures
            final(self).wf(),
            final(self).next_id() == old(self).next_id(),
            match heir(old(self)@, id) {
                Some(parent) => {
                    &&& tasks@ == Seq::<u64>::empty()
                    &&& final(self)@ == works_added(
                        old(self)@,
                        parent,
                        old(self)@[id].work,
                    ).remove(id)
                },
                None => {
                    &&& tasks@ == dispose::task_ids(old(self)@[id].work)
                    &&& final(self)@ == old(self)@.remove(id)
                },
            },
    {
        let ghost before = self@;
        let work = self.take_work(id);
        let ghost work_model = work@;
        let mut tasks: Vec<u64> = Vec::new();
        let inheritor = self.parent_id(id);
        match inheritor {
            Some(parent) => {
                self.push_works(parent, work);
            },
            None => {
                let (_waits, own) = dispose::split_work(&work);
                tasks = own;
            },
        }
        let ghost middle = self@;
        let ghost raw = self.scopes@;
        self.scopes.remove(id);
        proof {
            assert(middle.contains_key(id));
            assert(raw.contains_key(id));
            assert(self@ =~= middle.remove(id));
            match heir(before, id) {
                Some(parent) => {
                    assert(parent != id);
                    assert(self@ =~= works_added(before, parent, work_model).remove(id));
                },
                None => {
                    assert(self@ =~= before.remove(id));
                },
            }
        }
        tasks
    }
}

} // verus!
