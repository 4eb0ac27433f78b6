//! Disposal of scopes: the order of clean-ups, and who waits for what.
//!
//! A [`Disposal`] walks a scope tree: the children of a scope first, the youngest
//! child first, then the clean-ups of the scope, the youngest first. The host runs
//! the clean-ups one by one. What is left of a scope then goes to a [`Coordinator`]:
//! it waits for the child scopes, runs the asynchronous disposers one after the other
//! (the youngest first) and waits for the managed tasks at last.

use super::completion::DisposeCompletion;
use super::{Cleanup, EffectTree, ManagedWork, ScopeModel};
use crate::effect;
use crate::error::CoreError;
use crate::text;
use crate::text::sandwich;
use vstd::prelude::*;

verus! {

/// How the release of a scope ends.
#[derive(Clone, Copy, Debug, PartialEq, Eq, Structural)]
pub enum DisposePolicy {
    /// The parent scope waits for the release.
    HoistToParent,
    /// The caller waits for the release; the scope stays with its parent until then.
    AwaitLocal,
    /// Uncontrolled end: no disposer is started and tasks are aborted.
    Abandon,
    /// The last owner is gone: no disposer is started and tasks pass to the parent.
    Dropped,
}

impl DisposePolicy {
    /// How the children of a scope with this policy are released.
    pub open spec fn below(self) -> DisposePolicy {
        if self.coordinated() {
            DisposePolicy::HoistToParent
        } else {
            DisposePolicy::Abandon
        }
    }

    /// The release runs disposers and waits for tasks.
    pub open spec fn coordinated(self) -> bool {
        self is HoistToParent || self is AwaitLocal
    }

    pub(crate) fn is_coordinated(self) -> (r: bool)
        ensures
            r == self.coordinated(),
    {
        match self {
            DisposePolicy::HoistToParent | DisposePolicy::AwaitLocal => true,
            _ => false,
        }
    }

    pub(crate) fn for_children(self) -> (r: DisposePolicy)
        ensures
            r == self.below(),
    {
        if self.is_coordinated() {
            DisposePolicy::HoistToParent
        } else {
            DisposePolicy::Abandon
        }
    }
}

/// What a disposal took out of a scope and has not dealt with yet.
pub struct DisposeFrame {
    pub scope: u64,
    pub policy: DisposePolicy,
    pub children: Vec<u64>,
    pub cleanups: Vec<Cleanup>,
    pub disposers: Vec<u64>,
    pub work: Vec<ManagedWork>,
    pub errors: Vec<String>,
}

/// What a [`DisposeFrame`] holds.
pub struct FrameModel {
    pub scope: u64,
    pub policy: DisposePolicy,
    pub children: Seq<u64>,
    pub cleanups: Seq<Cleanup>,
    pub disposers: Seq<u64>,
    pub work: Seq<ManagedWork>,
    pub errors: Seq<String>,
}

impl View for DisposeFrame {
    type V = FrameModel;

    open spec fn view(&self) -> FrameModel {
        FrameModel {
            scope: self.scope,
            policy: self.policy,
            children: self.children@,
            cleanups: self.cleanups@,
            disposers: self.disposers@,
            work: self.work@,
            errors: self.errors@,
        }
    }
}

/// The frame of a scope whose disposal begins.
pub open spec fn opening_frame(
    scopes: Map<u64, ScopeModel>,
    id: u64,
    policy: DisposePolicy,
) -> FrameModel {
    FrameModel {
        scope: id,
        policy,
        children: scopes[id].children,
        cleanups: scopes[id].cleanups,
        disposers: scopes[id].disposers,
        work: scopes[id].work,
        errors: Seq::empty(),
    }
}

/// A scope whose disposal begins: it gives up everything it owns.
pub open spec fn begun(scope: ScopeModel) -> ScopeModel {
    ScopeModel {
        disposed: true,
        children: Seq::empty(),
        cleanups: Seq::empty(),
        disposers: Seq::empty(),
        work: Seq::empty(),
        completion: Some(None),
        ..scope
    }
}

/// The scopes after `id` left its parent.
pub open spec fn detached(scopes: Map<u64, ScopeModel>, id: u64) -> Map<u64, ScopeModel> {
    if !scopes.contains_key(id) {
        scopes
    } else {
        match scopes[id].parent {
            None => scopes,
            Some(parent) => {
                let alone = scopes.insert(id, ScopeModel { parent: None, ..scopes[id] });
                if alone.contains_key(parent) {
                    alone.insert(
                        parent,
                        ScopeModel {
                            children: effect::without(alone[parent].children, id),
                            ..alone[parent]
                        },
                    )
                } else {
                    alone
                }
            },
        }
    }
}

/// The release of `id` still runs.
pub open spec fn releasing(scopes: Map<u64, ScopeModel>, id: u64) -> bool {
    scopes.contains_key(id) && scopes[id].completion == Some(None::<Seq<Seq<char>>>)
}

/// The scopes after `parent` took over the wait for a child whose release runs.
pub open spec fn adopted(
    scopes: Map<u64, ScopeModel>,
    parent: u64,
    child: u64,
) -> Map<u64, ScopeModel> {
    if releasing(scopes, child) {
        detached(effect::work_added(scopes, parent, ManagedWork::ChildWait(child)), child)
    } else {
        detached(scopes, child)
    }
}

/// The scopes after the release of `id` ended; the first result stays.
pub open spec fn finished(
    scopes: Map<u64, ScopeModel>,
    id: u64,
    errors: Seq<Seq<char>>,
) -> Map<u64, ScopeModel> {
    if releasing(scopes, id) {
        detached(
            scopes.insert(id, ScopeModel { completion: Some(Some(errors)), ..scopes[id] }),
            id,
        )
    } else {
        scopes
    }
}

/// The scopes after the wait for `id` passed to its parent, or to the scope itself
/// when it has none.
pub open spec fn hoisted(scopes: Map<u64, ScopeModel>, id: u64) -> Map<u64, ScopeModel> {
    let holder = match scopes[id].parent {
        Some(parent) if scopes.contains_key(parent) => parent,
        _ => id,
    };
    detached(effect::work_added(scopes, holder, ManagedWork::ChildWait(id)), id)
}

/// The scopes that `work` waits for, in order.
pub open spec fn waits_in(work: Seq<ManagedWork>) -> Seq<u64>
    decreases work.len(),
{
    if work.len() == 0 {
        Seq::empty()
    } else {
        match work.last() {
            ManagedWork::ChildWait(id) => waits_in(work.drop_last()).push(id),
            ManagedWork::Task(_) => waits_in(work.drop_last()),
        }
    }
}

/// The tasks in `work`, in order.
pub open spec fn task_ids(work: Seq<ManagedWork>) -> Seq<u64>
    decreases work.len(),
{
    if work.len() == 0 {
        Seq::empty()
    } else {
        match work.last() {
            ManagedWork::Task(id) => task_ids(work.drop_last()).push(id),
            ManagedWork::ChildWait(_) => task_ids(work.drop_last()),
        }
    }
}

pub(crate) fn split_work(work: &Vec<ManagedWork>) -> (r: (Vec<u64>, Vec<u64>))
    ensures
        r.0@ == waits_in(work@),
        r.1@ == task_ids(work@),
{
    let mut waits: Vec<u64> = Vec::new();
    let mut tasks: Vec<u64> = Vec::new();
    let mut i: usize = 0;
    while i < work.len()
        invariant
            i <= work@.len(),
            waits@ == waits_in(work@.take(i as int)),
            tasks@ == task_ids(work@.take(i as int)),
        decreases work@.len() - i,
    {
        assert(work@.take(i + 1).drop_last() =~= work@.take(i as int));
        match work[i] {
            ManagedWork::ChildWait(id) => {
                waits.push(id);
            },
            ManagedWork::Task(id) => {
                tasks.push(id);
            },
        }
        i += 1;
    }
    assert(work@.take(i as int) =~= work@);
    (waits, tasks)
}

/// The asynchronous rest of a release.
pub struct Coordinator {
    scope: u64,
    waits: Vec<u64>,
    disposers: Vec<u64>,
    tasks: Vec<u64>,
    errors: Vec<String>,
}

/// What a [`Coordinator`] holds.
pub struct CoordinatorModel {
    pub scope: u64,
    pub waits: Seq<u64>,
    pub disposers: Seq<u64>,
    pub tasks: Seq<u64>,
    pub errors: Seq<String>,
}

impl View for Coordinator {
    type V = CoordinatorModel;

    closed spec fn view(&self) -> CoordinatorModel {
        CoordinatorModel {
            scope: self.scope,
            waits: self.waits@,
            disposers: self.disposers@,
            tasks: self.tasks@,
            errors: self.errors@,
        }
    }
}

/// What the host does next for a [`Coordinator`].
pub enum CoordinatorAction {
    /// Wait until the release of this scope ended.
    AwaitChild(u64),
    /// Run the disposer with this handle.
    RunDisposer(u64),
    /// Wait for the task with this handle.
    AwaitTask(u64),
    /// The release is over, with these errors.
    Finish(Vec<String>),
}

impl CoordinatorModel {
    /// This is what comes next: the children, the first one first, then the disposers, the
    /// last one first, then the tasks, then the end with all errors.
    pub open spec fn performs(self, action: CoordinatorAction) -> bool {
        if self.waits.len() > 0 {
            action == CoordinatorAction::AwaitChild(self.waits[0])
        } else if self.disposers.len() > 0 {
            action == CoordinatorAction::RunDisposer(self.disposers.last())
        } else if self.tasks.len() > 0 {
            action == CoordinatorAction::AwaitTask(self.tasks[0])
        } else {
            action matches CoordinatorAction::Finish(errors) && errors@ == self.errors
        }
    }

    /// What is left once that was handed out.
    pub open spec fn advanced(self) -> CoordinatorModel {
        if self.waits.len() > 0 {
            CoordinatorModel { waits: self.waits.drop_first(), ..self }
        } else if self.disposers.len() > 0 {
            CoordinatorModel { disposers: self.disposers.drop_last(), ..self }
        } else if self.tasks.len() > 0 {
            CoordinatorModel { tasks: self.tasks.drop_first(), ..self }
        } else {
            CoordinatorModel { errors: Seq::empty(), ..self }
        }
    }
}

impl Coordinator {
    pub(crate) fn new(
        scope: u64,
        waits: Vec<u64>,
        disposers: Vec<u64>,
        tasks: Vec<u64>,
        errors: Vec<String>,
    ) -> (r: Coordinator)
        ensures
            r@ == (CoordinatorModel {
                scope,
                waits: waits@,
                disposers: disposers@,
                tasks: tasks@,
                errors: errors@,
            }),
    {
        Coordinator { scope, waits, disposers, tasks, errors }
    }

    /// The scope that is released.
    pub fn scope(&self) -> (r: u64)
        ensures
            r == self@.scope,
    {
        self.scope
    }

    /// The next action: all children, then the disposers from the youngest to the
    /// oldest, then the tasks, then the end.
    pub fn next(&mut self) -> (r: CoordinatorAction)
        ensures
            old(self)@.performs(r),
            final(self)@ == old(self)@.advanced(),
    {
        if self.waits.len() > 0 {
            let child = self.waits.remove(0);
            assert(self.waits@ =~= old(self).waits@.drop_first());
            return CoordinatorAction::AwaitChild(child);
        }
        match self.disposers.pop() {
            Some(disposer) => {
                assert(self.disposers@ =~= old(self).disposers@.drop_last());
                CoordinatorAction::RunDisposer(disposer)
            },
            None => {
                if self.tasks.len() > 0 {
                    let task = self.tasks.remove(0);
                    assert(self.tasks@ =~= old(self).tasks@.drop_first());
                    return CoordinatorAction::AwaitTask(task);
                }
                let mut errors: Vec<String> = Vec::new();
                std::mem::swap(&mut errors, &mut self.errors);
                CoordinatorAction::Finish(errors)
            },
        }
    }

    /// A child scope ended its release with these errors.
    pub fn child_failed(&mut self, errors: Vec<String>)
        ensures
            final(self)@ == (CoordinatorModel {
                errors: old(self)@.errors + errors@,
                ..old(self)@
            }),
    {
        let mut nested = errors;
        self.errors.append(&mut nested);
    }

    /// The wait for a child scope itself failed.
    pub fn child_join_failed(&mut self, reason: &str)
        ensures
            final(self)@.errors.len() == old(self)@.errors.len() + 1,
            final(self)@ == (CoordinatorModel {
                errors: old(self)@.errors.push(final(self)@.errors.last()),
                ..old(self)@
            }),
            final(self)@.errors.last()@ == "child dispose wait join failed: "@ + reason@ + ""@,
    {
        self.errors.push(sandwich("child dispose wait join failed: ", reason, ""));
    }

    /// A disposer failed with this message.
    pub fn disposer_failed(&mut self, message: String)
        ensures
            final(self)@ == (CoordinatorModel {
                errors: old(self)@.errors.push(message),
                ..old(self)@
            }),
    {
        self.errors.push(message);
    }

    /// A managed task did not end normally.
    pub fn task_join_failed(&mut self, reason: &str)
        ensures
            final(self)@.errors.len() == old(self)@.errors.len() + 1,
            final(self)@ == (CoordinatorModel {
                errors: old(self)@.errors.push(final(self)@.errors.last()),
                ..old(self)@
            }),
            final(self)@.errors.last()@ == "managed task join failed: "@ + reason@ + ""@,
    {
        self.errors.push(sandwich("managed task join failed: ", reason, ""));
    }
}

impl EffectTree {
    /// Begins the disposal of a scope. Only the first call on a scope gets a frame.
    pub fn begin_dispose(&mut self, id: u64, policy: DisposePolicy) -> (r: Option<DisposeFrame>)
        requires
            old(self).wf(),
        ensures
            final(self).wf(),
            final(self).next_id() == old(self).next_id(),
            match r {
                Some(frame) => {
                    &&& !effect::scope_disposed(old(self)@, id)
                    &&& frame@ == opening_frame(old(self)@, id, policy)
                    &&& final(self)@ == old(self)@.insert(id, begun(old(self)@[id]))
                },
                None => effect::scope_disposed(old(self)@, id) && final(self)@ == old(self)@,
            },
    {
        if self.is_disposed(id) {
            return None;
        }
        let ghost before = self@;
        let mut frame = DisposeFrame {
            scope: id,
            policy,
            children: Vec::new(),
            cleanups: Vec::new(),
            disposers: Vec::new(),
            work: Vec::new(),
            errors: Vec::new(),
        };
        let ghost raw = self.scopes@;
        if let Some(scope) = self.scopes.get_mut(id) {
            scope.disposed = true;
            scope.completion = Some(DisposeCompletion::new());
            std::mem::swap(&mut frame.children, &mut scope.children);
            std::mem::swap(&mut frame.cleanups, &mut scope.cleanups);
            std::mem::swap(&mut frame.disposers, &mut scope.disposers);
            std::mem::swap(&mut frame.work, &mut scope.work);
            proof {
                assert(scope@ =~= begun(before[id]));
            }
        }
        proof {
            effect::lemma_models_insert(raw, id, self.scopes@[id]);
            assert(frame@ =~= opening_frame(before, id, policy));
        }
        Some(frame)
    }

    /// Takes a scope out of the children of its parent.
    pub(crate) fn detach_from_parent(&mut self, id: u64)
        requires
            old(self).wf(),
        ensures
            final(self).wf(),
            final(self).next_id() == old(self).next_id(),
            final(self)@ == detached(old(self)@, id),
    {
        let ghost before = self@;
        let ghost raw = self.scopes@;
        let parent = match self.scopes.get_mut(id) {
            Some(scope) => {
                let parent = scope.parent;
                scope.parent = None;
                proof {
                    assert(scope@ =~= (ScopeModel { parent: None, ..before[id] }));
                }
                parent
            },
            None => None,
        };
        let ghost alone = self@;
        proof {
            assert(before.contains_key(id) == raw.contains_key(id));
            if raw.contains_key(id) {
                effect::lemma_models_insert(raw, id, self.scopes@[id]);
                assert(alone == before.insert(id, (ScopeModel { parent: None, ..before[id] })));
                assert(parent is None ==> alone =~= before);
            } else {
                assert(self.scopes@ == raw);
            }
            assert(effect::tree_ok(alone, self.next));
        }
        let ghost raw2 = self.scopes@;
        if let Some(owner_id) = parent {
            if let Some(owner) = self.scopes.get_mut(owner_id) {
                let kept = effect::drop_id(&owner.children, id);
                owner.children = kept;
                proof {
                    assert(owner@ =~= (ScopeModel {
                        children: effect::without(alone[owner_id].children, id),
                        ..alone[owner_id]
                    }));
                }
            }
            proof {
                assert(alone.contains_key(owner_id) == raw2.contains_key(owner_id));
                if raw2.contains_key(owner_id) {
                    effect::lemma_models_insert(raw2, owner_id, self.scopes@[owner_id]);
                    lemma_without_ok(alone, owner_id, id, self.next);
                } else {
                    assert(self.scopes@ == raw2);
                }
            }
        }
    }

    /// Lets `parent` wait for a child whose release already runs.
    pub(crate) fn adopt(&mut self, parent: u64, child: u64)
        requires
            old(self).wf(),
        ensures
            final(self).wf(),
            final(self).next_id() == old(self).next_id(),
            final(self)@ == adopted(old(self)@, parent, child),
    {
        if self.is_releasing(child) {
            self.push_work(parent, ManagedWork::ChildWait(child));
        }
        self.detach_from_parent(child);
    }

    /// The release of the scope runs and has not ended.
    pub fn is_releasing(&self, id: u64) -> (r: bool)
        requires
            self.wf(),
        ensures
            r == releasing(self@, id),
    {
        match self.scopes.get(id) {
            Some(scope) => match &scope.completion {
                Some(completion) => completion.outcome().is_none(),
                None => false,
            },
            None => false,
        }
    }

    /// Ends the release of a scope. The first end counts; returns whether this was it.
    pub fn finish(&mut self, id: u64, errors: Vec<String>) -> (first: bool)
        requires
            old(self).wf(),
        ensures
            final(self).wf(),
            final(self).next_id() == old(self).next_id(),
            first == releasing(old(self)@, id),
            final(self)@ == finished(old(self)@, id, text::texts(errors@)),
    {
        if !self.is_releasing(id) {
            return false;
        }
        let ghost before = self@;
        let ghost raw = self.scopes@;
        let ghost list = text::texts(errors@);
        if let Some(scope) = self.scopes.get_mut(id) {
            if let Some(completion) = &mut scope.completion {
                completion.finish(errors);
            }
            proof {
                assert(scope@ =~= (ScopeModel { completion: Some(Some(list)), ..before[id] }));
            }
        }
        proof {
            effect::lemma_models_insert(raw, id, self.scopes@[id]);
        }
        self.detach_from_parent(id);
        true
    }

    /// The result of the release of a scope, once there is one.
    pub fn outcome(&self, id: u64) -> (r: Option<Result<(), CoreError>>)
        requires
            self.wf(),
        ensures
            match r {
                Some(result) => self@.contains_key(id) && (self@[id].completion matches Some(
                    Some(errors),
                ) && super::completion::release_result(errors, result)),
                None => !self@.contains_key(id) || !(self@[id].completion matches Some(Some(_))),
            },
    {
        match self.scopes.get(id) {
            Some(scope) => match &scope.completion {
                Some(completion) => completion.outcome(),
                None => None,
            },
            None => None,
        }
    }
}

proof fn lemma_without_ok(scopes: Map<u64, ScopeModel>, owner: u64, id: u64, next: u64)
    requires
        effect::tree_ok(scopes, next),
        scopes.contains_key(owner),
    ensures
        effect::tree_ok(
            scopes.insert(
                owner,
                ScopeModel {
                    children: effect::without(scopes[owner].children, id),
                    ..scopes[owner]
                },
            ),
            next,
        ),
{
    let children = scopes[owner].children;
    let kept = effect::without(children, id);
    lemma_without_subset(children, id);
    assert forall|i: int| 0 <= i < kept.len() implies owner < #[trigger] kept[i] < next by {
        assert(kept.contains(kept[i]));
        let j = choose|j: int| 0 <= j < children.len() && children[j] == kept[i];
        assert(owner < children[j] < next);
    }
}

/// What is left of a list without an identifier.
pub proof fn lemma_without_subset(items: Seq<u64>, id: u64)
    ensures
        effect::without(items, id).len() <= items.len(),
        forall|item: u64|
            #[trigger] effect::without(items, id).contains(item) ==> items.contains(item) && item
                != id,
        forall|item: u64|
            #[trigger] items.contains(item) && item != id ==> effect::without(items, id).contains(
                item,
            ),
    decreases items.len(),
{
    let kept = effect::without(items, id);
    reveal(Seq::filter);
    if items.len() > 0 {
        let front = items.drop_last();
        lemma_without_subset(front, id);
        let front_kept = effect::without(front, id);
        assert(items =~= front.push(items.last()));
        assert forall|item: u64| #[trigger] kept.contains(item) implies items.contains(item) && item
            != id by {
            let k = choose|k: int| 0 <= k < kept.len() && kept[k] == item;
            if k < front_kept.len() {
                assert(front_kept.contains(item));
                let j = choose|j: int| 0 <= j < front.len() && front[j] == item;
                assert(items[j] == item);
            } else {
                assert(items[items.len() - 1] == item);
            }
        }
        assert forall|item: u64| #[trigger] items.contains(item) && item
            != id implies kept.contains(item) by {
            let j = choose|j: int| 0 <= j < items.len() && items[j] == item;
            if j < front.len() {
                assert(front[j] == item);
                assert(front.contains(item));
                let k = choose|k: int| 0 <= k < front_kept.len() && front_kept[k] == item;
                assert(kept[k] == item);
            } else {
                assert(kept[kept.len() - 1] == item);
            }
        }
    }
}

} // verus!
