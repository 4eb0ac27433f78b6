//! What a disposal takes over from a scope, and to whom it hands it on.

use crate::effect;
use crate::effect::completion;
use crate::effect::disposal;
use crate::effect::disposal::DisposeStep;
use crate::effect::dispose;
use crate::effect::dispose::{Coordinator, DisposePolicy, FrameModel};
use crate::effect::{Cleanup, ManagedWork, ScopeModel};
use crate::error::CoreError;
use crate::laws::effects;
use crate::laws::release;
use crate::laws::release::{Happening, Moment};
use crate::laws::takeover;
use crate::text;
use vstd::prelude::*;

verus! {

/// The handles of the tasks among `work`, in order of registration.
pub open spec fn tasks_of(work: Seq<ManagedWork>) -> Seq<u64> {
    work.filter(|item: ManagedWork| item is Task).map_values(|item: ManagedWork| item->Task_0)
}

/// The scopes whose release is waited for among `work`, in order.
pub open spec fn waits_of(work: Seq<ManagedWork>) -> Seq<u64> {
    work.filter(|item: ManagedWork| item is ChildWait).map_values(
        |item: ManagedWork| item->ChildWait_0,
    )
}

/// How often the task stands in `work`.
pub open spec fn task_count(work: Seq<ManagedWork>, task: u64) -> nat {
    work.to_multiset().count(ManagedWork::Task(task))
}

/// Work is told apart without loss: all tasks in order of registration, and all waits in
/// order. Every task is named as often as it was registered.
pub proof fn law_work_is_told_apart(work: Seq<ManagedWork>, task: u64)
    ensures
        dispose::task_ids(work) == tasks_of(work),
        dispose::waits_in(work) == waits_of(work),
        dispose::task_ids(work).to_multiset().count(task) == task_count(work, task),
        dispose::task_ids(work).len() + dispose::waits_in(work).len() == work.len(),
        effect::tasks_in(work) == tasks_of(work).len(),
    decreases work.len(),
{
    broadcast use vstd::seq_lib::group_to_multiset_ensures;

    reveal(Seq::filter);
    if work.len() > 0 {
        let front = work.drop_last();
        law_work_is_told_apart(front, task);
        assert(work =~= front.push(work.last()));
        match work.last() {
            ManagedWork::Task(id) => {
                assert(tasks_of(work) =~= tasks_of(front).push(id));
                assert(waits_of(work) =~= waits_of(front));
            },
            ManagedWork::ChildWait(id) => {
                assert(tasks_of(work) =~= tasks_of(front));
                assert(waits_of(work) =~= waits_of(front).push(id));
            },
        }
    } else {
        assert(dispose::task_ids(work) =~= tasks_of(work));
        assert(dispose::waits_in(work) =~= waits_of(work));
        assert(work =~= Seq::<ManagedWork>::empty());
    }
}

proof fn lemma_tasks_add(one: Seq<ManagedWork>, two: Seq<ManagedWork>)
    ensures
        tasks_of(one + two) == tasks_of(one) + tasks_of(two),
        waits_of(one + two) == waits_of(one) + waits_of(two),
{
    Seq::filter_distributes_over_add(one, two, |item: ManagedWork| item is Task);
    Seq::filter_distributes_over_add(one, two, |item: ManagedWork| item is ChildWait);
    assert(tasks_of(one + two) =~= tasks_of(one) + tasks_of(two));
    assert(waits_of(one + two) =~= waits_of(one) + waits_of(two));
}

/// Work that came to a scope after its disposal began.
pub open spec fn late_work(scopes: Map<u64, ScopeModel>, id: u64) -> Seq<ManagedWork> {
    if scopes.contains_key(id) {
        scopes[id].work
    } else {
        Seq::empty()
    }
}

/// The end of a frame hands on all that its scope had. In a controlled release the coordinator
/// gets every child to wait for, every disposer, every task and the errors so far. Otherwise
/// the tasks are aborted, or go to the scope above if the scope was dropped below one. Every
/// task is handed on exactly as often as it was registered, and in order of registration.
pub proof fn law_end_of_a_frame_hands_all_on(
    frames: Seq<FrameModel>,
    scopes: Map<u64, ScopeModel>,
    frames2: Seq<FrameModel>,
    scopes2: Map<u64, ScopeModel>,
    step: DisposeStep,
    task: u64,
)
    requires
        frames.len() > 0,
        frames.last().children.len() == 0,
        frames.last().cleanups.len() == 0,
        disposal::stepped(frames, scopes, frames2, scopes2, step),
    ensures
        frames2 == frames.drop_last(),
        ({
            let top = frames.last();
            let above = if scopes.contains_key(top.scope) {
                scopes[top.scope].parent
            } else {
                None
            };
            let work = top.work + late_work(scopes, top.scope);
            match top.policy {
                DisposePolicy::Abandon => {
                    &&& step matches DisposeStep::Abort { scope, tasks } && scope == top.scope
                        && tasks@ == tasks_of(top.work) && tasks@.to_multiset().count(task)
                        == task_count(top.work, task)
                },
                DisposePolicy::Dropped => {
                    &&& step is Abort
                    &&& step->Abort_scope == top.scope
                    &&& above is Some && scopes.contains_key(above->0) && above->0 != top.scope
                        ==> {
                        &&& step->Abort_tasks@.len() == 0
                        &&& scopes2.contains_key(above->0)
                        &&& scopes2[above->0].work == scopes[above->0].work + top.work
                    }
                    &&& above is None || !scopes.contains_key(above->0)
                        ==> step->Abort_tasks@ == tasks_of(top.work)
                        && step->Abort_tasks@.to_multiset().count(task) == task_count(
                        top.work,
                        task,
                    )
                },
                _ => {
                    &&& step matches DisposeStep::Coordinate(coordinator) && {
                        &&& coordinator@.scope == top.scope
                        &&& coordinator@.waits == waits_of(work)
                        &&& coordinator@.disposers == top.disposers
                        &&& coordinator@.tasks == tasks_of(work)
                        &&& coordinator@.errors == top.errors
                        &&& coordinator@.tasks.to_multiset().count(task) == task_count(work, task)
                    }
                },
            }
        }),
{
    let top = frames.last();
    let work = top.work + late_work(scopes, top.scope);
    law_work_is_told_apart(top.work, task);
    law_work_is_told_apart(work, task);
    assert(disposal::pending_work(scopes, top) =~= work);
}

/// The begin of a disposal takes everything that the scope has into its frame: children,
/// clean-ups, disposers and work, each list as it is. The scope is disposed from then on and
/// its release runs; no other scope changes.
pub proof fn law_begun_disposal_takes_all(
    a: Moment,
    scope: u64,
    policy: DisposePolicy,
    b: Moment,
)
    requires
        a.scopes.contains_key(scope),
        !a.scopes[scope].disposed,
        release::happens(a, Happening::Begin { scope, policy }, b),
    ensures
        b.frames.len() == a.frames.len() + 1,
        b.frames.drop_last() == a.frames,
        b.frames.last().scope == scope,
        b.frames.last().policy == policy,
        b.frames.last().children == a.scopes[scope].children,
        b.frames.last().cleanups == a.scopes[scope].cleanups,
        b.frames.last().disposers == a.scopes[scope].disposers,
        b.frames.last().work == a.scopes[scope].work,
        b.frames.last().errors.len() == 0,
        b.scopes.dom() == a.scopes.dom(),
        b.scopes[scope].disposed,
        b.scopes[scope].completion == Some(None::<Seq<Seq<char>>>),
        b.scopes[scope].parent == a.scopes[scope].parent,
        b.scopes[scope].ancestors == a.scopes[scope].ancestors,
        b.scopes[scope].children.len() == 0,
        b.scopes[scope].cleanups.len() == 0,
        b.scopes[scope].disposers.len() == 0,
        b.scopes[scope].work.len() == 0,
        forall|other: u64|
            other != scope && #[trigger] a.scopes.contains_key(other) ==> b.scopes[other]
                == a.scopes[other],
{
    assert(b.frames.drop_last() =~= a.frames);
    assert(b.scopes.dom() =~= a.scopes.dom());
}

/// A disposal goes to the children first, the last one first. A live child is disposed in turn,
/// with all that it has; what it leaves to wait for passes to the scope above it in a
/// controlled release and is given up in another. A disposed child is passed over.
pub proof fn law_children_go_first_the_last_one_first(
    frames: Seq<FrameModel>,
    scopes: Map<u64, ScopeModel>,
    frames2: Seq<FrameModel>,
    scopes2: Map<u64, ScopeModel>,
    step: DisposeStep,
)
    requires
        frames.len() > 0,
        frames.last().children.len() > 0,
        disposal::stepped(frames, scopes, frames2, scopes2, step),
    ensures
        ({
            let top = frames.last();
            let child = top.children[top.children.len() - 1];
            let rest = frames2[frames.len() - 1];
            &&& rest.children == top.children.drop_last()
            &&& rest.scope == top.scope
            &&& rest.policy == top.policy
            &&& rest.cleanups == top.cleanups
            &&& rest.disposers == top.disposers
            &&& rest.work == top.work
            &&& rest.errors == top.errors
            &&& frames2.take(frames.len() - 1) == frames.drop_last()
            &&& if scopes.contains_key(child) && !scopes[child].disposed {
                &&& step == DisposeStep::Entered(child)
                &&& frames2.len() == frames.len() + 1
                &&& frames2.last().scope == child
                &&& frames2.last().children == scopes[child].children
                &&& frames2.last().cleanups == scopes[child].cleanups
                &&& frames2.last().disposers == scopes[child].disposers
                &&& frames2.last().work == scopes[child].work
                &&& top.policy is HoistToParent || top.policy is AwaitLocal
                    ==> frames2.last().policy is HoistToParent
                &&& top.policy is Abandon || top.policy is Dropped
                    ==> frames2.last().policy is Abandon
                &&& scopes2[child].disposed
                &&& scopes2[child].completion == Some(None::<Seq<Seq<char>>>)
                &&& scopes2[child].parent == scopes[child].parent
                &&& scopes2 == scopes.insert(child, scopes2[child])
            } else {
                &&& step == DisposeStep::Skipped(child)
                &&& frames2.len() == frames.len()
            }
        }),
{
    assert(frames2.take(frames.len() - 1) =~= frames.drop_last());
}

/// A child whose release already runs is waited for by the scope that passes it over in a
/// controlled release; either way it is listed below nobody then.
pub proof fn law_passed_over_child_is_waited_for(
    frames: Seq<FrameModel>,
    scopes: Map<u64, ScopeModel>,
    frames2: Seq<FrameModel>,
    scopes2: Map<u64, ScopeModel>,
    step: DisposeStep,
)
    requires
        frames.len() > 0,
        frames.last().children.len() > 0,
        scopes.contains_key(frames.last().children.last()),
        scopes[frames.last().children.last()].disposed,
        scopes.contains_key(frames.last().scope),
        frames.last().scope != frames.last().children.last(),
        disposal::stepped(frames, scopes, frames2, scopes2, step),
    ensures
        ({
            let top = frames.last();
            let child = top.children.last();
            let running = scopes[child].completion == Some(None::<Seq<Seq<char>>>);
            let controlled = top.policy is HoistToParent || top.policy is AwaitLocal;
            &&& scopes2.contains_key(child)
            &&& scopes2[child].parent is None
            &&& scopes2[child].completion == scopes[child].completion
            &&& scopes2[top.scope].work == if running && controlled {
                scopes[top.scope].work.push(ManagedWork::ChildWait(child))
            } else {
                scopes[top.scope].work
            }
            &&& scopes[child].parent matches Some(parent) ==> (parent != child
                && scopes.contains_key(parent) ==> !scopes2[parent].children.contains(child))
            &&& forall|other: u64|
                other != child && other != top.scope && scopes[child].parent != Some(other)
                    && #[trigger] scopes.contains_key(other) ==> scopes2[other] == scopes[other]
            &&& forall|other: u64| #[trigger]
                scopes.contains_key(other) ==> scopes2.contains_key(other)
                    && scopes2[other].disposed == scopes[other].disposed
                    && scopes2[other].cleanups == scopes[other].cleanups
                    && scopes2[other].disposers == scopes[other].disposers
        }),
{
    let child = frames.last().children.last();
    if let Some(parent) = scopes[child].parent {
        dispose::lemma_without_subset(scopes[parent].children, child);
        lemma_without_gone(scopes[parent].children, child);
    }
}

/// What is taken out of a list is gone from it, all else stays in its order.
proof fn lemma_without_gone(items: Seq<u64>, id: u64)
    ensures
        !effect::without(items, id).contains(id),
        forall|item: u64|
            item != id ==> (#[trigger] effect::without(items, id).contains(item)
                <==> items.contains(item)),
    decreases items.len(),
{
    reveal(Seq::filter);
    if items.len() > 0 {
        let front = items.drop_last();
        lemma_without_gone(front, id);
        let held = effect::without(front, id);
        let kept = effect::without(items, id);
        assert forall|item: u64| #[trigger] kept.contains(item) <==> items.contains(item) && item
            != id by {
            if kept.contains(item) {
                let i = choose|i: int| 0 <= i < kept.len() && kept[i] == item;
                if i < held.len() {
                    assert(held[i] == item);
                    assert(held.contains(item));
                    let k = choose|k: int| 0 <= k < front.len() && front[k] == item;
                    assert(items[k] == item);
                } else {
                    assert(items[items.len() - 1] == item);
                }
            }
            if items.contains(item) && item != id {
                let i = choose|i: int| 0 <= i < items.len() && items[i] == item;
                if i < front.len() {
                    assert(front[i] == item);
                    assert(held.contains(item));
                    let k = choose|k: int| 0 <= k < held.len() && held[k] == item;
                    assert(kept[k] == item);
                } else {
                    assert(kept[kept.len() - 1] == item);
                }
            }
        }
    }
}

/// A scope that is released without being awaited leaves the wait to the scope above it, once;
/// without one it keeps the wait. A scope that is awaited stays where it is until its release
/// ended.
pub proof fn law_unawaited_release_is_left_to_the_parent(
    scopes: Map<u64, ScopeModel>,
    frame: FrameModel,
)
    requires
        scopes.contains_key(frame.scope),
        scopes[frame.scope].parent != Some(frame.scope),
    ensures
        frame.policy is HoistToParent ==> {
            let after = disposal::closed_scopes(scopes, frame);
            let id = frame.scope;
            match scopes[id].parent {
                Some(parent) if scopes.contains_key(parent) => {
                    &&& after[parent].work == scopes[parent].work.push(ManagedWork::ChildWait(id))
                    &&& !after[parent].children.contains(id)
                    &&& after[id].parent is None
                    &&& after[id].work.len() == 0
                    &&& after[id].completion == scopes[id].completion
                },
                _ => after[id].work == seq![ManagedWork::ChildWait(id)],
            }
        },
        frame.policy is AwaitLocal ==> disposal::closed_scopes(scopes, frame) == scopes.insert(
            frame.scope,
            ScopeModel { work: Seq::empty(), ..scopes[frame.scope] },
        ),
        forall|other: u64|
            other != frame.scope && scopes[frame.scope].parent != Some(other)
                && #[trigger] scopes.contains_key(other) ==> disposal::closed_scopes(
                scopes,
                frame,
            )[other] == scopes[other],
        (frame.policy is Abandon || frame.policy is Dropped) && scopes[frame.scope].completion
            == Some(None::<Seq<Seq<char>>>) ==> {
            let after = disposal::closed_scopes(scopes, frame);
            &&& after[frame.scope].completion == Some(Some(Seq::<Seq<char>>::empty()))
            &&& after[frame.scope].parent is None
            &&& scopes[frame.scope].parent matches Some(parent) ==> (scopes.contains_key(parent)
                ==> !after[parent].children.contains(frame.scope))
        },
{
    let id = frame.scope;
    assert(Seq::<ManagedWork>::empty().push(ManagedWork::ChildWait(id))
        =~= seq![ManagedWork::ChildWait(id)]);
    if let Some(parent) = scopes[id].parent {
        lemma_without_gone(scopes[parent].children, id);
    }
}

/// The end of a release stores its errors, if it is the first end, and takes the scope out of
/// the list of its parent. Other scopes stay as they are.
pub proof fn law_release_ends_once(
    scopes: Map<u64, ScopeModel>,
    id: u64,
    errors: Seq<Seq<char>>,
)
    requires
        scopes.contains_key(id),
        scopes[id].parent != Some(id),
    ensures
        ({
            let after = dispose::finished(scopes, id, errors);
            let running = scopes[id].completion == Some(None::<Seq<Seq<char>>>);
            &&& running ==> after[id].completion == Some(Some(errors))
            &&& running ==> after[id].parent is None
            &&& running ==> (scopes[id].parent matches Some(parent) ==> (scopes.contains_key(parent)
                ==> !after[parent].children.contains(id)))
            &&& !running ==> after == scopes
            &&& after[id].disposed == scopes[id].disposed
            &&& forall|other: u64|
                other != id && scopes[id].parent != Some(other) && #[trigger] scopes.contains_key(
                    other,
                ) ==> after[other] == scopes[other]
        }),
{
    if let Some(parent) = scopes[id].parent {
        lemma_without_gone(scopes[parent].children, id);
    }
}

/// A waiter is told that all went well exactly if there was no error, and otherwise all errors,
/// in order.
pub proof fn law_waiter_is_told_all_errors(errors: Seq<Seq<char>>, r: Result<(), CoreError>)
    requires
        completion::release_result(errors, r),
    ensures
        r is Ok <==> errors.len() == 0,
        r matches Err(error) ==> error is DisposeFailed && error->DisposeFailed_errors@.len()
            == errors.len() && forall|i: int|
            0 <= i < errors.len() ==> (#[trigger] error->DisposeFailed_errors@[i])@ == errors[i],
{
    if let Err(error) = r {
        if let CoreError::DisposeFailed { errors: list } = error {
            assert forall|i: int| 0 <= i < errors.len() implies (#[trigger] list@[i])@
                == errors[i] by {
                assert(text::texts(list@)[i] == list@[i]@);
            }
        }
    }
}

/// A new scope stands last below its parent, alive and empty, and knows the parent and all that
/// the parent stands below. Below a disposed parent it is born released, and listed nowhere.
pub proof fn law_new_scope_joins_its_parent(
    scopes: Map<u64, ScopeModel>,
    parent: u64,
    id: u64,
    name: Seq<char>,
)
    requires
        scopes.contains_key(parent),
        id != parent,
    ensures
        ({
            let after = effect::child_added(scopes, parent, id, name);
            let made = after[id];
            &&& after.contains_key(id)
            &&& made.name == name
            &&& made.ancestors == scopes[parent].ancestors.push(parent)
            &&& made.children.len() == 0
            &&& made.cleanups.len() == 0
            &&& made.disposers.len() == 0
            &&& made.work.len() == 0
            &&& made.disposed == scopes[parent].disposed
            &&& !scopes[parent].disposed ==> {
                &&& made.parent == Some(parent)
                &&& made.completion is None
                &&& after[parent].children == scopes[parent].children.push(id)
                &&& after[parent].cleanups == scopes[parent].cleanups
                &&& after[parent].disposers == scopes[parent].disposers
                &&& after[parent].work == scopes[parent].work
                &&& !after[parent].disposed
            }
            &&& scopes[parent].disposed ==> {
                &&& made.parent is None
                &&& made.completion == Some(Some(Seq::<Seq<char>>::empty()))
                &&& after[parent] == scopes[parent]
            }
            &&& forall|other: u64|
                other != id && other != parent && #[trigger] scopes.contains_key(other)
                    ==> after[other] == scopes[other]
        }),
{
}

/// Clean-ups and work are added at the end of their lists, and nothing else changes. A disposed
/// scope takes no clean-up.
pub proof fn law_scope_lists_grow_at_the_end(
    scopes: Map<u64, ScopeModel>,
    id: u64,
    cleanup: Cleanup,
    work: ManagedWork,
)
    requires
        scopes.contains_key(id),
    ensures
        effect::work_added(scopes, id, work) == scopes.insert(
            id,
            ScopeModel { work: scopes[id].work.push(work), ..scopes[id] },
        ),
        !scopes[id].disposed ==> effect::cleanup_added(scopes, id, cleanup) == scopes.insert(
            id,
            ScopeModel { cleanups: scopes[id].cleanups.push(cleanup), ..scopes[id] },
        ),
        scopes[id].disposed ==> effect::cleanup_added(scopes, id, cleanup) == scopes,
{
}

/// A scope is cancelled exactly if it or a scope that it was created below is disposed or
/// forgotten.
pub proof fn law_cancellation_is_disposal_above(scopes: Map<u64, ScopeModel>, id: u64)
    requires
        scopes.contains_key(id),
    ensures
        effect::scope_cancelled(scopes, id) <==> scopes[id].disposed || exists|ancestor: u64|
            #[trigger] scopes[id].ancestors.contains(ancestor) && (!scopes.contains_key(ancestor)
                || scopes[ancestor].disposed),
{
    let ancestors = scopes[id].ancestors;
    if exists|ancestor: u64| #[trigger]
        ancestors.contains(ancestor) && (!scopes.contains_key(ancestor)
            || scopes[ancestor].disposed) {
        let ancestor = choose|ancestor: u64| #[trigger]
            ancestors.contains(ancestor) && (!scopes.contains_key(ancestor)
                || scopes[ancestor].disposed);
        let i = choose|i: int| 0 <= i < ancestors.len() && ancestors[i] == ancestor;
        assert(effect::scope_disposed(scopes, ancestors[i]));
    }
    if effect::scope_cancelled(scopes, id) && !scopes[id].disposed {
        let i = choose|i: int|
            0 <= i < ancestors.len() && effect::scope_disposed(scopes, #[trigger] ancestors[i]);
        assert(ancestors.contains(ancestors[i]));
    }
}

/// Frame `i` is the only one of this scope and still has these disposers and this work.
spec fn still_has(
    m: Moment,
    i: int,
    scope: u64,
    disposers: Seq<u64>,
    work: Seq<ManagedWork>,
) -> bool {
    &&& 0 <= i < m.frames.len()
    &&& m.frames[i].scope == scope
    &&& m.frames[i].disposers == disposers
    &&& m.frames[i].work == work
    &&& m.frames[i].policy.coordinated()
    &&& forall|j: int| 0 <= j < m.frames.len() && j != i ==> (#[trigger] m.frames[j]).scope != scope
    &&& m.scopes.contains_key(scope)
    &&& m.scopes[scope].disposed
    &&& release::frames_closed(m.frames, m.scopes)
}

proof fn lemma_still_has(
    a: Moment,
    happening: Happening,
    b: Moment,
    i: int,
    scope: u64,
    disposers: Seq<u64>,
    work: Seq<ManagedWork>,
)
    requires
        still_has(a, i, scope, disposers, work),
        release::happens(a, happening, b),
        !takeover::hands_over(happening, scope),
    ensures
        still_has(b, i, scope, disposers, work),
{
    release::law_cleanups_are_conserved(a, happening, b, scope, Cleanup::Callback(0));
    assert(effect::scope_disposed(a.scopes, a.frames[i].scope));
    match happening {
        Happening::Begin { scope: begun, policy } => {
            if !effect::scope_disposed(a.scopes, begun) {
                assert(begun != scope);
                assert(b.frames[i] == a.frames[i]);
            }
        },
        Happening::Step(step) => {
            let t = a.frames.len() - 1;
            let top = a.frames[t];
            assert(top == a.frames.last());
            if top.children.len() > 0 {
                assert(b.frames[i].scope == a.frames[i].scope);
            } else if top.cleanups.len() > 0 {
                assert(b.frames[i].scope == a.frames[i].scope);
            } else {
                assert(i != t);
                assert(b.frames[i] == a.frames[i]);
                effects::lemma_closed_advances(a.scopes, top);
                assert(effect::scope_disposed(b.scopes, scope));
            }
            assert forall|j: int| 0 <= j < b.frames.len() && j != i implies (
            #[trigger] b.frames[j]).scope != scope by {
                if j < a.frames.len() {
                    assert(b.frames[j].scope == a.frames[j].scope);
                }
            }
        },
        _ => {},
    }
}

/// The run of a disposal from its begin to the handover of the scope to its coordinator,
/// whatever happens in between.
pub open spec fn released_under_control(
    moments: Seq<Moment>,
    happenings: Seq<Happening>,
    scope: u64,
    policy: DisposePolicy,
    coordinator: Coordinator,
) -> bool {
    let last = happenings.len() - 1;
    &&& release::history(moments, happenings)
    &&& happenings.len() >= 2
    &&& release::frames_closed(moments[0].frames, moments[0].scopes)
    &&& moments[0].scopes.contains_key(scope)
    &&& !moments[0].scopes[scope].disposed
    &&& happenings[0] == (Happening::Begin { scope, policy })
    &&& policy is HoistToParent || policy is AwaitLocal
    &&& happenings[last] == Happening::Step(DisposeStep::Coordinate(coordinator))
    &&& coordinator@.scope == scope
    &&& forall|j: int| 0 <= j < last ==> !takeover::hands_over(#[trigger] happenings[j], scope)
}

proof fn lemma_still_has_until(
    moments: Seq<Moment>,
    happenings: Seq<Happening>,
    scope: u64,
    policy: DisposePolicy,
    coordinator: Coordinator,
    at: int,
)
    requires
        released_under_control(moments, happenings, scope, policy, coordinator),
        1 <= at < happenings.len(),
    ensures
        still_has(
            moments[at],
            moments[0].frames.len() as int,
            scope,
            moments[0].scopes[scope].disposers,
            moments[0].scopes[scope].work,
        ),
    decreases at,
{
    let a = moments[0];
    let i = a.frames.len() as int;
    if at == 1 {
        let b = moments[1];
        assert(release::happens(a, happenings[0], b));
        release::law_cleanups_are_conserved(a, happenings[0], b, scope, Cleanup::Callback(0));
        assert forall|j: int| 0 <= j < b.frames.len() && j != i implies (
        #[trigger] b.frames[j]).scope != scope by {
            assert(b.frames[j] == a.frames[j]);
            assert(effect::scope_disposed(a.scopes, a.frames[j].scope));
        }
    } else {
        lemma_still_has_until(moments, happenings, scope, policy, coordinator, at - 1);
        assert(!takeover::hands_over(happenings[at - 1], scope));
        assert(release::happens(moments[at - 1], happenings[at - 1], moments[at]));
        lemma_still_has(
            moments[at - 1],
            happenings[at - 1],
            moments[at],
            i,
            scope,
            a.scopes[scope].disposers,
            a.scopes[scope].work,
        );
    }
}

/// Whatever happens during a controlled disposal, the coordinator of the scope gets every
/// disposer that the scope had when the disposal began, and before anything that came later
/// every task and every child to wait for that it had, each as often as it was registered and
/// in order of registration.
pub proof fn law_coordinator_gets_all_that_the_scope_had(
    moments: Seq<Moment>,
    happenings: Seq<Happening>,
    scope: u64,
    policy: DisposePolicy,
    coordinator: Coordinator,
)
    requires
        released_under_control(moments, happenings, scope, policy, coordinator),
    ensures
        ({
            let had = moments[0].scopes[scope];
            let tasks = tasks_of(had.work);
            let waits = waits_of(had.work);
            &&& coordinator@.disposers == had.disposers
            &&& tasks.len() <= coordinator@.tasks.len()
            &&& coordinator@.tasks.take(tasks.len() as int) == tasks
            &&& waits.len() <= coordinator@.waits.len()
            &&& coordinator@.waits.take(waits.len() as int) == waits
        }),
{
    let last = happenings.len() - 1;
    let had = moments[0].scopes[scope];
    let i = moments[0].frames.len() as int;
    lemma_still_has_until(moments, happenings, scope, policy, coordinator, last);
    let a = moments[last];
    let b = moments[last + 1];
    assert(release::happens(a, happenings[last], b));
    let step = DisposeStep::Coordinate(coordinator);
    let t = a.frames.len() - 1;
    let top = a.frames[t];
    assert(top == a.frames.last());
    assert(t == i);
    law_end_of_a_frame_hands_all_on(a.frames, a.scopes, b.frames, b.scopes, step, 0);
    lemma_tasks_add(had.work, late_work(a.scopes, scope));
    let tasks = tasks_of(had.work);
    let waits = waits_of(had.work);
    assert(coordinator@.tasks.take(tasks.len() as int) =~= tasks);
    assert(coordinator@.waits.take(waits.len() as int) =~= waits);
}

/// The scope that inherits from another is the one above it, while both are known. Work that is
/// handed over joins what the heir has, at the end and in its order.
pub proof fn law_heir_is_the_parent(
    scopes: Map<u64, ScopeModel>,
    id: u64,
    parent: u64,
    work: Seq<ManagedWork>,
)
    ensures
        disposal::heir(scopes, id) == Some(parent) <==> scopes.contains_key(id) && scopes[id].parent
            == Some(parent) && scopes.contains_key(parent),
        scopes.contains_key(parent) ==> disposal::works_added(scopes, parent, work)
            == scopes.insert(
            parent,
            ScopeModel { work: scopes[parent].work + work, ..scopes[parent] },
        ),
        !scopes.contains_key(parent) ==> disposal::works_added(scopes, parent, work) == scopes,
{
}

} // verus!
