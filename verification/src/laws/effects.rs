//! The disposal of scopes.

use crate::context;
use crate::effect;
use crate::effect::disposal;
use crate::effect::disposal::DisposeStep;
use crate::effect::dispose;
use crate::effect::dispose::{DisposePolicy, FrameModel};
use crate::effect::{Cleanup, ScopeModel};
use crate::runtime::RuntimeModel;
use vstd::prelude::*;

verus! {

/// The scope waits in a frame for its own disposal.
pub open spec fn awaits(frames: Seq<FrameModel>, id: u64) -> bool {
    exists|i: int| 0 <= i < frames.len() && (#[trigger] frames[i]).children.contains(id)
}

/// The scope hangs below a live one of the set.
pub open spec fn hangs_below(scopes: Map<u64, ScopeModel>, doomed: Set<u64>, id: u64) -> bool {
    exists|parent: u64| #[trigger]
        doomed.contains(parent) && !effect::scope_disposed(scopes, parent)
            && scopes[parent].children.contains(id)
}

/// A disposal is under way that reaches all of these scopes: each is disposed, waits in a
/// frame, or hangs below a live one of them.
pub open spec fn reaches(
    frames: Seq<FrameModel>,
    scopes: Map<u64, ScopeModel>,
    doomed: Set<u64>,
) -> bool {
    &&& forall|i: int|
        0 <= i < frames.len() ==> effect::scope_disposed(scopes, (#[trigger] frames[i]).scope)
    &&& forall|id: u64| #[trigger]
        doomed.contains(id) ==> effect::scope_disposed(scopes, id) || awaits(frames, id)
            || hangs_below(scopes, doomed, id)
}

/// The set consists of a scope and scopes below it.
pub open spec fn rooted(scopes: Map<u64, ScopeModel>, root: u64, doomed: Set<u64>) -> bool {
    forall|id: u64| #[trigger]
        doomed.contains(id) ==> id == root || effect::scope_disposed(scopes, id) || hangs_below(
            scopes,
            doomed,
            id,
        )
}

/// The begin of a disposal reaches the scope and all that is below it.
pub proof fn law_disposal_reaches_all_below(
    scopes: Map<u64, ScopeModel>,
    root: u64,
    policy: DisposePolicy,
    doomed: Set<u64>,
)
    requires
        !effect::scope_disposed(scopes, root),
        rooted(scopes, root, doomed),
    ensures
        reaches(
            seq![dispose::opening_frame(scopes, root, policy)],
            scopes.insert(root, dispose::begun(scopes[root])),
            doomed,
        ),
{
    let frame = dispose::opening_frame(scopes, root, policy);
    let frames = seq![frame];
    let after = scopes.insert(root, dispose::begun(scopes[root]));
    assert forall|id: u64| #[trigger] doomed.contains(id) implies effect::scope_disposed(after, id)
        || awaits(frames, id) || hangs_below(after, doomed, id) by {
        if id != root && !effect::scope_disposed(scopes, id) {
            let parent = choose|parent: u64| #[trigger]
                doomed.contains(parent) && !effect::scope_disposed(scopes, parent)
                    && scopes[parent].children.contains(id);
            if parent == root {
                assert(frames[0].children.contains(id));
            } else {
                assert(doomed.contains(parent));
                assert(hangs_below(after, doomed, id));
            }
        }
    }
}

/// The scopes changed in a way that can only help a disposal: what was disposed stays so,
/// and a live scope lost only children that are disposed.
pub open spec fn advances(before: Map<u64, ScopeModel>, after: Map<u64, ScopeModel>) -> bool {
    &&& forall|id: u64|
        effect::scope_disposed(before, id) ==> #[trigger] effect::scope_disposed(after, id)
    &&& forall|id: u64, child: u64|
        !effect::scope_disposed(after, id) && before[id].children.contains(child)
            && !effect::scope_disposed(after, child) ==> #[trigger] after[id].children.contains(
            child,
        )
}

/// Such a change keeps a disposal reaching all that it reached.
pub proof fn law_disposal_outlasts_changes(
    frames: Seq<FrameModel>,
    before: Map<u64, ScopeModel>,
    after: Map<u64, ScopeModel>,
    doomed: Set<u64>,
)
    requires
        reaches(frames, before, doomed),
        advances(before, after),
        forall|id: u64| #[trigger]
            doomed.contains(id) && !effect::scope_disposed(before, id) && effect::scope_disposed(
                after,
                id,
            ) ==> (forall|child: u64| #[trigger]
                before[id].children.contains(child) ==> effect::scope_disposed(after, child)
                    || awaits(frames, child)),
    ensures
        reaches(frames, after, doomed),
{
    assert forall|id: u64| #[trigger] doomed.contains(id) implies effect::scope_disposed(after, id)
        || awaits(frames, id) || hangs_below(after, doomed, id) by {
        if !effect::scope_disposed(after, id) && !awaits(frames, id) {
            assert(!effect::scope_disposed(before, id));
            let parent = choose|parent: u64| #[trigger]
                doomed.contains(parent) && !effect::scope_disposed(before, parent)
                    && before[parent].children.contains(id);
            assert(doomed.contains(parent));
            if effect::scope_disposed(after, parent) {
                assert(before[parent].children.contains(id));
            } else {
                assert(after[parent].children.contains(id));
            }
        }
    }
}

/// Registering resources and creating scopes are such changes.
pub proof fn law_registrations_advance(
    scopes: Map<u64, ScopeModel>,
    id: u64,
    cleanup: Cleanup,
    work: effect::ManagedWork,
    fresh: u64,
    name: Seq<char>,
)
    requires
        !scopes.contains_key(fresh),
        fresh != id,
    ensures
        advances(scopes, effect::cleanup_added(scopes, id, cleanup)),
        advances(scopes, effect::work_added(scopes, id, work)),
        forall|other: u64, child: u64|
            !effect::scope_disposed(scopes, other) && scopes[other].children.contains(child)
                ==> #[trigger] effect::child_added(
                scopes,
                id,
                fresh,
                name,
            )[other].children.contains(child),
        forall|other: u64|
            other != fresh ==> effect::scope_disposed(scopes, other) == #[trigger]
            effect::scope_disposed(effect::child_added(scopes, id, fresh, name), other),
{
    let after = effect::child_added(scopes, id, fresh, name);
    assert forall|other: u64, child: u64|
        !effect::scope_disposed(scopes, other) && scopes[other].children.contains(
            child,
        ) implies #[trigger] after[other].children.contains(child) by {
        let i = choose|i: int|
            0 <= i < scopes[other].children.len() && scopes[other].children[i] == child;
        if other == id && !effect::scope_disposed(scopes, id) {
            assert(after[other].children[i] == child);
        }
    }
}

/// What `without` leaves in a list.
proof fn lemma_without(items: Seq<u64>, id: u64, item: u64)
    requires
        items.contains(item),
        item != id,
    ensures
        effect::without(items, id).contains(item),
{
    broadcast use vstd::seq_lib::group_filter_ensures;

    let i = choose|i: int| 0 <= i < items.len() && items[i] == item;
    assert(effect::without(items, id).contains(items[i]));
}

/// Taking a disposed scope out of its parent is such a change.
pub proof fn lemma_detached_advances(scopes: Map<u64, ScopeModel>, id: u64)
    requires
        effect::scope_disposed(scopes, id),
    ensures
        advances(scopes, dispose::detached(scopes, id)),
        forall|other: u64|
            effect::scope_disposed(scopes, other) == #[trigger] effect::scope_disposed(
                dispose::detached(scopes, id),
                other,
            ),
{
    let after = dispose::detached(scopes, id);
    assert forall|other: u64, child: u64|
        !effect::scope_disposed(after, other) && scopes[other].children.contains(child)
            && !effect::scope_disposed(after, child) implies (
    #[trigger] after[other].children.contains(child)) by {
        assert(child != id);
        lemma_without(scopes[other].children, id, child);
    }
}

proof fn lemma_advances_chain(
    a: Map<u64, ScopeModel>,
    b: Map<u64, ScopeModel>,
    c: Map<u64, ScopeModel>,
)
    requires
        advances(a, b),
        advances(b, c),
    ensures
        advances(a, c),
{
    assert forall|id: u64, child: u64|
        !effect::scope_disposed(c, id) && a[id].children.contains(child)
            && !effect::scope_disposed(c, child) implies #[trigger] c[id].children.contains(
        child,
    ) by {
        assert(!effect::scope_disposed(b, id));
        assert(!effect::scope_disposed(b, child));
        assert(b[id].children.contains(child));
    }
}

/// The end of a frame only takes disposed scopes out of their parents and moves work.
pub proof fn lemma_closed_advances(scopes: Map<u64, ScopeModel>, frame: FrameModel)
    requires
        effect::scope_disposed(scopes, frame.scope),
    ensures
        advances(scopes, disposal::closed_scopes(scopes, frame)),
        forall|other: u64|
            effect::scope_disposed(scopes, other) == #[trigger] effect::scope_disposed(
                disposal::closed_scopes(scopes, frame),
                other,
            ),
{
    let id = frame.scope;
    let taken = disposal::work_taken(scopes, id);
    let inherited = match disposal::heir(scopes, id) {
        Some(parent) => disposal::works_added(scopes, parent, frame.work),
        None => scopes,
    };
    match frame.policy {
        DisposePolicy::HoistToParent => {
            if scopes.contains_key(id) {
                let holder = match taken[id].parent {
                    Some(parent) if taken.contains_key(parent) => parent,
                    _ => id,
                };
                let added = effect::work_added(taken, holder, effect::ManagedWork::ChildWait(id));
                assert(advances(scopes, added));
                lemma_detached_advances(added, id);
                lemma_advances_chain(scopes, added, dispose::detached(added, id));
            }
        },
        DisposePolicy::AwaitLocal => {},
        DisposePolicy::Abandon => {
            lemma_finished_advances(scopes, id, Seq::empty());
        },
        DisposePolicy::Dropped => {
            assert(advances(scopes, inherited));
            lemma_finished_advances(inherited, id, Seq::empty());
            lemma_advances_chain(
                scopes,
                inherited,
                dispose::finished(inherited, id, Seq::empty()),
            );
        },
    }
}

proof fn lemma_finished_advances(
    scopes: Map<u64, ScopeModel>,
    id: u64,
    errors: Seq<Seq<char>>,
)
    requires
        effect::scope_disposed(scopes, id),
    ensures
        advances(scopes, dispose::finished(scopes, id, errors)),
        forall|other: u64|
            effect::scope_disposed(scopes, other) == #[trigger] effect::scope_disposed(
                dispose::finished(scopes, id, errors),
                other,
            ),
{
    if dispose::releasing(scopes, id) {
        let stored = scopes.insert(
            id,
            ScopeModel { completion: Some(Some(errors)), ..scopes[id] },
        );
        assert(advances(scopes, stored));
        lemma_detached_advances(stored, id);
        lemma_advances_chain(scopes, stored, dispose::detached(stored, id));
    }
}

/// Every step of a disposal keeps reaching all that it reached.
pub proof fn law_disposal_step_keeps_reach(
    frames: Seq<FrameModel>,
    scopes: Map<u64, ScopeModel>,
    frames2: Seq<FrameModel>,
    scopes2: Map<u64, ScopeModel>,
    step: DisposeStep,
    doomed: Set<u64>,
)
    requires
        reaches(frames, scopes, doomed),
        disposal::stepped(frames, scopes, frames2, scopes2, step),
    ensures
        reaches(frames2, scopes2, doomed),
{
    if frames.len() > 0 {
        let top = frames.last();
        assert(frames[frames.len() - 1] == top);
        if top.children.len() > 0 {
            let child = top.children.last();
            let rest = disposal::with_top(
                frames,
                FrameModel { children: top.children.drop_last(), ..top },
            );
            assert forall|id: u64| awaits(frames, id) && id != child implies #[trigger] awaits(
                rest,
                id,
            ) by {
                let i = choose|i: int|
                    0 <= i < frames.len() && (#[trigger] frames[i]).children.contains(id);
                let j = choose|j: int|
                    0 <= j < frames[i].children.len() && frames[i].children[j] == id;
                if i == frames.len() - 1 {
                    assert(rest[i].children[j] == id);
                } else {
                    assert(rest[i] == frames[i]);
                }
                assert(rest[i].children.contains(id));
            }
            if effect::scope_disposed(scopes, child) {
                if top.policy.coordinated() {
                    let added = if dispose::releasing(scopes, child) {
                        effect::work_added(
                            scopes,
                            top.scope,
                            effect::ManagedWork::ChildWait(child),
                        )
                    } else {
                        scopes
                    };
                    assert(advances(scopes, added));
                    lemma_detached_advances(added, child);
                    lemma_advances_chain(scopes, added, scopes2);
                } else {
                    lemma_detached_advances(scopes, child);
                }
                lemma_kept_reach(frames, scopes, rest, scopes2, doomed, child);
            } else {
                let frame = dispose::opening_frame(scopes, child, top.policy.below());
                assert forall|id: u64| awaits(rest, id) implies #[trigger] awaits(frames2, id) by {
                    let i = choose|i: int|
                        0 <= i < rest.len() && (#[trigger] rest[i]).children.contains(id);
                    assert(frames2[i] == rest[i]);
                }
                assert(frames2[rest.len() as int] == frame);
                assert forall|i: int| 0 <= i < frames2.len() implies effect::scope_disposed(
                    scopes2,
                    (#[trigger] frames2[i]).scope,
                ) by {
                    if i < frames.len() {
                        assert(frames2[i].scope == frames[i].scope);
                    }
                }
                assert forall|id: u64| #[trigger] doomed.contains(id) implies (
                effect::scope_disposed(scopes2, id) || awaits(frames2, id) || hangs_below(
                    scopes2,
                    doomed,
                    id,
                )) by {
                    if !effect::scope_disposed(scopes2, id) {
                        assert(id != child);
                        if awaits(frames, id) {
                            assert(awaits(rest, id));
                        } else {
                            let parent = choose|parent: u64| #[trigger]
                                doomed.contains(parent) && !effect::scope_disposed(scopes, parent)
                                    && scopes[parent].children.contains(id);
                            if parent == child {
                                assert(frames2[rest.len() as int].children.contains(id));
                            } else {
                                assert(doomed.contains(parent));
                            }
                        }
                    }
                }
            }
        } else if top.cleanups.len() > 0 {
            lemma_same_children(frames, frames2, top);
            lemma_kept_reach(frames, scopes, frames2, scopes2, doomed, top.scope);
        } else {
            lemma_closed_advances(scopes, top);
            assert forall|id: u64| awaits(frames, id) implies #[trigger] awaits(frames2, id) by {
                let i = choose|i: int|
                    0 <= i < frames.len() && (#[trigger] frames[i]).children.contains(id);
                assert(frames2[i] == frames[i]);
            }
            assert forall|i: int| 0 <= i < frames2.len() implies (#[trigger] frames2[i]).scope
                == frames[i].scope by {}
            lemma_kept_reach(frames, scopes, frames2, scopes2, doomed, top.scope);
        }
    }
}

proof fn lemma_same_children(frames: Seq<FrameModel>, frames2: Seq<FrameModel>, top: FrameModel)
    requires
        frames.len() > 0,
        top == frames.last(),
        frames2 == disposal::with_top(
            frames,
            FrameModel { cleanups: top.cleanups.drop_last(), ..top },
        ),
    ensures
        forall|id: u64| awaits(frames, id) ==> #[trigger] awaits(frames2, id),
        frames2.len() == frames.len(),
        forall|i: int| 0 <= i < frames.len() ==> (#[trigger] frames2[i]).scope == frames[i].scope,
{
    assert forall|id: u64| awaits(frames, id) implies #[trigger] awaits(frames2, id) by {
        let i = choose|i: int|
            0 <= i < frames.len() && (#[trigger] frames[i]).children.contains(id);
        assert(frames2[i].children == frames[i].children);
    }
}

/// A step that disposes no scope keeps the reach if what waited still waits, up to one
/// disposed scope.
proof fn lemma_kept_reach(
    frames: Seq<FrameModel>,
    scopes: Map<u64, ScopeModel>,
    frames2: Seq<FrameModel>,
    scopes2: Map<u64, ScopeModel>,
    doomed: Set<u64>,
    skipped: u64,
)
    requires
        reaches(frames, scopes, doomed),
        frames2.len() <= frames.len(),
        forall|i: int| 0 <= i < frames2.len() ==> (#[trigger] frames2[i]).scope == frames[i].scope,
        effect::scope_disposed(scopes2, skipped),
        forall|id: u64| awaits(frames, id) && id != skipped ==> #[trigger] awaits(frames2, id),
        advances(scopes, scopes2),
        forall|other: u64|
            effect::scope_disposed(scopes, other) == #[trigger] effect::scope_disposed(
                scopes2,
                other,
            ),
    ensures
        reaches(frames2, scopes2, doomed),
{
    assert forall|i: int| 0 <= i < frames2.len() implies effect::scope_disposed(
        scopes2,
        (#[trigger] frames2[i]).scope,
    ) by {
        assert(effect::scope_disposed(scopes, frames[i].scope));
    }
    assert forall|id: u64| #[trigger] doomed.contains(id) implies effect::scope_disposed(
        scopes2,
        id,
    ) || awaits(frames2, id) || hangs_below(scopes2, doomed, id) by {
        if !effect::scope_disposed(scopes2, id) {
            assert(!effect::scope_disposed(scopes, id));
            if awaits(frames, id) {
                assert(awaits(frames2, id));
            } else {
                let parent = choose|parent: u64| #[trigger]
                    doomed.contains(parent) && !effect::scope_disposed(scopes, parent)
                        && scopes[parent].children.contains(id);
                assert(doomed.contains(parent));
                assert(!effect::scope_disposed(scopes2, parent));
                assert(scopes2[parent].children.contains(id));
            }
        }
    }
}

/// When a disposal has nothing left to do, all that it reached is disposed.
pub proof fn law_ended_disposal_disposed_all(
    scopes: Map<u64, ScopeModel>,
    next: u64,
    doomed: Set<u64>,
    id: u64,
)
    requires
        effect::tree_ok(scopes, next),
        reaches(Seq::empty(), scopes, doomed),
        doomed.contains(id),
    ensures
        effect::scope_disposed(scopes, id),
    decreases id,
{
    if !effect::scope_disposed(scopes, id) {
        assert(!awaits(Seq::empty(), id));
        let parent = choose|parent: u64| #[trigger]
            doomed.contains(parent) && !effect::scope_disposed(scopes, parent)
                && scopes[parent].children.contains(id);
        let i = choose|i: int|
            0 <= i < scopes[parent].children.len() && scopes[parent].children[i] == id;
        assert(parent < scopes[parent].children[i]);
        law_ended_disposal_disposed_all(scopes, next, doomed, parent);
    }
}

/// The scopes that are alive.
pub open spec fn living(scopes: Map<u64, ScopeModel>) -> Set<u64> {
    scopes.dom().filter(|id: u64| !scopes[id].disposed)
}

/// What is left to do in the frames of a disposal.
pub open spec fn pending(frames: Seq<FrameModel>) -> nat
    decreases frames.len(),
{
    if frames.len() == 0 {
        0
    } else {
        pending(frames.drop_last()) + 1 + frames.last().children.len()
            + frames.last().cleanups.len()
    }
}

/// A disposal ends: every step disposes a scope or leaves less to do.
pub proof fn law_disposal_makes_progress(
    frames: Seq<FrameModel>,
    scopes: Map<u64, ScopeModel>,
    frames2: Seq<FrameModel>,
    scopes2: Map<u64, ScopeModel>,
    step: DisposeStep,
)
    requires
        frames.len() > 0,
        forall|i: int|
            0 <= i < frames.len() ==> effect::scope_disposed(scopes, (#[trigger] frames[i]).scope),
        disposal::stepped(frames, scopes, frames2, scopes2, step),
    ensures
        match step {
            DisposeStep::Entered(child) => living(scopes).contains(child) && living(scopes2)
                == living(scopes).remove(child),
            _ => living(scopes2) == living(scopes) && pending(frames2) < pending(frames),
        },
{
    let top = frames.last();
    assert(frames[frames.len() - 1] == top);
    if top.children.len() > 0 {
        let child = top.children.last();
        let rest = disposal::with_top(
            frames,
            FrameModel { children: top.children.drop_last(), ..top },
        );
        if effect::scope_disposed(scopes, child) {
            assert(rest.drop_last() =~= frames.drop_last());
            if top.policy.coordinated() {
                let added = if dispose::releasing(scopes, child) {
                    effect::work_added(scopes, top.scope, effect::ManagedWork::ChildWait(child))
                } else {
                    scopes
                };
                assert(living(added) =~= living(scopes));
                lemma_detached_advances(added, child);
                lemma_same_living(added, scopes2);
            } else {
                lemma_detached_advances(scopes, child);
                lemma_same_living(scopes, scopes2);
            }
        } else {
            assert(living(scopes2) =~= living(scopes).remove(child));
        }
    } else if top.cleanups.len() > 0 {
        assert(frames2.drop_last() =~= frames.drop_last());
    } else {
        lemma_closed_advances(scopes, top);
        lemma_same_living(scopes, scopes2);
    }
}

proof fn lemma_same_living(before: Map<u64, ScopeModel>, after: Map<u64, ScopeModel>)
    requires
        forall|id: u64|
            effect::scope_disposed(before, id) == #[trigger] effect::scope_disposed(after, id),
    ensures
        living(after) == living(before),
{
    assert forall|id: u64| living(after).contains(id) == living(before).contains(id) by {
        assert(effect::scope_disposed(before, id) == effect::scope_disposed(after, id));
    }
    assert(living(after) =~= living(before));
}

/// A scope is disposed once: a second disposal has nothing to do and changes nothing.
pub proof fn law_dispose_is_idempotent(
    before: RuntimeModel,
    scope: u64,
    policy: DisposePolicy,
    after: RuntimeModel,
    frames: Seq<FrameModel>,
    again: RuntimeModel,
    policy_again: DisposePolicy,
    frames_again: Seq<FrameModel>,
)
    requires
        context::begins_disposal(before, scope, policy, after, frames),
        context::begins_disposal(after, scope, policy_again, again, frames_again),
    ensures
        after.gone(scope),
        again == after,
        frames_again.len() == 0,
{
}

/// The clean-ups of a scope run after those of the scopes below it, the last registered one
/// first.
pub proof fn law_cleanups_run_last_first(
    frames: Seq<FrameModel>,
    scopes: Map<u64, ScopeModel>,
    frames2: Seq<FrameModel>,
    scopes2: Map<u64, ScopeModel>,
    step: DisposeStep,
)
    requires
        frames.len() > 0,
        disposal::stepped(frames, scopes, frames2, scopes2, step),
        step is Run,
    ensures
        frames.last().children.len() == 0,
        step == (DisposeStep::Run {
            scope: frames.last().scope,
            cleanup: frames.last().cleanups.last(),
        }),
        frames2.last().cleanups == frames.last().cleanups.drop_last(),
        frames2.len() == frames.len(),
        frames2.drop_last() == frames.drop_last(),
        frames2.last() == (FrameModel {
            cleanups: frames.last().cleanups.drop_last(),
            ..frames.last()
        }),
        scopes2 == scopes,
{
    assert(frames2.drop_last() =~= frames.drop_last());
}

/// A disposal with clean-ups left and no child left runs one; one without frames is over.
pub proof fn law_disposal_goes_on_while_there_is_work(
    frames: Seq<FrameModel>,
    scopes: Map<u64, ScopeModel>,
    frames2: Seq<FrameModel>,
    scopes2: Map<u64, ScopeModel>,
    step: DisposeStep,
)
    requires
        disposal::stepped(frames, scopes, frames2, scopes2, step),
    ensures
        step is Done <==> frames.len() == 0,
        step is Done ==> frames2 == frames && scopes2 == scopes,
        frames.len() > 0 ==> (step is Run <==> frames.last().children.len() == 0
            && frames.last().cleanups.len() > 0),
        frames.len() > 0 ==> (step is Entered || step is Skipped
            <==> frames.last().children.len() > 0),
        frames.len() > 0 ==> (step is Coordinate <==> frames.last().children.len() == 0
            && frames.last().cleanups.len() == 0 && (frames.last().policy is HoistToParent
            || frames.last().policy is AwaitLocal)),
{
}

/// A disposal that nobody controls starts no asynchronous disposer, in no scope: it is
/// over for a scope once its clean-ups ran, and its tasks are aborted or pass on.
pub proof fn law_uncontrolled_end_starts_no_disposer(
    frames: Seq<FrameModel>,
    scopes: Map<u64, ScopeModel>,
    frames2: Seq<FrameModel>,
    scopes2: Map<u64, ScopeModel>,
    step: DisposeStep,
)
    requires
        forall|i: int|
            0 <= i < frames.len() ==> !(#[trigger] frames[i]).policy.coordinated(),
        disposal::stepped(frames, scopes, frames2, scopes2, step),
    ensures
        !(step is Coordinate),
        forall|i: int|
            0 <= i < frames2.len() ==> !(#[trigger] frames2[i]).policy.coordinated(),
{
    if frames.len() > 0 {
        assert(!frames[frames.len() - 1].policy.coordinated());
        assert forall|i: int| 0 <= i < frames2.len() implies !(
        #[trigger] frames2[i]).policy.coordinated() by {
            if i < frames.len() {
                assert(frames2[i].policy == frames[i].policy);
            }
        }
    }
}

/// A disposed scope takes nothing more: no clean-up, and a child that is disposed itself.
pub proof fn law_disposed_scope_takes_nothing(
    scopes: Map<u64, ScopeModel>,
    id: u64,
    cleanup: Cleanup,
    fresh: u64,
    name: Seq<char>,
)
    requires
        effect::scope_disposed(scopes, id),
        fresh != id,
    ensures
        effect::cleanup_added(scopes, id, cleanup) == scopes,
        effect::scope_disposed(effect::child_added(scopes, id, fresh, name), fresh),
        forall|other: u64|
            other != fresh && scopes.contains_key(other) ==> #[trigger] effect::child_added(
                scopes,
                id,
                fresh,
                name,
            )[other] == scopes[other],
{
}

/// The first result of a release is the one that counts.
pub proof fn law_first_release_result_stays(
    scopes: Map<u64, ScopeModel>,
    id: u64,
    first: Seq<Seq<char>>,
    second: Seq<Seq<char>>,
)
    requires
        scopes.contains_key(id),
        scopes[id].parent != Some(id),
    ensures
        dispose::finished(dispose::finished(scopes, id, first), id, second) == dispose::finished(
            scopes,
            id,
            first,
        ),
        dispose::releasing(scopes, id) ==> dispose::finished(scopes, id, first)[id].completion
            == Some(Some(first)),
{
}

/// A scope is cancelled with every scope that it was created below.
pub proof fn law_cancellation_reaches_descendants(
    scopes: Map<u64, ScopeModel>,
    parent: u64,
    id: u64,
    name: Seq<char>,
    later: Map<u64, ScopeModel>,
    ancestor: u64,
)
    requires
        !effect::scope_disposed(scopes, parent),
        id != parent,
        later.contains_key(id),
        later[id].ancestors == effect::child_added(scopes, parent, id, name)[id].ancestors,
        ancestor == parent || scopes[parent].ancestors.contains(ancestor),
        effect::scope_disposed(later, ancestor),
    ensures
        effect::scope_cancelled(later, id),
{
    let ancestors = later[id].ancestors;
    assert(ancestors == scopes[parent].ancestors.push(parent));
    if ancestor == parent {
        assert(ancestors[scopes[parent].ancestors.len() as int] == ancestor);
    } else {
        let i = choose|i: int|
            0 <= i < scopes[parent].ancestors.len() && scopes[parent].ancestors[i] == ancestor;
        assert(ancestors[i] == ancestor);
    }
}

} // verus!
