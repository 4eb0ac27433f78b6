//! A release as a whole: each clean-up runs once, and parents wait for their children.

use crate::effect;
use crate::effect::disposal;
use crate::effect::disposal::DisposeStep;
use crate::effect::dispose;
use crate::effect::dispose::{CoordinatorAction, CoordinatorModel, DisposePolicy, FrameModel};
use crate::effect::{Cleanup, ManagedWork, ScopeModel};
use crate::laws::effects;
use crate::laws::ownership;
use vstd::prelude::*;

verus! {

/// How often the clean-up stands in a list.
pub open spec fn times(cleanups: Seq<Cleanup>, cleanup: Cleanup) -> nat
    decreases cleanups.len(),
{
    if cleanups.len() == 0 {
        0
    } else {
        times(cleanups.drop_last(), cleanup) + if cleanups.last() == cleanup {
            1nat
        } else {
            0nat
        }
    }
}

/// How often the clean-up stands in the frames of a scope.
pub open spec fn times_in_frames(frames: Seq<FrameModel>, scope: u64, cleanup: Cleanup) -> nat
    decreases frames.len(),
{
    if frames.len() == 0 {
        0
    } else {
        times_in_frames(frames.drop_last(), scope, cleanup) + if frames.last().scope == scope {
            times(frames.last().cleanups, cleanup)
        } else {
            0
        }
    }
}

/// How often the clean-up of a scope is still to run.
pub open spec fn left_to_run(
    scopes: Map<u64, ScopeModel>,
    frames: Seq<FrameModel>,
    scope: u64,
    cleanup: Cleanup,
) -> nat {
    times_in_frames(frames, scope, cleanup) + if effect::scope_disposed(scopes, scope) {
        0
    } else {
        times(scopes[scope].cleanups, cleanup)
    }
}

/// All frames are of disposed scopes.
pub open spec fn frames_closed(frames: Seq<FrameModel>, scopes: Map<u64, ScopeModel>) -> bool {
    forall|i: int|
        0 <= i < frames.len() ==> effect::scope_disposed(scopes, (#[trigger] frames[i]).scope)
}

/// The scopes and the disposals under way, the innermost last.
pub struct Moment {
    pub scopes: Map<u64, ScopeModel>,
    pub frames: Seq<FrameModel>,
}

/// Something that happens to a scope tree.
pub enum Happening {
    /// A clean-up is registered, or, on a disposed scope, run at once.
    Register { scope: u64, cleanup: Cleanup },
    /// A disposal begins, also within another.
    Begin { scope: u64, policy: DisposePolicy },
    /// The innermost disposal makes a step.
    Step(DisposeStep),
    /// The release of a scope ends with these errors.
    Finish { scope: u64, errors: Seq<Seq<char>> },
}

/// The one moment follows the other.
pub open spec fn happens(a: Moment, happening: Happening, b: Moment) -> bool {
    match happening {
        Happening::Register { scope, cleanup } => {
            &&& b.frames == a.frames
            &&& b.scopes == effect::cleanup_added(a.scopes, scope, cleanup)
        },
        Happening::Begin { scope, policy } => if effect::scope_disposed(a.scopes, scope) {
            b == a
        } else {
            &&& b.frames == a.frames.push(dispose::opening_frame(a.scopes, scope, policy))
            &&& b.scopes == a.scopes.insert(scope, dispose::begun(a.scopes[scope]))
        },
        Happening::Step(step) => disposal::stepped(a.frames, a.scopes, b.frames, b.scopes, step),
        Happening::Finish { scope, errors } => {
            &&& b.frames == a.frames
            &&& b.scopes == dispose::finished(a.scopes, scope, errors)
        },
    }
}

/// How often this registers the clean-up of a scope.
pub open spec fn registers(happening: Happening, scope: u64, cleanup: Cleanup) -> nat {
    if happening == (Happening::Register { scope, cleanup }) {
        1
    } else {
        0
    }
}

/// How often this runs the clean-up of a scope: a step runs it, or it is registered on a
/// disposed scope.
pub open spec fn runs(a: Moment, happening: Happening, scope: u64, cleanup: Cleanup) -> nat {
    match happening {
        Happening::Register { .. } => if registers(happening, scope, cleanup) == 1
            && effect::scope_disposed(a.scopes, scope) {
            1
        } else {
            0
        },
        Happening::Begin { .. } => 0,
        Happening::Step(step) => if step == (DisposeStep::Run { scope, cleanup }) {
            1
        } else {
            0
        },
        Happening::Finish { .. } => 0,
    }
}

proof fn lemma_top(frames: Seq<FrameModel>, top: FrameModel, scope: u64, cleanup: Cleanup)
    requires
        frames.len() > 0,
    ensures
        times_in_frames(disposal::with_top(frames, top), scope, cleanup) == times_in_frames(
            frames.drop_last(),
            scope,
            cleanup,
        ) + if top.scope == scope {
            times(top.cleanups, cleanup)
        } else {
            0
        },
{
    assert(disposal::with_top(frames, top).drop_last() =~= frames.drop_last());
}

/// Scopes that keep their clean-ups have the same left to run.
proof fn lemma_same_left(
    scopes: Map<u64, ScopeModel>,
    scopes2: Map<u64, ScopeModel>,
    frames: Seq<FrameModel>,
    scope: u64,
    cleanup: Cleanup,
)
    requires
        ownership::keeps_cleanups(scopes, scopes2),
        effect::scope_disposed(scopes, scope) ==> effect::scope_disposed(scopes2, scope),
    ensures
        left_to_run(scopes2, frames, scope, cleanup) == left_to_run(
            scopes,
            frames,
            scope,
            cleanup,
        ),
{
    if !effect::scope_disposed(scopes, scope) {
        assert(!effect::scope_disposed(scopes2, scope));
    }
}

/// Whatever happens, a clean-up is neither lost nor doubled: what is registered is left to
/// run until it runs.
pub proof fn law_cleanups_are_conserved(
    a: Moment,
    happening: Happening,
    b: Moment,
    scope: u64,
    cleanup: Cleanup,
)
    requires
        frames_closed(a.frames, a.scopes),
        happens(a, happening, b),
    ensures
        frames_closed(b.frames, b.scopes),
        left_to_run(b.scopes, b.frames, scope, cleanup) + runs(a, happening, scope, cleanup)
            == left_to_run(a.scopes, a.frames, scope, cleanup) + registers(
            happening,
            scope,
            cleanup,
        ),
{
    match happening {
        Happening::Register { scope: owner, cleanup: added } => {
            if !effect::scope_disposed(a.scopes, owner) {
                let held = a.scopes[owner].cleanups;
                assert(held.push(added).drop_last() =~= held);
            }
        },
        Happening::Begin { scope: begun, policy } => {
            if !effect::scope_disposed(a.scopes, begun) {
                assert(b.frames.drop_last() =~= a.frames);
                assert forall|i: int| 0 <= i < b.frames.len() implies effect::scope_disposed(
                    b.scopes,
                    (#[trigger] b.frames[i]).scope,
                ) by {
                    if i < a.frames.len() {
                        assert(b.frames[i] == a.frames[i]);
                    }
                }
            }
        },
        Happening::Step(step) => {
            lemma_step_conserves(a, step, b, scope, cleanup);
        },
        Happening::Finish { scope: ended, errors } => {
            assert forall|other: u64| effect::scope_disposed(a.scopes, other)
                == #[trigger] effect::scope_disposed(b.scopes, other) by {}
            lemma_same_left(a.scopes, b.scopes, a.frames, scope, cleanup);
        },
    }
}

proof fn lemma_step_conserves(
    a: Moment,
    step: DisposeStep,
    b: Moment,
    scope: u64,
    cleanup: Cleanup,
)
    requires
        frames_closed(a.frames, a.scopes),
        disposal::stepped(a.frames, a.scopes, b.frames, b.scopes, step),
    ensures
        frames_closed(b.frames, b.scopes),
        left_to_run(b.scopes, b.frames, scope, cleanup) + runs(
            a,
            Happening::Step(step),
            scope,
            cleanup,
        ) == left_to_run(a.scopes, a.frames, scope, cleanup),
{
    let frames = a.frames;
    if frames.len() > 0 {
        let top = frames.last();
        assert(frames[frames.len() - 1] == top);
        if top.children.len() > 0 {
            let child = top.children.last();
            let shorter = FrameModel { children: top.children.drop_last(), ..top };
            let rest = disposal::with_top(frames, shorter);
            lemma_top(frames, shorter, scope, cleanup);
            if effect::scope_disposed(a.scopes, child) {
                ownership::lemma_skipped_keeps(a.scopes, top, child);
                let added = if dispose::releasing(a.scopes, child) {
                    effect::work_added(a.scopes, top.scope, ManagedWork::ChildWait(child))
                } else {
                    a.scopes
                };
                effects::lemma_detached_advances(added, child);
                effects::lemma_detached_advances(a.scopes, child);
                lemma_same_left(a.scopes, b.scopes, rest, scope, cleanup);
                assert forall|i: int| 0 <= i < b.frames.len() implies effect::scope_disposed(
                    b.scopes,
                    (#[trigger] b.frames[i]).scope,
                ) by {
                    assert(b.frames[i].scope == frames[i].scope);
                    assert(effect::scope_disposed(a.scopes, frames[i].scope));
                }
            } else {
                assert(b.frames.drop_last() =~= rest);
                assert forall|i: int| 0 <= i < b.frames.len() implies effect::scope_disposed(
                    b.scopes,
                    (#[trigger] b.frames[i]).scope,
                ) by {
                    if i < frames.len() {
                        assert(b.frames[i].scope == frames[i].scope);
                    }
                }
            }
        } else if top.cleanups.len() > 0 {
            let shorter = FrameModel { cleanups: top.cleanups.drop_last(), ..top };
            lemma_top(frames, shorter, scope, cleanup);
            assert forall|i: int| 0 <= i < b.frames.len() implies effect::scope_disposed(
                b.scopes,
                (#[trigger] b.frames[i]).scope,
            ) by {
                assert(b.frames[i].scope == frames[i].scope);
            }
        } else {
            ownership::lemma_closed_keeps(a.scopes, top);
            effects::lemma_closed_advances(a.scopes, top);
            lemma_same_left(a.scopes, b.scopes, b.frames, scope, cleanup);
            assert forall|i: int| 0 <= i < b.frames.len() implies effect::scope_disposed(
                b.scopes,
                (#[trigger] b.frames[i]).scope,
            ) by {
                assert(b.frames[i] == frames[i]);
                assert(effect::scope_disposed(a.scopes, frames[i].scope));
            }
        }
    }
}

/// These moments follow each other through these happenings.
pub open spec fn history(moments: Seq<Moment>, happenings: Seq<Happening>) -> bool {
    &&& moments.len() == happenings.len() + 1
    &&& forall|k: int|
        0 <= k < happenings.len() ==> happens(
            moments[k],
            #[trigger] happenings[k],
            moments[k + 1],
        )
}

/// How often the clean-up of a scope was registered.
pub open spec fn total_registered(
    happenings: Seq<Happening>,
    scope: u64,
    cleanup: Cleanup,
) -> nat
    decreases happenings.len(),
{
    if happenings.len() == 0 {
        0
    } else {
        total_registered(happenings.drop_last(), scope, cleanup) + registers(
            happenings.last(),
            scope,
            cleanup,
        )
    }
}

/// How often the clean-up of a scope ran.
pub open spec fn total_run(
    moments: Seq<Moment>,
    happenings: Seq<Happening>,
    scope: u64,
    cleanup: Cleanup,
) -> nat
    decreases happenings.len(),
{
    if happenings.len() == 0 {
        0
    } else {
        total_run(moments.drop_last(), happenings.drop_last(), scope, cleanup) + runs(
            moments[moments.len() - 2],
            happenings.last(),
            scope,
            cleanup,
        )
    }
}

proof fn lemma_history(
    moments: Seq<Moment>,
    happenings: Seq<Happening>,
    scope: u64,
    cleanup: Cleanup,
)
    requires
        history(moments, happenings),
        frames_closed(moments[0].frames, moments[0].scopes),
    ensures
        frames_closed(moments.last().frames, moments.last().scopes),
        left_to_run(moments.last().scopes, moments.last().frames, scope, cleanup) + total_run(
            moments,
            happenings,
            scope,
            cleanup,
        ) == left_to_run(moments[0].scopes, moments[0].frames, scope, cleanup)
            + total_registered(happenings, scope, cleanup),
    decreases happenings.len(),
{
    if happenings.len() > 0 {
        let front = moments.drop_last();
        let earlier = happenings.drop_last();
        assert forall|k: int| 0 <= k < earlier.len() implies happens(
            front[k],
            #[trigger] earlier[k],
            front[k + 1],
        ) by {
            assert(earlier[k] == happenings[k]);
            assert(front[k] == moments[k] && front[k + 1] == moments[k + 1]);
        }
        lemma_history(front, earlier, scope, cleanup);
        let n = happenings.len() - 1;
        assert(happenings[n] == happenings.last());
        assert(front.last() == moments[n]);
        assert(moments.last() == moments[n + 1]);
        law_cleanups_are_conserved(moments[n], happenings[n], moments[n + 1], scope, cleanup);
    }
}

/// Every callback that is registered on a scope runs exactly once, whether it is registered
/// before, during or after the disposal of the scope: once the scope is disposed and no
/// disposal is under way, it ran as often as it was registered.
pub proof fn law_callbacks_run_exactly_once(
    moments: Seq<Moment>,
    happenings: Seq<Happening>,
    scope: u64,
    callback: u64,
)
    requires
        history(moments, happenings),
        moments[0].frames.len() == 0,
        effect::scope_disposed(moments[0].scopes, scope) || times(
            moments[0].scopes[scope].cleanups,
            Cleanup::Callback(callback),
        ) == 0,
        moments.last().frames.len() == 0,
        effect::scope_disposed(moments.last().scopes, scope),
    ensures
        total_run(moments, happenings, scope, Cleanup::Callback(callback)) == total_registered(
            happenings,
            scope,
            Cleanup::Callback(callback),
        ),
{
    lemma_history(moments, happenings, scope, Cleanup::Callback(callback));
}

/// How often work waits for this child.
pub open spec fn waits_for(work: Seq<ManagedWork>, child: u64) -> nat
    decreases work.len(),
{
    if work.len() == 0 {
        0
    } else {
        waits_for(work.drop_last(), child) + if work.last() == ManagedWork::ChildWait(child) {
            1nat
        } else {
            0nat
        }
    }
}

/// How often an identifier stands in a list.
pub open spec fn occurrences(ids: Seq<u64>, id: u64) -> nat
    decreases ids.len(),
{
    if ids.len() == 0 {
        0
    } else {
        occurrences(ids.drop_last(), id) + if ids.last() == id {
            1nat
        } else {
            0nat
        }
    }
}

/// The waits of two lists of work add up.
pub proof fn lemma_waits_add(one: Seq<ManagedWork>, two: Seq<ManagedWork>, child: u64)
    ensures
        waits_for(one + two, child) == waits_for(one, child) + waits_for(two, child),
    decreases two.len(),
{
    if two.len() == 0 {
        assert(one + two =~= one);
    } else {
        assert((one + two).drop_last() =~= one + two.drop_last());
        lemma_waits_add(one, two.drop_last(), child);
    }
}

/// A coordinator waits for a child as often as the work does.
pub proof fn lemma_waits_in(work: Seq<ManagedWork>, child: u64)
    ensures
        occurrences(dispose::waits_in(work), child) == waits_for(work, child),
    decreases work.len(),
{
    if work.len() > 0 {
        lemma_waits_in(work.drop_last(), child);
        if let ManagedWork::ChildWait(id) = work.last() {
            let front = dispose::waits_in(work.drop_last());
            assert(front.push(id).drop_last() =~= front);
        }
    }
}

/// How often the release of a frame's scope waits for this child.
pub open spec fn frame_waits(
    scopes: Map<u64, ScopeModel>,
    frame: FrameModel,
    child: u64,
) -> nat {
    waits_for(disposal::pending_work(scopes, frame), child)
}

/// The child stands outside of the disposal: it is disposed and has no parent, no live scope
/// lists it, and none of the frames is of it or has it still to dispose.
pub open spec fn apart(
    frames: Seq<FrameModel>,
    scopes: Map<u64, ScopeModel>,
    child: u64,
) -> bool {
    &&& effect::scope_disposed(scopes, child)
    &&& scopes.contains_key(child) ==> scopes[child].parent is None
    &&& forall|other: u64|
        !(#[trigger] effect::scope_disposed(scopes, other)) ==> !scopes[other].children.contains(
            child,
        )
    &&& !effects::awaits(frames, child)
    &&& forall|j: int| 0 <= j < frames.len() ==> (#[trigger] frames[j]).scope != child
}

/// A controlled release takes over a child whose release already runs: it waits for the child
/// once more than before. If the child was listed there only, it stands outside of the
/// disposal then.
pub proof fn law_running_child_is_taken_over(
    frames: Seq<FrameModel>,
    scopes: Map<u64, ScopeModel>,
    frames2: Seq<FrameModel>,
    scopes2: Map<u64, ScopeModel>,
    step: DisposeStep,
    child: u64,
)
    requires
        frames.len() > 0,
        frames_closed(frames, scopes),
        disposal::stepped(frames, scopes, frames2, scopes2, step),
        step == DisposeStep::Skipped(child),
        frames.last().policy.coordinated(),
        scopes.contains_key(frames.last().scope),
        frames.last().scope != child,
        dispose::releasing(scopes, child),
    ensures
        frames2.len() == frames.len(),
        frame_waits(scopes2, frames2.last(), child) == frame_waits(scopes, frames.last(), child)
            + 1,
        scopes2.contains_key(child),
        scopes2[child].parent is None,
        dispose::releasing(scopes2, child),
        ({
            &&& !frames.last().children.drop_last().contains(child)
            &&& !effects::awaits(frames.drop_last(), child)
            &&& forall|j: int| 0 <= j < frames.len() ==> (#[trigger] frames[j]).scope != child
            &&& forall|other: u64|
                !(#[trigger] effect::scope_disposed(scopes, other))
                    ==> !scopes[other].children.contains(child)
        }) ==> apart(frames2, scopes2, child),
{
    let top = frames.last();
    let work = scopes[top.scope].work;
    let wait = ManagedWork::ChildWait(child);
    assert(scopes2[top.scope].work == work.push(wait));
    assert(work.push(wait).drop_last() =~= work);
    lemma_waits_add(top.work, work, child);
    lemma_waits_add(top.work, work.push(wait), child);
    let added = effect::work_added(scopes, top.scope, wait);
    lemma_detached_shorter(added, child);
    if !top.children.drop_last().contains(child) && !effects::awaits(frames.drop_last(), child)
        && (forall|j: int| 0 <= j < frames.len() ==> (#[trigger] frames[j]).scope != child)
        && (forall|other: u64|
        !(#[trigger] effect::scope_disposed(scopes, other)) ==> !scopes[other].children.contains(
            child,
        )) {
        assert forall|other: u64| !(#[trigger] effect::scope_disposed(
            scopes2,
            other,
        )) implies !scopes2[other].children.contains(child) by {
            assert(!effect::scope_disposed(added, other));
            assert(!effect::scope_disposed(scopes, other));
        }
        assert forall|j: int| 0 <= j < frames2.len() implies !(
        #[trigger] frames2[j]).children.contains(child) && frames2[j].scope != child by {
            assert(frames[j].scope != child);
            if j < frames.len() - 1 {
                assert(frames.drop_last()[j] == frames2[j]);
            }
        }
    }
}

/// What steps of a disposal do to the lists of live scopes: they only get shorter.
pub open spec fn only_shorter(before: Map<u64, ScopeModel>, after: Map<u64, ScopeModel>) -> bool {
    &&& forall|other: u64|
        !(#[trigger] effect::scope_disposed(after, other)) ==> !effect::scope_disposed(
            before,
            other,
        )
    &&& forall|other: u64, child: u64|
        !effect::scope_disposed(after, other) && #[trigger] after[other].children.contains(child)
            ==> before[other].children.contains(child)
    &&& forall|other: u64| #[trigger]
        after.contains_key(other) ==> before.contains_key(other) && (before[other].parent is None
            ==> after[other].parent is None)
}

/// Taking a disposed scope out of its parent makes lists shorter at most.
pub proof fn lemma_detached_shorter(scopes: Map<u64, ScopeModel>, id: u64)
    requires
        effect::scope_disposed(scopes, id),
    ensures
        only_shorter(scopes, dispose::detached(scopes, id)),
{
    effects::lemma_detached_advances(scopes, id);
    let after = dispose::detached(scopes, id);
    assert forall|other: u64, child: u64|
        !effect::scope_disposed(after, other)
            && #[trigger] after[other].children.contains(child) implies (
    scopes[other].children.contains(child)) by {
        dispose::lemma_without_subset(scopes[other].children, id);
    }
}

/// A child that stands outside of a disposal stays outside of it.
pub proof fn law_child_stays_apart(
    frames: Seq<FrameModel>,
    scopes: Map<u64, ScopeModel>,
    frames2: Seq<FrameModel>,
    scopes2: Map<u64, ScopeModel>,
    step: DisposeStep,
    child: u64,
)
    requires
        frames_closed(frames, scopes),
        disposal::stepped(frames, scopes, frames2, scopes2, step),
        forall|j: int| 0 <= j < frames.len() ==> (#[trigger] frames[j]).policy.coordinated(),
        apart(frames, scopes, child),
    ensures
        apart(frames2, scopes2, child),
        forall|j: int| 0 <= j < frames2.len() ==> (#[trigger] frames2[j]).policy.coordinated(),
{
    if frames.len() > 0 {
        let top = frames.last();
        assert(frames[frames.len() - 1] == top);
        assert(top.policy.coordinated());
        if top.children.len() > 0 {
            let next = top.children.last();
            let rest = disposal::with_top(
                frames,
                FrameModel { children: top.children.drop_last(), ..top },
            );
            assert forall|j: int| 0 <= j < rest.len() implies !(
            #[trigger] rest[j]).children.contains(child) by {
                assert(!frames[j].children.contains(child));
                if j == frames.len() - 1 && rest[j].children.contains(child) {
                    let i = choose|i: int|
                        0 <= i < rest[j].children.len() && rest[j].children[i] == child;
                    assert(top.children[i] == child);
                }
            }
            if effect::scope_disposed(scopes, next) {
                let added = if dispose::releasing(scopes, next) {
                    effect::work_added(scopes, top.scope, ManagedWork::ChildWait(next))
                } else {
                    scopes
                };
                lemma_detached_shorter(added, next);
                assert(only_shorter(scopes, added));
                assert forall|other: u64| !(#[trigger] effect::scope_disposed(
                    scopes2,
                    other,
                )) implies !scopes2[other].children.contains(child) by {
                    assert(!effect::scope_disposed(added, other));
                    assert(!effect::scope_disposed(scopes, other));
                }
                effects::lemma_detached_advances(added, next);
            } else {
                assert(!scopes[next].children.contains(child));
                assert forall|other: u64| !(#[trigger] effect::scope_disposed(
                    scopes2,
                    other,
                )) implies !scopes2[other].children.contains(child) by {
                    assert(!effect::scope_disposed(scopes, other));
                }
                assert forall|j: int| 0 <= j < frames2.len() implies !(
                #[trigger] frames2[j]).children.contains(child) && frames2[j].scope != child
                    && frames2[j].policy.coordinated() by {
                    if j < frames.len() {
                        assert(frames2[j] == rest[j]);
                        assert(frames[j].scope != child);
                        assert(frames[j].policy.coordinated());
                    }
                }
            }
            assert forall|j: int| 0 <= j < frames2.len() implies (
            #[trigger] frames2[j]).scope != child && frames2[j].policy.coordinated() by {
                if j < frames.len() {
                    assert(frames[j].scope != child);
                    assert(frames[j].policy.coordinated());
                }
            }
        } else if top.cleanups.len() > 0 {
            assert forall|j: int| 0 <= j < frames2.len() implies !(
            #[trigger] frames2[j]).children.contains(child) && frames2[j].scope != child
                && frames2[j].policy.coordinated() by {
                assert(!frames[j].children.contains(child));
                assert(frames[j].scope != child);
                assert(frames[j].policy.coordinated());
            }
        } else {
            assert forall|j: int| 0 <= j < frames2.len() implies !(
            #[trigger] frames2[j]).children.contains(child) && frames2[j].scope != child
                && frames2[j].policy.coordinated() by {
                assert(frames2[j] == frames[j]);
                assert(!frames[j].children.contains(child));
            }
            effects::lemma_closed_advances(scopes, top);
            lemma_closed_shorter(scopes, top);
            assert forall|other: u64| !(#[trigger] effect::scope_disposed(
                scopes2,
                other,
            )) implies !scopes2[other].children.contains(child) by {
                assert(!effect::scope_disposed(scopes, other));
            }
        }
    }
}

/// So does the end of a frame.
pub proof fn lemma_closed_shorter(scopes: Map<u64, ScopeModel>, top: FrameModel)
    requires
        effect::scope_disposed(scopes, top.scope),
        top.policy.coordinated(),
    ensures
        only_shorter(scopes, disposal::closed_scopes(scopes, top)),
{
    let id = top.scope;
    let taken = disposal::work_taken(scopes, id);
    if top.policy is HoistToParent && scopes.contains_key(id) {
        let holder = match taken[id].parent {
            Some(parent) if taken.contains_key(parent) => parent,
            _ => id,
        };
        let added = effect::work_added(taken, holder, ManagedWork::ChildWait(id));
        lemma_detached_shorter(added, id);
        let after = disposal::closed_scopes(scopes, top);
        assert forall|other: u64, child: u64|
            !effect::scope_disposed(after, other)
                && #[trigger] after[other].children.contains(child) implies (
        scopes[other].children.contains(child)) by {
            assert(added[other].children.contains(child));
        }
        assert forall|other: u64| !(#[trigger] effect::scope_disposed(
            after,
            other,
        )) implies !effect::scope_disposed(scopes, other) by {
            assert(!effect::scope_disposed(added, other));
        }
        assert forall|other: u64| #[trigger] after.contains_key(other) implies scopes.contains_key(
            other,
        ) && (scopes[other].parent is None ==> after[other].parent is None) by {
            assert(added.contains_key(other));
        }
    }
}

/// Until the release of the frame's scope is handed to its coordinator, it goes on to wait for
/// the child as often as before; then the coordinator does.
pub proof fn law_wait_for_child_stays(
    frames: Seq<FrameModel>,
    scopes: Map<u64, ScopeModel>,
    frames2: Seq<FrameModel>,
    scopes2: Map<u64, ScopeModel>,
    step: DisposeStep,
    i: int,
    child: u64,
)
    requires
        frames_closed(frames, scopes),
        disposal::stepped(frames, scopes, frames2, scopes2, step),
        0 <= i < frames.len(),
        scopes.contains_key(frames[i].scope),
        forall|j: int| 0 <= j < frames.len() ==> (#[trigger] frames[j]).policy.coordinated(),
        forall|j: int|
            0 <= j < frames.len() && j != i ==> (#[trigger] frames[j]).scope != frames[i].scope,
        apart(frames, scopes, child),
        frames[i].scope != child,
    ensures
        i < frames2.len() ==> frame_waits(scopes2, frames2[i], child) == frame_waits(
            scopes,
            frames[i],
            child,
        ),
        i >= frames2.len() ==> (step matches DisposeStep::Coordinate(coordinator)
            && coordinator@.scope == frames[i].scope && occurrences(coordinator@.waits, child)
            == frame_waits(scopes, frames[i], child)),
{
    let top = frames.last();
    assert(frames[frames.len() - 1] == top);
    assert(top.policy.coordinated());
    let owner = frames[i].scope;
    let work = scopes[owner].work;
    assert(effect::scope_disposed(scopes, owner));
    if top.children.len() > 0 {
        let next = top.children.last();
        assert(top.children.contains(next));
        assert(next != child);
        assert(frames2[i].work == frames[i].work && frames2[i].scope == owner);
        if effect::scope_disposed(scopes, next) {
            let wait = ManagedWork::ChildWait(next);
            assert(work.push(wait).drop_last() =~= work);
            lemma_waits_add(frames[i].work, work, child);
            lemma_waits_add(frames[i].work, work.push(wait), child);
            assert(scopes2[owner].work == work || scopes2[owner].work == work.push(wait));
        } else {
            assert(scopes2[owner].work == work);
        }
    } else if top.cleanups.len() > 0 {
        assert(frames2[i].work == frames[i].work && frames2[i].scope == owner);
    } else {
        lemma_waits_in(disposal::pending_work(scopes, top), child);
        if i < frames.len() - 1 {
            assert(frames2[i] == frames[i]);
            assert(top.scope != owner);
            let wait = ManagedWork::ChildWait(top.scope);
            assert(top.scope != child);
            assert(work.push(wait).drop_last() =~= work);
            lemma_waits_add(frames[i].work, work, child);
            lemma_waits_add(frames[i].work, work.push(wait), child);
            assert(scopes2[owner].work == work || scopes2[owner].work == work.push(wait));
        }
    }
}

/// The action that a coordinator hands out at position `k`: first the waits for the children,
/// then the disposers, the last one first, then the tasks.
pub open spec fn planned(start: CoordinatorModel, k: int) -> CoordinatorAction {
    let w = start.waits.len() as int;
    let d = start.disposers.len() as int;
    if k < w {
        CoordinatorAction::AwaitChild(start.waits[k])
    } else if k < w + d {
        CoordinatorAction::RunDisposer(start.disposers[d - 1 - (k - w)])
    } else {
        CoordinatorAction::AwaitTask(start.tasks[k - w - d])
    }
}

/// The number of actions before the end.
pub open spec fn actions_before_end(start: CoordinatorModel) -> nat {
    start.waits.len() + start.disposers.len() + start.tasks.len()
}

/// All errors that were reported, in order.
pub open spec fn all_reported(reports: Seq<Seq<String>>) -> Seq<String>
    decreases reports.len(),
{
    if reports.len() == 0 {
        Seq::empty()
    } else {
        all_reported(reports.drop_last()) + reports.last()
    }
}

/// A run of a coordinator: in each state it hands an action out, and what the host reports of
/// it is added to the errors.
pub open spec fn coordinator_run(
    states: Seq<CoordinatorModel>,
    actions: Seq<CoordinatorAction>,
    reports: Seq<Seq<String>>,
) -> bool {
    &&& states.len() == actions.len() + 1
    &&& reports.len() == actions.len()
    &&& forall|k: int|
        0 <= k < actions.len() ==> states[k].performs(#[trigger] actions[k]) && states[k + 1] == (
        CoordinatorModel {
            errors: states[k].advanced().errors + reports[k],
            ..states[k].advanced()
        })
}

/// The lists of a coordinator after `k` actions.
spec fn rest_after(start: CoordinatorModel, k: int, state: CoordinatorModel) -> bool {
    let w = start.waits.len() as int;
    let d = start.disposers.len() as int;
    let t = start.tasks.len() as int;
    &&& state.scope == start.scope
    &&& state.waits == (if k <= w {
        start.waits.skip(k)
    } else {
        Seq::empty()
    })
    &&& state.disposers == (if k <= w {
        start.disposers
    } else if k <= w + d {
        start.disposers.take(d - (k - w))
    } else {
        Seq::empty()
    })
    &&& state.tasks == (if k <= w + d {
        start.tasks
    } else {
        start.tasks.skip(k - w - d)
    })
}

proof fn lemma_run(
    states: Seq<CoordinatorModel>,
    actions: Seq<CoordinatorAction>,
    reports: Seq<Seq<String>>,
    k: int,
)
    requires
        coordinator_run(states, actions, reports),
        0 <= k < states.len(),
        k <= actions_before_end(states[0]),
    ensures
        rest_after(states[0], k, states[k]),
        states[k].errors == states[0].errors + all_reported(reports.take(k)),
    decreases k,
{
    let start = states[0];
    let w = start.waits.len() as int;
    let d = start.disposers.len() as int;
    if k == 0 {
        assert(start.waits.skip(0) =~= start.waits);
        assert(reports.take(0) =~= Seq::<Seq<String>>::empty());
        assert(start.errors + Seq::<String>::empty() =~= start.errors);
    } else {
        lemma_run(states, actions, reports, k - 1);
        let before = states[k - 1];
        let after = states[k];
        assert(before.performs(actions[k - 1]));
        assert(after == (CoordinatorModel {
            errors: before.advanced().errors + reports[k - 1],
            ..before.advanced()
        }));
        assert(reports.take(k).drop_last() =~= reports.take(k - 1));
        assert(reports.take(k).last() == reports[k - 1]);
        assert((start.errors + all_reported(reports.take(k - 1))) + reports[k - 1]
            =~= start.errors + (all_reported(reports.take(k - 1)) + reports[k - 1]));
        if k - 1 < w {
            assert(start.waits.skip(k - 1).drop_first() =~= start.waits.skip(k));
        } else if k - 1 < w + d {
            let left = d - (k - 1 - w);
            assert(before.waits.len() == 0);
            assert(before.disposers =~= start.disposers.take(left));
            assert(start.disposers.take(left).drop_last() =~= start.disposers.take(left - 1));
            assert(after.waits =~= Seq::<u64>::empty());
        } else {
            assert(before.waits.len() == 0);
            assert(before.disposers.len() == 0);
            assert(before.tasks =~= start.tasks.skip(k - 1 - w - d));
            assert(start.tasks.skip(k - 1 - w - d).drop_first() =~= start.tasks.skip(k - w - d));
            assert(after.waits =~= Seq::<u64>::empty());
            assert(after.disposers =~= Seq::<u64>::empty());
        }
    }
}

/// A release waits for all children before the first of its disposers starts, runs the
/// disposers one after the other, the last one first, and waits for the tasks then. It ends
/// with the errors of its clean-ups followed by each report exactly once, so that the errors
/// of a child that is waited for once are in it once.
pub proof fn law_release_waits_and_reports_once(
    states: Seq<CoordinatorModel>,
    actions: Seq<CoordinatorAction>,
    reports: Seq<Seq<String>>,
    k: int,
)
    requires
        coordinator_run(states, actions, reports),
        0 <= k < actions.len(),
        k <= actions_before_end(states[0]),
    ensures
        k < actions_before_end(states[0]) ==> actions[k] == planned(states[0], k),
        k == actions_before_end(states[0]) ==> (actions[k] matches CoordinatorAction::Finish(errors)
            && errors@ == states[0].errors + all_reported(reports.take(k))),
{
    lemma_run(states, actions, reports, k);
    assert(states[k].performs(actions[k]));
    let start = states[0];
    let w = start.waits.len() as int;
    let d = start.disposers.len() as int;
    let t = start.tasks.len() as int;
    if k < w {
        assert(start.waits.skip(k)[0] == start.waits[k]);
    } else if k < w + d {
        let left = d - (k - w);
        assert(states[k].waits.len() == 0);
        assert(states[k].disposers =~= start.disposers.take(left));
        assert(start.disposers.take(left).last() == start.disposers[left - 1]);
    } else {
        assert(states[k].waits.len() == 0);
        assert(states[k].disposers.len() == 0);
        assert(states[k].tasks =~= start.tasks.skip(k - w - d));
    }
}

} // verus!
