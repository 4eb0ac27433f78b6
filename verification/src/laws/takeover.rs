//! The release of a scope below which another release already runs.

use crate::effect;
use crate::effect::disposal;
use crate::effect::disposal::DisposeStep;
use crate::effect::dispose;
use crate::effect::dispose::{
    Coordinator, CoordinatorAction, CoordinatorModel, DisposePolicy, FrameModel,
};
use crate::effect::{ManagedWork, ScopeModel};
use crate::laws::effects;
use crate::laws::release;
use crate::laws::release::{Happening, Moment};
use crate::text;
use vstd::prelude::*;

verus! {

/// The scope `parent` is about to be released while the release of `child` runs below it: the
/// parent lists the child, or already waits for it, once in all, and nobody else lists it.
pub open spec fn about_to_take_over(m: Moment, parent: u64, child: u64) -> bool {
    &&& !effect::scope_disposed(m.scopes, parent)
    &&& dispose::releasing(m.scopes, child)
    &&& m.scopes[child].disposed
    &&& release::occurrences(m.scopes[parent].children, child) + release::waits_for(
        m.scopes[parent].work,
        child,
    ) == 1
    &&& forall|other: u64|
        other != parent && !(#[trigger] effect::scope_disposed(m.scopes, other))
            ==> !m.scopes[other].children.contains(child)
    &&& release::frames_closed(m.frames, m.scopes)
    &&& forall|j: int|
        0 <= j < m.frames.len() ==> {
            &&& (#[trigger] m.frames[j]).policy.coordinated()
            &&& m.frames[j].scope != child
            &&& !m.frames[j].children.contains(child)
        }
}

/// Frame `i` is that of `parent`, and it still has the child to dispose or waits for it, once
/// in all. Nobody else has anything to do with the child.
spec fn in_hand(m: Moment, i: int, parent: u64, child: u64) -> bool {
    let frame = m.frames[i];
    &&& 0 <= i < m.frames.len()
    &&& frame.scope == parent
    &&& parent != child
    &&& m.scopes.contains_key(parent)
    &&& m.scopes.contains_key(child)
    &&& m.scopes[child].disposed
    &&& release::occurrences(frame.children, child) + release::frame_waits(m.scopes, frame, child)
        == 1
    &&& release::occurrences(frame.children, child) > 0 ==> dispose::releasing(m.scopes, child)
    &&& forall|id: u64|
        !(#[trigger] effect::scope_disposed(m.scopes, id)) ==> !m.scopes[id].children.contains(
            child,
        )
    &&& release::frames_closed(m.frames, m.scopes)
    &&& forall|j: int|
        0 <= j < m.frames.len() ==> {
            &&& (#[trigger] m.frames[j]).policy.coordinated()
            &&& m.frames[j].scope != child
            &&& j != i ==> m.frames[j].scope != parent && !m.frames[j].children.contains(child)
        }
}

/// What may happen meanwhile: anything but the start of a disposal that nobody controls, and
/// but the end of the child's release while the child is still listed.
pub open spec fn allowed(m: Moment, happening: Happening, child: u64) -> bool {
    match happening {
        Happening::Begin { policy, .. } => policy.coordinated(),
        Happening::Finish { scope, .. } => scope != child || !effects::awaits(m.frames, child),
        _ => true,
    }
}

/// This hands the release of `parent` to its coordinator.
pub open spec fn hands_over(happening: Happening, parent: u64) -> bool {
    happening matches Happening::Step(DisposeStep::Coordinate(coordinator))
        && coordinator@.scope == parent
}

proof fn lemma_occurs(ids: Seq<u64>, id: u64)
    ensures
        ids.contains(id) <==> release::occurrences(ids, id) > 0,
    decreases ids.len(),
{
    if ids.len() > 0 {
        let front = ids.drop_last();
        lemma_occurs(front, id);
        if ids.contains(id) && ids.last() != id {
            let i = choose|i: int| 0 <= i < ids.len() && ids[i] == id;
            assert(front[i] == id);
        }
        if front.contains(id) {
            let i = choose|i: int| 0 <= i < front.len() && front[i] == id;
            assert(ids[i] == id);
        }
    }
}

proof fn lemma_begins(m: Moment, policy: DisposePolicy, n: Moment, parent: u64, child: u64)
    requires
        about_to_take_over(m, parent, child),
        policy.coordinated(),
        release::happens(m, Happening::Begin { scope: parent, policy }, n),
    ensures
        in_hand(n, m.frames.len() as int, parent, child),
{
    let i = m.frames.len() as int;
    let frame = n.frames[i];
    assert(frame == dispose::opening_frame(m.scopes, parent, policy));
    assert(disposal::pending_work(n.scopes, frame) =~= m.scopes[parent].work);
    assert forall|j: int| 0 <= j < n.frames.len() implies {
        &&& (#[trigger] n.frames[j]).policy.coordinated()
        &&& n.frames[j].scope != child
        &&& j != i ==> n.frames[j].scope != parent && !n.frames[j].children.contains(child)
        &&& effect::scope_disposed(n.scopes, n.frames[j].scope)
    } by {
        if j < i {
            assert(n.frames[j] == m.frames[j]);
            assert(effect::scope_disposed(m.scopes, m.frames[j].scope));
        }
    }
    assert forall|other: u64| !(#[trigger] effect::scope_disposed(
        n.scopes,
        other,
    )) implies !n.scopes[other].children.contains(child) by {
        assert(!effect::scope_disposed(m.scopes, other));
    }
}

/// A frame whose work only changes by waits for others waits for the child as before.
proof fn lemma_same_waits(
    scopes: Map<u64, ScopeModel>,
    scopes2: Map<u64, ScopeModel>,
    frame: FrameModel,
    frame2: FrameModel,
    other: u64,
    child: u64,
)
    requires
        scopes.contains_key(frame.scope),
        scopes2.contains_key(frame.scope),
        frame2.scope == frame.scope,
        frame2.work == frame.work,
        other != child,
        scopes2[frame.scope].work == scopes[frame.scope].work || scopes2[frame.scope].work
            == scopes[frame.scope].work.push(ManagedWork::ChildWait(other)),
    ensures
        release::frame_waits(scopes2, frame2, child) == release::frame_waits(
            scopes,
            frame,
            child,
        ),
{
    let work = scopes[frame.scope].work;
    let wait = ManagedWork::ChildWait(other);
    assert(work.push(wait).drop_last() =~= work);
    release::lemma_waits_add(frame.work, work, child);
    release::lemma_waits_add(frame.work, work.push(wait), child);
}

/// Passing over a child of the innermost frame.
proof fn lemma_skip_in_hand(
    a: Moment,
    b: Moment,
    step: DisposeStep,
    i: int,
    parent: u64,
    child: u64,
)
    requires
        in_hand(a, i, parent, child),
        disposal::stepped(a.frames, a.scopes, b.frames, b.scopes, step),
        a.frames.last().children.len() > 0,
        effect::scope_disposed(a.scopes, a.frames.last().children.last()),
    ensures
        in_hand(b, i, parent, child),
{
    let t = a.frames.len() - 1;
    let top = a.frames[t];
    assert(top == a.frames.last());
    let next = top.children.last();
    assert(top.children.contains(next));
    let added = if dispose::releasing(a.scopes, next) {
        effect::work_added(a.scopes, top.scope, ManagedWork::ChildWait(next))
    } else {
        a.scopes
    };
    assert(top.policy.coordinated());
    assert(b.scopes == dispose::detached(added, next));
    effects::lemma_detached_advances(added, next);
    release::lemma_detached_shorter(added, next);
    assert forall|other: u64| !(#[trigger] effect::scope_disposed(
        b.scopes,
        other,
    )) implies !b.scopes[other].children.contains(child) by {
        assert(!effect::scope_disposed(added, other));
        assert(!effect::scope_disposed(a.scopes, other));
    }
    assert forall|j: int| 0 <= j < b.frames.len() implies {
        &&& (#[trigger] b.frames[j]).policy.coordinated()
        &&& b.frames[j].scope != child
        &&& j != i ==> b.frames[j].scope != parent && !b.frames[j].children.contains(child)
        &&& effect::scope_disposed(b.scopes, b.frames[j].scope)
    } by {
        assert(a.frames[j].policy.coordinated());
        assert(effect::scope_disposed(a.scopes, a.frames[j].scope));
        if j == t && b.frames[j].children.contains(child) {
            let k = choose|k: int|
                0 <= k < b.frames[j].children.len() && b.frames[j].children[k] == child;
            assert(top.children[k] == child);
        }
    }
    if t == i && next == child {
        lemma_occurs(top.children, child);
        release::law_running_child_is_taken_over(
            a.frames,
            a.scopes,
            b.frames,
            b.scopes,
            step,
            child,
        );
        assert(b.frames.last() == b.frames[i]);
    } else {
        assert(next != child);
        lemma_same_waits(a.scopes, b.scopes, a.frames[i], b.frames[i], next, child);
    }
}

/// The step of a disposal that begins with another child.
proof fn lemma_enter_in_hand(
    a: Moment,
    b: Moment,
    step: DisposeStep,
    i: int,
    parent: u64,
    child: u64,
)
    requires
        in_hand(a, i, parent, child),
        disposal::stepped(a.frames, a.scopes, b.frames, b.scopes, step),
        a.frames.last().children.len() > 0,
        !effect::scope_disposed(a.scopes, a.frames.last().children.last()),
    ensures
        in_hand(b, i, parent, child),
{
    let t = a.frames.len() - 1;
    let top = a.frames[t];
    assert(top == a.frames.last());
    let next = top.children.last();
    assert(!a.scopes[next].children.contains(child));
    assert forall|j: int| 0 <= j < b.frames.len() implies {
        &&& (#[trigger] b.frames[j]).policy.coordinated()
        &&& b.frames[j].scope != child
        &&& j != i ==> b.frames[j].scope != parent && !b.frames[j].children.contains(child)
        &&& effect::scope_disposed(b.scopes, b.frames[j].scope)
    } by {
        if j < a.frames.len() {
            assert(a.frames[j].policy.coordinated());
            assert(effect::scope_disposed(a.scopes, a.frames[j].scope));
            if j == t && b.frames[j].children.contains(child) {
                let k = choose|k: int|
                    0 <= k < b.frames[j].children.len() && b.frames[j].children[k] == child;
                assert(top.children[k] == child);
            }
        } else {
            assert(top.policy.coordinated());
            assert(effect::scope_disposed(a.scopes, a.frames[i].scope));
        }
    }
    assert forall|other: u64| !(#[trigger] effect::scope_disposed(
        b.scopes,
        other,
    )) implies !b.scopes[other].children.contains(child) by {
        assert(!effect::scope_disposed(a.scopes, other));
    }
    assert(effect::scope_disposed(a.scopes, a.frames[i].scope));
    lemma_same_waits(a.scopes, b.scopes, a.frames[i], b.frames[i], next, child);
}

/// The end of a frame above.
proof fn lemma_close_in_hand(
    a: Moment,
    b: Moment,
    step: DisposeStep,
    i: int,
    parent: u64,
    child: u64,
)
    requires
        in_hand(a, i, parent, child),
        disposal::stepped(a.frames, a.scopes, b.frames, b.scopes, step),
        a.frames.last().children.len() == 0,
        a.frames.last().cleanups.len() == 0,
    ensures
        i < a.frames.len() - 1 ==> in_hand(b, i, parent, child) && !hands_over(
            Happening::Step(step),
            parent,
        ),
        i == a.frames.len() - 1 ==> (step matches DisposeStep::Coordinate(coordinator)
            && coordinator@.scope == parent && release::occurrences(coordinator@.waits, child)
            == 1),
{
    let t = a.frames.len() - 1;
    let top = a.frames[t];
    assert(top == a.frames.last());
    assert(top.policy.coordinated());
    release::lemma_waits_in(disposal::pending_work(a.scopes, top), child);
    if i < t {
        assert(effect::scope_disposed(a.scopes, top.scope));
        effects::lemma_closed_advances(a.scopes, top);
        release::lemma_closed_shorter(a.scopes, top);
        assert forall|j: int| 0 <= j < b.frames.len() implies {
            &&& (#[trigger] b.frames[j]).policy.coordinated()
            &&& b.frames[j].scope != child
            &&& j != i ==> b.frames[j].scope != parent && !b.frames[j].children.contains(child)
            &&& effect::scope_disposed(b.scopes, b.frames[j].scope)
        } by {
            assert(b.frames[j] == a.frames[j]);
            assert(effect::scope_disposed(a.scopes, a.frames[j].scope));
        }
        assert forall|other: u64| !(#[trigger] effect::scope_disposed(
            b.scopes,
            other,
        )) implies !b.scopes[other].children.contains(child) by {
            assert(!effect::scope_disposed(a.scopes, other));
        }
        assert(top.scope != parent && top.scope != child);
        lemma_same_waits(a.scopes, b.scopes, a.frames[i], b.frames[i], top.scope, child);
    }
}

/// Whatever is allowed keeps the child in hand until the parent's coordinator waits for it.
proof fn lemma_stays_in_hand(
    a: Moment,
    happening: Happening,
    b: Moment,
    i: int,
    parent: u64,
    child: u64,
)
    requires
        in_hand(a, i, parent, child),
        allowed(a, happening, child),
        release::happens(a, happening, b),
    ensures
        !hands_over(happening, parent) ==> in_hand(b, i, parent, child),
        happening matches Happening::Step(DisposeStep::Coordinate(coordinator)) ==> (
        coordinator@.scope == parent ==> release::occurrences(coordinator@.waits, child) == 1),
{
    assert(effect::scope_disposed(a.scopes, a.frames[i].scope));
    match happening {
        Happening::Register { scope, cleanup } => {
            assert forall|other: u64| effect::scope_disposed(a.scopes, other)
                == #[trigger] effect::scope_disposed(b.scopes, other) by {}
            assert(b.scopes[parent] == a.scopes[parent]);
            assert(b.scopes[child] == a.scopes[child]);
        },
        Happening::Begin { scope, policy } => {
            if !effect::scope_disposed(a.scopes, scope) {
                assert(scope != parent && scope != child);
                assert forall|j: int| 0 <= j < b.frames.len() implies {
                    &&& (#[trigger] b.frames[j]).policy.coordinated()
                    &&& b.frames[j].scope != child
                    &&& j != i ==> b.frames[j].scope != parent && !b.frames[j].children.contains(
                        child,
                    )
                    &&& effect::scope_disposed(b.scopes, b.frames[j].scope)
                } by {
                    if j < a.frames.len() {
                        assert(b.frames[j] == a.frames[j]);
                        assert(effect::scope_disposed(a.scopes, a.frames[j].scope));
                    }
                }
                assert forall|other: u64| !(#[trigger] effect::scope_disposed(
                    b.scopes,
                    other,
                )) implies !b.scopes[other].children.contains(child) by {
                    assert(!effect::scope_disposed(a.scopes, other));
                }
                assert(b.frames[i] == a.frames[i]);
                assert(b.scopes[parent] == a.scopes[parent]);
            }
        },
        Happening::Finish { scope, errors } => {
            lemma_finish_in_hand(a, b, scope, errors, i, parent, child);
        },
        Happening::Step(step) => {
            let t = a.frames.len() - 1;
            let top = a.frames[t];
            assert(top == a.frames.last());
            assert(top.policy.coordinated());
            if top.children.len() > 0 {
                if effect::scope_disposed(a.scopes, top.children.last()) {
                    lemma_skip_in_hand(a, b, step, i, parent, child);
                } else {
                    lemma_enter_in_hand(a, b, step, i, parent, child);
                }
            } else if top.cleanups.len() > 0 {
                assert forall|j: int| 0 <= j < b.frames.len() implies {
                    &&& (#[trigger] b.frames[j]).policy == a.frames[j].policy
                    &&& b.frames[j].scope == a.frames[j].scope
                    &&& b.frames[j].children == a.frames[j].children
                    &&& b.frames[j].work == a.frames[j].work
                } by {}
                assert forall|j: int| 0 <= j < b.frames.len() implies {
                    &&& (#[trigger] b.frames[j]).policy.coordinated()
                    &&& b.frames[j].scope != child
                    &&& j != i ==> b.frames[j].scope != parent && !b.frames[j].children.contains(
                        child,
                    )
                    &&& effect::scope_disposed(b.scopes, b.frames[j].scope)
                } by {
                    assert(a.frames[j].policy.coordinated());
                }
            } else {
                lemma_close_in_hand(a, b, step, i, parent, child);
            }
        },
    }
}

/// The end of a release.
proof fn lemma_finish_in_hand(
    a: Moment,
    b: Moment,
    scope: u64,
    errors: Seq<Seq<char>>,
    i: int,
    parent: u64,
    child: u64,
)
    requires
        in_hand(a, i, parent, child),
        allowed(a, Happening::Finish { scope, errors }, child),
        release::happens(a, Happening::Finish { scope, errors }, b),
    ensures
        in_hand(b, i, parent, child),
{
    assert forall|other: u64| effect::scope_disposed(a.scopes, other)
        == #[trigger] effect::scope_disposed(b.scopes, other) by {}
    assert forall|other: u64| !(#[trigger] effect::scope_disposed(
        b.scopes,
        other,
    )) implies !b.scopes[other].children.contains(child) by {
        assert(!effect::scope_disposed(a.scopes, other));
        dispose::lemma_without_subset(a.scopes[other].children, scope);
    }
    assert(b.scopes[parent].work == a.scopes[parent].work);
    if scope == child {
        lemma_occurs(a.frames[i].children, child);
    }
    assert forall|j: int| 0 <= j < b.frames.len() implies effect::scope_disposed(
        b.scopes,
        (#[trigger] b.frames[j]).scope,
    ) by {
        assert(effect::scope_disposed(a.scopes, a.frames[j].scope));
    }
}

/// How often the message stands in a list of errors.
pub open spec fn says(errors: Seq<String>, message: Seq<char>) -> nat
    decreases errors.len(),
{
    if errors.len() == 0 {
        0
    } else {
        says(errors.drop_last(), message) + if errors.last()@ == message {
            1nat
        } else {
            0nat
        }
    }
}

proof fn lemma_says_add(one: Seq<String>, two: Seq<String>, message: Seq<char>)
    ensures
        says(one + two, message) == says(one, message) + says(two, message),
    decreases two.len(),
{
    if two.len() == 0 {
        assert(one + two =~= one);
    } else {
        assert((one + two).drop_last() =~= one + two.drop_last());
        lemma_says_add(one, two.drop_last(), message);
    }
}

/// What only one report says is said in all reports as often as in that one.
proof fn lemma_one_report_says(
    reports: Seq<Seq<String>>,
    n: int,
    k: int,
    message: Seq<char>,
)
    requires
        0 <= n <= reports.len(),
        forall|j: int|
            0 <= j < n && j != k ==> says(#[trigger] reports[j], message) == 0,
    ensures
        says(release::all_reported(reports.take(n)), message) == (if 0 <= k < n {
            says(reports[k], message)
        } else {
            0
        }),
    decreases n,
{
    if n > 0 {
        lemma_one_report_says(reports, n - 1, k, message);
        assert(reports.take(n).drop_last() =~= reports.take(n - 1));
        assert(reports.take(n).last() == reports[n - 1]);
        lemma_says_add(
            release::all_reported(reports.take(n - 1)),
            reports[n - 1],
            message,
        );
    } else {
        assert(reports.take(n) =~= Seq::<Seq<String>>::empty());
    }
}

/// An identifier that occurs once stands in one place.
proof fn lemma_one_place(ids: Seq<u64>, id: u64) -> (k: int)
    requires
        release::occurrences(ids, id) == 1,
    ensures
        0 <= k < ids.len(),
        ids[k] == id,
        forall|j: int| 0 <= j < ids.len() && #[trigger] ids[j] == id ==> j == k,
    decreases ids.len(),
{
    let front = ids.drop_last();
    if ids.last() == id {
        lemma_occurs(front, id);
        assert forall|j: int| 0 <= j < ids.len() && #[trigger] ids[j] == id implies j == ids.len()
            - 1 by {
            if j < ids.len() - 1 {
                assert(front[j] == id);
            }
        }
        ids.len() - 1
    } else {
        let k = lemma_one_place(front, id);
        assert(ids[k] == id);
        assert forall|j: int| 0 <= j < ids.len() && #[trigger] ids[j] == id implies j == k by {
            assert(j < ids.len() - 1);
            assert(front[j] == id);
        }
        k
    }
}

/// The coordinator is told to wait for this child at this position.
pub open spec fn waits_at(actions: Seq<CoordinatorAction>, child: u64, k: int) -> bool {
    0 <= k < actions.len() && actions[k] == CoordinatorAction::AwaitChild(child)
}

/// What the host does for a coordinator, with the scopes as they are at each step: it goes on
/// from a child only when the release of the child is over, and reports its errors.
pub open spec fn obeyed(
    trees: Seq<Map<u64, ScopeModel>>,
    actions: Seq<CoordinatorAction>,
    reports: Seq<Seq<String>>,
) -> bool {
    &&& trees.len() == actions.len() + 1
    &&& reports.len() == actions.len()
    &&& forall|child: u64, k: int| #[trigger]
        waits_at(actions, child, k) ==> over_with(trees[k + 1], child, reports[k])
}

/// The release of the child is over, and these are its errors if it is still known.
pub open spec fn over_with(
    scopes: Map<u64, ScopeModel>,
    child: u64,
    errors: Seq<String>,
) -> bool {
    &&& !dispose::releasing(scopes, child)
    &&& scopes.contains_key(child) ==> scopes[child].completion == Some(Some(text::texts(errors)))
}

/// The run of a release from the begin of the disposal of `parent` to its handover to the
/// coordinator.
pub open spec fn handed_over(
    moments: Seq<Moment>,
    happenings: Seq<Happening>,
    parent: u64,
    policy: DisposePolicy,
    child: u64,
    coordinator: Coordinator,
) -> bool {
    let last = happenings.len() - 1;
    &&& release::history(moments, happenings)
    &&& happenings.len() >= 2
    &&& happenings[0] == (Happening::Begin { scope: parent, policy })
    &&& policy.coordinated()
    &&& happenings[last] == Happening::Step(DisposeStep::Coordinate(coordinator))
    &&& coordinator@.scope == parent
    &&& forall|j: int|
        1 <= j < happenings.len() ==> allowed(moments[j], #[trigger] happenings[j], child)
    &&& forall|j: int| 0 <= j < last ==> !hands_over(#[trigger] happenings[j], parent)
}

proof fn lemma_in_hand_until(
    moments: Seq<Moment>,
    happenings: Seq<Happening>,
    parent: u64,
    policy: DisposePolicy,
    child: u64,
    coordinator: Coordinator,
    at: int,
)
    requires
        handed_over(moments, happenings, parent, policy, child, coordinator),
        about_to_take_over(moments[0], parent, child),
        1 <= at < happenings.len(),
    ensures
        in_hand(moments[at], moments[0].frames.len() as int, parent, child),
    decreases at,
{
    let i = moments[0].frames.len() as int;
    if at == 1 {
        assert(release::happens(moments[0], happenings[0], moments[1]));
        lemma_begins(moments[0], policy, moments[1], parent, child);
    } else {
        lemma_in_hand_until(
            moments,
            happenings,
            parent,
            policy,
            child,
            coordinator,
            at - 1,
        );
        let happening = happenings[at - 1];
        assert(!hands_over(happening, parent));
        assert(allowed(moments[at - 1], happening, child));
        assert(release::happens(moments[at - 1], happening, moments[at]));
        lemma_stays_in_hand(moments[at - 1], happening, moments[at], i, parent, child);
    }
}

/// A scope that is released while the release of a child still runs takes the child over. Its
/// release waits for the child exactly once, and the child's release is over before the first
/// disposer or task of the parent has its turn and before the parent's release ends. The
/// parent's result holds what the child reports exactly once: a message that comes from the
/// child alone stands in it as often as in the child's own result.
pub proof fn law_parent_takes_running_child_over(
    moments: Seq<Moment>,
    happenings: Seq<Happening>,
    parent: u64,
    policy: DisposePolicy,
    child: u64,
    coordinator: Coordinator,
    states: Seq<CoordinatorModel>,
    actions: Seq<CoordinatorAction>,
    reports: Seq<Seq<String>>,
    trees: Seq<Map<u64, ScopeModel>>,
    message: Seq<char>,
)
    requires
        about_to_take_over(moments[0], parent, child),
        handed_over(moments, happenings, parent, policy, child, coordinator),
        release::coordinator_run(states, actions, reports),
        states[0] == coordinator@,
        actions.len() == release::actions_before_end(states[0]) + 1,
        obeyed(trees, actions, reports),
    ensures
        exists|k: int|
            {
                &&& #[trigger] waits_at(actions, child, k)
                &&& forall|j: int| #[trigger] waits_at(actions, child, j) ==> j == k
                &&& over_with(trees[k + 1], child, reports[k])
                &&& forall|j: int|
                    0 <= j < actions.len() && !(#[trigger] actions[j] is AwaitChild) ==> k < j
                &&& actions.last() matches CoordinatorAction::Finish(errors) && {
                    &&& errors@ == states[0].errors + release::all_reported(reports.drop_last())
                    &&& says(states[0].errors, message) == 0 && (forall|j: int|
                        0 <= j < reports.len() - 1 && j != k ==> says(
                            #[trigger] reports[j],
                            message,
                        ) == 0) ==> says(errors@, message) == says(reports[k], message)
                }
            },
{
    let i = moments[0].frames.len() as int;
    let last = happenings.len() - 1;
    lemma_in_hand_until(moments, happenings, parent, policy, child, coordinator, last);
    assert(allowed(moments[last], happenings[last], child));
    assert(release::happens(moments[last], happenings[last], moments[last + 1]));
    lemma_stays_in_hand(moments[last], happenings[last], moments[last + 1], i, parent, child);
    let start = states[0];
    let n = release::actions_before_end(start) as int;
    let k = lemma_one_place(start.waits, child);
    release::law_release_waits_and_reports_once(states, actions, reports, k);
    assert(waits_at(actions, child, k));
    assert forall|j: int| #[trigger] waits_at(actions, child, j) implies j == k by {
        release::law_release_waits_and_reports_once(states, actions, reports, j);
        assert(j < start.waits.len());
        assert(start.waits[j] == child);
    }
    assert forall|j: int| 0 <= j < actions.len() && !(#[trigger] actions[j] is AwaitChild) implies k
        < j by {
        release::law_release_waits_and_reports_once(states, actions, reports, j);
    }
    release::law_release_waits_and_reports_once(states, actions, reports, n);
    assert(reports.take(n) =~= reports.drop_last());
    if says(start.errors, message) == 0 && (forall|j: int|
        0 <= j < reports.len() - 1 && j != k ==> says(#[trigger] reports[j], message) == 0) {
        lemma_one_report_says(reports, n, k, message);
        lemma_says_add(start.errors, release::all_reported(reports.take(n)), message);
    }
}

} // verus!
