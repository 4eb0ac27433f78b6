//! Effect scopes: the ownership boundary of revocable resources.
//!
//! A scope owns child scopes, synchronous clean-ups, asynchronous disposers and
//! managed tasks. Disposing a scope releases its children first, then runs its
//! clean-ups in reverse order of registration, and finally hands the asynchronous
//! remainder to a [`Coordinator`].

use crate::error::CoreError;
use crate::table::Table;
use vstd::prelude::*;

pub mod completion;
pub mod disposal;
pub mod dispose;

use completion::DisposeCompletion;

verus! {

/// A synchronous clean-up that a scope runs when it is disposed.
#[derive(Clone, Copy, Debug, PartialEq, Eq, Structural)]
pub enum Cleanup {
    /// Withdraw the provider with this identifier.
    Provider(u64),
    /// Remove the event listener with this identifier.
    Listener(u64),
    /// Remove the injection with this identifier.
    Injection(u64),
    /// Forget the diagnostic record of the effect with this identifier.
    Effect(u64),
    /// Dispose the plugin fiber with this identifier.
    Fiber(u64),
    /// Unregister the log exporter with this identifier.
    Exporter(u64),
    /// Run the callback that the host keeps under this handle.
    Callback(u64),
}

/// Work that a scope waits for.
#[derive(Clone, Copy, Debug, PartialEq, Eq, Structural)]
pub enum ManagedWork {
    /// A task that the host runs under this handle.
    Task(u64),
    /// The release of the scope with this identifier.
    ChildWait(u64),
}

/// One scope and what it owns, in order of registration.
pub struct Scope {
    pub name: String,
    pub parent: Option<u64>,
    /// The identifiers of all ancestors at creation, the root first.
    pub ancestors: Vec<u64>,
    pub disposed: bool,
    pub children: Vec<u64>,
    pub cleanups: Vec<Cleanup>,
    pub disposers: Vec<u64>,
    pub work: Vec<ManagedWork>,
    pub completion: Option<DisposeCompletion>,
}

/// What a [`Scope`] holds.
pub struct ScopeModel {
    pub name: Seq<char>,
    pub parent: Option<u64>,
    pub ancestors: Seq<u64>,
    pub disposed: bool,
    pub children: Seq<u64>,
    pub cleanups: Seq<Cleanup>,
    pub disposers: Seq<u64>,
    pub work: Seq<ManagedWork>,
    /// `None` before disposal, `Some(None)` while the release runs, then its errors.
    pub completion: Option<Option<Seq<Seq<char>>>>,
}

impl View for Scope {
    type V = ScopeModel;

    open spec fn view(&self) -> ScopeModel {
        ScopeModel {
            name: self.name@,
            parent: self.parent,
            ancestors: self.ancestors@,
            disposed: self.disposed,
            children: self.children@,
            cleanups: self.cleanups@,
            disposers: self.disposers@,
            work: self.work@,
            completion: match self.completion {
                Some(completion) => Some(completion@),
                None => None,
            },
        }
    }
}

impl ScopeModel {
    /// A scope that was just created.
    pub open spec fn fresh(name: Seq<char>, parent: Option<u64>, ancestors: Seq<u64>) -> Self {
        ScopeModel {
            name,
            parent,
            ancestors,
            disposed: false,
            children: Seq::empty(),
            cleanups: Seq::empty(),
            disposers: Seq::empty(),
            work: Seq::empty(),
            completion: None,
        }
    }

    /// A scope that was created under a disposed parent: released from the start.
    pub open spec fn stillborn(name: Seq<char>, ancestors: Seq<u64>) -> Self {
        ScopeModel {
            disposed: true,
            completion: Some(Some(Seq::empty())),
            ..Self::fresh(name, None, ancestors)
        }
    }

    /// A disposed scope owns nothing that a disposal would release.
    pub open spec fn retired(self) -> bool {
        &&& self.children.len() == 0
        &&& self.cleanups.len() == 0
        &&& self.disposers.len() == 0
    }
}

/// All scopes of one runtime.
pub struct EffectTree {
    next: u64,
    scopes: Table<Scope>,
}

/// The models of all scopes.
pub open spec fn scope_models(scopes: Map<u64, Scope>) -> Map<u64, ScopeModel> {
    scopes.map_values(|scope: Scope| scope@)
}

pub proof fn lemma_models_insert(scopes: Map<u64, Scope>, id: u64, scope: Scope)
    ensures
        scope_models(scopes.insert(id, scope)) == scope_models(scopes).insert(id, scope@),
{
    assert(scope_models(scopes.insert(id, scope)) =~= scope_models(scopes).insert(id, scope@));
}

impl View for EffectTree {
    type V = Map<u64, ScopeModel>;

    closed spec fn view(&self) -> Map<u64, ScopeModel> {
        scope_models(self.scopes@)
    }
}

/// What holds of the scopes of every tree whose next identifier is `next`.
pub open spec fn tree_ok(scopes: Map<u64, ScopeModel>, next: u64) -> bool {
    &&& next >= 1
    &&& forall|id: u64| #[trigger]
        scopes.contains_key(id) ==> {
            &&& 1 <= id < next
            &&& scopes[id].disposed ==> scopes[id].retired()
            &&& scopes[id].disposed <==> scopes[id].completion is Some
            &&& scopes[id].parent matches Some(parent) ==> parent < id
            &&& forall|i: int|
                0 <= i < scopes[id].children.len() ==> id < #[trigger] scopes[id].children[i] < next
            &&& forall|i: int|
                0 <= i < scopes[id].ancestors.len() ==> #[trigger] scopes[id].ancestors[i] < id
        }
}

/// A scope that is unknown counts as disposed.
pub open spec fn scope_disposed(scopes: Map<u64, ScopeModel>, id: u64) -> bool {
    scopes.contains_key(id) ==> scopes[id].disposed
}

/// A scope is cancelled once it or one of its ancestors is disposed.
pub open spec fn scope_cancelled(scopes: Map<u64, ScopeModel>, id: u64) -> bool {
    scope_disposed(scopes, id) || exists|i: int|
        0 <= i < scopes[id].ancestors.len() && scope_disposed(
            scopes,
            #[trigger] scopes[id].ancestors[i],
        )
}

/// The number of tasks among `work`.
pub open spec fn tasks_in(work: Seq<ManagedWork>) -> nat
    decreases work.len(),
{
    if work.len() == 0 {
        0
    } else {
        tasks_in(work.drop_last()) + if work.last() is Task {
            1nat
        } else {
            0nat
        }
    }
}

/// `id` is among `items`.
pub(crate) fn holds(items: &Vec<u64>, id: u64) -> (r: bool)
    ensures
        r == items@.contains(id),
{
    let mut i: usize = 0;
    while i < items.len()
        invariant
            i <= items@.len(),
            forall|j: int| 0 <= j < i ==> items@[j] != id,
        decreases items@.len() - i,
    {
        if items[i] == id {
            return true;
        }
        i += 1;
    }
    false
}

/// `items` without the occurrences of `id`, in order.
pub open spec fn without(items: Seq<u64>, id: u64) -> Seq<u64> {
    items.filter(|item: u64| item != id)
}

/// `items` without the occurrences of `id`, in order.
pub(crate) fn drop_id(items: &Vec<u64>, id: u64) -> (r: Vec<u64>)
    ensures
        r@ == without(items@, id),
{
    let mut out: Vec<u64> = Vec::new();
    let mut i: usize = 0;
    while i < items.len()
        invariant
            i <= items@.len(),
            out@ == without(items@.take(i as int), id),
        decreases items@.len() - i,
    {
        proof {
            let next = items@.take(i + 1);
            assert(next.drop_last() =~= items@.take(i as int));
            reveal(Seq::filter);
        }
        if items[i] != id {
            out.push(items[i]);
        }
        i += 1;
    }
    assert(items@.take(i as int) =~= items@);
    out
}

impl EffectTree {
    pub closed spec fn next_id(&self) -> u64 {
        self.next
    }

    pub closed spec fn wf(&self) -> bool {
        &&& self.scopes.wf()
        &&& tree_ok(self@, self.next)
    }

    pub proof fn lemma_wf(&self)
        requires
            self.wf(),
        ensures
            tree_ok(self@, self.next_id()),
    {
    }

    /// A tree without scopes.
    pub fn new() -> (r: Self)
        ensures
            r.wf(),
            r@ == Map::<u64, ScopeModel>::empty(),
            r.next_id() == 1,
    {
        let r = EffectTree { next: 1, scopes: Table::new() };
        assert(r@ =~= Map::<u64, ScopeModel>::empty());
        r
    }

    fn append(&mut self, scope: Scope) -> (id: u64)
        requires
            old(self).wf(),
            old(self).next_id() < u64::MAX,
            scope@.disposed ==> scope@.retired(),
            scope@.disposed <==> scope@.completion is Some,
            scope@.children.len() == 0,
            scope@.parent matches Some(parent) ==> parent < old(self).next_id(),
            forall|i: int|
                0 <= i < scope@.ancestors.len() ==> #[trigger] scope@.ancestors[i]
                    < old(self).next_id(),
        ensures
            final(self).wf(),
            id == old(self).next_id(),
            final(self).next_id() == id + 1,
            final(self)@ == old(self)@.insert(id, scope@),
    {
        let id: u64 = self.next;
        proof {
            assert forall|other: u64| self.scopes@.contains_key(other) implies other < id by {
                assert(self@.contains_key(other));
            }
            lemma_models_insert(self.scopes@, id, scope);
        }
        self.scopes.append(id, scope);
        self.next = id + 1;
        id
    }

    /// There are identifiers left to give out.
    pub fn has_room(&self) -> (r: bool)
        ensures
            r == (self.next_id() < u64::MAX),
    {
        self.next < u64::MAX
    }

    /// Creates a scope without a parent.
    pub fn root(&mut self) -> (id: u64)
        requires
            old(self).wf(),
            old(self).next_id() < u64::MAX,
        ensures
            final(self).wf(),
            id == old(self).next_id(),
            final(self).next_id() == id + 1,
            final(self)@ == old(self)@.insert(
                id,
                ScopeModel::fresh("root"@, None, Seq::empty()),
            ),
    {
        let scope = Scope {
            name: "root".to_owned(),
            parent: None,
            ancestors: Vec::new(),
            disposed: false,
            children: Vec::new(),
            cleanups: Vec::new(),
            disposers: Vec::new(),
            work: Vec::new(),
            completion: None,
        };
        assert(scope@ =~= ScopeModel::fresh("root"@, None, Seq::empty()));
        self.append(scope)
    }

    /// Creates an unnamed child of `parent`.
    pub fn child(&mut self, parent: u64) -> (id: u64)
        requires
            old(self).wf(),
            old(self).next_id() < u64::MAX,
        ensures
            final(self).wf(),
            id == old(self).next_id(),
            final(self).next_id() == id + 1,
            final(self)@ == child_added(old(self)@, parent, id, "effect"@),
    {
        self.child_named(parent, "effect".to_owned())
    }

    /// Creates a child of `parent`. The child of a disposed scope is disposed from the
    /// start and belongs to no parent.
    pub fn child_named(&mut self, parent: u64, name: String) -> (id: u64)
        requires
            old(self).wf(),
            old(self).next_id() < u64::MAX,
        ensures
            final(self).wf(),
            id == old(self).next_id(),
            final(self).next_id() == id + 1,
            final(self)@ == child_added(old(self)@, parent, id, name@),
    {
        let ghost name_text = name@;
        let ghost before = self@;
        let mut ancestors: Vec<u64> = Vec::new();
        let mut alive = false;
        match self.scopes.get(parent) {
            Some(scope) => {
                ancestors = scope.ancestors.clone();
                ancestors.push(parent);
                alive = !scope.disposed;
                assert(before.contains_key(parent));
                assert(before[parent] == scope@);
                assert(ancestors@ =~= before[parent].ancestors.push(parent));
            },
            None => {
                assert(!before.contains_key(parent));
            },
        }
        proof {
            assert(ancestors@ == child_ancestors(before, parent));
            assert forall|i: int| 0 <= i < ancestors@.len() implies #[trigger] ancestors@[i]
                < self.next by {
                if i < ancestors@.len() - 1 {
                    assert(before[parent].ancestors[i] < parent);
                }
            }
        }
        if !alive {
            let scope = Scope {
                name,
                parent: None,
                ancestors,
                disposed: true,
                children: Vec::new(),
                cleanups: Vec::new(),
                disposers: Vec::new(),
                work: Vec::new(),
                completion: Some(DisposeCompletion::finished()),
            };
            assert(scope@ =~= ScopeModel::stillborn(name_text, child_ancestors(before, parent)));
            return self.append(scope);
        }
        let scope = Scope {
            name,
            parent: Some(parent),
            ancestors,
            disposed: false,
            children: Vec::new(),
            cleanups: Vec::new(),
            disposers: Vec::new(),
            work: Vec::new(),
            completion: None,
        };
        assert(scope@ =~= ScopeModel::fresh(
            name_text,
            Some(parent),
            child_ancestors(before, parent),
        ));
        let id = self.append(scope);
        let ghost middle = self@;
        let ghost raw = self.scopes@;
        proof {
            assert(before.contains_key(parent) && parent < id);
            assert(middle.contains_key(parent) && middle[parent] == before[parent]);
            assert(raw.contains_key(parent));
        }
        if let Some(owner) = self.scopes.get_mut(parent) {
            owner.children.push(id);
            proof {
                assert(owner@ =~= (ScopeModel {
                    children: before[parent].children.push(id),
                    ..before[parent]
                }));
            }
        }
        proof {
            let now = self.scopes@[parent];
            assert(self.scopes@ == raw.insert(parent, now));
            lemma_models_insert(raw, parent, now);
            assert(self@ == middle.insert(parent, now@));
            assert(self@ =~= child_added(before, parent, id, name_text));
        }
        id
    }

    /// The two scopes are the same or one is an ancestor of the other.
    pub fn is_same_tree_as(&self, a: u64, b: u64) -> (r: bool)
        requires
            self.wf(),
        ensures
            r == (a == b || (self@.contains_key(a) && self@[a].ancestors.contains(b)) || (
            self@.contains_key(b) && self@[b].ancestors.contains(a))),
    {
        if a == b {
            return true;
        }
        let up = match self.scopes.get(a) {
            Some(scope) => holds(&scope.ancestors, b),
            None => false,
        };
        let down = match self.scopes.get(b) {
            Some(scope) => holds(&scope.ancestors, a),
            None => false,
        };
        up || down
    }

    /// The scope with this identifier.
    pub fn scope(&self, id: u64) -> (r: Option<&Scope>)
        requires
            self.wf(),
        ensures
            match r {
                Some(scope) => self@.contains_key(id) && scope@ == self@[id],
                None => !self@.contains_key(id),
            },
    {
        self.scopes.get(id)
    }

    pub fn parent_id(&self, id: u64) -> (r: Option<u64>)
        requires
            self.wf(),
        ensures
            r == (if self@.contains_key(id) {
                match self@[id].parent {
                    Some(parent) if self@.contains_key(parent) => Some(parent),
                    _ => None,
                }
            } else {
                None
            }),
    {
        match self.scopes.get(id) {
            Some(scope) => match scope.parent {
                Some(parent) => if self.scopes.contains(parent) {
                    Some(parent)
                } else {
                    None
                },
                None => None,
            },
            None => None,
        }
    }

    pub fn is_disposed(&self, id: u64) -> (r: bool)
        requires
            self.wf(),
        ensures
            r == scope_disposed(self@, id),
    {
        match self.scopes.get(id) {
            Some(scope) => scope.disposed,
            None => true,
        }
    }

    pub fn is_cancelled(&self, id: u64) -> (r: bool)
        requires
            self.wf(),
        ensures
            r == scope_cancelled(self@, id),
    {
        match self.scopes.get(id) {
            Some(scope) => {
                if scope.disposed {
                    return true;
                }
                let mut i: usize = 0;
                while i < scope.ancestors.len()
                    invariant
                        self.wf(),
                        self@.contains_key(id),
                        scope@ == self@[id],
                        i <= scope.ancestors@.len(),
                        forall|j: int|
                            0 <= j < i ==> !scope_disposed(self@, #[trigger] self@[id].ancestors[j]),
                    decreases scope.ancestors@.len() - i,
                {
                    if self.is_disposed(scope.ancestors[i]) {
                        assert(scope_disposed(self@, self@[id].ancestors[i as int]));
                        return true;
                    }
                    i += 1;
                }
                false
            },
            None => true,
        }
    }

    pub fn child_scope_count(&self, id: u64) -> (r: usize)
        requires
            self.wf(),
        ensures
            r == (if self@.contains_key(id) {
                self@[id].children.len()
            } else {
                0
            }),
    {
        match self.scopes.get(id) {
            Some(scope) => scope.children.len(),
            None => 0,
        }
    }

    /// The number of managed tasks; waits for child scopes do not count.
    pub fn task_count(&self, id: u64) -> (r: usize)
        requires
            self.wf(),
        ensures
            r == (if self@.contains_key(id) {
                tasks_in(self@[id].work)
            } else {
                0
            }),
    {
        match self.scopes.get(id) {
            Some(scope) => {
                let mut count: usize = 0;
                let mut i: usize = 0;
                while i < scope.work.len()
                    invariant
                        i <= scope.work@.len(),
                        count == tasks_in(scope.work@.take(i as int)),
                        count <= i,
                    decreases scope.work@.len() - i,
                {
                    assert(scope.work@.take(i + 1).drop_last() =~= scope.work@.take(i as int));
                    if let ManagedWork::Task(_) = scope.work[i] {
                        count += 1;
                    }
                    i += 1;
                }
                assert(scope.work@.take(i as int) =~= scope.work@);
                count
            },
            None => 0,
        }
    }

    pub fn cleanup_count(&self, id: u64) -> (r: usize)
        requires
            self.wf(),
        ensures
            r == (if self@.contains_key(id) {
                self@[id].cleanups.len()
            } else {
                0
            }),
    {
        match self.scopes.get(id) {
            Some(scope) => scope.cleanups.len(),
            None => 0,
        }
    }

    /// Registers a clean-up. On a disposed scope nothing is registered and the caller
    /// runs the clean-up at once.
    pub fn on_dispose(&mut self, id: u64, cleanup: Cleanup) -> (registered: bool)
        requires
            old(self).wf(),
        ensures
            final(self).wf(),
            final(self).next_id() == old(self).next_id(),
            registered == !scope_disposed(old(self)@, id),
            final(self)@ == cleanup_added(old(self)@, id, cleanup),
    {
        if self.is_disposed(id) {
            return false;
        }
        let ghost before = self@;
        let ghost raw = self.scopes@;
        if let Some(scope) = self.scopes.get_mut(id) {
            scope.cleanups.push(cleanup);
            proof {
                assert(scope@ =~= (ScopeModel {
                    cleanups: before[id].cleanups.push(cleanup),
                    ..before[id]
                }));
            }
        }
        proof {
            lemma_models_insert(raw, id, self.scopes@[id]);
        }
        true
    }

    /// Registers an asynchronous disposer; a disposed scope takes none.
    pub fn on_dispose_async(&mut self, id: u64, disposer: u64) -> (r: Result<(), CoreError>)
        requires
            old(self).wf(),
        ensures
            final(self).wf(),
            final(self).next_id() == old(self).next_id(),
            r == (if scope_disposed(old(self)@, id) {
                Err(CoreError::ContextDisposed)
            } else {
                Ok(())
            }),
            final(self)@ == (if scope_disposed(old(self)@, id) {
                old(self)@
            } else {
                old(self)@.insert(
                    id,
                    ScopeModel {
                        disposers: old(self)@[id].disposers.push(disposer),
                        ..old(self)@[id]
                    },
                )
            }),
    {
        if self.is_disposed(id) {
            return Err(CoreError::ContextDisposed);
        }
        let ghost before = self@;
        let ghost raw = self.scopes@;
        if let Some(scope) = self.scopes.get_mut(id) {
            scope.disposers.push(disposer);
            proof {
                assert(scope@ =~= (ScopeModel {
                    disposers: before[id].disposers.push(disposer),
                    ..before[id]
                }));
            }
        }
        proof {
            lemma_models_insert(raw, id, self.scopes@[id]);
        }
        Ok(())
    }

    /// Hands a running task to a scope. On a disposed scope the task is not kept and
    /// the caller aborts it.
    pub fn push_task(&mut self, id: u64, task: u64) -> (kept: bool)
        requires
            old(self).wf(),
        ensures
            final(self).wf(),
            final(self).next_id() == old(self).next_id(),
            kept == !scope_disposed(old(self)@, id),
            final(self)@ == (if kept {
                work_added(old(self)@, id, ManagedWork::Task(task))
            } else {
                old(self)@
            }),
    {
        if self.is_disposed(id) {
            return false;
        }
        self.push_work(id, ManagedWork::Task(task));
        true
    }

    pub(crate) fn push_work(&mut self, id: u64, work: ManagedWork)
        requires
            old(self).wf(),
        ensures
            final(self).wf(),
            final(self).next_id() == old(self).next_id(),
            final(self)@ == work_added(old(self)@, id, work),
    {
        let ghost before = self@;
        let ghost raw = self.scopes@;
        if let Some(scope) = self.scopes.get_mut(id) {
            scope.work.push(work);
            proof {
                assert(scope@ =~= (ScopeModel {
                    work: before[id].work.push(work),
                    ..before[id]
                }));
            }
        }
        proof {
            assert(before.contains_key(id) == raw.contains_key(id));
            if raw.contains_key(id) {
                lemma_models_insert(raw, id, self.scopes@[id]);
            } else {
                assert(self.scopes@ == raw);
            }
            assert(self@ == work_added(before, id, work));
        }
    }
}

/// The ancestors of a child of `parent`.
pub open spec fn child_ancestors(scopes: Map<u64, ScopeModel>, parent: u64) -> Seq<u64> {
    if scopes.contains_key(parent) {
        scopes[parent].ancestors.push(parent)
    } else {
        Seq::empty()
    }
}

/// The scopes after a child `id` of `parent` was created.
pub open spec fn child_added(
    scopes: Map<u64, ScopeModel>,
    parent: u64,
    id: u64,
    name: Seq<char>,
) -> Map<u64, ScopeModel> {
    if scope_disposed(scopes, parent) {
        scopes.insert(id, ScopeModel::stillborn(name, child_ancestors(scopes, parent)))
    } else {
        scopes.insert(
            id,
            ScopeModel::fresh(name, Some(parent), child_ancestors(scopes, parent)),
        ).insert(
            parent,
            ScopeModel { children: scopes[parent].children.push(id), ..scopes[parent] },
        )
    }
}

/// The scopes after a clean-up was offered to `id`.
pub open spec fn cleanup_added(
    scopes: Map<u64, ScopeModel>,
    id: u64,
    cleanup: Cleanup,
) -> Map<u64, ScopeModel> {
    if scope_disposed(scopes, id) {
        scopes
    } else {
        scopes.insert(
            id,
            ScopeModel { cleanups: scopes[id].cleanups.push(cleanup), ..scopes[id] },
        )
    }
}

/// The scopes after `work` was handed to `id`.
pub open spec fn work_added(
    scopes: Map<u64, ScopeModel>,
    id: u64,
    work: ManagedWork,
) -> Map<u64, ScopeModel> {
    if scopes.contains_key(id) {
        scopes.insert(id, ScopeModel { work: scopes[id].work.push(work), ..scopes[id] })
    } else {
        scopes
    }
}

} // verus!
