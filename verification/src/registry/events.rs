//! Registration and selection of event listeners.

use super::{Registry, RegistryModel};
use crate::effect;
use crate::effect::{Cleanup, EffectTree, ScopeModel};
use crate::error::CoreError;
use crate::event::{EventContract, EventListener, EventMode, ListenRequest};
use crate::tag::{same_optional_tag, same_tag};
use crate::text::same_text;
use crate::view;
use crate::view::{is_derived_from, Layer};
use std::any::TypeId;
use vstd::prelude::*;

verus! {

broadcast use vstd::std_specs::hash::group_hash_axioms;

/// What a use of an event name with `wanted` meets, when the name may be bound already.
pub open spec fn contract_check(
    contracts: Map<Seq<char>, EventContract>,
    event: &'static str,
    wanted: EventContract,
) -> Result<(), CoreError> {
    if !contracts.contains_key(event@) {
        Ok(())
    } else {
        let bound = contracts[event@];
        if bound.mode != wanted.mode {
            Err(CoreError::EventModeMismatch { event })
        } else if bound.payload != wanted.payload {
            Err(CoreError::EventKeyTypeConflict { event })
        } else if bound.answer != wanted.answer {
            Err(CoreError::EventAnswerTypeConflict { event })
        } else {
            Ok(())
        }
    }
}

/// The bindings after an event name was used with `wanted`: the first use decides.
pub open spec fn contract_locked(
    contracts: Map<Seq<char>, EventContract>,
    event: Seq<char>,
    wanted: EventContract,
) -> Map<Seq<char>, EventContract> {
    if contracts.contains_key(event) {
        contracts
    } else {
        contracts.insert(event, wanted)
    }
}

/// The list with a new listener: in front of all others or behind them.
pub open spec fn listener_placed(
    listeners: Seq<EventListener>,
    listener: EventListener,
) -> Seq<EventListener> {
    if listener.prepend {
        listeners.insert(0, listener)
    } else {
        listeners.push(listener)
    }
}

/// The list without listener `id`.
pub open spec fn listener_dropped(listeners: Seq<EventListener>, id: u64) -> Seq<EventListener> {
    listeners.filter(|listener: EventListener| listener.id != id)
}

/// The listener hears `event` when it is emitted from a view.
pub open spec fn hears(listener: EventListener, event: Seq<char>, layers: Seq<Layer>) -> bool {
    listener.event@ == event && (listener.global || view::derives_from(layers, listener.layer))
}

/// The listeners that hear `event` from a view: the global ones first, then those of the
/// view and its ancestors, each in list order.
pub open spec fn audience(
    listeners: Seq<EventListener>,
    event: Seq<char>,
    layers: Seq<Layer>,
) -> Seq<EventListener> {
    listeners.filter(
        |listener: EventListener| hears(listener, event, layers) && listener.global,
    ) + listeners.filter(
        |listener: EventListener| hears(listener, event, layers) && !listener.global,
    )
}

/// All listeners of `event` take part in dispatches of this mode. [`lemma_modes_agree`] and
/// [`lemma_modes_differ`] open it up.
#[verifier::opaque]
pub open spec fn modes_agree(
    listeners: Seq<EventListener>,
    event: Seq<char>,
    mode: EventMode,
) -> bool {
    forall|i: int|
        0 <= i < listeners.len() && (#[trigger] listeners[i]).event@ == event
            ==> listeners[i].mode == mode
}

/// Where all listeners of `event` have this mode, a dispatch of the mode is in order.
pub proof fn lemma_modes_agree(listeners: Seq<EventListener>, event: Seq<char>, mode: EventMode)
    requires
        forall|i: int|
            0 <= i < listeners.len() && (#[trigger] listeners[i]).event@ == event
                ==> listeners[i].mode == mode,
    ensures
        modes_agree(listeners, event, mode),
{
    reveal(modes_agree);
}

/// A listener of `event` with another mode stands in the way of a dispatch.
pub proof fn lemma_modes_differ(
    listeners: Seq<EventListener>,
    event: Seq<char>,
    mode: EventMode,
    i: int,
)
    requires
        0 <= i < listeners.len(),
        listeners[i].event@ == event,
    ensures
        modes_agree(listeners, event, mode) ==> listeners[i].mode == mode,
{
    reveal(modes_agree);
}

impl RegistryModel {
    /// The registry after listener `id` was registered.
    pub open spec fn subscribed(
        self,
        id: u64,
        request: ListenRequest,
        layer: u64,
    ) -> RegistryModel {
        RegistryModel {
            next_id: (id + 1) as u64,
            contracts: contract_locked(self.contracts, request.event@, request.contract),
            listeners: listener_placed(self.listeners, request.listener(id, layer)),
            ..self
        }
    }

    /// What the registration of a listener gives: its identifier or the refusal, and
    /// registry and scopes afterwards.
    pub open spec fn subscribe_outcome(
        self,
        scopes: Map<u64, ScopeModel>,
        layer: u64,
        request: ListenRequest,
        owner: u64,
    ) -> (Result<u64, CoreError>, RegistryModel, Map<u64, ScopeModel>) {
        let id = self.next_id;
        if effect::scope_disposed(scopes, owner) {
            (Err(CoreError::ContextDisposed), self, scopes)
        } else {
            match contract_check(self.contracts, request.event, request.contract) {
                Err(error) => (
                    Err(error),
                    RegistryModel { next_id: (id + 1) as u64, ..self },
                    scopes,
                ),
                Ok(_) => (
                    Ok(id),
                    self.subscribed(id, request, layer),
                    effect::cleanup_added(scopes, owner, Cleanup::Listener(id)),
                ),
            }
        }
    }

    /// The registry after listener `id` was removed.
    pub open spec fn unsubscribed(self, id: u64) -> RegistryModel {
        RegistryModel { listeners: listener_dropped(self.listeners, id), ..self }
    }

    /// The registry after a claim of the one-shot listener `id`: the first claim removes
    /// the listener.
    pub open spec fn claimed_once(self, id: u64) -> RegistryModel {
        if self.claimed.contains(id) {
            self
        } else {
            RegistryModel {
                claimed: self.claimed.insert(id),
                listeners: listener_dropped(self.listeners, id),
                ..self
            }
        }
    }
}

proof fn lemma_dropped(listeners: Seq<EventListener>, id: u64)
    ensures
        forall|listener: EventListener|
            #[trigger] listener_dropped(listeners, id).contains(listener) ==> listeners.contains(
                listener,
            ) && listener.id != id,
    decreases listeners.len(),
{
    reveal(Seq::filter);
    if listeners.len() > 0 {
        let front = listeners.drop_last();
        lemma_dropped(front, id);
        let kept = listener_dropped(listeners, id);
        let front_kept = listener_dropped(front, id);
        assert forall|listener: EventListener| #[trigger]
            kept.contains(listener) implies listeners.contains(listener) && listener.id != id by {
            let k = choose|k: int| 0 <= k < kept.len() && kept[k] == listener;
            if k < front_kept.len() {
                assert(front_kept[k] == listener);
                assert(front_kept.contains(listener));
                let j = choose|j: int| 0 <= j < front.len() && front[j] == listener;
                assert(listeners[j] == listener);
            } else {
                assert(listeners[listeners.len() - 1] == listener);
            }
        }
    }
}

proof fn lemma_dropped_ok(listeners: Seq<EventListener>, claimed: Set<u64>, next: u64, id: u64)
    requires
        super::listeners_ok(listeners, claimed, next),
    ensures
        super::listeners_ok(listener_dropped(listeners, id), claimed, next),
        id < next ==> super::listeners_ok(
            listener_dropped(listeners, id),
            claimed.insert(id),
            next,
        ),
    decreases listeners.len(),
{
    reveal(Seq::filter);
    let kept = listener_dropped(listeners, id);
    lemma_dropped(listeners, id);
    if listeners.len() > 0 {
        let front = listeners.drop_last();
        assert(super::listeners_ok(front, claimed, next)) by {
            assert forall|i: int| 0 <= i < front.len() implies !claimed.contains(
                (#[trigger] front[i]).id,
            ) by {
                assert(front[i] == listeners[i]);
            }
        }
        lemma_dropped_ok(front, claimed, next, id);
        let front_kept = listener_dropped(front, id);
        lemma_dropped(front, id);
        assert forall|i: int, j: int| 0 <= i < j < kept.len() implies (#[trigger] kept[i]).id != (
        #[trigger] kept[j]).id by {
            if j < front_kept.len() {
                assert(kept[i] == front_kept[i] && kept[j] == front_kept[j]);
            } else {
                assert(kept[i] == front_kept[i]);
                assert(front_kept.contains(kept[i]));
                let k = choose|k: int| 0 <= k < front.len() && front[k] == kept[i];
                assert(listeners[k] == kept[i]);
                assert(kept[j] == listeners[listeners.len() - 1]);
            }
        }
    }
    assert forall|i: int| 0 <= i < kept.len() implies (#[trigger] kept[i]).id < next && !claimed
        .contains(kept[i].id) && kept[i].id != id by {
        assert(kept.contains(kept[i]));
        let k = choose|k: int| 0 <= k < listeners.len() && listeners[k] == kept[i];
        assert(listeners[k].id < next);
    }
}

fn drop_listener(listeners: &Vec<EventListener>, id: u64) -> (r: Vec<EventListener>)
    ensures
        r@ == listener_dropped(listeners@, id),
{
    let mut out: Vec<EventListener> = Vec::new();
    let mut i: usize = 0;
    while i < listeners.len()
        invariant
            i <= listeners@.len(),
            out@ == listener_dropped(listeners@.take(i as int), id),
        decreases listeners@.len() - i,
    {
        proof {
            assert(listeners@.take(i + 1).drop_last() =~= listeners@.take(i as int));
            reveal(Seq::filter);
        }
        if listeners[i].id != id {
            out.push(listeners[i]);
        }
        i += 1;
    }
    assert(listeners@.take(i as int) =~= listeners@);
    out
}

impl Registry {
    /// Binds an event name to a contract, unless it is bound to another one.
    pub fn lock_event_contract(
        &mut self,
        event: &'static str,
        wanted: EventContract,
    ) -> (r: Result<(), CoreError>)
        requires
            old(self).wf(),
        ensures
            final(self).wf(),
            r == contract_check(old(self)@.contracts, event, wanted),
            final(self)@ == (if r is Ok {
                RegistryModel {
                    contracts: contract_locked(old(self)@.contracts, event@, wanted),
                    ..old(self)@
                }
            } else {
                old(self)@
            }),
    {
        match self.contracts.get(event) {
            None => {
                self.contracts.bind(event, wanted);
                Ok(())
            },
            Some(bound) => {
                if bound.mode != wanted.mode {
                    return Err(CoreError::EventModeMismatch { event });
                }
                if !same_tag(bound.payload, wanted.payload) {
                    return Err(CoreError::EventKeyTypeConflict { event });
                }
                if !same_optional_tag(bound.answer, wanted.answer) {
                    return Err(CoreError::EventAnswerTypeConflict { event });
                }
                Ok(())
            },
        }
    }

    /// Registers a listener on behalf of the layer `layer`; it is removed with the scope
    /// `owner`.
    pub fn subscribe(
        &mut self,
        scopes: &mut EffectTree,
        layer: u64,
        request: ListenRequest,
        owner: u64,
    ) -> (r: Result<u64, CoreError>)
        requires
            old(self).wf(),
            old(scopes).wf(),
            old(self)@.next_id < u64::MAX,
        ensures
            final(self).wf(),
            final(scopes).wf(),
            final(scopes).next_id() == old(scopes).next_id(),
            (r, final(self)@, final(scopes)@) == old(self)@.subscribe_outcome(
                old(scopes)@,
                layer,
                request,
                owner,
            ),
    {
        if scopes.is_disposed(owner) {
            return Err(CoreError::ContextDisposed);
        }
        let ghost before = self@;
        let id = self.allocate_id();
        match self.lock_event_contract(request.event, request.contract) {
            Err(error) => {
                return Err(error);
            },
            Ok(()) => {},
        }
        let listener = EventListener {
            id,
            event: request.event,
            layer,
            mode: request.contract.mode,
            handler: request.handler,
            once: request.once,
            prepend: request.prepend,
            global: request.global,
            filter: request.filter,
        };
        assert(listener == request.listener(id, layer));
        if listener.prepend {
            self.listeners.insert(0, listener);
        } else {
            self.listeners.push(listener);
        }
        proof {
            assert(self.listeners@ == listener_placed(before.listeners, listener));
            assert(!before.claimed.contains(id));
            assert(self@.ok());
        }
        scopes.on_dispose(owner, Cleanup::Listener(id));
        assert(self@ =~= before.subscribed(id, request, layer));
        Ok(id)
    }

    /// Removes a listener. Dispatches in flight are not affected.
    pub fn unsubscribe_event(&mut self, id: u64)
        requires
            old(self).wf(),
        ensures
            final(self).wf(),
            final(self)@ == old(self)@.unsubscribed(id),
    {
        proof {
            lemma_dropped_ok(self.listeners@, self.claimed@, self.next_id, id);
        }
        let kept = drop_listener(&self.listeners, id);
        self.listeners = kept;
    }

    /// Claims the right to run a one-shot listener; only the first claim is granted, and
    /// it removes the listener.
    pub fn claim_once(&mut self, id: u64) -> (granted: bool)
        requires
            old(self).wf(),
            id < old(self)@.next_id,
        ensures
            final(self).wf(),
            granted == !old(self)@.claimed.contains(id),
            final(self)@ == old(self)@.claimed_once(id),
    {
        let ghost before = self@;
        if self.claimed.contains(&id) {
            return false;
        }
        proof {
            lemma_dropped_ok(self.listeners@, self.claimed@, self.next_id, id);
        }
        let kept = drop_listener(&self.listeners, id);
        self.listeners = kept;
        self.claimed.insert(id);
        assert(self@ =~= before.claimed_once(id));
        true
    }

    /// The listeners that hear an event from a view, in dispatch order.
    pub fn select_matching_listeners(
        &self,
        event: &'static str,
        layers: &Vec<Layer>,
        mode: EventMode,
    ) -> (r: Result<Vec<EventListener>, CoreError>)
        requires
            self.wf(),
        ensures
            match r {
                Ok(selected) => {
                    &&& modes_agree(self@.listeners, event@, mode)
                    &&& selected@ == audience(self@.listeners, event@, layers@)
                    &&& forall|i: int|
                        0 <= i < selected@.len() ==> (#[trigger] selected@[i]).id < self@.next_id
                },
                Err(error) => {
                    &&& !modes_agree(self@.listeners, event@, mode)
                    &&& error == CoreError::EventModeMismatch { event }
                },
            },
    {
        let mut globals: Vec<EventListener> = Vec::new();
        let mut locals: Vec<EventListener> = Vec::new();
        let mut i: usize = 0;
        while i < self.listeners.len()
            invariant
                self.wf(),
                i <= self.listeners@.len(),
                forall|j: int|
                    0 <= j < i && (#[trigger] self.listeners@[j]).event@ == event@
                        ==> self.listeners@[j].mode == mode,
                globals@ == self.listeners@.take(i as int).filter(
                    |listener: EventListener|
                        hears(listener, event@, layers@) && listener.global,
                ),
                locals@ == self.listeners@.take(i as int).filter(
                    |listener: EventListener|
                        hears(listener, event@, layers@) && !listener.global,
                ),
                forall|j: int| 0 <= j < globals@.len() ==> (#[trigger] globals@[j]).id < self@.next_id,
                forall|j: int| 0 <= j < locals@.len() ==> (#[trigger] locals@[j]).id < self@.next_id,
            decreases self.listeners@.len() - i,
        {
            proof {
                assert(self.listeners@.take(i + 1).drop_last() =~= self.listeners@.take(i as int));
                assert(self@.listeners[i as int].id < self@.next_id);
                reveal(Seq::filter);
            }
            let listener = self.listeners[i];
            if same_text(listener.event, event) {
                if listener.mode != mode {
                    assert(self@.listeners[i as int].event@ == event@);
                    proof {
                        lemma_modes_differ(self.listeners@, event@, mode, i as int);
                    }
                    return Err(CoreError::EventModeMismatch { event });
                }
                if listener.global {
                    globals.push(listener);
                } else if is_derived_from(layers, listener.layer) {
                    locals.push(listener);
                }
            }
            i += 1;
        }
        assert(self.listeners@.take(i as int) =~= self.listeners@);
        globals.append(&mut locals);
        proof {
            lemma_modes_agree(self.listeners@, event@, mode);
        }
        Ok(globals)
    }
}

} // verus!
