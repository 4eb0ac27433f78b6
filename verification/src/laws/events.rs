//! Who hears an event, and in what order.

use crate::effect;
use crate::effect::ScopeModel;
use crate::event::dispatch;
use crate::event::dispatch::Arrival;
use crate::event::{EventListener, ListenRequest};
use crate::registry::events;
use crate::registry::RegistryModel;
use crate::view;
use crate::view::Layer;
use vstd::prelude::*;

verus! {

/// The part of an audience that listens to the whole runtime, or the part that does not.
pub open spec fn audience_part(
    listeners: Seq<EventListener>,
    event: Seq<char>,
    layers: Seq<Layer>,
    global: bool,
) -> Seq<EventListener> {
    listeners.filter(
        |listener: EventListener|
            events::hears(listener, event, layers) && listener.global == global,
    )
}

proof fn lemma_parts(listeners: Seq<EventListener>, event: Seq<char>, layers: Seq<Layer>)
    ensures
        listeners.filter(
            |listener: EventListener| events::hears(listener, event, layers) && listener.global,
        ) == audience_part(listeners, event, layers, true),
        listeners.filter(
            |listener: EventListener| events::hears(listener, event, layers) && !listener.global,
        ) == audience_part(listeners, event, layers, false),
    decreases listeners.len(),
{
    reveal(Seq::filter);
    if listeners.len() > 0 {
        lemma_parts(listeners.drop_last(), event, layers);
    }
}

/// What a filter keeps was there.
pub proof fn lemma_kept(
    listeners: Seq<EventListener>,
    pred: spec_fn(EventListener) -> bool,
    listener: EventListener,
)
    ensures
        listeners.filter(pred).contains(listener) <==> listeners.contains(listener) && pred(
            listener,
        ),
    decreases listeners.len(),
{
    broadcast use vstd::seq_lib::group_filter_ensures;

    let kept = listeners.filter(pred);
    if listeners.contains(listener) && pred(listener) {
        let i = choose|i: int| 0 <= i < listeners.len() && listeners[i] == listener;
        assert(kept.contains(listeners[i]));
    }
    if kept.contains(listener) {
        reveal(Seq::filter);
        let front = listeners.drop_last();
        lemma_kept(front, pred, listener);
        let i = choose|i: int| 0 <= i < kept.len() && kept[i] == listener;
        if front.filter(pred).contains(listener) {
            let j = choose|j: int| 0 <= j < front.len() && front[j] == listener;
            assert(listeners[j] == listener);
        } else {
            if i < front.filter(pred).len() {
                assert(front.filter(pred)[i] == listener);
            }
            assert(listener == listeners.last());
            assert(listeners[listeners.len() - 1] == listener);
        }
    }
}

/// The listeners to the whole runtime come first; within each part the order is that of the
/// listeners.
pub proof fn law_global_listeners_come_first(
    listeners: Seq<EventListener>,
    event: Seq<char>,
    layers: Seq<Layer>,
)
    ensures
        events::audience(listeners, event, layers) == audience_part(
            listeners,
            event,
            layers,
            true,
        ) + audience_part(listeners, event, layers, false),
        forall|i: int, j: int|
            0 <= i < j < events::audience(listeners, event, layers).len() && (
            #[trigger] events::audience(listeners, event, layers)[j]).global ==> (
            #[trigger] events::audience(listeners, event, layers)[i]).global,
{
    broadcast use vstd::seq_lib::group_filter_ensures;

    lemma_parts(listeners, event, layers);
    let first = audience_part(listeners, event, layers, true);
    let second = audience_part(listeners, event, layers, false);
    let all = events::audience(listeners, event, layers);
    assert forall|i: int, j: int| 0 <= i < j < all.len() && (#[trigger] all[j]).global implies (
    #[trigger] all[i]).global by {
        if j >= first.len() {
            assert(!second[j - first.len()].global);
        }
        assert(first[i].global);
    }
}

/// An event is heard by exactly the listeners of its name that listen to the whole runtime
/// or were registered on the view of the event or one that it derives from.
pub proof fn law_audience_is_who_hears(
    listeners: Seq<EventListener>,
    event: Seq<char>,
    layers: Seq<Layer>,
    listener: EventListener,
)
    ensures
        events::audience(listeners, event, layers).contains(listener) <==> listeners.contains(
            listener,
        ) && events::hears(listener, event, layers),
{
    lemma_parts(listeners, event, layers);
    let first = audience_part(listeners, event, layers, true);
    let second = audience_part(listeners, event, layers, false);
    let all = events::audience(listeners, event, layers);
    lemma_kept(
        listeners,
        |listener: EventListener|
            events::hears(listener, event, layers) && listener.global == true,
        listener,
    );
    lemma_kept(
        listeners,
        |listener: EventListener|
            events::hears(listener, event, layers) && listener.global == false,
        listener,
    );
    if first.contains(listener) {
        let i = choose|i: int| 0 <= i < first.len() && first[i] == listener;
        assert(all[i] == listener);
    }
    if second.contains(listener) {
        let i = choose|i: int| 0 <= i < second.len() && second[i] == listener;
        assert(all[first.len() + i] == listener);
    }
    if all.contains(listener) {
        let i = choose|i: int| 0 <= i < all.len() && all[i] == listener;
        if i < first.len() {
            assert(first[i] == listener);
        } else {
            assert(second[i - first.len()] == listener);
        }
    }
}

proof fn lemma_filter_push(
    listeners: Seq<EventListener>,
    listener: EventListener,
    pred: spec_fn(EventListener) -> bool,
)
    ensures
        listeners.push(listener).filter(pred) == (if pred(listener) {
            listeners.filter(pred).push(listener)
        } else {
            listeners.filter(pred)
        }),
        listeners.insert(0, listener).filter(pred) == (if pred(listener) {
            seq![listener] + listeners.filter(pred)
        } else {
            listeners.filter(pred)
        }),
{
    reveal(Seq::filter);
    assert(listeners.push(listener).drop_last() =~= listeners);
    assert(listeners.insert(0, listener) =~= seq![listener] + listeners);
    Seq::filter_distributes_over_add(seq![listener], listeners, pred);
    assert(seq![listener].drop_last() =~= Seq::<EventListener>::empty());
    assert(Seq::<EventListener>::empty().filter(pred) =~= Seq::<EventListener>::empty());
    if pred(listener) {
        assert(seq![listener].filter(pred) =~= seq![listener]);
    } else {
        assert(seq![listener].filter(pred) =~= Seq::<EventListener>::empty());
        assert(Seq::<EventListener>::empty() + listeners.filter(pred) =~= listeners.filter(pred));
    }
}

/// A new listener comes last in its part of the audience, or first when it asked for that.
pub proof fn law_new_listener_takes_its_end(
    listeners: Seq<EventListener>,
    listener: EventListener,
    event: Seq<char>,
    layers: Seq<Layer>,
)
    requires
        events::hears(listener, event, layers),
    ensures
        ({
            let after = events::listener_placed(listeners, listener);
            let part = audience_part(listeners, event, layers, listener.global);
            &&& audience_part(after, event, layers, listener.global) == (if listener.prepend {
                seq![listener] + part
            } else {
                part.push(listener)
            })
            &&& audience_part(after, event, layers, !listener.global) == audience_part(
                listeners,
                event,
                layers,
                !listener.global,
            )
        }),
{
    let global = listener.global;
    lemma_filter_push(
        listeners,
        listener,
        |listener: EventListener|
            events::hears(listener, event, layers) && listener.global == global,
    );
    let other = !global;
    lemma_filter_push(
        listeners,
        listener,
        |listener: EventListener|
            events::hears(listener, event, layers) && listener.global == other,
    );
}

/// Removing a listener undoes its registration.
pub proof fn law_unsubscribe_undoes_subscribe(
    registry: RegistryModel,
    request: ListenRequest,
    layer: u64,
)
    requires
        registry.ok(),
    ensures
        registry.subscribed(registry.next_id, request, layer).unsubscribed(
            registry.next_id,
        ).listeners == registry.listeners,
{
    let id = registry.next_id;
    let listener = request.listener(id, layer);
    let pred = |listener: EventListener| listener.id != id;
    lemma_filter_push(registry.listeners, listener, pred);
    lemma_filter_all(registry.listeners, pred);
}

proof fn lemma_filter_all(listeners: Seq<EventListener>, pred: spec_fn(EventListener) -> bool)
    requires
        forall|i: int| 0 <= i < listeners.len() ==> pred(#[trigger] listeners[i]),
    ensures
        listeners.filter(pred) == listeners,
    decreases listeners.len(),
{
    reveal(Seq::filter);
    if listeners.len() > 0 {
        let front = listeners.drop_last();
        assert forall|i: int| 0 <= i < front.len() implies pred(#[trigger] front[i]) by {
            assert(front[i] == listeners[i]);
        }
        lemma_filter_all(front, pred);
        assert(pred(listeners[listeners.len() - 1]));
        assert(front.push(listeners.last()) =~= listeners);
    }
}

/// A removed listener hears nothing any more.
pub proof fn law_removed_listener_is_silent(
    registry: RegistryModel,
    id: u64,
    event: Seq<char>,
    layers: Seq<Layer>,
    i: int,
)
    requires
        0 <= i < events::audience(registry.unsubscribed(id).listeners, event, layers).len(),
    ensures
        events::audience(registry.unsubscribed(id).listeners, event, layers)[i].id != id,
{
    let after = registry.unsubscribed(id).listeners;
    let all = events::audience(after, event, layers);
    assert(all.contains(all[i]));
    law_audience_is_who_hears(after, event, layers, all[i]);
    lemma_kept(registry.listeners, |listener: EventListener| listener.id != id, all[i]);
}

/// A listener that runs once is called at most once: after it was claimed, no dispatch that
/// has it in its audience calls it again, and no later dispatch selects it.
pub proof fn law_once_listener_runs_at_most_once(
    registry: RegistryModel,
    selected: Seq<EventListener>,
    listener: EventListener,
    at: int,
    passed: bool,
    event: Seq<char>,
    layers: Seq<Layer>,
)
    requires
        registry.ok(),
        listener.once,
        0 <= at,
        selected.len() <= usize::MAX,
        forall|i: int|
            0 <= i < selected.len() && (#[trigger] selected[i]).id == listener.id ==> selected[i]
                == listener,
    ensures
        ({
            let after = registry.claimed_once(listener.id);
            &&& dispatch::arrival(selected, after.claimed, at, passed) matches Arrival::Invoke {
                at: place,
                ..
            } ==> selected[place as int].id != listener.id
            &&& !events::audience(after.listeners, event, layers).contains(listener)
            &&& after.claimed_once(listener.id) == after
        }),
{
    let after = registry.claimed_once(listener.id);
    let id = listener.id;
    dispatch::lemma_arrival_ahead(selected, after.claimed, at, passed);
    law_audience_is_who_hears(after.listeners, event, layers, listener);
    if registry.claimed.contains(id) {
        if after.listeners.contains(listener) {
            let i = choose|i: int|
                0 <= i < after.listeners.len() && after.listeners[i] == listener;
            assert(!registry.claimed.contains(registry.listeners[i].id));
        }
    } else {
        lemma_kept(registry.listeners, |listener: EventListener| listener.id != id, listener);
    }
}

/// A dispatch passes over a listener on its own account only if that runs once and did: all
/// others are asked or called, in order.
pub proof fn law_no_listener_is_passed_over(
    selected: Seq<EventListener>,
    claimed: Set<u64>,
    at: int,
    passed: bool,
    k: int,
)
    requires
        0 <= at <= k < selected.len(),
        selected.len() <= usize::MAX,
        match dispatch::arrival(selected, claimed, at, passed) {
            Arrival::Filter { at: place, .. } => k < place,
            Arrival::Invoke { at: place, .. } => k < place,
            Arrival::End => true,
        },
    ensures
        selected[k].once && claimed.contains(selected[k].id),
    decreases selected.len() - at,
{
    if k > at {
        law_no_listener_is_passed_over(selected, claimed, at + 1, false, k);
    }
}

/// A listener of a view hears the events of all views that derive from it; one of a derived
/// view does not hear the events of the view that it derives from.
pub proof fn law_events_pass_down_only(
    layers: Seq<Layer>,
    next: u64,
    layer: Layer,
    listening: u64,
)
    requires
        view::view_ok(layers, next),
        layer.id == next,
    ensures
        view::derives_from(layers, listening) ==> view::derives_from(layers.push(layer), listening),
        view::derives_from(layers.push(layer), layer.id),
        !view::derives_from(layers, layer.id),
{
    let derived = layers.push(layer);
    assert(derived[layers.len() as int].id == layer.id);
    if view::derives_from(layers, listening) {
        let i = choose|i: int| 0 <= i < layers.len() && (#[trigger] layers[i]).id == listening;
        assert(derived[i].id == listening);
    }
}

/// The contract of an event name is settled by its first use; a use under another contract
/// is refused from then on, also after all listeners are gone.
pub proof fn law_event_contract_stays(
    registry: RegistryModel,
    scopes: Map<u64, ScopeModel>,
    layer: u64,
    request: ListenRequest,
    owner: u64,
    later: ListenRequest,
)
    requires
        registry.subscribe_outcome(scopes, layer, request, owner).0 is Ok,
        later.event@ == request.event@,
        later.contract != request.contract,
    ensures
        ({
            let after = registry.subscribe_outcome(scopes, layer, request, owner).1;
            let gone = after.unsubscribed(registry.next_id);
            &&& after.contracts[request.event@] == request.contract
            &&& events::contract_check(after.contracts, later.event, later.contract) is Err
            &&& events::contract_check(gone.contracts, later.event, later.contract) is Err
            &&& !effect::scope_disposed(scopes, owner) ==> after.subscribe_outcome(
                scopes,
                layer,
                later,
                owner,
            ).0 is Err
        }),
{
}

/// What a parallel dispatch calls are listeners that were let through, and of those that run
/// once only ones that did not run yet.
pub proof fn law_parallel_claims_are_eligible(
    registry: RegistryModel,
    eligible: Seq<EventListener>,
    handler: u64,
)
    requires
        dispatch::claims(registry, eligible).1.contains(handler),
    ensures
        exists|i: int|
            0 <= i < eligible.len() && (#[trigger] eligible[i]).handler == handler && (
            eligible[i].once ==> !registry.claimed.contains(eligible[i].id)),
        dispatch::claims(registry, eligible).1.len() <= eligible.len(),
    decreases eligible.len(),
{
    let front = eligible.drop_last();
    lemma_claims(registry, front);
    lemma_claims(registry, eligible);
    let called = dispatch::claims(registry, eligible).1;
    let before = dispatch::claims(registry, front).1;
    if before.contains(handler) {
        law_parallel_claims_are_eligible(registry, front, handler);
        let i = choose|i: int|
            0 <= i < front.len() && (#[trigger] front[i]).handler == handler && (front[i].once
                ==> !registry.claimed.contains(front[i].id));
        assert(eligible[i].handler == handler);
    } else {
        let i = choose|i: int| 0 <= i < called.len() && called[i] == handler;
        if i < before.len() {
            assert(before[i] == handler);
        }
        assert(eligible[eligible.len() - 1].handler == handler);
    }
}

proof fn lemma_claims(registry: RegistryModel, eligible: Seq<EventListener>)
    ensures
        dispatch::claims(registry, eligible).1.len() <= eligible.len(),
        registry.claimed.subset_of(dispatch::claims(registry, eligible).0.claimed),
    decreases eligible.len(),
{
    if eligible.len() > 0 {
        lemma_claims(registry, eligible.drop_last());
    }
}

} // verus!
