//! What a dispatch does for its listeners, told by the listeners themselves.

use crate::context::Context;
use crate::effect::{Cleanup, ScopeModel};
use crate::error::CoreError;
use crate::event::dispatch;
use crate::event::dispatch::{Arrival, Dispatch, EmissionModel, EmissionStep, ParallelModel};
use crate::event::{EventContract, EventListener, ListenOptions, ListenRequest};
use crate::laws::events as audiences;
use crate::registry::events;
use crate::registry::RegistryModel;
use crate::runtime::RuntimeModel;
use crate::view::Layer;
use vstd::prelude::*;

verus! {

/// The listeners of this name to the whole runtime, in list order.
pub open spec fn listening_everywhere(listeners: Seq<EventListener>, event: Seq<char>) -> Seq<
    EventListener,
> {
    listeners.filter(|l: EventListener| l.event@ == event && l.global)
}

/// The other listeners of this name that stand on a layer of the view, in list order.
pub open spec fn listening_on(
    listeners: Seq<EventListener>,
    event: Seq<char>,
    layers: Seq<Layer>,
) -> Seq<EventListener> {
    listeners.filter(
        |l: EventListener|
            l.event@ == event && !l.global && exists|i: int|
                0 <= i < layers.len() && (#[trigger] layers[i]).id == l.layer,
    )
}

/// The listeners that an event reaches.
pub open spec fn reached(
    listeners: Seq<EventListener>,
    event: Seq<char>,
    layers: Seq<Layer>,
) -> Seq<EventListener> {
    listening_everywhere(listeners, event) + listening_on(listeners, event, layers)
}

proof fn lemma_reached_parts(
    listeners: Seq<EventListener>,
    event: Seq<char>,
    layers: Seq<Layer>,
)
    ensures
        audiences::audience_part(listeners, event, layers, true) == listening_everywhere(
            listeners,
            event,
        ),
        audiences::audience_part(listeners, event, layers, false) == listening_on(
            listeners,
            event,
            layers,
        ),
    decreases listeners.len(),
{
    reveal(Seq::filter);
    if listeners.len() > 0 {
        lemma_reached_parts(listeners.drop_last(), event, layers);
    }
}

/// An event from a view reaches every listener of its name that listens to the whole runtime
/// or stands on any layer of the view, however far out, and nobody else. The listeners to the
/// whole runtime come first; each part keeps the order of the list.
pub proof fn law_event_reaches_the_whole_chain(
    listeners: Seq<EventListener>,
    event: Seq<char>,
    layers: Seq<Layer>,
)
    ensures
        events::audience(listeners, event, layers) == reached(listeners, event, layers),
        forall|l: EventListener| #[trigger]
            events::audience(listeners, event, layers).contains(l) <==> listeners.contains(l)
                && l.event@ == event && (l.global || exists|i: int|
                0 <= i < layers.len() && (#[trigger] layers[i]).id == l.layer),
        forall|l: EventListener, i: int|
            #![trigger listeners.contains(l), layers[i]]
            listeners.contains(l) && l.event@ == event && 0 <= i < layers.len() && layers[i].id
                == l.layer ==> events::audience(listeners, event, layers).contains(l),
{
    audiences::law_global_listeners_come_first(listeners, event, layers);
    lemma_reached_parts(listeners, event, layers);
    assert forall|l: EventListener| #[trigger]
        events::audience(listeners, event, layers).contains(l) <==> listeners.contains(l)
            && l.event@ == event && (l.global || exists|i: int|
            0 <= i < layers.len() && (#[trigger] layers[i]).id == l.layer) by {
        audiences::law_audience_is_who_hears(listeners, event, layers, l);
    }
}

/// The same of a dispatch that was begun: it goes to the listeners that the event reaches, it
/// leaves the listeners alone, and all listeners of the name take part in its mode.
pub proof fn law_begun_dispatch_reaches_the_whole_chain(
    before: RegistryModel,
    layers: Seq<Layer>,
    event: &'static str,
    wanted: EventContract,
    after: RegistryModel,
    begun: Dispatch,
)
    requires
        dispatch::dispatch_begun(
            before,
            layers,
            event,
            wanted,
            after,
            Ok::<Dispatch, CoreError>(begun),
        ),
    ensures
        begun.event == event,
        begun.selected@ == reached(before.listeners, event@, layers),
        forall|l: EventListener| #[trigger]
            begun.selected@.contains(l) <==> before.listeners.contains(l) && l.event@ == event@
                && (l.global || exists|i: int|
                0 <= i < layers.len() && (#[trigger] layers[i]).id == l.layer),
        forall|k: int|
            0 <= k < before.listeners.len() && (#[trigger] before.listeners[k]).event@ == event@
                ==> before.listeners[k].mode == wanted.mode,
        after == (RegistryModel {
            contracts: before.contracts.insert(event@, wanted),
            ..before
        }),
        before.contracts.contains_key(event@) ==> before.contracts[event@] == wanted,
{
    law_event_reaches_the_whole_chain(before.listeners, event@, layers);
    reveal(events::modes_agree);
    law_event_contract_is_held(before.contracts, event, wanted);
    if before.contracts.contains_key(event@) {
        assert(before.contracts.insert(event@, wanted) =~= before.contracts);
    }
}

/// A dispatch is refused exactly if the name is bound to another contract, or a listener of
/// the name takes part in dispatches of another mode.
pub proof fn law_dispatch_is_refused_for_a_reason(
    before: RegistryModel,
    layers: Seq<Layer>,
    event: &'static str,
    wanted: EventContract,
    after: RegistryModel,
    r: Result<Dispatch, CoreError>,
)
    requires
        dispatch::dispatch_begun(before, layers, event, wanted, after, r),
    ensures
        r is Err <==> (before.contracts.contains_key(event@) && before.contracts[event@] != wanted)
            || exists|k: int|
            0 <= k < before.listeners.len() && (#[trigger] before.listeners[k]).event@ == event@
                && before.listeners[k].mode != wanted.mode,
{
    reveal(events::modes_agree);
    if before.contracts.contains_key(event@) {
        let bound = before.contracts[event@];
        if bound.mode == wanted.mode && bound.payload == wanted.payload && bound.answer
            == wanted.answer {
            assert(bound == wanted);
        }
    }
}

/// The same of a context that dispatches.
pub proof fn law_context_dispatch_reaches_the_whole_chain(
    context: Context,
    before: RuntimeModel,
    event: &'static str,
    wanted: EventContract,
    after: RuntimeModel,
    shown: &'static str,
    selected: Seq<EventListener>,
)
    requires
        context.dispatch_made(
            before,
            event,
            wanted,
            after,
            Ok::<(&'static str, Seq<EventListener>), CoreError>((shown, selected)),
        ),
    ensures
        shown == event,
        selected == reached(before.registry.listeners, event@, context.layers_spec()),
        forall|l: EventListener| #[trigger]
            selected.contains(l) <==> before.registry.listeners.contains(l) && l.event@ == event@
                && (l.global || exists|i: int|
                0 <= i < context.layers_spec().len() && (#[trigger] context.layers_spec()[i]).id
                    == l.layer),
        after == (RuntimeModel {
            registry: RegistryModel {
                contracts: before.registry.contracts.insert(event@, wanted),
                ..before.registry
            },
            ..before
        }),
{
    law_event_contract_is_held(before.registry.contracts, event, wanted);
    if before.registry.contracts.contains_key(event@) {
        assert(before.registry.contracts.insert(event@, wanted) =~= before.registry.contracts);
    }
    law_event_reaches_the_whole_chain(before.registry.listeners, event@, context.layers_spec());
}

/// A dispatch of a context succeeds exactly if its scope is alive, the name is free or bound
/// to this contract, and all listeners of the name take part in dispatches of this mode.
pub proof fn law_context_dispatch_is_refused_for_a_reason(
    context: Context,
    before: RuntimeModel,
    event: &'static str,
    wanted: EventContract,
    after: RuntimeModel,
    r: Result<(&'static str, Seq<EventListener>), CoreError>,
)
    requires
        context.dispatch_made(before, event, wanted, after, r),
    ensures
        r is Ok <==> before.scopes.contains_key(context.scope_spec())
            && !before.scopes[context.scope_spec()].disposed && (
        before.registry.contracts.contains_key(event@) ==> before.registry.contracts[event@]
            == wanted) && (forall|k: int|
            0 <= k < before.registry.listeners.len() && (
            #[trigger] before.registry.listeners[k]).event@ == event@
                ==> before.registry.listeners[k].mode == wanted.mode),
{
    reveal(events::modes_agree);
    if before.registry.contracts.contains_key(event@) {
        let bound = before.registry.contracts[event@];
        if bound.mode == wanted.mode && bound.payload == wanted.payload && bound.answer
            == wanted.answer {
            assert(bound == wanted);
        }
    }
}

/// A use of an event name is told what is wrong with it: first the mode, then the payload,
/// then the answer; what is wrong with nothing is in order.
pub proof fn law_event_contract_is_held(
    contracts: Map<Seq<char>, EventContract>,
    event: &'static str,
    wanted: EventContract,
)
    ensures
        events::contract_check(contracts, event, wanted) is Ok <==> !contracts.contains_key(event@)
            || contracts[event@] == wanted,
        contracts.contains_key(event@) && contracts[event@].mode != wanted.mode
            ==> events::contract_check(contracts, event, wanted) == Err::<(), CoreError>(
            CoreError::EventModeMismatch { event },
        ),
        contracts.contains_key(event@) && contracts[event@].mode == wanted.mode
            && contracts[event@].payload != wanted.payload ==> events::contract_check(
            contracts,
            event,
            wanted,
        ) == Err::<(), CoreError>(CoreError::EventKeyTypeConflict { event }),
        contracts.contains_key(event@) && contracts[event@].mode == wanted.mode
            && contracts[event@].payload == wanted.payload && contracts[event@].answer
            != wanted.answer ==> events::contract_check(contracts, event, wanted) == Err::<
            (),
            CoreError,
        >(CoreError::EventAnswerTypeConflict { event }),
{
    if contracts.contains_key(event@) {
        let bound = contracts[event@];
        if bound.mode == wanted.mode && bound.payload == wanted.payload && bound.answer
            == wanted.answer {
            assert(bound == wanted);
        }
    }
}

/// A listener becomes what its request and its options say, on the innermost layer of the
/// view that registers it; it joins the list at the end or, if it asked for that, in front.
pub proof fn law_listener_is_registered_as_requested<T: Send + Sync + 'static>(
    context: Context,
    before: RuntimeModel,
    options: ListenOptions<T>,
    event: &'static str,
    contract: EventContract,
    handler: u64,
    after: RuntimeModel,
    r: Result<crate::context::handles::Unsubscribe, CoreError>,
)
    requires
        context.wf(),
        context.listen_made(before, options.request(event, contract, handler), after, r),
        r is Ok,
    ensures
        ({
            let list = after.registry.listeners;
            let held = before.registry.listeners;
            let at = if options.prepend {
                0int
            } else {
                held.len() as int
            };
            let made = list[at];
            &&& list.len() == held.len() + 1
            &&& made.id == before.registry.next_id
            &&& r->Ok_0.id_spec() == before.registry.next_id
            &&& made.event == event
            &&& made.handler == handler
            &&& made.mode == contract.mode
            &&& made.once == options.once
            &&& made.prepend == options.prepend
            &&& made.global == options.global
            &&& made.filter == options.filter
            &&& made.layer == context.layers_spec()[context.layers_spec().len() - 1].id
            &&& list.remove(at) == held
            &&& after.registry.contracts[event@] == contract
        }),
{
    let list = after.registry.listeners;
    let held = before.registry.listeners;
    let at = if options.prepend {
        0int
    } else {
        held.len() as int
    };
    assert(list.remove(at) =~= held);
    if before.registry.contracts.contains_key(event@) {
        law_event_contract_is_held(before.registry.contracts, event, contract);
    }
}

/// A request without options asks for a listener that stays, is appended, hears its own view
/// and takes every payload.
pub proof fn law_plain_listener_has_no_options(
    event: &'static str,
    contract: EventContract,
    handler: u64,
    id: u64,
    layer: u64,
)
    ensures
        ({
            let request = ListenRequest::plain(event, contract, handler);
            let made = request.listener(id, layer);
            &&& request.contract == contract
            &&& made.id == id
            &&& made.layer == layer
            &&& made.event == event
            &&& made.mode == contract.mode
            &&& made.handler == handler
            &&& !made.once
            &&& !made.prepend
            &&& !made.global
            &&& made.filter is None
        }),
{
}

/// Where a dispatch arrives. It stops at the first listener that it may not skip, and it may
/// skip only one that runs once and did. There it asks the filter if there is one that was not
/// asked, and otherwise calls the handler.
pub proof fn law_arrival_is_the_next_listener(
    selected: Seq<EventListener>,
    claimed: Set<u64>,
    at: int,
    passed: bool,
)
    requires
        0 <= at,
        selected.len() <= usize::MAX,
    ensures
        ({
            let place = match dispatch::arrival(selected, claimed, at, passed) {
                Arrival::Filter { at, .. } => at as int,
                Arrival::Invoke { at, .. } => at as int,
                Arrival::End => selected.len() as int,
            };
            &&& forall|k: int|
                at <= k < place && k < selected.len() ==> {
                    &&& (#[trigger] selected[k]).once
                    &&& claimed.contains(selected[k].id)
                    &&& selected[k].filter is None || (passed && k == at)
                }
            &&& match dispatch::arrival(selected, claimed, at, passed) {
                Arrival::Filter { filter, .. } => {
                    &&& at <= place < selected.len()
                    &&& selected[place].filter == Some(filter)
                    &&& !(passed && place == at)
                },
                Arrival::Invoke { handler, .. } => {
                    &&& at <= place < selected.len()
                    &&& selected[place].handler == handler
                    &&& selected[place].filter is None || (passed && place == at)
                    &&& selected[place].once ==> !claimed.contains(selected[place].id)
                },
                Arrival::End => true,
            }
        }),
    decreases selected.len() - at,
{
    if at < selected.len() {
        let listener = selected[at];
        if (passed || listener.filter is None) && listener.once && claimed.contains(listener.id) {
            law_arrival_is_the_next_listener(selected, claimed, at + 1, false);
        }
    }
}

/// A dispatch that is to call a listener that runs once claims it, and it alone: from then on
/// it is claimed and no longer listed. Nothing else changes the registry.
pub proof fn law_called_listener_is_claimed(
    registry: RegistryModel,
    selected: Seq<EventListener>,
    place: Arrival,
    id: u64,
)
    ensures
        ({
            let after = dispatch::arrived(registry, selected, place);
            &&& place matches Arrival::Invoke { at, .. } ==> (selected[at as int].once ==> {
                &&& after.claimed == registry.claimed.insert(selected[at as int].id)
                &&& !registry.claimed.contains(selected[at as int].id) ==> after.listeners
                    == registry.listeners.filter(
                    |l: EventListener| l.id != selected[at as int].id,
                )
            })
            &&& (place matches Arrival::Invoke { at, .. } ==> !selected[at as int].once)
                ==> after == registry
            &&& after == (RegistryModel {
                claimed: after.claimed,
                listeners: after.listeners,
                ..registry
            })
        }),
{
    if let Arrival::Invoke { at, .. } = place {
        let id = selected[at as int].id;
        if registry.claimed.contains(id) {
            assert(registry.claimed.insert(id) =~= registry.claimed);
        }
    }
}

/// An emission deals with the listener that it stands at before any other. It asks the filter
/// first; a listener without a filter, or that was let through, is called, unless it runs once
/// and did; one that was not let through is skipped. Behind the last listener it is over.
pub proof fn law_emission_serves_each_listener(
    emission: EmissionModel,
    claimed: Set<u64>,
)
    requires
        0 <= emission.at <= emission.selected.len(),
        emission.selected.len() <= usize::MAX,
    ensures
        emission.at == emission.selected.len() ==> dispatch::step_at(emission.next(claimed))
            is Done,
        emission.at < emission.selected.len() ==> {
            let listener = emission.selected[emission.at];
            let open = emission.passed || listener.filter is None;
            let ran = listener.once && claimed.contains(listener.id);
            let skipped = EmissionModel { at: emission.at + 1, passed: false, ..emission };
            let step = dispatch::step_at(emission.next(claimed));
            let after = emission.moved(emission.next(claimed));
            &&& !open ==> step == EmissionStep::Filter(listener.filter->0) && after == emission
            &&& open && !ran ==> step == EmissionStep::Invoke(listener.handler) && after == skipped
            &&& open && ran ==> step == dispatch::step_at(skipped.next(claimed)) && after
                == skipped.moved(skipped.next(claimed))
            &&& emission.judged(true) == (EmissionModel { passed: true, ..emission })
            &&& emission.judged(false) == skipped
        },
        emission.ended().at == emission.selected.len(),
        dispatch::step_at(emission.ended().next(claimed)) is Done,
        emission.ended().moved(emission.ended().next(claimed)) == emission.ended(),
{
}

/// A parallel dispatch takes every listener in its turn: those without a filter are eligible
/// at once, it stops at each that has one, and it stops nowhere else.
pub proof fn law_parallel_takes_every_listener(parallel: ParallelModel)
    requires
        parallel.ok(),
    ensures
        ({
            let after = parallel.at_filter();
            &&& parallel.at <= after.at <= parallel.selected.len()
            &&& after.event == parallel.event
            &&& after.selected == parallel.selected
            &&& after.eligible == parallel.eligible + parallel.selected.subrange(
                parallel.at,
                after.at,
            )
            &&& forall|k: int|
                parallel.at <= k < after.at ==> (#[trigger] parallel.selected[k]).filter is None
            &&& after.at < parallel.selected.len() ==> parallel.selected[after.at].filter is Some
        }),
        parallel.judged(true).eligible == parallel.eligible.push(parallel.selected[parallel.at]),
        parallel.judged(false).eligible == parallel.eligible,
        forall|through: bool| (#[trigger] parallel.judged(through)).at == parallel.at + 1,
        forall|through: bool| (#[trigger] parallel.judged(through)).selected == parallel.selected,
        forall|through: bool| (#[trigger] parallel.judged(through)).event == parallel.event,
    decreases parallel.selected.len() - parallel.at,
{
    if parallel.at < parallel.selected.len() && parallel.selected[parallel.at].filter is None {
        let next = ParallelModel {
            at: parallel.at + 1,
            eligible: parallel.eligible.push(parallel.selected[parallel.at]),
            ..parallel
        };
        law_parallel_takes_every_listener(next);
        assert(next.eligible + parallel.selected.subrange(next.at, next.at_filter().at)
            =~= parallel.eligible + parallel.selected.subrange(parallel.at, next.at_filter().at));
    } else {
        assert(parallel.eligible + parallel.selected.subrange(parallel.at, parallel.at)
            =~= parallel.eligible);
    }
}

/// The listener is to be called: it does not run once, or it did not run.
pub open spec fn callable(claimed: Set<u64>, listener: EventListener) -> bool {
    !listener.once || !claimed.contains(listener.id)
}

/// This listener runs once and did not run, and it is among the eligible ones.
pub open spec fn newly_run(claimed: Set<u64>, eligible: Seq<EventListener>, id: u64) -> bool {
    !claimed.contains(id) && exists|i: int|
        0 <= i < eligible.len() && (#[trigger] eligible[i]).once && eligible[i].id == id
}

/// A parallel dispatch calls every eligible listener: the handlers handed out are, in order,
/// those of all eligible listeners that do not run once or did not run. Of listeners that run
/// once exactly those are claimed and taken from the list.
pub proof fn law_parallel_calls_every_eligible_listener(
    registry: RegistryModel,
    eligible: Seq<EventListener>,
)
    requires
        forall|i: int, j: int|
            0 <= i < j < eligible.len() ==> (#[trigger] eligible[i]).id != (
            #[trigger] eligible[j]).id,
    ensures
        ({
            let called = eligible.filter(|l: EventListener| callable(registry.claimed, l));
            let (after, handlers) = dispatch::claims(registry, eligible);
            &&& handlers.len() == called.len()
            &&& forall|i: int|
                0 <= i < handlers.len() ==> #[trigger] handlers[i] == called[i].handler
            &&& forall|id: u64| #[trigger]
                after.claimed.contains(id) <==> registry.claimed.contains(id) || exists|i: int|
                    0 <= i < eligible.len() && (#[trigger] eligible[i]).once && eligible[i].id
                        == id
            &&& forall|l: EventListener| #[trigger]
                after.listeners.contains(l) <==> registry.listeners.contains(l) && !newly_run(
                    registry.claimed,
                    eligible,
                    l.id,
                )
            &&& after == (RegistryModel {
                claimed: after.claimed,
                listeners: after.listeners,
                ..registry
            })
        }),
    decreases eligible.len(),
{
    reveal(Seq::filter);
    if eligible.len() > 0 {
        let front = eligible.drop_last();
        let last = eligible.last();
        assert forall|i: int, j: int| 0 <= i < j < front.len() implies (#[trigger] front[i]).id != (
        #[trigger] front[j]).id by {
            assert(front[i] == eligible[i] && front[j] == eligible[j]);
        }
        law_parallel_calls_every_eligible_listener(registry, front);
        let (middle, handlers) = dispatch::claims(registry, front);
        let (after, all) = dispatch::claims(registry, eligible);
        assert(middle.claimed.contains(last.id) == registry.claimed.contains(last.id)) by {
            if middle.claimed.contains(last.id) && !registry.claimed.contains(last.id) {
                let i = choose|i: int|
                    0 <= i < front.len() && (#[trigger] front[i]).once && front[i].id == last.id;
                assert(eligible[i].id == eligible[eligible.len() - 1].id);
            }
        }
        assert forall|id: u64| #[trigger] after.claimed.contains(id) <==> registry.claimed.contains(
            id,
        ) || exists|i: int|
            0 <= i < eligible.len() && (#[trigger] eligible[i]).once && eligible[i].id == id by {
            if exists|i: int|
                0 <= i < front.len() && (#[trigger] front[i]).once && front[i].id == id {
                let i = choose|i: int|
                    0 <= i < front.len() && (#[trigger] front[i]).once && front[i].id == id;
                assert(eligible[i].once && eligible[i].id == id);
            }
            if exists|i: int|
                0 <= i < eligible.len() && (#[trigger] eligible[i]).once && eligible[i].id == id {
                let i = choose|i: int|
                    0 <= i < eligible.len() && (#[trigger] eligible[i]).once && eligible[i].id
                        == id;
                if i < front.len() {
                    assert(front[i].once && front[i].id == id);
                }
            }
            if last.once && last.id == id {
                assert(eligible[eligible.len() - 1].once);
            }
        }
        assert forall|l: EventListener| #[trigger] after.listeners.contains(
            l,
        ) <==> registry.listeners.contains(l) && !newly_run(registry.claimed, eligible, l.id) by {
            let id = last.id;
            audiences::lemma_kept(
                middle.listeners,
                |listener: EventListener| listener.id != id,
                l,
            );
            if newly_run(registry.claimed, front, l.id) {
                let i = choose|i: int|
                    0 <= i < front.len() && (#[trigger] front[i]).once && front[i].id == l.id;
                assert(eligible[i].once && eligible[i].id == l.id);
            }
            if newly_run(registry.claimed, eligible, l.id) {
                let i = choose|i: int|
                    0 <= i < eligible.len() && (#[trigger] eligible[i]).once && eligible[i].id
                        == l.id;
                if i < front.len() {
                    assert(front[i].once && front[i].id == l.id);
                }
            }
            if last.once && last.id == l.id {
                assert(eligible[eligible.len() - 1].once);
            }
        }
    }
}

/// In particular, an eligible listener that does not run once is called, whatever it is else
/// and whatever the others are.
pub proof fn law_parallel_calls_lasting_listeners(
    registry: RegistryModel,
    eligible: Seq<EventListener>,
    i: int,
)
    requires
        0 <= i < eligible.len(),
        !eligible[i].once,
    ensures
        dispatch::claims(registry, eligible).1.contains(eligible[i].handler),
    decreases eligible.len(),
{
    let front = eligible.drop_last();
    let called = dispatch::claims(registry, eligible).1;
    let before = dispatch::claims(registry, front).1;
    if i < front.len() {
        law_parallel_calls_lasting_listeners(registry, front, i);
        let k = choose|k: int| 0 <= k < before.len() && before[k] == front[i].handler;
        assert(called[k] == eligible[i].handler);
    } else {
        assert(called[called.len() - 1] == eligible[i].handler);
    }
}

/// The failures of the handlers are told together, each once and in order, with the message of
/// the listener or else that of the error.
pub proof fn law_parallel_tells_every_failure(outcomes: Seq<Result<(), CoreError>>)
    ensures
        ({
            let failed = outcomes.filter(|outcome: Result<(), CoreError>| outcome is Err);
            let texts = dispatch::failure_texts(outcomes);
            &&& texts.len() == failed.len()
            &&& forall|i: int|
                0 <= i < texts.len() ==> #[trigger] texts[i] == (match failed[i]->Err_0 {
                    CoreError::EventListener(message) => message@,
                    cause => cause.message_text(),
                })
        }),
    decreases outcomes.len(),
{
    reveal(Seq::filter);
    if outcomes.len() > 0 {
        law_parallel_tells_every_failure(outcomes.drop_last());
    }
}

/// A failure reaches the emitter as a failure of a listener, with its own message and not
/// wrapped twice.
pub proof fn law_emitter_is_told_the_cause(cause: CoreError, r: CoreError)
    requires
        dispatch::listener_error(cause, r),
    ensures
        r is EventListener,
        r->EventListener_0@ == (match cause {
            CoreError::EventListener(message) => message@,
            other => other.message_text(),
        }),
{
}

/// A payload is handed over exactly if it is of the type that is asked for.
pub proof fn law_payload_keeps_its_type(
    event: &'static str,
    expected: std::any::TypeId,
    payload: dispatch::ErasedPayload,
)
    ensures
        payload.tag == expected ==> dispatch::typed_payload(event, expected, payload) == Ok::<
            u64,
            CoreError,
        >(payload.value),
        payload.tag != expected ==> dispatch::typed_payload(event, expected, payload) == Err::<
            u64,
            CoreError,
        >(CoreError::EventTypeMismatch { event }),
{
}

/// A listener is taken exactly if the scope is alive and the name is free or bound to its
/// contract; otherwise the list stays as it is.
pub proof fn law_subscriptions_are_answered(
    registry: RegistryModel,
    scopes: Map<u64, ScopeModel>,
    layer: u64,
    request: ListenRequest,
    owner: u64,
)
    ensures
        ({
            let name = request.event@;
            let (r, after, scopes2) = registry.subscribe_outcome(scopes, layer, request, owner);
            let alive = scopes.contains_key(owner) && !scopes[owner].disposed;
            let fits = !registry.contracts.contains_key(name) || registry.contracts[name]
                == request.contract;
            &&& r is Ok <==> alive && fits
            &&& r is Ok ==> r == Ok::<u64, CoreError>(registry.next_id)
            &&& !alive ==> r == Err::<u64, CoreError>(CoreError::ContextDisposed)
            &&& r is Err ==> after.listeners == registry.listeners && after.contracts
                == registry.contracts && scopes2 == scopes
            &&& r is Ok ==> after.contracts == registry.contracts.insert(name, request.contract)
            &&& r is Ok ==> scopes2 == scopes.insert(
                owner,
                ScopeModel {
                    cleanups: scopes[owner].cleanups.push(Cleanup::Listener(registry.next_id)),
                    ..scopes[owner]
                },
            )
            &&& after == (RegistryModel {
                next_id: after.next_id,
                contracts: after.contracts,
                listeners: after.listeners,
                ..registry
            })
        }),
{
    law_event_contract_is_held(registry.contracts, request.event, request.contract);
    let name = request.event@;
    if registry.contracts.contains_key(name) && registry.contracts[name] == request.contract {
        assert(registry.contracts.insert(name, request.contract) =~= registry.contracts);
    }
}

/// To remove a listener is to remove it alone; the others keep their order. A claim that is the
/// first of its listener removes it too, a later one changes nothing.
pub proof fn law_removal_removes_one_listener(registry: RegistryModel, id: u64)
    ensures
        registry.unsubscribed(id).listeners == listening_but(registry.listeners, id),
        registry.unsubscribed(id) == (RegistryModel {
            listeners: registry.unsubscribed(id).listeners,
            ..registry
        }),
        registry.claimed.contains(id) ==> registry.claimed_once(id) == registry,
        !registry.claimed.contains(id) ==> registry.claimed_once(id) == (RegistryModel {
            claimed: registry.claimed.insert(id),
            listeners: listening_but(registry.listeners, id),
            ..registry
        }),
{
    lemma_listening_but(registry.listeners, id);
}

/// The listeners other than this one, in list order.
pub open spec fn listening_but(listeners: Seq<EventListener>, id: u64) -> Seq<EventListener> {
    listeners.filter(|l: EventListener| l.id != id)
}

proof fn lemma_listening_but(listeners: Seq<EventListener>, id: u64)
    ensures
        events::listener_dropped(listeners, id) == listening_but(listeners, id),
    decreases listeners.len(),
{
    reveal(Seq::filter);
    if listeners.len() > 0 {
        lemma_listening_but(listeners.drop_last(), id);
    }
}

} // verus!
