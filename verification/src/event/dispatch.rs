//! Dispatch of events to listeners.
//!
//! A dispatch works on the listeners that were selected when it began. The host calls
//! filters and handlers and reports what came back; the machines of this module decide
//! what happens next.

use super::{EventContract, EventListener};
use crate::error::CoreError;
use crate::registry::events;
use crate::registry::{Registry, RegistryModel};
use crate::tag::same_tag;
use crate::view::Layer;
use std::any::TypeId;
use std::marker::PhantomData;
use vstd::prelude::*;

verus! {

/// The listeners that a dispatch goes to, in order.
pub struct Dispatch {
    pub event: &'static str,
    pub selected: Vec<EventListener>,
}

/// The listeners were registered with a registry whose next identifier is `next`.
pub open spec fn known(listeners: Seq<EventListener>, next: u64) -> bool {
    forall|i: int| 0 <= i < listeners.len() ==> (#[trigger] listeners[i]).id < next
}

/// Where a dispatch stands and what the host does there.
#[derive(Clone, Copy, Debug, PartialEq, Eq, Structural)]
pub enum Arrival {
    /// Ask this filter of the listener at this position.
    Filter { at: usize, filter: u64 },
    /// Call this handler of the listener at this position.
    Invoke { at: usize, handler: u64 },
    /// No listener is left.
    End,
}

/// Where a dispatch arrives that goes on at position `at`. `passed` says that the filter
/// there let the payload through already. One-shot listeners that ran are skipped.
pub open spec fn arrival(
    selected: Seq<EventListener>,
    claimed: Set<u64>,
    at: int,
    passed: bool,
) -> Arrival
    decreases selected.len() - at,
{
    if at < 0 || at >= selected.len() {
        Arrival::End
    } else {
        let listener = selected[at];
        match listener.filter {
            Some(filter) if !passed => Arrival::Filter { at: at as usize, filter },
            _ => if listener.once && claimed.contains(listener.id) {
                arrival(selected, claimed, at + 1, false)
            } else {
                Arrival::Invoke { at: at as usize, handler: listener.handler }
            },
        }
    }
}

/// The registry after an arrival: a one-shot listener that is to be called is claimed.
pub open spec fn arrived(
    registry: RegistryModel,
    selected: Seq<EventListener>,
    place: Arrival,
) -> RegistryModel {
    match place {
        Arrival::Invoke { at, .. } => if selected[at as int].once {
            registry.claimed_once(selected[at as int].id)
        } else {
            registry
        },
        _ => registry,
    }
}

/// An arrival lies at or behind the position from which the dispatch went on.
pub proof fn lemma_arrival_ahead(
    selected: Seq<EventListener>,
    claimed: Set<u64>,
    at: int,
    passed: bool,
)
    requires
        0 <= at,
        selected.len() <= usize::MAX,
    ensures
        match arrival(selected, claimed, at, passed) {
            Arrival::Filter { at: place, filter } => at <= place < selected.len()
                && selected[place as int].filter == Some(filter),
            Arrival::Invoke { at: place, handler } => at <= place < selected.len()
                && selected[place as int].handler == handler && (selected[place as int].once
                ==> !claimed.contains(selected[place as int].id)),
            Arrival::End => true,
        },
    decreases selected.len() - at,
{
    if at < selected.len() {
        let listener = selected[at];
        if (passed || listener.filter is None) && listener.once && claimed.contains(listener.id) {
            lemma_arrival_ahead(selected, claimed, at + 1, false);
        }
    }
}

/// The error that an emitter gets for a failure of a listener or its filter.
pub open spec fn listener_error(cause: CoreError, r: CoreError) -> bool {
    match cause {
        CoreError::EventListener(_) => r == cause,
        _ => r matches CoreError::EventListener(message) && message@ == cause.message_text(),
    }
}

/// The error that an emitter gets for a failure of a listener or its filter.
pub fn listener_failure(cause: CoreError) -> (r: CoreError)
    ensures
        listener_error(cause, r),
{
    match cause {
        CoreError::EventListener(message) => CoreError::EventListener(message),
        other => CoreError::EventListener(other.message()),
    }
}

/// A payload or an answer: its type, and the handle under which the host keeps it.
#[derive(Clone, Copy)]
pub struct ErasedPayload {
    pub tag: TypeId,
    pub value: u64,
}

/// The value of a payload that has to be of type `expected`.
pub open spec fn typed_payload(
    event: &'static str,
    expected: TypeId,
    payload: ErasedPayload,
) -> Result<u64, CoreError> {
    if payload.tag == expected {
        Ok(payload.value)
    } else {
        Err(CoreError::EventTypeMismatch { event })
    }
}

/// The value of a payload that has to be of type `expected`.
pub fn unpack_payload(
    event: &'static str,
    expected: TypeId,
    payload: ErasedPayload,
) -> (r: Result<u64, CoreError>)
    ensures
        r == typed_payload(event, expected, payload),
{
    if same_tag(payload.tag, expected) {
        Ok(payload.value)
    } else {
        Err(CoreError::EventTypeMismatch { event })
    }
}

/// What the begin of a dispatch gives: the event name is bound and the audience is
/// selected, or the use of the name is refused.
pub open spec fn dispatch_begun(
    before: RegistryModel,
    layers: Seq<Layer>,
    event: &'static str,
    wanted: EventContract,
    after: RegistryModel,
    r: Result<Dispatch, CoreError>,
) -> bool {
    match events::contract_check(before.contracts, event, wanted) {
        Err(conflict) => {
            &&& r == Err::<Dispatch, CoreError>(conflict)
            &&& after == before
        },
        Ok(_) => {
            &&& after == (RegistryModel {
                contracts: events::contract_locked(before.contracts, event@, wanted),
                ..before
            })
            &&& if events::modes_agree(before.listeners, event@, wanted.mode) {
                &&& r matches Ok(dispatch)
                &&& dispatch.event == event
                &&& dispatch.selected@ == events::audience(before.listeners, event@, layers)
                &&& known(dispatch.selected@, after.next_id)
            } else {
                r == Err::<Dispatch, CoreError>(CoreError::EventModeMismatch { event })
            }
        },
    }
}

impl Registry {
    /// Begins a dispatch: binds the event name and selects the listeners.
    pub fn begin_dispatch(
        &mut self,
        layers: &Vec<Layer>,
        event: &'static str,
        wanted: EventContract,
    ) -> (r: Result<Dispatch, CoreError>)
        requires
            old(self).wf(),
        ensures
            final(self).wf(),
            dispatch_begun(old(self)@, layers@, event, wanted, final(self)@, r),
    {
        match self.lock_event_contract(event, wanted) {
            Err(error) => {
                return Err(error);
            },
            Ok(()) => {},
        }
        match self.select_matching_listeners(event, layers, wanted.mode) {
            Ok(selected) => Ok(Dispatch { event, selected }),
            Err(error) => Err(error),
        }
    }
}

impl Dispatch {
    /// Goes on at position `at`, where the filter let the payload through already if
    /// `passed` is set. A one-shot listener that is to be called is claimed here.
    pub fn advance(&self, registry: &mut Registry, at: usize, passed: bool) -> (r: Arrival)
        requires
            old(registry).wf(),
            known(self.selected@, old(registry)@.next_id),
        ensures
            final(registry).wf(),
            r == arrival(self.selected@, old(registry)@.claimed, at as int, passed),
            final(registry)@ == arrived(old(registry)@, self.selected@, r),
    {
        let mut place: usize = at;
        let mut open = passed;
        while place < self.selected.len()
            invariant
                registry.wf(),
                registry@ == old(registry)@,
                known(self.selected@, registry@.next_id),
                arrival(self.selected@, registry@.claimed, at as int, passed) == arrival(
                    self.selected@,
                    registry@.claimed,
                    place as int,
                    open,
                ),
            decreases self.selected@.len() - place,
        {
            let listener = self.selected[place];
            if let Some(filter) = listener.filter {
                if !open {
                    return Arrival::Filter { at: place, filter };
                }
            }
            if !listener.once || registry.claim_once(listener.id) {
                return Arrival::Invoke { at: place, handler: listener.handler };
            }
            place += 1;
            open = false;
        }
        Arrival::End
    }
}

/// What the host does next for an [`Emission`].
#[derive(Clone, Copy, Debug, PartialEq, Eq, Structural)]
pub enum EmissionStep {
    /// Ask this filter, then report with [`Emission::filtered`].
    Filter(u64),
    /// Call this handler, then report.
    Invoke(u64),
    /// The emission is over.
    Done,
}

/// An emission that goes from listener to listener.
pub struct Emission {
    dispatch: Dispatch,
    at: usize,
    passed: bool,
}

/// What an [`Emission`] holds.
pub struct EmissionModel {
    pub event: &'static str,
    pub selected: Seq<EventListener>,
    /// The position of the listener that is dealt with.
    pub at: int,
    /// Its filter let the payload through.
    pub passed: bool,
}

impl View for Emission {
    type V = EmissionModel;

    closed spec fn view(&self) -> EmissionModel {
        EmissionModel {
            event: self.dispatch.event,
            selected: self.dispatch.selected@,
            at: self.at as int,
            passed: self.passed,
        }
    }
}

impl EmissionModel {
    pub open spec fn ended(self) -> EmissionModel {
        EmissionModel { at: self.selected.len() as int, passed: false, ..self }
    }

    /// The emission after the filter of the listener that it stands at has answered: one
    /// that was let through is called next, another is skipped.
    pub open spec fn judged(self, through: bool) -> EmissionModel {
        if through {
            EmissionModel { passed: true, ..self }
        } else {
            EmissionModel { at: self.at + 1, passed: false, ..self }
        }
    }

    /// Where the emission arrives next.
    pub open spec fn next(self, claimed: Set<u64>) -> Arrival {
        arrival(self.selected, claimed, self.at, self.passed)
    }

    /// The emission after it arrived at `place`.
    pub open spec fn moved(self, place: Arrival) -> EmissionModel {
        match place {
            Arrival::Filter { at, .. } => EmissionModel { at: at as int, passed: false, ..self },
            Arrival::Invoke { at, .. } => EmissionModel { at: at + 1, passed: false, ..self },
            Arrival::End => self.ended(),
        }
    }
}

/// What the host does at a place.
pub open spec fn step_at(place: Arrival) -> EmissionStep {
    match place {
        Arrival::Filter { filter, .. } => EmissionStep::Filter(filter),
        Arrival::Invoke { handler, .. } => EmissionStep::Invoke(handler),
        Arrival::End => EmissionStep::Done,
    }
}

impl Emission {
    pub fn new(dispatch: Dispatch) -> (r: Emission)
        ensures
            r@ == (EmissionModel {
                event: dispatch.event,
                selected: dispatch.selected@,
                at: 0,
                passed: false,
            }),
    {
        Emission { dispatch, at: 0, passed: false }
    }

    /// The next action.
    pub fn next(&mut self, registry: &mut Registry) -> (r: EmissionStep)
        requires
            old(registry).wf(),
            known(old(self)@.selected, old(registry)@.next_id),
        ensures
            final(registry).wf(),
            r == step_at(old(self)@.next(old(registry)@.claimed)),
            final(self)@ == old(self)@.moved(old(self)@.next(old(registry)@.claimed)),
            final(registry)@ == arrived(
                old(registry)@,
                old(self)@.selected,
                old(self)@.next(old(registry)@.claimed),
            ),
    {
        proof {
            assert(self.dispatch.selected.len() <= usize::MAX);
            lemma_arrival_ahead(
                self@.selected,
                registry@.claimed,
                self@.at,
                self@.passed,
            );
        }
        match self.dispatch.advance(registry, self.at, self.passed) {
            Arrival::Filter { at, filter } => {
                self.at = at;
                self.passed = false;
                EmissionStep::Filter(filter)
            },
            Arrival::Invoke { at, handler } => {
                self.at = at + 1;
                self.passed = false;
                EmissionStep::Invoke(handler)
            },
            Arrival::End => {
                self.end();
                EmissionStep::Done
            },
        }
    }

    fn end(&mut self)
        ensures
            final(self)@ == old(self)@.ended(),
    {
        self.at = self.dispatch.selected.len();
        self.passed = false;
    }

    /// Reports what a filter said. A payload that is not let through skips the listener;
    /// a filter that fails ends the emission.
    pub fn filtered(&mut self, verdict: Result<bool, CoreError>) -> (r: Result<(), CoreError>)
        requires
            old(self)@.at < old(self)@.selected.len(),
        ensures
            match verdict {
                Ok(through) => {
                    &&& r is Ok
                    &&& final(self)@ == old(self)@.judged(through)
                    &&& final(self)@ == (if through {
                        EmissionModel { passed: true, ..old(self)@ }
                    } else {
                        EmissionModel { at: old(self)@.at + 1, passed: false, ..old(self)@ }
                    })
                },
                Err(cause) => {
                    &&& r matches Err(error) && listener_error(cause, error)
                    &&& final(self)@ == old(self)@.ended()
                },
            },
    {
        match verdict {
            Ok(true) => {
                self.passed = true;
                Ok(())
            },
            Ok(false) => {
                assert(self.dispatch.selected.len() <= usize::MAX);
                self.at = self.at + 1;
                self.passed = false;
                Ok(())
            },
            Err(cause) => {
                self.end();
                Err(listener_failure(cause))
            },
        }
    }

    /// Reports how a handler of an observed event ended. A failure ends the emission.
    pub fn handled(&mut self, outcome: Result<(), CoreError>) -> (r: Result<(), CoreError>)
        ensures
            match outcome {
                Ok(_) => r is Ok && final(self)@ == old(self)@,
                Err(cause) => {
                    &&& r matches Err(error) && listener_error(cause, error)
                    &&& final(self)@ == old(self)@.ended()
                },
            },
    {
        match outcome {
            Ok(()) => Ok(()),
            Err(cause) => {
                self.end();
                Err(listener_failure(cause))
            },
        }
    }

    /// Reports what a handler of a serial event answered. The first answer ends the
    /// emission, and so does a failure.
    pub fn answered(
        &mut self,
        expected: TypeId,
        outcome: Result<Option<ErasedPayload>, CoreError>,
    ) -> (r: Result<Option<u64>, CoreError>)
        ensures
            match outcome {
                Ok(None) => r == Ok::<Option<u64>, CoreError>(None) && final(self)@ == old(self)@,
                Ok(Some(answer)) => {
                    &&& r == (match typed_payload(old(self)@.event, expected, answer) {
                        Ok(value) => Ok(Some(value)),
                        Err(error) => Err(error),
                    })
                    &&& final(self)@ == old(self)@.ended()
                },
                Err(cause) => {
                    &&& r matches Err(error) && listener_error(cause, error)
                    &&& final(self)@ == old(self)@.ended()
                },
            },
    {
        match outcome {
            Ok(None) => Ok(None),
            Ok(Some(answer)) => {
                self.end();
                match unpack_payload(self.dispatch.event, expected, answer) {
                    Ok(value) => Ok(Some(value)),
                    Err(error) => Err(error),
                }
            },
            Err(cause) => {
                self.end();
                Err(listener_failure(cause))
            },
        }
    }
}

/// The rest of a waterfall behind a listener. It is used up by a call, so that a
/// listener passes the payload on once at most.
pub struct Next<T: Send + 'static> {
    position: usize,
    marker: PhantomData<T>,
}

impl<T: Send + 'static> Next<T> {
    pub closed spec fn position_spec(self) -> usize {
        self.position
    }

    /// The rest of a waterfall that begins at this position.
    pub fn new(position: usize) -> (r: Self)
        ensures
            r.position_spec() == position,
    {
        Next { position, marker: PhantomData }
    }

    /// Passes the payload on: the filter of the next listener is asked, or the next
    /// listener is called, or the payload comes out at the end.
    pub fn call(self, dispatch: &Dispatch, registry: &mut Registry) -> (r: Arrival)
        requires
            old(registry).wf(),
            known(dispatch.selected@, old(registry)@.next_id),
        ensures
            final(registry).wf(),
            r == arrival(
                dispatch.selected@,
                old(registry)@.claimed,
                self.position_spec() as int,
                false,
            ),
            final(registry)@ == arrived(old(registry)@, dispatch.selected@, r),
    {
        dispatch.advance(registry, self.position, false)
    }

    /// Goes on after the filter at position `at` gave its verdict on the payload.
    pub fn filtered(
        at: usize,
        verdict: Result<bool, CoreError>,
        dispatch: &Dispatch,
        registry: &mut Registry,
    ) -> (r: Result<Arrival, CoreError>)
        requires
            old(registry).wf(),
            at < dispatch.selected@.len(),
            known(dispatch.selected@, old(registry)@.next_id),
        ensures
            final(registry).wf(),
            match verdict {
                Ok(through) => {
                    let place = if through {
                        arrival(dispatch.selected@, old(registry)@.claimed, at as int, true)
                    } else {
                        arrival(dispatch.selected@, old(registry)@.claimed, at + 1, false)
                    };
                    &&& r == Ok::<Arrival, CoreError>(place)
                    &&& final(registry)@ == arrived(old(registry)@, dispatch.selected@, place)
                },
                Err(cause) => {
                    &&& r matches Err(error) && listener_error(cause, error)
                    &&& final(registry)@ == old(registry)@
                },
            },
    {
        match verdict {
            Ok(true) => Ok(dispatch.advance(registry, at, true)),
            Ok(false) => {
                assert(dispatch.selected.len() <= usize::MAX);
                Ok(dispatch.advance(registry, at + 1, false))
            },
            Err(cause) => Err(listener_failure(cause)),
        }
    }
}

/// A dispatch to all listeners at once. All filters are asked before any listener is
/// claimed or called.
pub struct ParallelDispatch {
    dispatch: Dispatch,
    at: usize,
    eligible: Vec<EventListener>,
}

/// What a [`ParallelDispatch`] holds.
pub struct ParallelModel {
    pub event: &'static str,
    pub selected: Seq<EventListener>,
    pub at: int,
    pub eligible: Seq<EventListener>,
}

impl View for ParallelDispatch {
    type V = ParallelModel;

    closed spec fn view(&self) -> ParallelModel {
        ParallelModel {
            event: self.dispatch.event,
            selected: self.dispatch.selected@,
            at: self.at as int,
            eligible: self.eligible@,
        }
    }
}

impl ParallelModel {
    pub open spec fn ok(self) -> bool {
        0 <= self.at <= self.selected.len() && self.selected.len() <= usize::MAX
    }

    /// The dispatch after the filter of the listener that it stands at has answered: one
    /// that was let through is eligible.
    pub open spec fn judged(self, through: bool) -> ParallelModel {
        ParallelModel {
            at: self.at + 1,
            eligible: if through {
                self.eligible.push(self.selected[self.at])
            } else {
                self.eligible
            },
            ..self
        }
    }

    /// The dispatch moved up to the next listener with a filter; listeners without one
    /// are eligible.
    pub open spec fn at_filter(self) -> ParallelModel
        decreases self.selected.len() - self.at,
    {
        if self.at < 0 || self.at >= self.selected.len() || self.selected[self.at].filter is Some {
            self
        } else {
            ParallelModel {
                at: self.at + 1,
                eligible: self.eligible.push(self.selected[self.at]),
                ..self
            }.at_filter()
        }
    }
}

/// The claims of a parallel dispatch: the registry after them and the handlers to call.
pub open spec fn claims(registry: RegistryModel, eligible: Seq<EventListener>) -> (
    RegistryModel,
    Seq<u64>,
)
    decreases eligible.len(),
{
    if eligible.len() == 0 {
        (registry, Seq::empty())
    } else {
        let front = claims(registry, eligible.drop_last());
        let listener = eligible.last();
        if !listener.once {
            (front.0, front.1.push(listener.handler))
        } else if front.0.claimed.contains(listener.id) {
            front
        } else {
            (front.0.claimed_once(listener.id), front.1.push(listener.handler))
        }
    }
}

/// The text of a handler's failure in a list of failures.
pub open spec fn failure_text(cause: CoreError) -> Seq<char> {
    match cause {
        CoreError::EventListener(message) => message@,
        _ => cause.message_text(),
    }
}

/// The texts of the failures among `outcomes`, in order.
pub open spec fn failure_texts(outcomes: Seq<Result<(), CoreError>>) -> Seq<Seq<char>>
    decreases outcomes.len(),
{
    if outcomes.len() == 0 {
        Seq::empty()
    } else {
        let front = failure_texts(outcomes.drop_last());
        match outcomes.last() {
            Ok(_) => front,
            Err(cause) => front.push(failure_text(cause)),
        }
    }
}

impl ParallelDispatch {
    pub closed spec fn wf(&self) -> bool {
        self.at <= self.dispatch.selected@.len()
    }

    pub proof fn lemma_wf(&self)
        requires
            self.wf(),
        ensures
            self@.ok(),
    {
        assert(self.dispatch.selected.len() <= usize::MAX);
    }

    pub fn new(dispatch: Dispatch) -> (r: ParallelDispatch)
        ensures
            r.wf(),
            r@ == (ParallelModel {
                event: dispatch.event,
                selected: dispatch.selected@,
                at: 0,
                eligible: Seq::empty(),
            }),
    {
        ParallelDispatch { dispatch, at: 0, eligible: Vec::new() }
    }

    /// The next filter to ask; `None` when all were asked.
    pub fn next_filter(&mut self) -> (r: Option<u64>)
        requires
            old(self).wf(),
        ensures
            final(self).wf(),
            final(self)@ == old(self)@.at_filter(),
            r == (if final(self)@.at < final(self)@.selected.len() {
                final(self)@.selected[final(self)@.at].filter
            } else {
                None
            }),
            r is None <==> final(self)@.at == final(self)@.selected.len(),
    {
        while self.at < self.dispatch.selected.len()
            invariant
                self.wf(),
                self@.at_filter() == old(self)@.at_filter(),
            decreases self.dispatch.selected@.len() - self.at,
        {
            let listener = self.dispatch.selected[self.at];
            if listener.filter.is_some() {
                return listener.filter;
            }
            self.eligible.push(listener);
            self.at = self.at + 1;
        }
        None
    }

    /// Reports what a filter said. A filter that fails ends the dispatch before any
    /// listener was called.
    pub fn filtered(&mut self, verdict: Result<bool, CoreError>) -> (r: Result<(), CoreError>)
        requires
            old(self).wf(),
            old(self)@.at < old(self)@.selected.len(),
        ensures
            final(self).wf(),
            match verdict {
                Ok(through) => {
                    &&& r is Ok
                    &&& final(self)@ == old(self)@.judged(through)
                    &&& final(self)@ == (ParallelModel {
                        at: old(self)@.at + 1,
                        eligible: if through {
                            old(self)@.eligible.push(old(self)@.selected[old(self)@.at])
                        } else {
                            old(self)@.eligible
                        },
                        ..old(self)@
                    })
                },
                Err(cause) => {
                    &&& r matches Err(error) && listener_error(cause, error)
                    &&& final(self)@ == (ParallelModel {
                        at: old(self)@.selected.len() as int,
                        eligible: Seq::empty(),
                        ..old(self)@
                    })
                },
            },
    {
        match verdict {
            Ok(through) => {
                if through {
                    self.eligible.push(self.dispatch.selected[self.at]);
                }
                assert(self.dispatch.selected.len() <= usize::MAX);
                self.at = self.at + 1;
                Ok(())
            },
            Err(cause) => {
                self.at = self.dispatch.selected.len();
                self.eligible.clear();
                Err(listener_failure(cause))
            },
        }
    }

    /// Claims the one-shot listeners and gives the handlers to call at once.
    pub fn claim(&self, registry: &mut Registry) -> (handlers: Vec<u64>)
        requires
            old(registry).wf(),
            known(self@.eligible, old(registry)@.next_id),
        ensures
            final(registry).wf(),
            (final(registry)@, handlers@) == claims(old(registry)@, self@.eligible),
    {
        let mut handlers: Vec<u64> = Vec::new();
        let mut i: usize = 0;
        while i < self.eligible.len()
            invariant
                registry.wf(),
                i <= self.eligible@.len(),
                known(self.eligible@, old(registry)@.next_id),
                registry@.next_id == old(registry)@.next_id,
                (registry@, handlers@) == claims(old(registry)@, self.eligible@.take(i as int)),
            decreases self.eligible@.len() - i,
        {
            assert(self.eligible@.take(i + 1).drop_last() =~= self.eligible@.take(i as int));
            let listener = self.eligible[i];
            if !listener.once || registry.claim_once(listener.id) {
                handlers.push(listener.handler);
            }
            i += 1;
        }
        assert(self.eligible@.take(i as int) =~= self.eligible@);
        handlers
    }

    /// The result of the dispatch once all handlers ended: their failures together.
    pub fn join(&self, outcomes: Vec<Result<(), CoreError>>) -> (r: Result<(), CoreError>)
        ensures
            match r {
                Ok(_) => failure_texts(outcomes@).len() == 0,
                Err(CoreError::ParallelDispatchFailed { event, errors }) => {
                    &&& event == self@.event
                    &&& failure_texts(outcomes@).len() > 0
                    &&& crate::text::texts(errors@) == failure_texts(outcomes@)
                },
                Err(_) => false,
            },
    {
        let mut errors: Vec<String> = Vec::new();
        let mut i: usize = 0;
        assert(crate::text::texts(errors@) =~= Seq::<Seq<char>>::empty());
        while i < outcomes.len()
            invariant
                i <= outcomes@.len(),
                crate::text::texts(errors@) == failure_texts(outcomes@.take(i as int)),
            decreases outcomes@.len() - i,
        {
            assert(outcomes@.take(i + 1).drop_last() =~= outcomes@.take(i as int));
            let ghost before = errors@;
            if let Err(cause) = &outcomes[i] {
                let message = match cause {
                    CoreError::EventListener(message) => message.clone(),
                    other => other.message(),
                };
                errors.push(message);
                assert(crate::text::texts(errors@) =~= crate::text::texts(before).push(message@));
            }
            i += 1;
        }
        assert(outcomes@.take(i as int) =~= outcomes@);
        if errors.len() == 0 {
            Ok(())
        } else {
            assert(crate::text::texts(errors@).len() == errors@.len());
            Err(CoreError::ParallelDispatchFailed { event: self.dispatch.event, errors })
        }
    }
}

} // verus!
