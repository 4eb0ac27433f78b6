//! Event keys, listen options and listeners.
//!
//! An event name is bound to one dispatch mode, one payload type and, for serial
//! events, one answer type; the first use of the name decides.

use crate::tag::type_tag;
use std::any::TypeId;
use std::marker::PhantomData;
use vstd::prelude::*;

pub mod dispatch;

verus! {

/// Options of a listener. A filter stays with the host under its handle.
pub struct ListenOptions<T: Send + Sync + 'static> {
    pub once: bool,
    pub prepend: bool,
    pub global: bool,
    pub filter: Option<u64>,
    pub marker: PhantomData<T>,
}

impl<T: Send + Sync + 'static> Copy for ListenOptions<T> {

}

impl<T: Send + Sync + 'static> Clone for ListenOptions<T> {
    fn clone(&self) -> (r: Self)
        ensures
            r == *self,
    {
        *self
    }
}

impl<T: Send + Sync + 'static> Default for ListenOptions<T> {
    fn default() -> (r: Self)
        ensures
            !r.once && !r.prepend && !r.global && r.filter is None,
    {
        Self::new()
    }
}

impl<T: Send + Sync + 'static> ListenOptions<T> {
    /// A local listener that stays, is appended and takes every payload.
    pub fn new() -> (r: Self)
        ensures
            !r.once && !r.prepend && !r.global && r.filter is None,
    {
        ListenOptions {
            once: false,
            prepend: false,
            global: false,
            filter: None,
            marker: PhantomData,
        }
    }

    /// The listener runs once at most.
    pub fn once(self) -> (r: Self)
        ensures
            r == (ListenOptions::<T> { once: true, ..self }),
    {
        let mut options = self;
        options.once = true;
        options
    }

    /// The listener comes before those that are registered already.
    pub fn prepend(self) -> (r: Self)
        ensures
            r == (ListenOptions::<T> { prepend: true, ..self }),
    {
        let mut options = self;
        options.prepend = true;
        options
    }

    /// The listener hears events from every context.
    pub fn global(self) -> (r: Self)
        ensures
            r == (ListenOptions::<T> { global: true, ..self }),
    {
        let mut options = self;
        options.global = true;
        options
    }

    /// The listener takes the payloads that this filter lets through.
    pub fn filter(self, filter: u64) -> (r: Self)
        ensures
            r == (ListenOptions::<T> { filter: Some(filter), ..self }),
    {
        let mut options = self;
        options.filter = Some(filter);
        options
    }

    /// What a listener with these options is registered as.
    pub open spec fn request(
        self,
        event: &'static str,
        contract: EventContract,
        handler: u64,
    ) -> ListenRequest {
        ListenRequest {
            event,
            contract,
            handler,
            once: self.once,
            prepend: self.prepend,
            global: self.global,
            filter: self.filter,
        }
    }

    pub(crate) fn to_request(
        self,
        event: &'static str,
        contract: EventContract,
        handler: u64,
    ) -> (r: ListenRequest)
        ensures
            r == self.request(event, contract, handler),
    {
        ListenRequest {
            event,
            contract,
            handler,
            once: self.once,
            prepend: self.prepend,
            global: self.global,
            filter: self.filter,
        }
    }
}

/// An event that listeners observe one after the other.
pub struct EventKey<T: Send + Sync + 'static> {
    id: &'static str,
    tag: TypeId,
    marker: PhantomData<T>,
}

impl<T: Send + Sync + 'static> Copy for EventKey<T> {

}

impl<T: Send + Sync + 'static> Clone for EventKey<T> {
    fn clone(&self) -> (r: Self)
        ensures
            r == *self,
    {
        *self
    }
}

impl<T: Send + Sync + 'static> EventKey<T> {
    pub closed spec fn id_spec(self) -> &'static str {
        self.id
    }

    pub closed spec fn tag_spec(self) -> TypeId {
        self.tag
    }

    /// What the event name is bound to by the use of this key.
    pub open spec fn contract_spec(self) -> EventContract {
        EventContract { mode: EventMode::Observe, payload: self.tag_spec(), answer: None }
    }

    pub fn new(id: &'static str) -> (r: Self)
        ensures
            r.id_spec() == id,
    {
        EventKey { id, tag: type_tag::<T>(), marker: PhantomData }
    }

    pub fn id(&self) -> (r: &'static str)
        ensures
            r == self.id_spec(),
    {
        self.id
    }

    pub fn type_id(&self) -> (r: TypeId)
        ensures
            r == self.tag_spec(),
    {
        self.tag
    }

    pub(crate) fn contract(&self) -> (r: EventContract)
        ensures
            r == self.contract_spec(),
    {
        EventContract { mode: EventMode::Observe, payload: self.type_id(), answer: None }
    }
}

/// An event whose payload passes through its listeners.
pub struct WaterfallKey<T: Send + Sync + 'static> {
    id: &'static str,
    tag: TypeId,
    marker: PhantomData<T>,
}

impl<T: Send + Sync + 'static> Copy for WaterfallKey<T> {

}

impl<T: Send + Sync + 'static> Clone for WaterfallKey<T> {
    fn clone(&self) -> (r: Self)
        ensures
            r == *self,
    {
        *self
    }
}

impl<T: Send + Sync + 'static> WaterfallKey<T> {
    pub closed spec fn id_spec(self) -> &'static str {
        self.id
    }

    pub closed spec fn tag_spec(self) -> TypeId {
        self.tag
    }

    /// What the event name is bound to by the use of this key.
    pub open spec fn contract_spec(self) -> EventContract {
        EventContract { mode: EventMode::Waterfall, payload: self.tag_spec(), answer: None }
    }

    pub fn new(id: &'static str) -> (r: Self)
        ensures
            r.id_spec() == id,
    {
        WaterfallKey { id, tag: type_tag::<T>(), marker: PhantomData }
    }

    pub fn id(&self) -> (r: &'static str)
        ensures
            r == self.id_spec(),
    {
        self.id
    }

    pub fn type_id(&self) -> (r: TypeId)
        ensures
            r == self.tag_spec(),
    {
        self.tag
    }

    pub(crate) fn contract(&self) -> (r: EventContract)
        ensures
            r == self.contract_spec(),
    {
        EventContract { mode: EventMode::Waterfall, payload: self.type_id(), answer: None }
    }
}

/// An event that all listeners handle at once.
pub struct ParallelKey<T: Send + Sync + 'static> {
    id: &'static str,
    tag: TypeId,
    marker: PhantomData<T>,
}

impl<T: Send + Sync + 'static> Copy for ParallelKey<T> {

}

impl<T: Send + Sync + 'static> Clone for ParallelKey<T> {
    fn clone(&self) -> (r: Self)
        ensures
            r == *self,
    {
        *self
    }
}

impl<T: Send + Sync + 'static> ParallelKey<T> {
    pub closed spec fn id_spec(self) -> &'static str {
        self.id
    }

    pub closed spec fn tag_spec(self) -> TypeId {
        self.tag
    }

    /// What the event name is bound to by the use of this key.
    pub open spec fn contract_spec(self) -> EventContract {
        EventContract { mode: EventMode::Parallel, payload: self.tag_spec(), answer: None }
    }

    pub fn new(id: &'static str) -> (r: Self)
        ensures
            r.id_spec() == id,
    {
        ParallelKey { id, tag: type_tag::<T>(), marker: PhantomData }
    }

    pub fn id(&self) -> (r: &'static str)
        ensures
            r == self.id_spec(),
    {
        self.id
    }

    pub fn type_id(&self) -> (r: TypeId)
        ensures
            r == self.tag_spec(),
    {
        self.tag
    }

    pub(crate) fn contract(&self) -> (r: EventContract)
        ensures
            r == self.contract_spec(),
    {
        EventContract { mode: EventMode::Parallel, payload: self.type_id(), answer: None }
    }
}

/// An event that listeners are asked for an answer, one after the other.
pub struct SerialKey<T: Send + Sync + 'static, R: Send + Sync + 'static> {
    id: &'static str,
    payload_tag: TypeId,
    answer_tag: TypeId,
    marker: PhantomData<(T, R)>,
}

impl<T: Send + Sync + 'static, R: Send + Sync + 'static> Copy for SerialKey<T, R> {

}

impl<T: Send + Sync + 'static, R: Send + Sync + 'static> Clone for SerialKey<T, R> {
    fn clone(&self) -> (r: Self)
        ensures
            r == *self,
    {
        *self
    }
}

impl<T: Send + Sync + 'static, R: Send + Sync + 'static> SerialKey<T, R> {
    pub closed spec fn id_spec(self) -> &'static str {
        self.id
    }

    pub closed spec fn payload_spec(self) -> TypeId {
        self.payload_tag
    }

    pub closed spec fn answer_spec(self) -> TypeId {
        self.answer_tag
    }

    /// What the event name is bound to by the use of this key.
    pub open spec fn contract_spec(self) -> EventContract {
        EventContract {
            mode: EventMode::Serial,
            payload: self.payload_spec(),
            answer: Some(self.answer_spec()),
        }
    }

    pub fn new(id: &'static str) -> (r: Self)
        ensures
            r.id_spec() == id,
    {
        SerialKey {
            id,
            payload_tag: type_tag::<T>(),
            answer_tag: type_tag::<R>(),
            marker: PhantomData,
        }
    }

    pub fn id(&self) -> (r: &'static str)
        ensures
            r == self.id_spec(),
    {
        self.id
    }

    pub fn payload_type_id(&self) -> (r: TypeId)
        ensures
            r == self.payload_spec(),
    {
        self.payload_tag
    }

    pub fn answer_type_id(&self) -> (r: TypeId)
        ensures
            r == self.answer_spec(),
    {
        self.answer_tag
    }

    pub(crate) fn contract(&self) -> (r: EventContract)
        ensures
            r == self.contract_spec(),
    {
        EventContract {
            mode: EventMode::Serial,
            payload: self.payload_type_id(),
            answer: Some(self.answer_type_id()),
        }
    }
}

/// How an event is dispatched.
#[derive(Clone, Copy, PartialEq, Eq, Debug, Structural)]
pub enum EventMode {
    Observe,
    Waterfall,
    Serial,
    Parallel,
}

/// What an event name is bound to.
#[derive(Clone, Copy)]
pub struct EventContract {
    pub mode: EventMode,
    pub payload: TypeId,
    pub answer: Option<TypeId>,
}

/// A registered listener. The handler and the filter stay with the host.
#[derive(Clone, Copy)]
pub struct EventListener {
    pub id: u64,
    pub event: &'static str,
    /// The innermost layer of the registering view.
    pub layer: u64,
    pub mode: EventMode,
    pub handler: u64,
    pub once: bool,
    pub prepend: bool,
    pub global: bool,
    pub filter: Option<u64>,
}

/// What is registered as a listener.
#[derive(Clone, Copy)]
pub struct ListenRequest {
    pub event: &'static str,
    pub contract: EventContract,
    pub handler: u64,
    pub once: bool,
    pub prepend: bool,
    pub global: bool,
    pub filter: Option<u64>,
}

impl ListenRequest {
    /// The request for a listener without options.
    pub open spec fn plain(
        event: &'static str,
        contract: EventContract,
        handler: u64,
    ) -> ListenRequest {
        ListenRequest {
            event,
            contract,
            handler,
            once: false,
            prepend: false,
            global: false,
            filter: None,
        }
    }

    /// The listener that the request becomes.
    pub open spec fn listener(self, id: u64, layer: u64) -> EventListener {
        EventListener {
            id,
            event: self.event,
            layer,
            mode: self.contract.mode,
            handler: self.handler,
            once: self.once,
            prepend: self.prepend,
            global: self.global,
            filter: self.filter,
        }
    }
}

} // verus!
