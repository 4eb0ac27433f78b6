//! [`ServiceKey`] / [`ServiceId`]: identity of services.

use crate::error::CoreError;
use crate::names::NameTable;
use crate::tag::{same_tag, type_tag};
use crate::text::same_text;
use std::any::TypeId;
use std::marker::PhantomData;
use vstd::prelude::*;

verus! {

/// The stable name of a service.
#[derive(Clone, Copy, PartialEq, Eq, Hash, PartialOrd, Ord, Debug)]
pub struct ServiceId(&'static str);

impl View for ServiceId {
    type V = Seq<char>;

    closed spec fn view(&self) -> Seq<char> {
        self.0@
    }
}

impl ServiceId {
    pub fn as_str(self) -> (r: &'static str)
        ensures
            r@ == self@,
    {
        self.0
    }

    pub(crate) fn same(self, other: ServiceId) -> (r: bool)
        ensures
            r == (self@ == other@),
    {
        same_text(self.0, other.0)
    }
}

/// A service name bound to the Rust type of its payload.
pub struct ServiceKey<T: Send + Sync + 'static> {
    id: ServiceId,
    tag: TypeId,
    marker: PhantomData<T>,
}

impl<T: Send + Sync + 'static> Copy for ServiceKey<T> {

}

impl<T: Send + Sync + 'static> Clone for ServiceKey<T> {
    fn clone(&self) -> (r: Self)
        ensures
            r == *self,
    {
        *self
    }
}

impl<T: Send + Sync + 'static> ServiceKey<T> {
    /// The name of the service.
    pub closed spec fn id_spec(self) -> ServiceId {
        self.id
    }

    /// The identifier of the payload type.
    pub closed spec fn tag_spec(self) -> TypeId {
        self.tag
    }

    pub fn new(id: &'static str) -> (r: Self)
        ensures
            r.id_spec()@ == id@,
    {
        ServiceKey { id: ServiceId(id), tag: type_tag::<T>(), marker: PhantomData }
    }

    pub fn id(&self) -> (r: ServiceId)
        ensures
            r == self.id_spec(),
    {
        self.id
    }

    pub fn type_id(&self) -> (r: TypeId)
        ensures
            r == self.tag_spec(),
    {
        self.tag
    }
}

/// A service object: its type, and the handle under which the host keeps it.
#[derive(Clone, Copy)]
pub struct ErasedService {
    pub tag: TypeId,
    pub value: u64,
}

/// The services that an injection callback was started with.
pub struct Services {
    values: NameTable<ErasedService>,
}

impl View for Services {
    type V = Map<Seq<char>, ErasedService>;

    closed spec fn view(&self) -> Map<Seq<char>, ErasedService> {
        self.values@
    }
}

impl Clone for Services {
    fn clone(&self) -> (r: Self)
        ensures
            r@ == self@,
    {
        Services { values: self.values.clone() }
    }
}

/// What a typed look-up of `service` gives when `found` is registered under its name.
pub open spec fn typed(found: Option<ErasedService>, service: ServiceId, tag: TypeId) -> Result<
    u64,
    CoreError,
> {
    match found {
        None => Err(CoreError::ServiceUnavailable { service }),
        Some(object) => if object.tag == tag {
            Ok(object.value)
        } else {
            Err(CoreError::ServiceTypeMismatch { service })
        },
    }
}

/// Checks the type of a service object that was found under the name `service`.
pub(crate) fn typed_value(
    found: Option<ErasedService>,
    service: ServiceId,
    tag: TypeId,
) -> (r: Result<u64, CoreError>)
    ensures
        r == typed(found, service, tag),
{
    match found {
        None => Err(CoreError::ServiceUnavailable { service }),
        Some(object) => {
            if same_tag(object.tag, tag) {
                Ok(object.value)
            } else {
                Err(CoreError::ServiceTypeMismatch { service })
            }
        },
    }
}

impl Services {
    pub(crate) fn new() -> (r: Services)
        ensures
            r@ == Map::<Seq<char>, ErasedService>::empty(),
    {
        Services { values: NameTable::new() }
    }

    pub(crate) fn insert(&mut self, service: ServiceId, object: ErasedService)
        ensures
            final(self)@ == old(self)@.insert(service@, object),
    {
        self.values.bind(service.as_str(), object);
    }

    /// The service object of a key.
    pub fn get<T: Send + Sync + 'static>(&self, key: ServiceKey<T>) -> (r: Result<u64, CoreError>)
        ensures
            r == typed(
                if self@.contains_key(key.id_spec()@) {
                    Some(self@[key.id_spec()@])
                } else {
                    None
                },
                key.id_spec(),
                key.tag_spec(),
            ),
    {
        typed_value(self.values.get(key.id().as_str()), key.id(), key.type_id())
    }
}

} // verus!
