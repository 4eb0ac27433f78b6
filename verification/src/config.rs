//! [`ConfigKey`] / [`ConfigId`]: identity of overridable configuration.

use crate::tag::type_tag;
use crate::text::same_text;
use std::any::TypeId;
use std::marker::PhantomData;
use vstd::prelude::*;

verus! {

/// The stable name of a configuration entry.
#[derive(Clone, Copy, PartialEq, Eq, Hash, PartialOrd, Ord, Debug)]
pub struct ConfigId(&'static str);

impl View for ConfigId {
    type V = Seq<char>;

    closed spec fn view(&self) -> Seq<char> {
        self.0@
    }
}

impl ConfigId {
    pub fn as_str(self) -> (r: &'static str)
        ensures
            r@ == self@,
    {
        self.0
    }

    pub(crate) fn same(self, other: ConfigId) -> (r: bool)
        ensures
            r == (self@ == other@),
    {
        same_text(self.0, other.0)
    }
}

/// A configuration name bound to the Rust type of its payload.
pub struct ConfigKey<T: Send + Sync + 'static> {
    id: ConfigId,
    tag: TypeId,
    marker: PhantomData<T>,
}

impl<T: Send + Sync + 'static> Copy for ConfigKey<T> {

}

impl<T: Send + Sync + 'static> Clone for ConfigKey<T> {
    fn clone(&self) -> (r: Self)
        ensures
            r == *self,
    {
        *self
    }
}

impl<T: Send + Sync + 'static> ConfigKey<T> {
    /// The name of the entry.
    pub closed spec fn id_spec(self) -> ConfigId {
        self.id
    }

    /// The identifier of the payload type.
    pub closed spec fn tag_spec(self) -> TypeId {
        self.tag
    }

    pub fn new(id: &'static str) -> (r: Self)
        ensures
            r.id_spec()@ == id@,
    {
        ConfigKey { id: ConfigId(id), tag: type_tag::<T>(), marker: PhantomData }
    }

    pub fn id(&self) -> (r: ConfigId)
        ensures
            r == self.id_spec(),
    {
        self.id
    }

    pub fn type_id(&self) -> (r: TypeId)
        ensures
            r == self.tag_spec(),
    {
        self.tag
    }
}

} // verus!
