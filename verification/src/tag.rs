//! Run-time identity of payload types.

use std::any::TypeId;
use vstd::prelude::*;

verus! {

#[verifier::external_type_specification]
#[verifier::external_body]
pub struct ExTypeId(TypeId);

/// `TypeId::of::<T>()`. Nothing is stated of the identifier: types that differ only in a
/// lifetime can have different ones, and contracts do not tell such types apart.
#[verifier::external_body]
pub(crate) fn type_tag<T: 'static>() -> (r: TypeId) {
    TypeId::of::<T>()
}

/// `TypeId::eq`: two identifiers compare equal exactly when they are the same.
#[verifier::external_body]
pub(crate) fn same_tag(a: TypeId, b: TypeId) -> (r: bool)
    ensures
        r == (a == b),
{
    a == b
}

/// Compares optional type identifiers.
pub(crate) fn same_optional_tag(a: Option<TypeId>, b: Option<TypeId>) -> (r: bool)
    ensures
        r == (a == b),
{
    match (a, b) {
        (Some(x), Some(y)) => same_tag(x, y),
        (None, None) => true,
        _ => false,
    }
}

} // verus!
