//! Derived context views.
//!
//! A view is a chain of layers, the root layer first. Every derivation adds one layer:
//! `extend` opens a new service domain, `isolate` hides one service behind a label and
//! `intercept` overrides one configuration entry; the latter two keep the service
//! domain of the layer below.

use crate::config::ConfigId;
use crate::service::ServiceId;
use std::any::TypeId;
use vstd::prelude::*;

verus! {

/// A service that is looked up under a label instead of by position.
#[derive(Clone, Copy)]
pub struct IsolationBinding {
    pub service: ServiceId,
    pub label: u64,
}

/// A configuration entry; the payload stays with the host under `value`.
#[derive(Clone, Copy)]
pub struct ConfigBinding {
    pub config: ConfigId,
    pub tag: TypeId,
    pub value: u64,
}

/// One layer of a view.
#[derive(Clone, Copy)]
pub struct Layer {
    pub id: u64,
    /// The service domain: the identifier of the layer that opened it.
    pub domain: u64,
    pub isolation: Option<IsolationBinding>,
    pub config: Option<ConfigBinding>,
}

/// The label under which `service` is looked up: that of the innermost layer that
/// isolates it.
pub open spec fn nearest_isolation(layers: Seq<Layer>, service: Seq<char>) -> Option<u64>
    decreases layers.len(),
{
    if layers.len() == 0 {
        None
    } else {
        match layers.last().isolation {
            Some(binding) if binding.service@ == service => Some(binding.label),
            _ => nearest_isolation(layers.drop_last(), service),
        }
    }
}

/// The innermost binding of `config`.
pub open spec fn nearest_config(layers: Seq<Layer>, config: Seq<char>) -> Option<ConfigBinding>
    decreases layers.len(),
{
    if layers.len() == 0 {
        None
    } else {
        match layers.last().config {
            Some(binding) if binding.config@ == config => Some(binding),
            _ => nearest_config(layers.drop_last(), config),
        }
    }
}

/// The chain of a view of a registry whose next identifier is `next`.
pub open spec fn view_ok(layers: Seq<Layer>, next: u64) -> bool {
    &&& layers.len() > 0
    &&& forall|i: int|
        0 <= i < layers.len() ==> (#[trigger] layers[i]).id < next && layers[i].domain < next
}

/// The view with a new service domain.
pub open spec fn extended(layers: Seq<Layer>, id: u64) -> Seq<Layer> {
    layers.push(Layer { id, domain: id, isolation: None, config: None })
}

/// The view with a service isolated.
pub open spec fn isolated(layers: Seq<Layer>, id: u64, binding: IsolationBinding) -> Seq<Layer> {
    layers.push(
        Layer { id, domain: layers.last().domain, isolation: Some(binding), config: None },
    )
}

/// The view with a configuration entry overridden.
pub open spec fn intercepted(layers: Seq<Layer>, id: u64, binding: ConfigBinding) -> Seq<Layer> {
    layers.push(
        Layer { id, domain: layers.last().domain, isolation: None, config: Some(binding) },
    )
}

/// The layer `id` belongs to the chain: the view is that layer's or derived from it.
pub open spec fn derives_from(layers: Seq<Layer>, id: u64) -> bool {
    exists|i: int| 0 <= i < layers.len() && (#[trigger] layers[i]).id == id
}

/// The label under which `service` is looked up.
pub fn lookup_isolation(layers: &Vec<Layer>, service: ServiceId) -> (r: Option<u64>)
    ensures
        r == nearest_isolation(layers@, service@),
{
    let mut i: usize = layers.len();
    assert(layers@.take(i as int) =~= layers@);
    while i > 0
        invariant
            i <= layers@.len(),
            nearest_isolation(layers@, service@) == nearest_isolation(
                layers@.take(i as int),
                service@,
            ),
        decreases i,
    {
        i -= 1;
        assert(layers@.take(i + 1).drop_last() =~= layers@.take(i as int));
        assert(layers@.take(i + 1).last() == layers@[i as int]);
        if let Some(binding) = layers[i].isolation {
            if binding.service.same(service) {
                return Some(binding.label);
            }
        }
    }
    None
}

/// The innermost binding of `config`.
pub fn lookup_config(layers: &Vec<Layer>, config: ConfigId) -> (r: Option<ConfigBinding>)
    ensures
        r == nearest_config(layers@, config@),
{
    let mut i: usize = layers.len();
    assert(layers@.take(i as int) =~= layers@);
    while i > 0
        invariant
            i <= layers@.len(),
            nearest_config(layers@, config@) == nearest_config(layers@.take(i as int), config@),
        decreases i,
    {
        i -= 1;
        assert(layers@.take(i + 1).drop_last() =~= layers@.take(i as int));
        assert(layers@.take(i + 1).last() == layers@[i as int]);
        if let Some(binding) = layers[i].config {
            if binding.config.same(config) {
                return Some(binding);
            }
        }
    }
    None
}

/// Whether the layer `id` belongs to the chain.
pub fn is_derived_from(layers: &Vec<Layer>, id: u64) -> (r: bool)
    ensures
        r == derives_from(layers@, id),
{
    let mut i: usize = 0;
    while i < layers.len()
        invariant
            i <= layers@.len(),
            forall|j: int| 0 <= j < i ==> (#[trigger] layers@[j]).id != id,
        decreases layers@.len() - i,
    {
        if layers[i].id == id {
            assert(layers@[i as int].id == id);
            return true;
        }
        i += 1;
    }
    false
}

/// A copy of a chain.
pub(crate) fn copy_layers(layers: &Vec<Layer>) -> (r: Vec<Layer>)
    ensures
        r@ == layers@,
{
    let r = layers.clone();
    assert(r@ =~= layers@);
    r
}

} // verus!
