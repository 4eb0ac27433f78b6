//! Derivation of views and look-up of configuration.

use super::provide;
use super::{Registry, RegistryModel};
use crate::config::ConfigId;
use crate::error::CoreError;
use crate::isolation::IsolationLabel;
use crate::service::ServiceId;
use crate::tag::same_tag;
use crate::view;
use crate::view::{copy_layers, lookup_config, ConfigBinding, IsolationBinding, Layer};
use std::any::TypeId;
use vstd::prelude::*;

verus! {

/// What a look-up of `config` at the type `tag` gives in a view.
pub open spec fn config_value(
    types: Map<Seq<char>, TypeId>,
    layers: Seq<Layer>,
    config: ConfigId,
    tag: TypeId,
) -> Result<u64, CoreError> {
    if !provide::type_admitted(types, config@, tag) {
        Err(CoreError::ConfigTypeMismatch { config })
    } else {
        match view::nearest_config(layers, config@) {
            None => Err(CoreError::ConfigUnavailable { config }),
            Some(binding) => if binding.tag == tag {
                Ok(binding.value)
            } else {
                Err(CoreError::ConfigTypeMismatch { config })
            },
        }
    }
}

impl RegistryModel {
    /// The registry after an identifier was allocated.
    pub open spec fn allocated(self) -> RegistryModel {
        RegistryModel { next_id: (self.next_id + 1) as u64, ..self }
    }

    /// The registry after a label was allocated.
    pub open spec fn labelled(self) -> RegistryModel {
        RegistryModel {
            next_label: (self.next_label + 1) as u64,
            isolations: self.isolations.push(self.next_label),
            ..self
        }
    }
}

impl Registry {
    /// A label that was not allocated before.
    pub fn allocate_isolation_label(&mut self) -> (r: IsolationLabel)
        requires
            old(self).wf(),
            old(self)@.next_label < u64::MAX,
        ensures
            final(self).wf(),
            r.id_spec() == old(self)@.next_label,
            r.token_spec() == old(self)@.identity,
            final(self)@ == old(self)@.labelled(),
    {
        let ghost before = self@;
        let label = self.token.allocate_label();
        self.isolations.push(label.id());
        assert(self@ =~= before.labelled());
        label
    }

    /// The outermost layer of a runtime.
    pub fn root_view(&mut self) -> (r: Vec<Layer>)
        requires
            old(self).wf(),
            old(self)@.next_id < u64::MAX,
        ensures
            final(self).wf(),
            final(self)@ == old(self)@.allocated(),
            r@ == view::extended(Seq::empty(), old(self)@.next_id),
    {
        let id = self.allocate_id();
        let mut layers: Vec<Layer> = Vec::new();
        layers.push(Layer { id, domain: id, isolation: None, config: None });
        layers
    }

    /// Derives a view with a service domain of its own.
    pub fn extend_view(&mut self, layers: &Vec<Layer>) -> (r: Vec<Layer>)
        requires
            old(self).wf(),
            old(self)@.next_id < u64::MAX,
        ensures
            final(self).wf(),
            final(self)@ == old(self)@.allocated(),
            r@ == view::extended(layers@, old(self)@.next_id),
    {
        let id = self.allocate_id();
        let mut derived = copy_layers(layers);
        derived.push(Layer { id, domain: id, isolation: None, config: None });
        derived
    }

    /// Derives a view in which `service` is looked up under `label`.
    pub fn isolate_view(
        &mut self,
        layers: &Vec<Layer>,
        service: ServiceId,
        label: IsolationLabel,
    ) -> (r: Result<Vec<Layer>, CoreError>)
        requires
            old(self).wf(),
            old(self)@.next_id < u64::MAX,
            layers@.len() > 0,
        ensures
            final(self).wf(),
            if label.token_spec() != old(self)@.identity {
                &&& r == Err::<Vec<Layer>, CoreError>(CoreError::IsolationRuntimeMismatch)
                &&& final(self)@ == old(self)@
            } else {
                &&& r matches Ok(derived) && derived@ == view::isolated(
                    layers@,
                    old(self)@.next_id,
                    IsolationBinding { service, label: label.id_spec() },
                )
                &&& final(self)@ == old(self)@.allocated()
            },
    {
        match label.ensure_runtime(&self.token) {
            Err(error) => {
                return Err(error);
            },
            Ok(()) => {},
        }
        let id = self.allocate_id();
        let mut derived = copy_layers(layers);
        derived.push(
            Layer {
                id,
                domain: layers[layers.len() - 1].domain,
                isolation: Some(IsolationBinding { service, label: label.id() }),
                config: None,
            },
        );
        Ok(derived)
    }

    /// Derives a view in which a configuration entry is overridden. The first use of a
    /// name decides the type of its payload.
    pub fn intercept_view(
        &mut self,
        layers: &Vec<Layer>,
        binding: ConfigBinding,
    ) -> (r: Result<Vec<Layer>, CoreError>)
        requires
            old(self).wf(),
            old(self)@.next_id < u64::MAX,
            layers@.len() > 0,
        ensures
            final(self).wf(),
            if !provide::type_admitted(old(self)@.config_types, binding.config@, binding.tag) {
                &&& r == Err::<Vec<Layer>, CoreError>(
                    CoreError::ConfigKeyTypeConflict { config: binding.config },
                )
                &&& final(self)@ == old(self)@
            } else {
                &&& r matches Ok(derived) && derived@ == view::intercepted(
                    layers@,
                    old(self)@.next_id,
                    binding,
                )
                &&& final(self)@ == (RegistryModel {
                    config_types: provide::type_locked(
                        old(self)@.config_types,
                        binding.config@,
                        binding.tag,
                    ),
                    ..old(self)@.allocated()
                })
            },
    {
        match self.config_types.get(binding.config.as_str()) {
            Some(bound) => {
                if !same_tag(bound, binding.tag) {
                    return Err(CoreError::ConfigKeyTypeConflict { config: binding.config });
                }
            },
            None => {
                self.config_types.bind(binding.config.as_str(), binding.tag);
            },
        }
        let id = self.allocate_id();
        let mut derived = copy_layers(layers);
        derived.push(
            Layer {
                id,
                domain: layers[layers.len() - 1].domain,
                isolation: None,
                config: Some(binding),
            },
        );
        Ok(derived)
    }

    /// The innermost value of a configuration entry.
    pub fn resolve_config(
        &self,
        layers: &Vec<Layer>,
        config: ConfigId,
        tag: TypeId,
    ) -> (r: Result<u64, CoreError>)
        requires
            self.wf(),
        ensures
            r == config_value(self@.config_types, layers@, config, tag),
    {
        if let Some(bound) = self.config_types.get(config.as_str()) {
            if !same_tag(bound, tag) {
                return Err(CoreError::ConfigTypeMismatch { config });
            }
        }
        match lookup_config(layers, config) {
            None => Err(CoreError::ConfigUnavailable { config }),
            Some(binding) => if same_tag(binding.tag, tag) {
                Ok(binding.value)
            } else {
                Err(CoreError::ConfigTypeMismatch { config })
            },
        }
    }
}

} // verus!
