//! The core of an in-process reactive runtime.
//!
//! A [`Runtime`] holds services, injections, plugins, events, effects and a log. Code works
//! through a [`Context`]: a view (what it sees of services, configuration and events)
//! together with a scope (what it owns). When the providers of a service change, the
//! consumers built on them are rebuilt; when a scope is disposed, all that was registered in
//! it is withdrawn.
//!
//! The library holds the state and takes the decisions. A host holds what only it can hold:
//! service objects, callbacks, plugins and tasks, each under a handle. The host performs what
//! the library asks for and reports the outcome: see [`Disposal`](effect::disposal::Disposal)
//! and [`Coordinator`](effect::dispose::Coordinator) for the release of scopes,
//! [`Registry::take_batch`](registry::Registry::take_batch) for the scheduler,
//! [`Registry::begin_activation`](registry::Registry::begin_activation) for plugins, and
//! [`event::dispatch`] for events.
//!
//! What holds of the library as a whole is stated and proved in [`laws`].

pub mod completion;
pub mod config;
pub mod context;
pub mod diagnostics;
pub mod effect;
pub mod error;
pub mod event;
pub mod fiber;
pub mod injection;
pub mod isolation;
pub mod laws;
pub mod logger;
pub mod names;
pub mod plugin;
pub mod provider;
pub mod registry;
pub mod runtime;
pub mod service;
pub mod table;
pub mod tag;
pub mod text;
pub mod view;

pub use config::{ConfigId, ConfigKey};
pub use context::effect_context::{EffectContext, EffectHandle};
pub use context::handles::{Fiber, InjectionHandle, ProviderHandle, Unsubscribe};
pub use context::Context;
pub use diagnostics::{
    EffectSnapshot, FiberStateChange, FiberStateSnapshot, InjectFiberSnapshot, IsolationSnapshot,
    PluginFiberSnapshot, PluginRegistryFiberSnapshot, PluginRegistrySnapshot, ProviderSnapshot,
    RuntimeSnapshot, UnavailableDependencySnapshot,
};
pub use error::{format_panic_message, CoreError};
pub use event::dispatch::Next;
pub use event::{EventKey, ListenOptions, ParallelKey, SerialKey, WaterfallKey};
pub use fiber::FiberState;
pub use injection::InjectionState;
pub use isolation::IsolationLabel;
pub use logger::{
    logger_config_key, LogExporter, LogLevel, LogRecord, Logger, LoggerConfig, LoggerService,
    LOG_BUFFER_CAPACITY,
};
pub use plugin::PluginKey;
pub use provider::ProviderAvailability;
pub use runtime::Runtime;
pub use service::{ServiceId, ServiceKey, Services};
