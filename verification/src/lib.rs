//! The decision logic of the Greentic operator: locating binaries, its
//! configuration and defaults, the capability catalog and event delivery,
//! the `/deployments/*` trust boundary and routing, the persistence split of
//! setup answers, secret values and wizard locale fallback.
//!
//! File system, network, environment and clock access stay with the caller;
//! every function here works on values handed in and is verified.

pub mod text;
pub mod paths;
pub mod bin_resolver;
pub mod string_map;
pub mod config;
pub mod capability_runtime;
pub mod capability_events;
pub mod deployments;
pub mod qa_persist;
pub mod secret_value;
pub mod wizard_i18n;
pub mod demo_types;
