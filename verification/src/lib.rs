//! Lifecycle orchestration for small, disposable validator networks used in
//! integration testing.
//!
//! The crate centres on a backend-agnostic lifecycle contract: a
//! [`net::LineraNetConfig`] describes the desired topology (how many
//! validators, how many shards each, which wire protocol) and
//! [`net::LineraNet`] is the handle to a running network, offering readiness
//! probing, per-shard start and stop, validator removal and full teardown.
//! The contract is stated over a mathematical model of the bookkeeping
//! ([`model::NetModel`]), so that every operation says exactly how the
//! recorded state of the network changes, also when a backend command fails.

pub mod errors;
pub mod model;
pub mod naming;
pub mod net;
pub mod protocol;
pub mod runtime_error;
pub mod scripted;

pub use errors::OrchestratorError;
pub use model::NetModel;
pub use model::NetState;
pub use net::ClientWrapper;
pub use net::LineraNet;
pub use net::LineraNetConfig;
pub use protocol::Network;
pub use runtime_error::RuntimeError;
pub use scripted::ScriptedNet;
pub use scripted::ScriptedNetConfig;
