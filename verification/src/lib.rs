//! Telemetry core of a reverse proxy for JSON-RPC calls.
//!
//! The proxy forwards each call to one upstream node and keeps, for every
//! client key, two counters and a bounded history of the calls made. This
//! crate holds what the proxy decides and what it remembers; it reads no
//! socket and takes no lock. The server around it does both, and hands the
//! registry to this crate only for the two short sections that bracket the
//! upstream call.
//!
//! One request passes through [`proxy::begin_call`], which decodes the body;
//! [`proxy::admit_call`], which counts the request; the upstream call itself,
//! which posts [`proxy::forward_payload`] and whose outcome
//! [`proxy::forward_result`] sums up; and [`proxy::complete_call`], which
//! records the attempt and says what to answer. Each step consumes what the
//! step before it made, so they cannot be taken out of order.
//! [`proxy::web3`] is the whole of it in one piece.
//!
//! - [`json`]: JSON documents as tagged values, read and printed by
//!   serde_json.
//! - [`request`]: the JSON-RPC envelope parser.
//! - [`call`]: the record of one forward attempt.
//! - [`registry`]: the per-key registry and its bounded histories.
//! - [`proxy`]: the decisions around the upstream call.
//! - [`api`]: the read interface over the registry.
//! - [`info`]: the server's reports about itself.
//! - [`options`]: the configuration.
//! - [`error`]: the errors.
//! - [`laws`]: what holds of the registry and the proxy for every run.
//! - [`model`]: a helper for the mathematical models.

pub mod api;
pub mod call;
pub mod error;
pub mod info;
pub mod json;
pub mod laws;
pub mod model;
pub mod options;
pub mod proxy;
pub mod registry;
pub mod request;

pub use crate::api::{get_calls, get_methods};
pub use crate::call::{CallInfo, MethodInfo};
pub use crate::error::{ErrorBag, Web3ProxyError};
pub use crate::info::{config, greet};
pub use crate::options::CliOptions;
pub use crate::proxy::web3;
pub use crate::registry::{KeyData, SharedData};
pub use crate::request::{parse_request, ParsedRequest};
