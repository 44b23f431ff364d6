//! A provider-orchestrating agent runtime: the decisions of its step loop,
//! its retry policy, its token accounting and its tool registry, verified.
pub mod json;
pub mod model;
pub mod text;
pub mod shapes;
pub mod retry;
pub mod agent;
pub mod http;
pub mod rpc;
pub mod sandbox;
pub mod config;
