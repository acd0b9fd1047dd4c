//! A configurable HTTP mock engine: request matching, transforms, configuration
//! checks, runtime state and terminal-view state, with their contracts.

pub mod text;
pub mod json;
pub mod strmap;
pub mod pairs;
pub mod body;
pub mod request;
pub mod response;
pub mod metadata;
pub mod forward;
pub mod decision;
pub mod matcher;
pub mod transform;
pub mod error;
pub mod engine;
pub mod validate;
pub mod config;
pub mod http;
pub mod runtime;
pub mod cli;
pub mod tls;
