//! Runtime control of log verbosity: an ordered store of filter directives
//! that is recompiled into one filter and installed into the live logging
//! pipeline after every edit, together with a small Fibonacci service that
//! produces log traffic.

pub mod directive;
pub mod filter;
pub mod logging_api;
pub mod service_runner;
pub mod store;
pub mod subscriber;
