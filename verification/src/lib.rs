//! Engine of a TCP connectivity prober: port-set parsing, service
//! identification, per-port outcome classification, the bounded-concurrency
//! scan schedule and the layout of its report, each with a machine-checked
//! contract. The library decides and computes; connecting, reading and
//! printing are left to whoever drives it.

pub mod banner;
pub mod layout;
pub mod number;
pub mod outcome;
pub mod ports;
pub mod probe;
pub mod render;
pub mod report;
pub mod scan;
pub mod service;
pub mod summary;
pub mod text;
