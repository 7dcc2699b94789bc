//! Building blocks of a host stress generator with live monitoring: worker
//! decision logic, a rate and sliding-window statistics engine, metric
//! parsing, chart layout and the sampling life cycle, all on integer values.

pub mod args;
pub mod chart;
pub mod config;
pub mod dashboard;
pub mod lifecycle;
pub mod numfmt;
pub mod record;
pub mod render;
pub mod ring;
pub mod rng;
pub mod sampler;
pub mod sources;
pub mod stats;
pub mod text;
pub mod tokens;
pub mod workers;
