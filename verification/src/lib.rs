//! Health-check aggregation: the decisions of a service that runs a catalog of
//! checks, keeps their latest results, debounces flapping statuses and renders
//! health views, metrics layouts and UI models from that state.

pub mod checks;
pub mod cli;
pub mod config;
pub mod healthz;
pub mod jsonpath;
pub mod metrics;
pub mod notifier;
pub mod order;
pub mod scheduler;
pub mod state;
pub mod strmap;
pub mod text;
pub mod timefmt;
pub mod ui;
