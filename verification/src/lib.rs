//! Genetic search over feature-extraction hyperparameters for a
//! currency-rate forecasting model, together with the surrounding
//! training orchestration: genome encoding and operators, candidate
//! scoring, generational convergence, and the two-slot model records.
//!
//! All fractional quantities (mean squared errors, breeding rates,
//! similarity distances) are carried as fixed-point integers so that
//! every rule about them can be stated and proved exactly.

pub mod api_models;
pub mod config;
pub mod dataset;
pub mod digest;
pub mod error;
pub mod ga;
pub mod math;
pub mod model;
pub mod record;
pub mod rng;
pub mod training;
