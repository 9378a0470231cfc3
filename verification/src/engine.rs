//! The pricing engine's rules.

pub mod types;
pub mod economics;
pub mod formula;
pub mod data;
pub mod pricing;
pub mod versioning;
pub mod churn;
