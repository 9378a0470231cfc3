//! Pricing rules of the CVM cockpit that do not depend on floating-point
//! arithmetic: mode and assumption-key selection, cash-flow schedule layout,
//! KPI verdicts, Excel formula text, cell references, compliance tallies,
//! number-text normalisation, version records and upload naming.

pub mod text;
pub mod engine;
pub mod export;
pub mod api;
pub mod paths;
