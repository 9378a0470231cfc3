//! Export rules: the formula text and row layout of the live-formula
//! economics workbook, and the record of a cell difference.

pub mod writer;
pub mod compare;
