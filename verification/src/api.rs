//! Request rules of the HTTP interface; the handlers live with the program.

pub mod products;
pub mod upload;
