//! Readers for the pages of IMDb.

mod dom;
pub mod top250;
