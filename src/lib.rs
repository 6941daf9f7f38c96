//! Structured records for the ranked movie chart of IMDb, read from the chart page's markup.
//!
//! [`parser::top250::extract`] turns the page into movies, one per row of the chart's table, in
//! the page's order; rows that cannot be read are skipped and reported. Fetching the page is left
//! to the caller: [`IMDb`] holds the settings of the request and the headers they make.

pub mod imdb;
pub mod language;
pub mod models;
pub mod parser;
pub mod text;

pub use crate::imdb::IMDb;
pub use crate::language::Language;
pub use crate::models::Movie;
