//! Persistence core of a personal activity tracker: labels, activities, the
//! association between them, and the textual encodings of identifiers and
//! timestamps.

pub mod db;
pub mod error;
pub mod from_rows;
pub mod ident;
pub mod laws;
pub mod models;
pub mod my_date_format;
pub mod my_option_date_format;
pub mod my_uuid_format;
pub mod statements;
pub mod text;
