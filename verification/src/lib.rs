//! A line-oriented text search: given a query and the contents of a text,
//! find the lines that contain the query, either exactly or ignoring case.
//!
//! A text is modelled as a sequence of characters ([`text`]). What each
//! search finds is defined over that model, and the searches are proved to
//! return exactly that ([`search`], [`selection`], [`theorems`]). They rest
//! on three string functions of the standard library, whose contracts are
//! assumed and kept in one place ([`strings`]).
//!
//! Reading the environment, reading the file and printing are left to the
//! caller: [`Config::new`] is handed a way to ask the environment, and
//! [`run`] is handed the contents of the file and hands back the lines to
//! print.

pub mod config;
pub mod search;
pub mod selection;
pub mod strings;
pub mod text;
pub mod theorems;

pub use config::{run, Config, ConfigError, CASE_INSENSITIVE};
pub use search::{search, search_case_insensitive};
