//! An in-memory question-and-answer record service: a keyed record store,
//! query-parameter validation for pagination, request handlers, and the
//! error taxonomy with its boundary translator.

pub mod answer;
pub mod error;
pub mod pagination;
pub mod parse;
pub mod question;
pub mod routes;
pub mod store;
