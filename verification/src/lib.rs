//! A verified core for a "top"-style monitor of web-server access logs.
//!
//! The library compiles a log-format template into a line matcher, extracts
//! typed field records from matched lines, translates subcommands into a
//! field schema and aggregate queries, feeds an embedded relational store,
//! and renders query results as tabular text.  A small state machine drives
//! the continuous (tail) mode; the surrounding binary only performs I/O.

use vstd::prelude::*;

pub mod config;
pub mod extract;
pub mod format;
pub mod query;
pub mod render;
pub mod store;
pub mod tailer;
pub mod text;

verus! {

/// Everything that can go wrong in a run, by the stage that caused it.
#[derive(Debug)]
pub enum AppError {
    /// The requested configuration is contradictory or unusable.
    Config(String),
    /// A file could not be opened or read.
    Io(String),
    /// The format template did not compile into a valid matcher.
    Compile(String),
    /// The embedded store rejected a schema, insert, or query.
    Store(String),
    /// A query result value was not valid text where text was required.
    Encoding,
}

/// The human-readable message carried by an error.
pub open spec fn error_message_spec(e: AppError) -> Seq<char> {
    match e {
        AppError::Config(m) => m@,
        AppError::Io(m) => m@,
        AppError::Compile(m) => m@,
        AppError::Store(m) => m@,
        AppError::Encoding => "query result is not valid UTF-8"@,
    }
}

impl AppError {
    /// Returns the message describing this error.
    pub fn message(&self) -> (r: String)
        ensures
            r@ == error_message_spec(*self),
    {
        match self {
            AppError::Config(m) => m.clone(),
            AppError::Io(m) => m.clone(),
            AppError::Compile(m) => m.clone(),
            AppError::Store(m) => m.clone(),
            AppError::Encoding => "query result is not valid UTF-8".to_owned(),
        }
    }
}

} // verus!
