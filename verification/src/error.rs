//! The error vocabulary shared by the library and the app.
use vstd::prelude::*;
use crate::text::owned;

verus! {

/// App-wide error. An I/O failure carries the path and the system's description of it.
#[derive(Debug, PartialEq, Eq)]
pub enum AppError {
    Config(String),
    Io { path: String, source: String },
    Engine(String),
    Unknown(String),
}

/// The plain-language message of an error, as the frontend shows it.
pub open spec fn error_message(e: AppError) -> Seq<char> {
    match e {
        AppError::Config(m) => "config error: "@ + m@,
        AppError::Io { path, source } => "io error at "@ + path@ + ": "@ + source@,
        AppError::Engine(m) => "engine error: "@ + m@,
        AppError::Unknown(m) => "unknown: "@ + m@,
    }
}

/// An engine error whose detail is exactly `m`.
pub open spec fn is_engine_error(e: AppError, m: Seq<char>) -> bool {
    e matches AppError::Engine(s) && s@ == m
}

impl AppError {
    /// The plain-language message of this error.
    pub fn message(&self) -> (r: String)
        ensures
            r@ == error_message(*self),
    {
        match self {
            AppError::Config(m) => owned("config error: ").concat(m.as_str()),
            AppError::Io { path, source } => owned("io error at ").concat(path.as_str()).concat(
                ": ",
            ).concat(source.as_str()),
            AppError::Engine(m) => owned("engine error: ").concat(m.as_str()),
            AppError::Unknown(m) => owned("unknown: ").concat(m.as_str()),
        }
    }
}

impl Clone for AppError {
    fn clone(&self) -> (r: Self)
        ensures
            r == *self,
    {
        match self {
            AppError::Config(m) => AppError::Config(m.clone()),
            AppError::Io { path, source } => AppError::Io {
                path: path.clone(),
                source: source.clone(),
            },
            AppError::Engine(m) => AppError::Engine(m.clone()),
            AppError::Unknown(m) => AppError::Unknown(m.clone()),
        }
    }
}

/// An engine error with the given detail.
pub fn engine_error(m: &str) -> (e: AppError)
    ensures
        is_engine_error(e, m@),
{
    AppError::Engine(owned(m))
}

} // verus!
