//! Errors of the mock engine.

use vstd::prelude::*;
use crate::text::concat;

verus! {

/// Errors that can occur in the mock engine.
#[derive(Debug, Clone, PartialEq)]
pub enum EngineError {
    /// Configuration or rule compilation failed.
    CompileError(String),
    /// Rule matching failed.
    MatchError(String),
    /// A transform failed.
    TransformError(String),
    /// The request or response body type is not supported.
    UnsupportedBodyType(String),
}

/// Model of an engine error.
pub enum EErrModel {
    CompileError(Seq<char>),
    MatchError(Seq<char>),
    TransformError(Seq<char>),
    UnsupportedBodyType(Seq<char>),
}

impl View for EngineError {
    type V = EErrModel;

    open spec fn view(&self) -> EErrModel {
        match self {
            EngineError::CompileError(s) => EErrModel::CompileError(s@),
            EngineError::MatchError(s) => EErrModel::MatchError(s@),
            EngineError::TransformError(s) => EErrModel::TransformError(s@),
            EngineError::UnsupportedBodyType(s) => EErrModel::UnsupportedBodyType(s@),
        }
    }
}

/// The text of an engine error.
pub open spec fn engine_error_message(e: EErrModel) -> Seq<char> {
    match e {
        EErrModel::CompileError(s) => "compile error: "@ + s,
        EErrModel::MatchError(s) => "match error: "@ + s,
        EErrModel::TransformError(s) => "transform error: "@ + s,
        EErrModel::UnsupportedBodyType(s) => "unsupported body type: "@ + s,
    }
}

impl EngineError {
    /// The text of the error.
    pub fn message(&self) -> (r: String)
        ensures
            r@ == engine_error_message(self@),
    {
        match self {
            EngineError::CompileError(s) => concat("compile error: ", s.as_str()),
            EngineError::MatchError(s) => concat("match error: ", s.as_str()),
            EngineError::TransformError(s) => concat("transform error: ", s.as_str()),
            EngineError::UnsupportedBodyType(s) => concat("unsupported body type: ", s.as_str()),
        }
    }
}

} // verus!
