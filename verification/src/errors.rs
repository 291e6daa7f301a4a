//! Structured errors for the front end, the normalization passes, and
//! the emitter.

use vstd::prelude::*;

verus! {

/// Errors raised before and during type checking.
#[derive(Debug)]
pub enum FrontendError {
    /// A unification, occurs-check or annotation failure.
    TypeError(String),
    /// Malformed source text.
    ParseError(String),
    /// A free identifier.
    UnboundVariable(String),
}

/// Errors raised by the normalization passes.
#[derive(Debug)]
pub enum CoreError {
    /// A conversion step observed a malformed input.
    ConversionError(String),
}

/// Errors raised during C emission.
#[derive(Debug)]
pub enum BackendError {
    /// An unresolved variable, unsupported operator, or unexpected form
    /// during lowering.
    ImpError(String),
}

} // verus!
