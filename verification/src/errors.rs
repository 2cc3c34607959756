//! Errors raised while registering generator definitions and while
//! evaluating them row by row.

use vstd::prelude::*;

verus! {

/// Everything that can go wrong when building a registry of generators or
/// when driving them to produce a row of values.
///
/// Registration-time errors (`DuplicateIdentifier`, `EmptyValueSet`,
/// `InvalidMatchExprCast`) abort the construction of the registry entirely;
/// evaluation-time errors abort the affected row or request but leave the
/// registry usable for further rows.
#[derive(Debug)]
pub enum EvaluationError {
    /// An identifier was registered twice.
    DuplicateIdentifier(String),
    /// A referenced identifier has no registered generator.
    UnboundIdentifier(String),
    /// Several requested column identifiers could not be resolved; all of
    /// them are collected here rather than failing fast on the first one.
    MissingIdentifiers(Vec<String>),
    /// A weighted value could not be restated as a match expression.
    InvalidMatchExprCast,
    /// A match node's scrutinee satisfied no arm and no wildcard exists.
    NoMatchForValue,
    /// A read descended deeper than the decision tree provides.
    NoChildrenForTree,
    /// A read landed on a match node where an assign node was required.
    ExpectedValueFoundMatcher,
    /// An identifier's generator transitively requests the identifier's own
    /// value within the same row.
    CyclicReference(String),
    /// A weighted alternation was built from zero candidates.
    EmptyValueSet,
}

impl EvaluationError {
    /// A short human-readable description of the error.
    pub fn message(&self) -> (r: String)
        ensures r@.len() > 0,
    {
        let s: &str = match self {
            EvaluationError::DuplicateIdentifier(_) => "duplicate identifier",
            EvaluationError::UnboundIdentifier(_) => "unbound identifier",
            EvaluationError::MissingIdentifiers(_) => "missing identifiers",
            EvaluationError::InvalidMatchExprCast => "cannot cast value to match expression",
            EvaluationError::NoMatchForValue => "no match for value",
            EvaluationError::NoChildrenForTree => "no children for tree",
            EvaluationError::ExpectedValueFoundMatcher => "expected value, found matcher",
            EvaluationError::CyclicReference(_) => "cyclic identifier reference",
            EvaluationError::EmptyValueSet => "value set has no candidates",
        };
        proof {
            reveal_strlit("duplicate identifier");
            reveal_strlit("unbound identifier");
            reveal_strlit("missing identifiers");
            reveal_strlit("cannot cast value to match expression");
            reveal_strlit("no match for value");
            reveal_strlit("no children for tree");
            reveal_strlit("expected value, found matcher");
            reveal_strlit("cyclic identifier reference");
            reveal_strlit("value set has no candidates");
        }
        s.to_owned()
    }
}

/// The top-level error of generator-definition processing.
#[derive(Debug)]
pub enum MockagenError {
    EvaluationError(EvaluationError),
}

impl MockagenError {
    /// A short human-readable description of the error.
    pub fn message(&self) -> (r: String)
        ensures
            r@.len() > 0,
    {
        match self {
            MockagenError::EvaluationError(e) => e.message(),
        }
    }
}

/// The top-level error of document processing.
#[derive(Debug)]
pub enum MockadocError {
    EvaluationError(crate::doc::EvaluationError),
}

/// Any error of the library, from either language's processing.
#[derive(Debug)]
pub enum Error {
    MockagenError(MockagenError),
    MockadocError(MockadocError),
}

} // verus!
