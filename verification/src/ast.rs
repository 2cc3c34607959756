//! The typed definition tree that the evaluation engine consumes.
//!
//! A surrounding program's parser produces values of these types; the
//! engine turns them into registered generators.  Weights are fixed-point
//! units of `WEIGHT_TOTAL` (the whole set), dates are day numbers, and
//! real literals are fixed-point millionths, so every field is a plain
//! value.

use vstd::prelude::*;
use crate::weights::WEIGHT_TOTAL;

verus! {

/// End of input.
#[derive(Debug)]
pub struct EOI;

/// One horizontal indentation step in the source notation.
#[derive(Debug)]
pub struct Tab;

/// A name that is bound to exactly one generator.
#[derive(Debug)]
pub struct Identifier(pub String);

/// A signed integer literal.
#[derive(Debug)]
pub struct IntegerLiteral(pub i64);

/// A real literal, held as a fixed-point count of millionths.
#[derive(Debug)]
pub struct RealLiteral(pub i64);

/// A calendar date literal, held as a proleptic Gregorian day number
/// (day 1 is January 1 of year 1).
#[derive(Debug)]
pub struct DateLiteral(pub i64);

/// The text of a string literal.
#[derive(Debug)]
pub struct StringContent(pub String);

/// A quoted string literal.
#[derive(Debug)]
pub struct StringLiteral(pub StringContent);

/// An explicit probability weight in fixed-point units of the whole.
#[derive(Debug, Clone, Copy)]
pub struct Weight(pub u64);

impl Weight {
    /// The weight in units, capped at the whole candidate set.
    pub fn get(&self) -> (r: u64)
        ensures
            r as int == crate::weights::capped(self.0),
    {
        if self.0 > WEIGHT_TOTAL {
            WEIGHT_TOTAL
        } else {
            self.0
        }
    }
}

/// A date range: both inclusive calendar bounds.
#[derive(Debug)]
pub struct TimestampDateValue(pub DateLiteral, pub DateLiteral);

/// A literal value.
#[derive(Debug)]
pub struct LiteralValue(pub StringLiteral);

/// An integer range; an absent upper bound means the largest integer.
#[derive(Debug)]
pub struct IntegerValue(pub IntegerLiteral, pub Option<IntegerLiteral>);

/// A random-string specification: inclusive bounds on the length.
#[derive(Debug)]
pub struct StringValue(pub IntegerLiteral, pub IntegerLiteral);

/// A real range: both inclusive fixed-point bounds.
#[derive(Debug)]
pub struct RealValue(pub RealLiteral, pub RealLiteral);

/// An independent leaf value specification.
#[derive(Debug)]
pub enum PrimitiveValue {
    TimestampDate(TimestampDateValue),
    Literal(LiteralValue),
    Integer(IntegerValue),
    String(StringValue),
    Real(RealValue),
}

/// A reference to another identifier's generated value.
#[derive(Debug)]
pub struct IdentifierValue(pub Identifier);

/// A concatenation of several sub-values.
#[derive(Debug)]
pub struct JoinValue(pub Vec<Value>);

/// The wildcard match expression.
#[derive(Debug)]
pub struct AnyValue;

/// A value built from other values.
#[derive(Debug)]
pub enum HigherOrderValue {
    JoinValue(JoinValue),
    IdentifierValue(IdentifierValue),
}

/// Any value specification.
#[derive(Debug)]
pub enum Value {
    HigherOrder(HigherOrderValue),
    Primitive(PrimitiveValue),
}

/// One candidate of a value set, with an optional explicit weight.
#[derive(Debug)]
pub struct WeightedValue(pub Option<Weight>, pub Value);

/// A set of weighted candidate values.
#[derive(Debug)]
pub struct ValueSet(pub Vec<WeightedValue>);

/// Either a single value or a set of candidates.
#[derive(Debug)]
pub enum Values {
    Value(Value),
    ValueSet(ValueSet),
}

/// A weighted group of values inside an assign clause.
#[derive(Debug)]
pub struct WeightedValues(pub Option<Weight>, pub Values);

/// A single-valued definition: one identifier bound to one value.
#[derive(Debug)]
pub struct SingleValDef(pub Identifier, pub Value);

/// A multi-valued definition: one identifier bound to a candidate set.
#[derive(Debug)]
pub struct MultiValDef(pub Identifier, pub Vec<Tab>, pub ValueSet);

/// A definition of a single identifier.
#[derive(Debug)]
pub enum SingleDefinition {
    SingleVal(SingleValDef),
    MultiVal(MultiValDef),
}

/// A literal match expression.
#[derive(Debug)]
pub enum MatchExpr {
    LiteralValue(LiteralValue),
}

/// Several match expressions joined as alternatives.
#[derive(Debug)]
pub struct MatcherSet(pub Vec<MatchExpr>);

/// The matchers of one match clause.
#[derive(Debug)]
pub enum Matchers {
    MatchExpr(MatchExpr),
    MatcherSet(MatcherSet),
}

/// One arm of a match level: matchers on the current identifier and the
/// clauses for the remaining identifiers.
#[derive(Debug)]
pub struct MatchClause(pub Vec<Tab>, pub Matchers, pub NestedClauses);

/// The arms of a match level.
#[derive(Debug)]
pub struct MatchClauses(pub Vec<MatchClause>);

/// The fallback clauses taken when no match arm applies.
#[derive(Debug)]
pub struct WildcardClause(pub Vec<Tab>, pub Box<NestedClauses>);

/// Match arms together with a wildcard fallback.
#[derive(Debug)]
pub struct MatchClausesWithWildcard(pub MatchClauses, pub WildcardClause);

/// One arm of an assign level: a weighted value group and optional
/// sub-assignments for the next identifier.
#[derive(Debug)]
pub struct AssignClause(pub Vec<Tab>, pub WeightedValues, pub Option<AssignClauses>);

/// The arms of an assign level.
#[derive(Debug)]
pub struct AssignClauses(pub Vec<AssignClause>);

/// The clause tree of a nested definition.
#[derive(Debug)]
pub enum NestedClauses {
    MatchClausesWithWildcard(MatchClausesWithWildcard),
    MatchClauses(MatchClauses),
    AssignClauses(AssignClauses),
}

/// A list of identifiers.
#[derive(Debug)]
pub struct Names(pub Vec<Identifier>);

/// The identifiers a nested definition branches on.
#[derive(Debug)]
pub struct UsingIds(pub Names);

/// The identifiers a nested definition binds.
#[derive(Debug)]
pub struct AssignIds(pub Names);

/// A nested definition: optional branch identifiers, bound identifiers,
/// and the clause tree.
#[derive(Debug)]
pub struct NestedDefinition(pub Option<UsingIds>, pub AssignIds, pub NestedClauses);

/// Any definition.
#[derive(Debug)]
pub enum Definition {
    Single(SingleDefinition),
    Nested(NestedDefinition),
}

/// A file inclusion directive; resolved before evaluation.
#[derive(Debug)]
pub struct IncludeStatement;

/// The inclusion directives at the head of a source file.
#[derive(Debug)]
pub struct IncludeStatements(pub Vec<IncludeStatement>);

/// A whole parsed source file.
#[derive(Debug)]
pub struct Body(pub Option<IncludeStatements>, pub Vec<Definition>, pub EOI);

} // verus!
