//! A mock-data generation engine: named value generators (literal pools,
//! numeric and date ranges, string joins, weighted alternations and
//! context-dependent nested decision trees) are registered under unique
//! identifiers and then evaluated row by row, producing values with
//! controlled distributions and cross-column dependencies.

pub mod ast;
pub mod bindings;
pub mod column;
pub mod context;
pub mod convert;
pub mod deps;
pub mod doc;
pub mod doc_ast;
pub mod dates;
pub mod eval;
pub mod engine;
pub mod evaluate;
pub mod errors;
pub mod rng;
pub mod util;
pub mod values;
pub mod weights;

pub use bindings::{Bindings, DefGen, GeneratorSet};
pub use column::{ColumnGenerator, SelectedDefGen};
pub use context::Context;
pub use dates::{day_number_from_ymd, format_day_number};
pub use engine::{
    AlternationGen, AssignArm, CumulWeightedGen, DateRangeGen, GeneratorEnum, IdentifierGen,
    IntegerRangeGen, JoinGen, LiteralGen, MatchArm, MatchConditions, MatchExpr, MaybeWeighted,
    NestedGenerator, RealRangeGen, StringRangeGen, ValueTree, WeightedT,
};
pub use errors::{Error, EvaluationError, MockadocError, MockagenError};
pub use eval::Scope;
pub use evaluate::evaluate_mockagen;
pub use util::{transpose, vec_first_and_rest, FirstAndRest, TransposeError};
pub use values::{OutValue, REAL_UNIT};
pub use weights::WEIGHT_TOTAL;
