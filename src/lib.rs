//! Expansion of SPF macro strings (RFC 7208, section 7).
//!
//! A macro string such as `%{ir}.%{v}._spf.%{d2}` is expanded against an
//! [`EvaluationContext`], which supplies the values of the macro variables.
//! The module [`grammar`] states what every string expands to; the functions
//! here are proved to compute exactly that, and [`laws`] collects properties
//! that follow.

pub mod context;
pub mod encoding;
mod evaluator;
mod fuzz;
pub mod grammar;
pub mod laws;
mod record;
pub mod variable;

pub use context::{EvaluationContext, MacroEvaluationError, MapEvaluationContext, VecEvaluationContext};
pub use evaluator::evaluate_macro;
pub use fuzz::fuzz_evaluate_macro;
pub use record::{
    DualCidrLength, ExternalResourceIdentifier, SpfAction, SpfDirective, SpfDirectiveKind, SpfMechanism,
    SpfParseError, SpfRecord,
};
pub use variable::{AnyMacroVariable, MacroVariable};
