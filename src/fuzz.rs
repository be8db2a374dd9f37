//! An entry point for fuzzing the expansion with arbitrary bytes.

use vstd::prelude::*;
use vstd::string::StringExecFns;

use crate::context::MapEvaluationContext;
use crate::encoding::utf8_text;
use crate::evaluator::evaluate_macro;
use crate::variable::MacroVariable;

verus! {

/// Expands `data`, when it is UTF-8, with `s` bound to `sender` and `r` to
/// `a.b.c.d`, and drops the result. Any input returns normally.
pub fn fuzz_evaluate_macro(data: &[u8]) {
    if let Some(text) = utf8_text(data) {
        let mut ctx = MapEvaluationContext::new();
        ctx.insert(MacroVariable::Sender, <String as StringExecFns>::from_str("sender"));
        ctx.insert(
            MacroVariable::DomainNameOfHostPerformingTheCheck,
            <String as StringExecFns>::from_str("a.b.c.d"),
        );
        let _ = evaluate_macro(&ctx, text);
    }
}

} // verus!
