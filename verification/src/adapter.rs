//! The expression adapter: the trusted boundary to the outside evaluator
//! that turns a function text into a callable real function of `x`.
//! Everything the rest of the library knows about a committed function is
//! what the contracts here state over the two named results `fn_accepted`
//! and `eval_micro`.

use vstd::prelude::*;

verus! {

/// The characters meval's tokenizer skips as whitespace.
pub open spec fn is_blank_char(c: char) -> bool {
    c == ' ' || c == '\t' || c == '\r' || c == '\n'
}

/// A non-empty text of nothing but whitespace.  meval's tokenizer does not
/// return normally on such a text, so the parse wrapper excludes it and
/// callers reject it beforehand.
pub open spec fn blank_text(s: Seq<char>) -> bool {
    s.len() > 0 && forall|i: int| 0 <= i < s.len() ==> is_blank_char(#[trigger] s[i])
}

/// Test a buffer for the whitespace-only shape the adapter refuses.
pub fn is_blank(text: &Vec<char>) -> (r: bool)
    ensures
        r == blank_text(text@),
{
    if text.len() == 0 {
        return false;
    }
    let n = text.len();
    let mut i: usize = 0;
    while i < n
        invariant
            i <= n,
            n == text@.len(),
            forall|j: int| 0 <= j < i ==> is_blank_char(#[trigger] text@[j]),
        decreases n - i,
    {
        let c = text[i];
        if !(c == ' ' || c == '\t' || c == '\r' || c == '\n') {
            return false;
        }
        i += 1;
    }
    true
}

/// Whether the adapter accepts a function text: it parses and `x` is its
/// only free variable.  Acceptance depends on the text alone.
pub uninterp spec fn fn_accepted(s: Seq<char>) -> bool;

/// The micro-unit value the evaluator yields for the accepted function text
/// `s` at the micro-unit argument `x`.  The value depends on the text and
/// the argument alone: the evaluator's context holds only fixed constants
/// and mathematical functions, nothing drawn from chance, time or the
/// environment.  The transcendental functions go through the platform's
/// math library, so their results are fixed within a build of this crate
/// rather than bit-identical across every toolchain.
pub uninterp spec fn eval_micro(s: Seq<char>, x: int) -> int;

/// Declares meval's token type, which its expression type holds; opaque
/// here.
#[verifier::external_type_specification]
#[verifier::external_body]
pub struct ExToken(meval::tokenizer::Token);

/// Declares meval's parsed expression type; opaque here, only carried.
#[verifier::external_type_specification]
#[verifier::external_body]
pub struct ExExpr(meval::Expr);

/// A committed function: the text as entered, paired with the expression
/// the adapter parsed from it.  Built only by [`parse_function`], so the
/// two always belong together.
pub struct FuncDef {
    text: Vec<char>,
    expr: meval::Expr,
}

impl View for FuncDef {
    type V = Seq<char>;

    closed spec fn view(&self) -> Seq<char> {
        self.text@
    }
}

impl FuncDef {
    /// The committed function text, for display.
    pub fn text(&self) -> (t: &Vec<char>)
        ensures
            t@ == self@,
    {
        &self.text
    }
}

/// Relies on meval's `Expr` parser (`str::parse`) and `Expr::bind`: a text
/// is accepted exactly when it parses and `x` is its only free variable,
/// and acceptance depends on the text alone.  A non-empty text of only
/// whitespace is excluded: meval's tokenizer consumes it whole and then
/// aborts instead of reporting a parse error, so callers reject that shape
/// first (see [`is_blank`]).
#[verifier::external_body]
pub fn parse_function(text: &Vec<char>) -> (r: Option<FuncDef>)
    requires
        !blank_text(text@),
    ensures
        r is Some <==> fn_accepted(text@),
        r matches Some(f) ==> f@ == text@,
{
    let s: String = text.iter().collect();
    let expr: meval::Expr = match s.parse() {
        Ok(e) => e,
        Err(_) => return None,
    };
    if expr.clone().bind("x").is_err() {
        return None;
    }
    Some(FuncDef { text: text.clone(), expr })
}

/// Relies on meval's `Expr::eval_with_context` with `x` bound: evaluation
/// is a pure function of the expression's text and the argument.  The
/// micro-unit argument is divided down to real units and the result scaled
/// back up by the evaluator itself; the scaled result is saturated into the
/// i64 range, and an evaluation fault or a non-numeric value maps to zero
/// the same way every time.
#[verifier::external_body]
pub fn eval_at(f: &FuncDef, x: i64) -> (y: i64)
    ensures
        y as int == eval_micro(f@, x as int),
{
    let mut cu = meval::Context::new();
    cu.var("u", x as _);
    let xf = meval::eval_str_with_context("u/1000000", &cu).unwrap_or_default();
    let mut cx = meval::Context::new();
    cx.var("x", xf);
    let yf = f.expr.eval_with_context(&cx).unwrap_or_default();
    let mut cy = meval::Context::new();
    cy.var("y", yf);
    meval::eval_str_with_context("y*1000000", &cy).unwrap_or_default() as i64
}

} // verus!
