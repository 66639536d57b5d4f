//! Truth values of expressions, as the parser's utility library computes them.
use crate::ast::{Expression, SourceSpan};
use crate::ctx::ExprSettings;
use swc_common::{BytePos, SyntaxContext};
use swc_ecma_ast::{BinExpr, Bool, Expr, Lit, Null, ParenExpr, SeqExpr, ThisExpr, UnaryExpr, UnaryOp};
use swc_ecma_utils::{ExprCtx, ExprExt, Value};
use vstd::prelude::*;

verus! {

/// The expression is held part by part, with no `Node` except as the
/// operand of `void`, and no sequence is empty. The evaluator looks into the
/// operand of `void` and into the parts of an object, function, class,
/// `new`, call, member or template expression only to ask whether they have
/// side effects, which never stops the program; so an evaluable expression
/// leads it to no empty sequence and no JSX text literal, the two shapes on
/// which it stops the program.
pub open spec fn evaluable(e: Expression) -> bool
    decreases e,
{
    match e {
        Expression::Void { .. } => true,
        Expression::Unary { arg, .. } => evaluable(*arg),
        Expression::Bin { left, right, .. } => evaluable(*left) && evaluable(*right),
        Expression::Paren { expr, .. } => evaluable(*expr),
        Expression::Sequence { exprs, .. } => {
            proof {
                assert(decreases_to!(e => e->exprs));
                assert(decreases_to!(e->exprs => e->exprs@));
            }
            exprs@.len() > 0 && all_evaluable(exprs@)
        },
        Expression::Node(_) => false,
        _ => true,
    }
}

/// Every expression of the list is `evaluable`.
pub open spec fn all_evaluable(exprs: Seq<Expression>) -> bool
    decreases exprs,
{
    if exprs.len() == 0 {
        true
    } else {
        proof {
            assert(decreases_to!(exprs => exprs[exprs.len() - 1]));
            assert(decreases_to!(exprs => exprs.subrange(0, exprs.len() - 1)));
        }
        all_evaluable(exprs.subrange(0, exprs.len() - 1)) && evaluable(exprs[exprs.len() - 1])
    }
}

/// A list is `all_evaluable` exactly when each of its expressions is.
pub proof fn lemma_all_evaluable(exprs: Seq<Expression>)
    ensures
        all_evaluable(exprs) <==> forall|k: int| 0 <= k < exprs.len() ==> #[trigger] evaluable(
            exprs[k],
        ),
    decreases exprs.len(),
{
    if exprs.len() > 0 {
        let init = exprs.subrange(0, exprs.len() - 1);
        lemma_all_evaluable(init);
        if forall|k: int| 0 <= k < exprs.len() ==> #[trigger] evaluable(exprs[k]) {
            assert forall|k: int| 0 <= k < init.len() implies #[trigger] evaluable(init[k]) by {
                assert(init[k] == exprs[k]);
                assert(evaluable(exprs[k]));
            }
            assert(evaluable(exprs[exprs.len() - 1]));
        }
        if all_evaluable(exprs) {
            assert forall|k: int| 0 <= k < exprs.len() implies #[trigger] evaluable(exprs[k]) by {
                if k < exprs.len() - 1 {
                    assert(init[k] == exprs[k]);
                }
            }
        }
    }
}

/// Whether the expression's truth value may be computed.
pub fn is_evaluable(e: &Expression) -> (r: bool)
    ensures
        r == evaluable(*e),
    decreases e,
{
    match e {
        Expression::Void { .. } => true,
        Expression::Unary { arg, .. } => is_evaluable(arg),
        Expression::Bin { left, right, .. } => is_evaluable(left) && is_evaluable(right),
        Expression::Paren { expr, .. } => is_evaluable(expr),
        Expression::Sequence { exprs, .. } => {
            if exprs.len() == 0 {
                return false;
            }
            let mut k: usize = 0;
            while k < exprs.len()
                invariant
                    0 <= k <= exprs@.len(),
                    *e matches Expression::Sequence { exprs: es, .. } && es == *exprs,
                    forall|j: int| 0 <= j < k ==> #[trigger] evaluable(exprs@[j]),
                decreases exprs@.len() - k,
            {
                proof {
                    assert(decreases_to!(*e => (*e)->exprs));
                    assert(decreases_to!((*e)->exprs => (*e)->exprs@));
                    assert(decreases_to!((*e)->exprs@ => (*e)->exprs@[k as int]));
                }
                if !is_evaluable(&exprs[k]) {
                    proof {
                        lemma_all_evaluable(exprs@);
                    }
                    return false;
                }
                k = k + 1;
            }
            proof {
                lemma_all_evaluable(exprs@);
            }
            true
        },
        Expression::Node(_) => false,
        _ => true,
    }
}

/// The truth value, when known before running, that
/// `swc_ecma_utils::ExprExt::cast_to_bool` computes for the expression under
/// the given settings.
pub uninterp spec fn truth_value(e: Expression, settings: ExprSettings) -> Option<bool>;

/// Calls `swc_ecma_utils::ExprExt::cast_to_bool`, which computes JavaScript's
/// `Boolean(e)` before running, on the expression rebuilt as the parser's
/// node, and keeps the truth value it reports (`Some` when known), dropping
/// the purity that comes with it.
///
/// Claimed: the value is a function of the expression and the settings
/// alone (`truth_value`), as the library's source reads nothing else; and a
/// `void` expression is falsy whenever evaluation depth remains (after one
/// unit of depth is used, `void _` gives `Known(false)` whatever its
/// operand, whose side effects alone are then looked at, which never stops
/// the program).
///
/// Required: the expression is `evaluable`. The library unwraps the last
/// expression of a sequence and rejects a JSX text literal, so it stops the
/// program when its evaluation reaches an empty sequence or such a literal;
/// on an evaluable expression it reaches neither.
#[verifier::external_body]
pub(crate) fn cast_to_bool(e: &Expression, settings: ExprSettings) -> (r: Option<bool>)
    requires
        evaluable(*e),
    ensures
        r == truth_value(*e, settings),
        settings.remaining_depth > 0 && e is Void ==> r == Some(false),
{
    let ctx = ExprCtx {
        unresolved_ctxt: SyntaxContext::from_u32(settings.unresolved_ctxt),
        is_unresolved_ref_safe: settings.is_unresolved_ref_safe,
        in_strict: settings.in_strict,
        remaining_depth: settings.remaining_depth,
    };
    let (_, value) = to_node(e).cast_to_bool(ctx);
    if let Value::Known(b) = value { Some(b) } else { None }
}

/// The parser's source range for a span.
#[verifier::external_body]
fn js_span(span: SourceSpan) -> swc_common::Span {
    swc_common::Span { lo: BytePos(span.lo), hi: BytePos(span.hi) }
}

/// The expression rebuilt, part for part, as the parser's node.
#[verifier::external_body]
fn to_node(e: &Expression) -> Expr {
    match e {
        Expression::Void { .. } | Expression::Unary { .. } => unary_node(e),
        Expression::Bin { .. } | Expression::Paren { .. } => compound_node(e),
        Expression::Sequence { .. } => compound_node(e),
        Expression::Node(node) => (**node).clone(),
        _ => leaf_node(e),
    }
}

/// A binary, parenthesised or sequence expression rebuilt as the parser's node.
#[verifier::external_body]
fn compound_node(e: &Expression) -> Expr {
    match e {
        Expression::Bin { span, op, left, right } => {
            let (left, right) = (Box::new(to_node(left)), Box::new(to_node(right)));
            Expr::Bin(BinExpr { span: js_span(*span), op: *op, left, right })
        },
        Expression::Paren { span, expr } => {
            Expr::Paren(ParenExpr { span: js_span(*span), expr: Box::new(to_node(expr)) })
        },
        Expression::Sequence { span, exprs } => {
            let exprs = exprs.iter().map(|x| Box::new(to_node(x))).collect();
            Expr::Seq(SeqExpr { span: js_span(*span), exprs })
        },
        _ => to_node(e),
    }
}

/// A `void` or other unary expression rebuilt as the parser's node.
#[verifier::external_body]
fn unary_node(e: &Expression) -> Expr {
    let (span, op, arg) = match e {
        Expression::Void { span, arg } => (span, UnaryOp::Void, arg),
        Expression::Unary { span, op, arg } => (span, *op, arg),
        _ => return to_node(e),
    };
    Expr::Unary(UnaryExpr { span: js_span(*span), op, arg: Box::new(to_node(arg)) })
}

/// `this`, an identifier or a literal rebuilt as the parser's node.
#[verifier::external_body]
fn leaf_node(e: &Expression) -> Expr {
    match e {
        Expression::This(span) => Expr::This(ThisExpr { span: js_span(*span) }),
        Expression::Ident(i) => Expr::Ident((**i).clone()),
        _ => literal_node(e),
    }
}

/// A literal rebuilt as the parser's node.
#[verifier::external_body]
fn literal_node(e: &Expression) -> Expr {
    match e {
        Expression::Bool { span, value } => Expr::Lit(Lit::Bool(Bool { span: js_span(*span), value: *value })),
        Expression::Null(span) => Expr::Lit(Lit::Null(Null { span: js_span(*span) })),
        Expression::Str(s) => Expr::Lit(Lit::Str((**s).clone())),
        Expression::Num(n) => Expr::Lit(Lit::Num((**n).clone())),
        Expression::BigInt(b) => Expr::Lit(Lit::BigInt((**b).clone())),
        Expression::Regex(r) => Expr::Lit(Lit::Regex((**r).clone())),
        _ => object_node(e),
    }
}

/// An object, function, class, `new`, call, member or template expression
/// rebuilt as the parser's node.
#[verifier::external_body]
fn object_node(e: &Expression) -> Expr {
    match e {
        Expression::Object(o) => Expr::Object((**o).clone()),
        Expression::Fn(f) => Expr::Fn((**f).clone()),
        Expression::Arrow(a) => Expr::Arrow((**a).clone()),
        Expression::Class(c) => Expr::Class((**c).clone()),
        Expression::New(n) => Expr::New((**n).clone()),
        Expression::Call(c) => Expr::Call((**c).clone()),
        Expression::Member(m) => Expr::Member((**m).clone()),
        Expression::Tpl(t) => Expr::Tpl((**t).clone()),
        _ => to_node(e),
    }
}

} // verus!
