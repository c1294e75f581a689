//! Sort-correctness of the lowering: on the expressions whose shape gives
//! a view a definite target sort, the term the view produces carries that
//! sort. Outside these fragments the encoder deliberately degrades (an
//! unrecognized constant becomes an opaque fresh term even in the numeric
//! view, as the underlying encoder does), so each lemma names its fragment
//! with a spec predicate.

use vstd::prelude::*;

use crate::encode::{lower_any, lower_bool, lower_bv, ok_any, ok_bool};
use crate::ir::{ConstantValue, Expression, ExpressionType};
use crate::term::{sort_of, Sort, Term};

verus! {

/// The expressions whose any view produces a boolean-sorted term: the
/// boolean connectives and comparisons, the overflow checks, the boolean
/// constants, boolean-typed variables, and conditionals between two such.
pub open spec fn predicate_expr(e: Expression) -> bool
    decreases e,
{
    match e {
        Expression::And { .. }
        | Expression::Or { .. }
        | Expression::Not { .. }
        | Expression::Equals { .. }
        | Expression::Ne { .. }
        | Expression::GreaterThan { .. }
        | Expression::GreaterOrEqual { .. }
        | Expression::LessThan { .. }
        | Expression::LessOrEqual { .. }
        | Expression::AddOverflows { .. }
        | Expression::SubOverflows { .. }
        | Expression::MulOverflows { .. }
        | Expression::ShlOverflows { .. }
        | Expression::ShrOverflows { .. } => true,
        Expression::CompileTimeConstant(c) => c == ConstantValue::True || c
            == ConstantValue::False,
        Expression::Variable { var_type, .. } => var_type == ExpressionType::Bool,
        Expression::ConditionalExpression { consequent, alternate, .. } => predicate_expr(
            *consequent,
        ) && predicate_expr(*alternate),
        _ => false,
    }
}

/// On the predicate fragment, the any view is boolean-sorted.
#[verifier::rlimit(50)]
pub proof fn lemma_any_view_bool_sorted(e: Expression, c: u64)
    requires
        ok_any(e),
        predicate_expr(e),
    ensures
        sort_of(lower_any(e, c).0) == Sort::Bool,
    decreases e,
{
    match e {
        Expression::And { left, right } => {},
        Expression::Or { left, right } => {},
        Expression::Not { operand } => {},
        Expression::Equals { left, right } => {
            assert(lower_any(e, c).0 is FpEq || lower_any(e, c).0 is Equal);
        },
        Expression::Ne { left, right } => {
            assert(lower_any(e, c).0 is Or || lower_any(e, c).0 is Not);
        },
        Expression::GreaterThan { left, right } => {
            assert(lower_any(e, c).0 is FpGt || lower_any(e, c).0 is Gt);
        },
        Expression::GreaterOrEqual { left, right } => {
            assert(lower_any(e, c).0 is FpGe || lower_any(e, c).0 is Ge);
        },
        Expression::LessThan { left, right } => {
            assert(lower_any(e, c).0 is FpLt || lower_any(e, c).0 is Lt);
        },
        Expression::LessOrEqual { left, right } => {
            assert(lower_any(e, c).0 is FpLe || lower_any(e, c).0 is Le);
        },
        Expression::AddOverflows { left, right, result_type } => {
            let w = result_type.bit_length() as u32;
            let lt = lower_bv(*left, w, c).0;
            let c1 = lower_bv(*left, w, c).1;
            let rt = lower_bv(*right, w, c1).0;
            let no_over = Term::BvAddNoOverflow {
                left: Box::new(lt),
                right: Box::new(rt),
                is_signed: result_type.is_signed_integer(),
            };
            if result_type.is_signed_integer() {
                let no_under = Term::BvAddNoUnderflow {
                    left: Box::new(lt),
                    right: Box::new(rt),
                };
                assert(lower_any(e, c).0 == Term::Not(
                    Box::new(Term::And(Box::new(no_over), Box::new(no_under))),
                ));
            } else {
                assert(lower_any(e, c).0 == Term::Not(Box::new(no_over)));
            }
        },
        Expression::SubOverflows { left, right, result_type } => {
            let w = result_type.bit_length() as u32;
            let lt = lower_bv(*left, w, c).0;
            let c1 = lower_bv(*left, w, c).1;
            let rt = lower_bv(*right, w, c1).0;
            let no_under = Term::BvSubNoUnderflow {
                left: Box::new(lt),
                right: Box::new(rt),
                is_signed: result_type.is_signed_integer(),
            };
            if result_type.is_signed_integer() {
                let no_over = Term::BvSubNoOverflow { left: Box::new(lt), right: Box::new(rt) };
                assert(lower_any(e, c).0 == Term::Not(
                    Box::new(Term::And(Box::new(no_over), Box::new(no_under))),
                ));
            } else {
                assert(lower_any(e, c).0 == Term::Not(Box::new(no_under)));
            }
        },
        Expression::MulOverflows { left, right, result_type } => {
            let w = result_type.bit_length() as u32;
            let lt = lower_bv(*left, w, c).0;
            let c1 = lower_bv(*left, w, c).1;
            let rt = lower_bv(*right, w, c1).0;
            let no_over = Term::BvMulNoOverflow {
                left: Box::new(lt),
                right: Box::new(rt),
                is_signed: result_type.is_signed_integer(),
            };
            if result_type.is_signed_integer() {
                let no_under = Term::BvMulNoUnderflow {
                    left: Box::new(lt),
                    right: Box::new(rt),
                };
                assert(lower_any(e, c).0 == Term::Not(
                    Box::new(Term::And(Box::new(no_over), Box::new(no_under))),
                ));
            } else {
                assert(lower_any(e, c).0 == Term::Not(Box::new(no_over)));
            }
        },
        Expression::ShlOverflows { left, right, result_type } => {
            assert(lower_any(e, c).0 is Ge);
        },
        Expression::ShrOverflows { left, right, result_type } => {
            assert(lower_any(e, c).0 is Ge);
        },
        Expression::CompileTimeConstant(cv) => {
            assert(lower_any(e, c).0 is BoolLit);
        },
        Expression::Variable { path, var_type } => {
            assert(lower_any(e, c).0 is NamedConst);
        },
        Expression::ConditionalExpression { condition, consequent, alternate } => {
            let c1 = lower_bool(*condition, c).1;
            lemma_any_view_bool_sorted(*consequent, c1);
            assert(sort_of(lower_any(e, c).0) == sort_of(lower_any(*consequent, c1).0));
        },
        _ => {
            assert(false);
        },
    }
}

/// On the boolean-sortable fragment — the predicate fragment, the bitwise
/// operators (tested against zero) and the unknown value — the boolean
/// view is boolean-sorted.
pub proof fn lemma_bool_view_sorted(e: Expression, c: u64)
    requires
        ok_bool(e),
        predicate_expr(e) || e matches Expression::BitAnd { .. } || e matches Expression::BitOr {
            ..
        } || e matches Expression::BitXor { .. } || e == Expression::Top,
    ensures
        sort_of(lower_bool(e, c).0) == Sort::Bool,
{
    match e {
        Expression::BitAnd { left, right } => {
            assert(lower_bool(e, c).0 is Not);
        },
        Expression::BitOr { left, right } => {
            assert(lower_bool(e, c).0 is Not);
        },
        Expression::BitXor { left, right } => {
            assert(lower_bool(e, c).0 is Not);
        },
        Expression::CompileTimeConstant(cv) => {
            assert(lower_bool(e, c).0 is BoolLit);
        },
        Expression::Top => {
            assert(lower_bool(e, c).0 is FreshConst);
        },
        _ => {
            lemma_any_view_bool_sorted(e, c);
            assert(lower_bool(e, c).0 == lower_any(e, c).0);
        },
    }
}

} // verus!
