//! The mathematical definition of the four encoder views. Each view is a
//! spec function from an expression (and the session's fresh-constant
//! counter) to the produced term and the counter after it; the executable
//! methods on [`crate::z3_solver::Z3Solver`] are proved to return exactly
//! these terms. The four views are mutually recursive: an operator lowers
//! its operands through whichever view its sort discipline requires, and
//! some expression kinds delegate the whole node from one view to another.

use vstd::prelude::*;

use crate::ir::{ConstantValue, Expression, ExpressionType};
use crate::term::{NumLit, Sort, Symbol, Term};

verus! {

/// The next fresh-constant id after one has been handed out. Ids increase
/// by one and saturate at the machine bound, so distinct draws below the
/// bound are distinct ids.
pub open spec fn bump_id(c: u64) -> u64 {
    if c < u64::MAX {
        (c + 1) as u64
    } else {
        c
    }
}

/// Whether the numeric view lowers this expression to a floating-point
/// term (true) or to a mathematical-integer term (false). Binary arithmetic
/// takes its float-ness from the left operand; the two operands agreeing is
/// the caller's obligation, stated by the `ok_` predicates below.
pub open spec fn is_float_expr(e: Expression) -> bool
    decreases e,
{
    match e {
        Expression::Add { left, .. }
        | Expression::Div { left, .. }
        | Expression::Mul { left, .. }
        | Expression::Rem { left, .. }
        | Expression::Sub { left, .. } => is_float_expr(*left),
        Expression::Neg { operand } => is_float_expr(*operand),
        Expression::ConditionalExpression { consequent, .. } => is_float_expr(*consequent),
        Expression::CompileTimeConstant(c) => match c {
            ConstantValue::F32(_) | ConstantValue::F64(_) => true,
            _ => false,
        },
        Expression::Variable { var_type, .. } => var_type == ExpressionType::F32
            || var_type == ExpressionType::F64,
        _ => false,
    }
}

/// Termination ranks for the cross-view delegations that keep the
/// expression unchanged. For each expression kind the delegation graph
/// between the four views is acyclic; these ranks embed it into a
/// lexicographic measure.
pub open spec fn rank_any(e: Expression) -> int {
    match e {
        Expression::Add { .. }
        | Expression::Div { .. }
        | Expression::Mul { .. }
        | Expression::Rem { .. }
        | Expression::Sub { .. }
        | Expression::Reference(_)
        | Expression::BitAnd { .. }
        | Expression::BitOr { .. }
        | Expression::BitXor { .. } => 1,
        _ => 0,
    }
}

pub open spec fn rank_numeric(e: Expression) -> int {
    match e {
        Expression::Add { .. }
        | Expression::Div { .. }
        | Expression::Mul { .. }
        | Expression::Rem { .. }
        | Expression::Sub { .. }
        | Expression::Neg { .. }
        | Expression::ConditionalExpression { .. }
        | Expression::Reference(_)
        | Expression::Top => 0,
        _ => 1,
    }
}

pub open spec fn rank_bool(e: Expression) -> int {
    match e {
        Expression::BitAnd { .. }
        | Expression::BitOr { .. }
        | Expression::BitXor { .. }
        | Expression::CompileTimeConstant(_)
        | Expression::Top => 1,
        _ => 2,
    }
}

pub open spec fn rank_bv(e: Expression) -> int {
    match e {
        Expression::BitAnd { .. }
        | Expression::BitOr { .. }
        | Expression::BitXor { .. }
        | Expression::ConditionalExpression { .. }
        | Expression::Shl { .. }
        | Expression::Shr { .. }
        | Expression::Variable { .. }
        | Expression::Top => 0,
        Expression::And { .. }
        | Expression::Equals { .. }
        | Expression::GreaterOrEqual { .. }
        | Expression::GreaterThan { .. }
        | Expression::LessOrEqual { .. }
        | Expression::LessThan { .. }
        | Expression::Ne { .. }
        | Expression::Not { .. }
        | Expression::Or { .. } => 1,
        _ => 2,
    }
}

/// The caller obligations of the any view: wherever two operands meet in
/// a numeric operator, their float-ness agrees, and a shift-overflow test
/// is over an integer-sorted shift amount. Expressions violating this are
/// a bug in the caller's expression construction, not an input to recover
/// from, and the encoder's contract excludes them.
pub open spec fn ok_any(e: Expression) -> bool
    decreases e, rank_any(e),
{
    match e {
        Expression::Add { .. }
        | Expression::Div { .. }
        | Expression::Mul { .. }
        | Expression::Rem { .. }
        | Expression::Sub { .. }
        | Expression::Reference(_) => ok_numeric(e),
        Expression::AddOverflows { left, right, .. }
        | Expression::MulOverflows { left, right, .. }
        | Expression::SubOverflows { left, right, .. } => ok_bv(*left) && ok_bv(*right),
        Expression::And { left, right } | Expression::Or { left, right } => ok_bool(*left)
            && ok_bool(*right),
        Expression::Not { operand } => ok_bool(*operand),
        Expression::BitAnd { .. } | Expression::BitOr { .. } | Expression::BitXor { .. } => ok_bv(
            e,
        ),
        Expression::CompileTimeConstant(_) => true,
        Expression::ConditionalExpression { condition, consequent, alternate } => ok_bool(
            *condition,
        ) && ok_any(*consequent) && ok_any(*alternate),
        Expression::Equals { left, right }
        | Expression::GreaterOrEqual { left, right }
        | Expression::GreaterThan { left, right }
        | Expression::LessOrEqual { left, right }
        | Expression::LessThan { left, right }
        | Expression::Ne { left, right } => ok_numeric(*left) && ok_numeric(*right) && is_float_expr(
            *left,
        ) == is_float_expr(*right),
        Expression::Neg { operand } => ok_numeric(*operand),
        Expression::Shl { left, right } => ok_bv(*left) && ok_bv(*right),
        Expression::Shr { left, right, .. } => ok_bv(*left) && ok_bv(*right),
        Expression::ShlOverflows { right, .. } | Expression::ShrOverflows { right, .. } => {
            ok_numeric(*right) && !is_float_expr(*right)
        },
        Expression::Variable { .. } | Expression::Top | Expression::Unsupported => true,
    }
}

/// The caller obligations of the numeric view.
pub open spec fn ok_numeric(e: Expression) -> bool
    decreases e, rank_numeric(e),
{
    match e {
        Expression::Add { left, right }
        | Expression::Div { left, right }
        | Expression::Mul { left, right }
        | Expression::Rem { left, right }
        | Expression::Sub { left, right } => ok_numeric(*left) && ok_numeric(*right)
            && is_float_expr(*left) == is_float_expr(*right),
        Expression::And { .. }
        | Expression::Equals { .. }
        | Expression::GreaterOrEqual { .. }
        | Expression::GreaterThan { .. }
        | Expression::LessOrEqual { .. }
        | Expression::LessThan { .. }
        | Expression::Ne { .. }
        | Expression::Not { .. }
        | Expression::Or { .. } => ok_any(e),
        Expression::BitAnd { .. }
        | Expression::BitOr { .. }
        | Expression::BitXor { .. }
        | Expression::Shl { .. }
        | Expression::Shr { .. } => ok_bv(e),
        Expression::CompileTimeConstant(_) => true,
        Expression::ConditionalExpression { condition, consequent, alternate } => ok_bool(
            *condition,
        ) && ok_numeric(*consequent) && ok_numeric(*alternate) && is_float_expr(*consequent)
            == is_float_expr(*alternate),
        Expression::Neg { operand } => ok_numeric(*operand),
        Expression::Reference(_) | Expression::Variable { .. } | Expression::Top => true,
        _ => ok_any(e),
    }
}

/// The caller obligations of the boolean view.
pub open spec fn ok_bool(e: Expression) -> bool
    decreases e, rank_bool(e),
{
    match e {
        Expression::BitAnd { .. } | Expression::BitOr { .. } | Expression::BitXor { .. } => ok_bv(
            e,
        ),
        Expression::CompileTimeConstant(_) => true,
        Expression::Top => true,
        _ => ok_any(e),
    }
}

/// The caller obligations of the bit-vector view: in particular, a constant
/// lowered to a bit vector must not be a floating-point constant.
pub open spec fn ok_bv(e: Expression) -> bool
    decreases e, rank_bv(e),
{
    match e {
        Expression::And { .. }
        | Expression::Equals { .. }
        | Expression::GreaterOrEqual { .. }
        | Expression::GreaterThan { .. }
        | Expression::LessOrEqual { .. }
        | Expression::LessThan { .. }
        | Expression::Ne { .. }
        | Expression::Not { .. }
        | Expression::Or { .. } => ok_any(e),
        Expression::BitAnd { left, right }
        | Expression::BitOr { left, right }
        | Expression::BitXor { left, right } => ok_bv(*left) && ok_bv(*right),
        Expression::CompileTimeConstant(_) => ok_numeric(e) && !is_float_expr(e),
        Expression::ConditionalExpression { condition, consequent, alternate } => ok_bool(
            *condition,
        ) && ok_bv(*consequent) && ok_bv(*alternate),
        Expression::Shl { left, right } => ok_bv(*left) && ok_bv(*right),
        Expression::Shr { left, right, .. } => ok_bv(*left) && ok_bv(*right),
        Expression::Variable { .. } | Expression::Top => true,
        _ => ok_any(e),
    }
}

/// The integer numeral for a character constant: its code point truncated
/// to 16 bits.
pub open spec fn char_numeral(ch: char) -> NumLit {
    NumLit::Small(((ch as u32) % 0x10000) as i64)
}

/// The integer numeral for a 128-bit signed constant: a native 64-bit
/// numeral when the value fits, a decimal numeral otherwise.
pub open spec fn i128_numeral(v: i128) -> NumLit {
    if i64::MIN <= v <= i64::MAX {
        NumLit::Small(v as i64)
    } else {
        NumLit::BigI(v)
    }
}

/// The integer numeral for a 128-bit unsigned constant.
pub open spec fn u128_numeral(v: u128) -> NumLit {
    if v <= u64::MAX {
        NumLit::USmall(v as u64)
    } else {
        NumLit::BigU(v)
    }
}

/// The any view: the term in whichever sort is natural for the head
/// operator, together with the fresh-constant counter after the call.
pub open spec fn lower_any(e: Expression, ctr: u64) -> (Term, u64)
    decreases e, rank_any(e),
{
    match e {
        Expression::Add { .. }
        | Expression::Div { .. }
        | Expression::Mul { .. }
        | Expression::Rem { .. }
        | Expression::Sub { .. }
        | Expression::Reference(_) => lower_numeric(e, ctr),
        Expression::AddOverflows { left, right, result_type } => {
            let w = result_type.bit_length() as u32;
            let (lt, c1) = lower_bv(*left, w, ctr);
            let (rt, c2) = lower_bv(*right, w, c1);
            let no_over = Term::BvAddNoOverflow {
                left: Box::new(lt),
                right: Box::new(rt),
                is_signed: result_type.is_signed_integer(),
            };
            if result_type.is_signed_integer() {
                let no_under = Term::BvAddNoUnderflow { left: Box::new(lt), right: Box::new(rt) };
                (Term::Not(Box::new(Term::And(Box::new(no_over), Box::new(no_under)))), c2)
            } else {
                (Term::Not(Box::new(no_over)), c2)
            }
        },
        Expression::And { left, right } => {
            let (lt, c1) = lower_bool(*left, ctr);
            let (rt, c2) = lower_bool(*right, c1);
            (Term::And(Box::new(lt), Box::new(rt)), c2)
        },
        Expression::BitAnd { .. } | Expression::BitOr { .. } | Expression::BitXor { .. } => {
            lower_bv(e, 128, ctr)
        },
        Expression::CompileTimeConstant(c) => match c {
            ConstantValue::Char(ch) => (Term::IntLit(char_numeral(ch)), ctr),
            ConstantValue::False => (Term::BoolLit(false), ctr),
            ConstantValue::True => (Term::BoolLit(true), ctr),
            ConstantValue::I128(v) => (Term::IntLit(i128_numeral(v)), ctr),
            ConstantValue::U128(v) => (Term::IntLit(u128_numeral(v)), ctr),
            ConstantValue::F32(bits) => (Term::FpLit32(bits), ctr),
            ConstantValue::F64(bits) => (Term::FpLit64(bits), ctr),
            ConstantValue::Other => (
                Term::FreshConst { id: ctr, sort: Sort::Any },
                bump_id(ctr),
            ),
        },
        Expression::ConditionalExpression { condition, consequent, alternate } => {
            let (ct, c1) = lower_bool(*condition, ctr);
            let (tt, c2) = lower_any(*consequent, c1);
            let (et, c3) = lower_any(*alternate, c2);
            (Term::Ite(Box::new(ct), Box::new(tt), Box::new(et)), c3)
        },
        Expression::Equals { left, right } => {
            let fp = is_float_expr(*left);
            let (lt, c1) = lower_numeric(*left, ctr);
            let (rt, c2) = lower_numeric(*right, c1);
            if fp {
                (Term::FpEq(Box::new(lt), Box::new(rt)), c2)
            } else {
                (Term::Equal(Box::new(lt), Box::new(rt)), c2)
            }
        },
        Expression::GreaterOrEqual { left, right } => {
            let fp = is_float_expr(*left);
            let (lt, c1) = lower_numeric(*left, ctr);
            let (rt, c2) = lower_numeric(*right, c1);
            if fp {
                (Term::FpGe(Box::new(lt), Box::new(rt)), c2)
            } else {
                (Term::Ge(Box::new(lt), Box::new(rt)), c2)
            }
        },
        Expression::GreaterThan { left, right } => {
            let fp = is_float_expr(*left);
            let (lt, c1) = lower_numeric(*left, ctr);
            let (rt, c2) = lower_numeric(*right, c1);
            if fp {
                (Term::FpGt(Box::new(lt), Box::new(rt)), c2)
            } else {
                (Term::Gt(Box::new(lt), Box::new(rt)), c2)
            }
        },
        Expression::LessOrEqual { left, right } => {
            let fp = is_float_expr(*left);
            let (lt, c1) = lower_numeric(*left, ctr);
            let (rt, c2) = lower_numeric(*right, c1);
            if fp {
                (Term::FpLe(Box::new(lt), Box::new(rt)), c2)
            } else {
                (Term::Le(Box::new(lt), Box::new(rt)), c2)
            }
        },
        Expression::LessThan { left, right } => {
            let fp = is_float_expr(*left);
            let (lt, c1) = lower_numeric(*left, ctr);
            let (rt, c2) = lower_numeric(*right, c1);
            if fp {
                (Term::FpLt(Box::new(lt), Box::new(rt)), c2)
            } else {
                (Term::Lt(Box::new(lt), Box::new(rt)), c2)
            }
        },
        Expression::MulOverflows { left, right, result_type } => {
            let w = result_type.bit_length() as u32;
            let (lt, c1) = lower_bv(*left, w, ctr);
            let (rt, c2) = lower_bv(*right, w, c1);
            let no_over = Term::BvMulNoOverflow {
                left: Box::new(lt),
                right: Box::new(rt),
                is_signed: result_type.is_signed_integer(),
            };
            if result_type.is_signed_integer() {
                let no_under = Term::BvMulNoUnderflow { left: Box::new(lt), right: Box::new(rt) };
                (Term::Not(Box::new(Term::And(Box::new(no_over), Box::new(no_under)))), c2)
            } else {
                (Term::Not(Box::new(no_over)), c2)
            }
        },
        Expression::Ne { left, right } => {
            let fp = is_float_expr(*left);
            let (lt, c1) = lower_numeric(*left, ctr);
            let (rt, c2) = lower_numeric(*right, c1);
            if fp {
                // either operand is a NaN, or the IEEE equality fails:
                // deliberately not the negation of the `Equals` lowering.
                let ne = Term::Not(Box::new(Term::FpEq(Box::new(lt), Box::new(rt))));
                (
                    Term::Or(
                        Box::new(Term::FpIsNan(Box::new(lt))),
                        Box::new(Term::Or(Box::new(Term::FpIsNan(Box::new(rt))), Box::new(ne))),
                    ),
                    c2,
                )
            } else {
                (Term::Not(Box::new(Term::Equal(Box::new(lt), Box::new(rt)))), c2)
            }
        },
        Expression::Neg { operand } => {
            let fp = is_float_expr(*operand);
            let (t, c1) = lower_numeric(*operand, ctr);
            if fp {
                (Term::FpNeg(Box::new(t)), c1)
            } else {
                (Term::UnaryMinus(Box::new(t)), c1)
            }
        },
        Expression::Not { operand } => {
            let (t, c1) = lower_bool(*operand, ctr);
            (Term::Not(Box::new(t)), c1)
        },
        Expression::Or { left, right } => {
            let (lt, c1) = lower_bool(*left, ctr);
            let (rt, c2) = lower_bool(*right, c1);
            (Term::Or(Box::new(lt), Box::new(rt)), c2)
        },
        Expression::Shl { left, right } => {
            let (lt, c1) = lower_bv(*left, 128, ctr);
            let (rt, c2) = lower_bv(*right, 128, c1);
            (Term::BvShl(Box::new(lt), Box::new(rt)), c2)
        },
        Expression::Shr { left, right, result_type } => {
            let w = result_type.bit_length() as u32;
            let (lt, c1) = lower_bv(*left, w, ctr);
            let (rt, c2) = lower_bv(*right, w, c1);
            if result_type.is_signed_integer() {
                (Term::BvAshr(Box::new(lt), Box::new(rt)), c2)
            } else {
                (Term::BvLshr(Box::new(lt), Box::new(rt)), c2)
            }
        },
        Expression::ShlOverflows { right, result_type, .. }
        | Expression::ShrOverflows { right, result_type, .. } => {
            let (rt, c1) = lower_numeric(*right, ctr);
            let bits = Term::IntLit(NumLit::Small(result_type.bit_length() as i64));
            (Term::Ge(Box::new(rt), Box::new(bits)), c1)
        },
        Expression::SubOverflows { left, right, result_type } => {
            let w = result_type.bit_length() as u32;
            let (lt, c1) = lower_bv(*left, w, ctr);
            let (rt, c2) = lower_bv(*right, w, c1);
            let no_under = Term::BvSubNoUnderflow {
                left: Box::new(lt),
                right: Box::new(rt),
                is_signed: result_type.is_signed_integer(),
            };
            if result_type.is_signed_integer() {
                let no_over = Term::BvSubNoOverflow { left: Box::new(lt), right: Box::new(rt) };
                (Term::Not(Box::new(Term::And(Box::new(no_over), Box::new(no_under)))), c2)
            } else {
                (Term::Not(Box::new(no_under)), c2)
            }
        },
        Expression::Variable { path, var_type } => match var_type {
            ExpressionType::Bool => (
                Term::NamedConst { sym: Symbol::PathName(path), sort: Sort::Bool },
                ctr,
            ),
            ExpressionType::F32 => (
                Term::NamedConst { sym: Symbol::PathName(path), sort: Sort::F32 },
                ctr,
            ),
            ExpressionType::F64 => (
                Term::NamedConst { sym: Symbol::PathName(path), sort: Sort::F64 },
                ctr,
            ),
            ExpressionType::NonPrimitive => (
                Term::FreshConst { id: ctr, sort: Sort::Any },
                bump_id(ctr),
            ),
            _ => (Term::NamedConst { sym: Symbol::PathName(path), sort: Sort::Int }, ctr),
        },
        _ => (Term::FreshConst { id: ctr, sort: Sort::Any }, bump_id(ctr)),
    }
}

/// The numeric view: a term in the mathematical-integer sort, or — exactly
/// when [`is_float_expr`] holds of the expression — in a floating-point
/// sort. Boolean-producing operators are folded to integer one-or-zero;
/// bitwise results are converted from 128-bit bit-vectors.
pub open spec fn lower_numeric(e: Expression, ctr: u64) -> (Term, u64)
    decreases e, rank_numeric(e),
{
    match e {
        Expression::Add { left, right } => {
            let fp = is_float_expr(*left);
            let (lt, c1) = lower_numeric(*left, ctr);
            let (rt, c2) = lower_numeric(*right, c1);
            if fp {
                (Term::FpAdd(Box::new(lt), Box::new(rt)), c2)
            } else {
                (Term::Add(Box::new(lt), Box::new(rt)), c2)
            }
        },
        Expression::Div { left, right } => {
            let fp = is_float_expr(*left);
            let (lt, c1) = lower_numeric(*left, ctr);
            let (rt, c2) = lower_numeric(*right, c1);
            if fp {
                (Term::FpDiv(Box::new(lt), Box::new(rt)), c2)
            } else {
                (Term::Div(Box::new(lt), Box::new(rt)), c2)
            }
        },
        Expression::Mul { left, right } => {
            let fp = is_float_expr(*left);
            let (lt, c1) = lower_numeric(*left, ctr);
            let (rt, c2) = lower_numeric(*right, c1);
            if fp {
                (Term::FpMul(Box::new(lt), Box::new(rt)), c2)
            } else {
                (Term::Mul(Box::new(lt), Box::new(rt)), c2)
            }
        },
        Expression::Rem { left, right } => {
            let fp = is_float_expr(*left);
            let (lt, c1) = lower_numeric(*left, ctr);
            let (rt, c2) = lower_numeric(*right, c1);
            if fp {
                (Term::FpRem(Box::new(lt), Box::new(rt)), c2)
            } else {
                (Term::Rem(Box::new(lt), Box::new(rt)), c2)
            }
        },
        Expression::Sub { left, right } => {
            let fp = is_float_expr(*left);
            let (lt, c1) = lower_numeric(*left, ctr);
            let (rt, c2) = lower_numeric(*right, c1);
            if fp {
                (Term::FpSub(Box::new(lt), Box::new(rt)), c2)
            } else {
                (Term::Sub(Box::new(lt), Box::new(rt)), c2)
            }
        },
        Expression::And { .. }
        | Expression::Equals { .. }
        | Expression::GreaterOrEqual { .. }
        | Expression::GreaterThan { .. }
        | Expression::LessOrEqual { .. }
        | Expression::LessThan { .. }
        | Expression::Ne { .. }
        | Expression::Not { .. }
        | Expression::Or { .. } => {
            let (t, c1) = lower_any(e, ctr);
            (
                Term::Ite(
                    Box::new(t),
                    Box::new(Term::IntLit(NumLit::Small(1))),
                    Box::new(Term::IntLit(NumLit::Small(0))),
                ),
                c1,
            )
        },
        Expression::BitAnd { .. }
        | Expression::BitOr { .. }
        | Expression::BitXor { .. }
        | Expression::Shl { .. }
        | Expression::Shr { .. } => {
            let (t, c1) = lower_bv(e, 128, ctr);
            (Term::Bv2Int(Box::new(t)), c1)
        },
        Expression::CompileTimeConstant(c) => match c {
            ConstantValue::False => (Term::IntLit(NumLit::Small(0)), ctr),
            ConstantValue::True => (Term::IntLit(NumLit::Small(1)), ctr),
            _ => lower_any(e, ctr),
        },
        Expression::ConditionalExpression { condition, consequent, alternate } => {
            let (ct, c1) = lower_bool(*condition, ctr);
            let (tt, c2) = lower_numeric(*consequent, c1);
            let (et, c3) = lower_numeric(*alternate, c2);
            (Term::Ite(Box::new(ct), Box::new(tt), Box::new(et)), c3)
        },
        Expression::Neg { operand } => {
            let fp = is_float_expr(*operand);
            let (t, c1) = lower_numeric(*operand, ctr);
            if fp {
                (Term::FpNeg(Box::new(t)), c1)
            } else {
                (Term::UnaryMinus(Box::new(t)), c1)
            }
        },
        Expression::Reference(path) => (
            Term::NamedConst { sym: Symbol::RefName(path), sort: Sort::Int },
            ctr,
        ),
        Expression::Variable { path, var_type } => match var_type {
            ExpressionType::Bool | ExpressionType::NonPrimitive => (
                Term::NamedConst { sym: Symbol::PathName(path), sort: Sort::Int },
                ctr,
            ),
            _ => lower_any(e, ctr),
        },
        Expression::Top => (Term::FreshConst { id: ctr, sort: Sort::Int }, bump_id(ctr)),
        _ => lower_any(e, ctr),
    }
}

/// The boolean view: bitwise results become "not equal to zero" tests,
/// boolean constants become literals, an unknown value becomes a fresh
/// boolean constant, and everything else delegates to the any view.
pub open spec fn lower_bool(e: Expression, ctr: u64) -> (Term, u64)
    decreases e, rank_bool(e),
{
    match e {
        Expression::BitAnd { .. } | Expression::BitOr { .. } | Expression::BitXor { .. } => {
            let (t, c1) = lower_bv(e, 128, ctr);
            (
                Term::Not(
                    Box::new(
                        Term::Equal(
                            Box::new(Term::Bv2Int(Box::new(t))),
                            Box::new(Term::IntLit(NumLit::Small(0))),
                        ),
                    ),
                ),
                c1,
            )
        },
        Expression::CompileTimeConstant(c) => match c {
            ConstantValue::False => (Term::BoolLit(false), ctr),
            ConstantValue::True => (Term::BoolLit(true), ctr),
            _ => lower_any(e, ctr),
        },
        Expression::Top => (Term::FreshConst { id: ctr, sort: Sort::Bool }, bump_id(ctr)),
        _ => lower_any(e, ctr),
    }
}

/// The bit-vector view at an explicit width: boolean-shaped operands are
/// folded to one-or-zero bit patterns, constants come through the numeric
/// view and an integer-to-bit-vector conversion, variables become
/// bit-vector-sorted named constants (a distinct symbol identity from the
/// same path at the integer sort), and anything without a bit-vector
/// lowering falls back to the any view.
pub open spec fn lower_bv(e: Expression, num_bits: u32, ctr: u64) -> (Term, u64)
    decreases e, rank_bv(e),
{
    match e {
        Expression::And { .. }
        | Expression::Equals { .. }
        | Expression::GreaterOrEqual { .. }
        | Expression::GreaterThan { .. }
        | Expression::LessOrEqual { .. }
        | Expression::LessThan { .. }
        | Expression::Ne { .. }
        | Expression::Not { .. }
        | Expression::Or { .. } => {
            let (t, c1) = lower_any(e, ctr);
            let bv_one = Term::Int2Bv {
                width: num_bits,
                operand: Box::new(Term::IntLit(NumLit::Small(1))),
            };
            let bv_zero = Term::Int2Bv {
                width: num_bits,
                operand: Box::new(Term::IntLit(NumLit::Small(0))),
            };
            (Term::Ite(Box::new(t), Box::new(bv_one), Box::new(bv_zero)), c1)
        },
        Expression::BitAnd { left, right } => {
            let (lt, c1) = lower_bv(*left, num_bits, ctr);
            let (rt, c2) = lower_bv(*right, num_bits, c1);
            (Term::BvAnd(Box::new(lt), Box::new(rt)), c2)
        },
        Expression::BitOr { left, right } => {
            let (lt, c1) = lower_bv(*left, num_bits, ctr);
            let (rt, c2) = lower_bv(*right, num_bits, c1);
            (Term::BvOr(Box::new(lt), Box::new(rt)), c2)
        },
        Expression::BitXor { left, right } => {
            let (lt, c1) = lower_bv(*left, num_bits, ctr);
            let (rt, c2) = lower_bv(*right, num_bits, c1);
            (Term::BvXor(Box::new(lt), Box::new(rt)), c2)
        },
        Expression::CompileTimeConstant(_) => {
            let (t, c1) = lower_numeric(e, ctr);
            (Term::Int2Bv { width: num_bits, operand: Box::new(t) }, c1)
        },
        Expression::ConditionalExpression { condition, consequent, alternate } => {
            let (ct, c1) = lower_bool(*condition, ctr);
            let (tt, c2) = lower_bv(*consequent, num_bits, c1);
            let (et, c3) = lower_bv(*alternate, num_bits, c2);
            (Term::Ite(Box::new(ct), Box::new(tt), Box::new(et)), c3)
        },
        Expression::Shl { left, right } => {
            let (lt, c1) = lower_bv(*left, num_bits, ctr);
            let (rt, c2) = lower_bv(*right, num_bits, c1);
            (Term::BvShl(Box::new(lt), Box::new(rt)), c2)
        },
        Expression::Shr { left, right, result_type } => {
            let (lt, c1) = lower_bv(*left, num_bits, ctr);
            let (rt, c2) = lower_bv(*right, num_bits, c1);
            if result_type.is_signed_integer() {
                (Term::BvAshr(Box::new(lt), Box::new(rt)), c2)
            } else {
                (Term::BvLshr(Box::new(lt), Box::new(rt)), c2)
            }
        },
        Expression::Variable { path, .. } => (
            Term::NamedConst { sym: Symbol::PathName(path), sort: Sort::BitVec(num_bits) },
            ctr,
        ),
        Expression::Top => (
            Term::FreshConst { id: ctr, sort: Sort::BitVec(num_bits) },
            bump_id(ctr),
        ),
        _ => lower_any(e, ctr),
    }
}

} // verus!
