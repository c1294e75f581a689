//! The executable encoder: one method per view, each a dispatch table with
//! one arm per expression kind, proved to return exactly the term that the
//! corresponding spec function in [`crate::encode`] defines and to advance
//! the session's fresh-constant counter exactly as it does.

use vstd::prelude::*;

use crate::encode::{
    is_float_expr, lower_any, lower_bool, lower_bv, lower_numeric, ok_any, ok_bool, ok_bv,
    ok_numeric, rank_any, rank_bool, rank_bv, rank_numeric,
};
use crate::ir::{ConstantValue, Expression, ExpressionType};
use crate::term::{NumLit, Sort, Symbol, Term};
use crate::z3_solver::Z3Solver;

verus! {

impl Z3Solver {
    /// The any view: a term in whichever sort is natural for the head
    /// operator of the expression.
    pub fn get_as_z3_ast(&mut self, expression: &Expression) -> (r: Term)
        requires
            ok_any(*expression),
        ensures
            r == lower_any(*expression, old(self).fresh).0,
            final(self).fresh == lower_any(*expression, old(self).fresh).1,
            final(self).frames == old(self).frames,
        decreases *expression, rank_any(*expression),
    {
        match expression {
            Expression::Add { .. }
            | Expression::Div { .. }
            | Expression::Mul { .. }
            | Expression::Rem { .. }
            | Expression::Sub { .. }
            | Expression::Reference(_) => self.get_as_numeric_z3_ast(expression).1,
            Expression::AddOverflows { left, right, result_type } => {
                let num_bits = result_type.bit_length() as u32;
                let is_signed = result_type.is_signed_integer();
                let left_bv = self.get_as_bv_z3_ast(&**left, num_bits);
                let right_bv = self.get_as_bv_z3_ast(&**right, num_bits);
                if is_signed {
                    let does_not_overflow = Term::BvAddNoOverflow {
                        left: Box::new(left_bv.duplicate()),
                        right: Box::new(right_bv.duplicate()),
                        is_signed,
                    };
                    let does_not_underflow = Term::BvAddNoUnderflow {
                        left: Box::new(left_bv),
                        right: Box::new(right_bv),
                    };
                    Term::Not(
                        Box::new(
                            Term::And(Box::new(does_not_overflow), Box::new(does_not_underflow)),
                        ),
                    )
                } else {
                    Term::Not(
                        Box::new(
                            Term::BvAddNoOverflow {
                                left: Box::new(left_bv),
                                right: Box::new(right_bv),
                                is_signed,
                            },
                        ),
                    )
                }
            },
            Expression::And { left, right } => {
                let left_ast = self.get_as_bool_z3_ast(&**left);
                let right_ast = self.get_as_bool_z3_ast(&**right);
                Term::And(Box::new(left_ast), Box::new(right_ast))
            },
            Expression::BitAnd { .. } | Expression::BitOr { .. } | Expression::BitXor { .. } => {
                self.get_as_bv_z3_ast(expression, 128)
            },
            Expression::CompileTimeConstant(const_value) => match const_value {
                ConstantValue::Char(v) => {
                    let code: u32 = (*v as u32) % 0x10000;
                    Term::IntLit(NumLit::Small(code as i64))
                },
                ConstantValue::False => Term::BoolLit(false),
                ConstantValue::True => Term::BoolLit(true),
                ConstantValue::I128(v) => {
                    if i64::MIN as i128 <= *v && *v <= i64::MAX as i128 {
                        Term::IntLit(NumLit::Small(*v as i64))
                    } else {
                        Term::IntLit(NumLit::BigI(*v))
                    }
                },
                ConstantValue::U128(v) => {
                    if *v <= u64::MAX as u128 {
                        Term::IntLit(NumLit::USmall(*v as u64))
                    } else {
                        Term::IntLit(NumLit::BigU(*v))
                    }
                },
                ConstantValue::F32(bits) => Term::FpLit32(*bits),
                ConstantValue::F64(bits) => Term::FpLit64(*bits),
                ConstantValue::Other => {
                    let id = self.next_fresh_id();
                    Term::FreshConst { id, sort: Sort::Any }
                },
            },
            Expression::ConditionalExpression { condition, consequent, alternate } => {
                let condition_ast = self.get_as_bool_z3_ast(&**condition);
                let consequent_ast = self.get_as_z3_ast(&**consequent);
                let alternate_ast = self.get_as_z3_ast(&**alternate);
                Term::Ite(
                    Box::new(condition_ast),
                    Box::new(consequent_ast),
                    Box::new(alternate_ast),
                )
            },
            Expression::Equals { left, right } => {
                let (lf, left_ast) = self.get_as_numeric_z3_ast(&**left);
                let (rf, right_ast) = self.get_as_numeric_z3_ast(&**right);
                proof {
                    assert(lf == rf);
                }
                if lf {
                    Term::FpEq(Box::new(left_ast), Box::new(right_ast))
                } else {
                    Term::Equal(Box::new(left_ast), Box::new(right_ast))
                }
            },
            Expression::GreaterOrEqual { left, right } => {
                let (lf, left_ast) = self.get_as_numeric_z3_ast(&**left);
                let (rf, right_ast) = self.get_as_numeric_z3_ast(&**right);
                proof {
                    assert(lf == rf);
                }
                if lf {
                    Term::FpGe(Box::new(left_ast), Box::new(right_ast))
                } else {
                    Term::Ge(Box::new(left_ast), Box::new(right_ast))
                }
            },
            Expression::GreaterThan { left, right } => {
                let (lf, left_ast) = self.get_as_numeric_z3_ast(&**left);
                let (rf, right_ast) = self.get_as_numeric_z3_ast(&**right);
                proof {
                    assert(lf == rf);
                }
                if lf {
                    Term::FpGt(Box::new(left_ast), Box::new(right_ast))
                } else {
                    Term::Gt(Box::new(left_ast), Box::new(right_ast))
                }
            },
            Expression::LessOrEqual { left, right } => {
                let (lf, left_ast) = self.get_as_numeric_z3_ast(&**left);
                let (rf, right_ast) = self.get_as_numeric_z3_ast(&**right);
                proof {
                    assert(lf == rf);
                }
                if lf {
                    Term::FpLe(Box::new(left_ast), Box::new(right_ast))
                } else {
                    Term::Le(Box::new(left_ast), Box::new(right_ast))
                }
            },
            Expression::LessThan { left, right } => {
                let (lf, left_ast) = self.get_as_numeric_z3_ast(&**left);
                let (rf, right_ast) = self.get_as_numeric_z3_ast(&**right);
                proof {
                    assert(lf == rf);
                }
                if lf {
                    Term::FpLt(Box::new(left_ast), Box::new(right_ast))
                } else {
                    Term::Lt(Box::new(left_ast), Box::new(right_ast))
                }
            },
            Expression::MulOverflows { left, right, result_type } => {
                let num_bits = result_type.bit_length() as u32;
                let is_signed = result_type.is_signed_integer();
                let left_bv = self.get_as_bv_z3_ast(&**left, num_bits);
                let right_bv = self.get_as_bv_z3_ast(&**right, num_bits);
                if is_signed {
                    let does_not_overflow = Term::BvMulNoOverflow {
                        left: Box::new(left_bv.duplicate()),
                        right: Box::new(right_bv.duplicate()),
                        is_signed,
                    };
                    let does_not_underflow = Term::BvMulNoUnderflow {
                        left: Box::new(left_bv),
                        right: Box::new(right_bv),
                    };
                    Term::Not(
                        Box::new(
                            Term::And(Box::new(does_not_overflow), Box::new(does_not_underflow)),
                        ),
                    )
                } else {
                    Term::Not(
                        Box::new(
                            Term::BvMulNoOverflow {
                                left: Box::new(left_bv),
                                right: Box::new(right_bv),
                                is_signed,
                            },
                        ),
                    )
                }
            },
            Expression::Ne { left, right } => {
                let (lf, left_ast) = self.get_as_numeric_z3_ast(&**left);
                let (rf, right_ast) = self.get_as_numeric_z3_ast(&**right);
                proof {
                    assert(lf == rf);
                }
                if lf {
                    let l_nan = Term::FpIsNan(Box::new(left_ast.duplicate()));
                    let r_nan = Term::FpIsNan(Box::new(right_ast.duplicate()));
                    let ne = Term::Not(
                        Box::new(Term::FpEq(Box::new(left_ast), Box::new(right_ast))),
                    );
                    Term::Or(Box::new(l_nan), Box::new(Term::Or(Box::new(r_nan), Box::new(ne))))
                } else {
                    Term::Not(Box::new(Term::Equal(Box::new(left_ast), Box::new(right_ast))))
                }
            },
            Expression::Neg { operand } => {
                let (is_float, operand_ast) = self.get_as_numeric_z3_ast(&**operand);
                if is_float {
                    Term::FpNeg(Box::new(operand_ast))
                } else {
                    Term::UnaryMinus(Box::new(operand_ast))
                }
            },
            Expression::Not { operand } => {
                let operand_ast = self.get_as_bool_z3_ast(&**operand);
                Term::Not(Box::new(operand_ast))
            },
            Expression::Or { left, right } => {
                let left_ast = self.get_as_bool_z3_ast(&**left);
                let right_ast = self.get_as_bool_z3_ast(&**right);
                Term::Or(Box::new(left_ast), Box::new(right_ast))
            },
            Expression::Shl { left, right } => {
                let left_ast = self.get_as_bv_z3_ast(&**left, 128);
                let right_ast = self.get_as_bv_z3_ast(&**right, 128);
                Term::BvShl(Box::new(left_ast), Box::new(right_ast))
            },
            Expression::Shr { left, right, result_type } => {
                let num_bits = result_type.bit_length() as u32;
                let left_ast = self.get_as_bv_z3_ast(&**left, num_bits);
                let right_ast = self.get_as_bv_z3_ast(&**right, num_bits);
                if result_type.is_signed_integer() {
                    Term::BvAshr(Box::new(left_ast), Box::new(right_ast))
                } else {
                    Term::BvLshr(Box::new(left_ast), Box::new(right_ast))
                }
            },
            Expression::ShlOverflows { right, result_type, .. }
            | Expression::ShrOverflows { right, result_type, .. } => {
                let (f, right_ast) = self.get_as_numeric_z3_ast(&**right);
                proof {
                    assert(!f);
                }
                let num_bits_val = Term::IntLit(NumLit::Small(result_type.bit_length() as i64));
                Term::Ge(Box::new(right_ast), Box::new(num_bits_val))
            },
            Expression::SubOverflows { left, right, result_type } => {
                let num_bits = result_type.bit_length() as u32;
                let is_signed = result_type.is_signed_integer();
                let left_bv = self.get_as_bv_z3_ast(&**left, num_bits);
                let right_bv = self.get_as_bv_z3_ast(&**right, num_bits);
                if is_signed {
                    let does_not_overflow = Term::BvSubNoOverflow {
                        left: Box::new(left_bv.duplicate()),
                        right: Box::new(right_bv.duplicate()),
                    };
                    let does_not_underflow = Term::BvSubNoUnderflow {
                        left: Box::new(left_bv),
                        right: Box::new(right_bv),
                        is_signed,
                    };
                    Term::Not(
                        Box::new(
                            Term::And(Box::new(does_not_overflow), Box::new(does_not_underflow)),
                        ),
                    )
                } else {
                    Term::Not(
                        Box::new(
                            Term::BvSubNoUnderflow {
                                left: Box::new(left_bv),
                                right: Box::new(right_bv),
                                is_signed,
                            },
                        ),
                    )
                }
            },
            Expression::Variable { path, var_type } => match var_type {
                ExpressionType::Bool => Term::NamedConst {
                    sym: Symbol::PathName(path.clone()),
                    sort: Sort::Bool,
                },
                ExpressionType::F32 => Term::NamedConst {
                    sym: Symbol::PathName(path.clone()),
                    sort: Sort::F32,
                },
                ExpressionType::F64 => Term::NamedConst {
                    sym: Symbol::PathName(path.clone()),
                    sort: Sort::F64,
                },
                ExpressionType::NonPrimitive => {
                    let id = self.next_fresh_id();
                    Term::FreshConst { id, sort: Sort::Any }
                },
                _ => Term::NamedConst { sym: Symbol::PathName(path.clone()), sort: Sort::Int },
            },
            _ => {
                let id = self.next_fresh_id();
                Term::FreshConst { id, sort: Sort::Any }
            },
        }
    }

    /// The numeric view: the float-ness flag and a term that is
    /// floating-point-sorted exactly when the flag holds, integer-sorted
    /// otherwise.
    pub fn get_as_numeric_z3_ast(&mut self, expression: &Expression) -> (r: (bool, Term))
        requires
            ok_numeric(*expression),
        ensures
            r.0 == is_float_expr(*expression),
            r.1 == lower_numeric(*expression, old(self).fresh).0,
            final(self).fresh == lower_numeric(*expression, old(self).fresh).1,
            final(self).frames == old(self).frames,
        decreases *expression, rank_numeric(*expression),
    {
        match expression {
            Expression::Add { left, right } => {
                let (lf, left_ast) = self.get_as_numeric_z3_ast(&**left);
                let (rf, right_ast) = self.get_as_numeric_z3_ast(&**right);
                proof {
                    assert(lf == rf);
                }
                if lf {
                    (true, Term::FpAdd(Box::new(left_ast), Box::new(right_ast)))
                } else {
                    (false, Term::Add(Box::new(left_ast), Box::new(right_ast)))
                }
            },
            Expression::Div { left, right } => {
                let (lf, left_ast) = self.get_as_numeric_z3_ast(&**left);
                let (rf, right_ast) = self.get_as_numeric_z3_ast(&**right);
                proof {
                    assert(lf == rf);
                }
                if lf {
                    (true, Term::FpDiv(Box::new(left_ast), Box::new(right_ast)))
                } else {
                    (false, Term::Div(Box::new(left_ast), Box::new(right_ast)))
                }
            },
            Expression::Mul { left, right } => {
                let (lf, left_ast) = self.get_as_numeric_z3_ast(&**left);
                let (rf, right_ast) = self.get_as_numeric_z3_ast(&**right);
                proof {
                    assert(lf == rf);
                }
                if lf {
                    (true, Term::FpMul(Box::new(left_ast), Box::new(right_ast)))
                } else {
                    (false, Term::Mul(Box::new(left_ast), Box::new(right_ast)))
                }
            },
            Expression::Rem { left, right } => {
                let (lf, left_ast) = self.get_as_numeric_z3_ast(&**left);
                let (rf, right_ast) = self.get_as_numeric_z3_ast(&**right);
                proof {
                    assert(lf == rf);
                }
                if lf {
                    (true, Term::FpRem(Box::new(left_ast), Box::new(right_ast)))
                } else {
                    (false, Term::Rem(Box::new(left_ast), Box::new(right_ast)))
                }
            },
            Expression::Sub { left, right } => {
                let (lf, left_ast) = self.get_as_numeric_z3_ast(&**left);
                let (rf, right_ast) = self.get_as_numeric_z3_ast(&**right);
                proof {
                    assert(lf == rf);
                }
                if lf {
                    (true, Term::FpSub(Box::new(left_ast), Box::new(right_ast)))
                } else {
                    (false, Term::Sub(Box::new(left_ast), Box::new(right_ast)))
                }
            },
            Expression::And { .. }
            | Expression::Equals { .. }
            | Expression::GreaterOrEqual { .. }
            | Expression::GreaterThan { .. }
            | Expression::LessOrEqual { .. }
            | Expression::LessThan { .. }
            | Expression::Ne { .. }
            | Expression::Not { .. }
            | Expression::Or { .. } => {
                let ast = self.get_as_z3_ast(expression);
                (
                    false,
                    Term::Ite(
                        Box::new(ast),
                        Box::new(Term::IntLit(NumLit::Small(1))),
                        Box::new(Term::IntLit(NumLit::Small(0))),
                    ),
                )
            },
            Expression::BitAnd { .. }
            | Expression::BitOr { .. }
            | Expression::BitXor { .. }
            | Expression::Shl { .. }
            | Expression::Shr { .. } => {
                let ast = self.get_as_bv_z3_ast(expression, 128);
                (false, Term::Bv2Int(Box::new(ast)))
            },
            Expression::CompileTimeConstant(const_value) => match const_value {
                ConstantValue::False => (false, Term::IntLit(NumLit::Small(0))),
                ConstantValue::True => (false, Term::IntLit(NumLit::Small(1))),
                ConstantValue::F32(_) | ConstantValue::F64(_) => (
                    true,
                    self.get_as_z3_ast(expression),
                ),
                _ => (false, self.get_as_z3_ast(expression)),
            },
            Expression::ConditionalExpression { condition, consequent, alternate } => {
                let condition_ast = self.get_as_bool_z3_ast(&**condition);
                let (cf, consequent_ast) = self.get_as_numeric_z3_ast(&**consequent);
                let (af, alternate_ast) = self.get_as_numeric_z3_ast(&**alternate);
                proof {
                    assert(cf == af);
                }
                (
                    cf,
                    Term::Ite(
                        Box::new(condition_ast),
                        Box::new(consequent_ast),
                        Box::new(alternate_ast),
                    ),
                )
            },
            Expression::Neg { operand } => {
                let (is_float, operand_ast) = self.get_as_numeric_z3_ast(&**operand);
                if is_float {
                    (true, Term::FpNeg(Box::new(operand_ast)))
                } else {
                    (false, Term::UnaryMinus(Box::new(operand_ast)))
                }
            },
            Expression::Reference(path) => (
                false,
                Term::NamedConst { sym: Symbol::RefName(path.clone()), sort: Sort::Int },
            ),
            Expression::Variable { path, var_type } => match var_type {
                ExpressionType::Bool | ExpressionType::NonPrimitive => (
                    false,
                    Term::NamedConst { sym: Symbol::PathName(path.clone()), sort: Sort::Int },
                ),
                ExpressionType::F32 | ExpressionType::F64 => (true, self.get_as_z3_ast(expression)),
                _ => (false, self.get_as_z3_ast(expression)),
            },
            Expression::Top => {
                let id = self.next_fresh_id();
                (false, Term::FreshConst { id, sort: Sort::Int })
            },
            _ => (false, self.get_as_z3_ast(expression)),
        }
    }

    /// The boolean view: a bitwise result becomes a "not equal to zero"
    /// test, boolean constants become literals, an unknown value becomes a
    /// fresh boolean constant, and everything else delegates to the any
    /// view.
    pub fn get_as_bool_z3_ast(&mut self, expression: &Expression) -> (r: Term)
        requires
            ok_bool(*expression),
        ensures
            r == lower_bool(*expression, old(self).fresh).0,
            final(self).fresh == lower_bool(*expression, old(self).fresh).1,
            final(self).frames == old(self).frames,
        decreases *expression, rank_bool(*expression),
    {
        match expression {
            Expression::BitAnd { .. } | Expression::BitOr { .. } | Expression::BitXor { .. } => {
                let bv = self.get_as_bv_z3_ast(expression, 128);
                let i = Term::Bv2Int(Box::new(bv));
                let f = Term::Equal(Box::new(i), Box::new(Term::IntLit(NumLit::Small(0))));
                Term::Not(Box::new(f))
            },
            Expression::CompileTimeConstant(const_value) => match const_value {
                ConstantValue::False => Term::BoolLit(false),
                ConstantValue::True => Term::BoolLit(true),
                _ => self.get_as_z3_ast(expression),
            },
            Expression::Top => {
                let id = self.next_fresh_id();
                Term::FreshConst { id, sort: Sort::Bool }
            },
            _ => self.get_as_z3_ast(expression),
        }
    }

    /// The bit-vector view at an explicitly requested width.
    pub fn get_as_bv_z3_ast(&mut self, expression: &Expression, num_bits: u32) -> (r: Term)
        requires
            ok_bv(*expression),
        ensures
            r == lower_bv(*expression, num_bits, old(self).fresh).0,
            final(self).fresh == lower_bv(*expression, num_bits, old(self).fresh).1,
            final(self).frames == old(self).frames,
        decreases *expression, rank_bv(*expression),
    {
        match expression {
            Expression::And { .. }
            | Expression::Equals { .. }
            | Expression::GreaterOrEqual { .. }
            | Expression::GreaterThan { .. }
            | Expression::LessOrEqual { .. }
            | Expression::LessThan { .. }
            | Expression::Ne { .. }
            | Expression::Not { .. }
            | Expression::Or { .. } => {
                let ast = self.get_as_z3_ast(expression);
                // the any view lowers these to a boolean term, but the
                // caller wants a bit vector: select a one-or-zero pattern.
                let bv_one = Term::Int2Bv {
                    width: num_bits,
                    operand: Box::new(Term::IntLit(NumLit::Small(1))),
                };
                let bv_zero = Term::Int2Bv {
                    width: num_bits,
                    operand: Box::new(Term::IntLit(NumLit::Small(0))),
                };
                Term::Ite(Box::new(ast), Box::new(bv_one), Box::new(bv_zero))
            },
            Expression::BitAnd { left, right } => {
                let left_ast = self.get_as_bv_z3_ast(&**left, num_bits);
                let right_ast = self.get_as_bv_z3_ast(&**right, num_bits);
                Term::BvAnd(Box::new(left_ast), Box::new(right_ast))
            },
            Expression::BitOr { left, right } => {
                let left_ast = self.get_as_bv_z3_ast(&**left, num_bits);
                let right_ast = self.get_as_bv_z3_ast(&**right, num_bits);
                Term::BvOr(Box::new(left_ast), Box::new(right_ast))
            },
            Expression::BitXor { left, right } => {
                let left_ast = self.get_as_bv_z3_ast(&**left, num_bits);
                let right_ast = self.get_as_bv_z3_ast(&**right, num_bits);
                Term::BvXor(Box::new(left_ast), Box::new(right_ast))
            },
            Expression::CompileTimeConstant(..) => {
                let (f, num_ast) = self.get_as_numeric_z3_ast(expression);
                proof {
                    assert(!f);
                }
                Term::Int2Bv { width: num_bits, operand: Box::new(num_ast) }
            },
            Expression::ConditionalExpression { condition, consequent, alternate } => {
                let condition_ast = self.get_as_bool_z3_ast(&**condition);
                let consequent_ast = self.get_as_bv_z3_ast(&**consequent, num_bits);
                let alternate_ast = self.get_as_bv_z3_ast(&**alternate, num_bits);
                Term::Ite(
                    Box::new(condition_ast),
                    Box::new(consequent_ast),
                    Box::new(alternate_ast),
                )
            },
            Expression::Shl { left, right } => {
                let left_ast = self.get_as_bv_z3_ast(&**left, num_bits);
                let right_ast = self.get_as_bv_z3_ast(&**right, num_bits);
                Term::BvShl(Box::new(left_ast), Box::new(right_ast))
            },
            Expression::Shr { left, right, result_type } => {
                let left_ast = self.get_as_bv_z3_ast(&**left, num_bits);
                let right_ast = self.get_as_bv_z3_ast(&**right, num_bits);
                if result_type.is_signed_integer() {
                    Term::BvAshr(Box::new(left_ast), Box::new(right_ast))
                } else {
                    Term::BvLshr(Box::new(left_ast), Box::new(right_ast))
                }
            },
            Expression::Variable { path, .. } => Term::NamedConst {
                sym: Symbol::PathName(path.clone()),
                sort: Sort::BitVec(num_bits),
            },
            Expression::Top => {
                let id = self.next_fresh_id();
                Term::FreshConst { id, sort: Sort::BitVec(num_bits) }
            },
            _ => self.get_as_z3_ast(expression),
        }
    }
}

} // verus!
