// The encoder views on concrete expressions: each test builds an
// expression tree, lowers it through a view, and compares the produced
// term with the exact term the encoding promises.

use z3_encoder::ir::{ConstantValue, Expression, ExpressionType};
use z3_encoder::term::{NumLit, Sort, Symbol, Term};
use z3_encoder::z3_solver::Z3Solver;

fn konst(c: ConstantValue) -> Expression {
    Expression::CompileTimeConstant(c)
}

fn int_var(name: &str) -> Expression {
    Expression::Variable { path: String::from(name), var_type: ExpressionType::I64 }
}

#[test]
fn bool_constants_in_bool_view() {
    let mut solver = Z3Solver::new();
    let t = solver.get_as_bool_z3_ast(&konst(ConstantValue::True));
    let f = solver.get_as_bool_z3_ast(&konst(ConstantValue::False));
    assert_eq!(t, Term::BoolLit(true));
    assert_eq!(f, Term::BoolLit(false));
}

#[test]
fn bool_constants_in_numeric_view() {
    let mut solver = Z3Solver::new();
    let (tf, tt) = solver.get_as_numeric_z3_ast(&konst(ConstantValue::True));
    let (ff, ft) = solver.get_as_numeric_z3_ast(&konst(ConstantValue::False));
    assert!(!tf);
    assert!(!ff);
    assert_eq!(tt, Term::IntLit(NumLit::Small(1)));
    assert_eq!(ft, Term::IntLit(NumLit::Small(0)));
}

#[test]
fn char_constant_widens_to_code_point() {
    let mut solver = Z3Solver::new();
    let t = solver.get_as_z3_ast(&konst(ConstantValue::Char('A')));
    assert_eq!(t, Term::IntLit(NumLit::Small(65)));
}

#[test]
fn i128_constant_small_uses_native_numeral() {
    let mut solver = Z3Solver::new();
    let t = solver.get_as_z3_ast(&konst(ConstantValue::I128(-42)));
    assert_eq!(t, Term::IntLit(NumLit::Small(-42)));
}

#[test]
fn i128_constant_large_uses_decimal_numeral() {
    let v: i128 = (i64::MAX as i128) + 1;
    let mut solver = Z3Solver::new();
    let t = solver.get_as_z3_ast(&konst(ConstantValue::I128(v)));
    assert_eq!(t, Term::IntLit(NumLit::BigI(v)));
}

#[test]
fn u128_constant_paths() {
    let mut solver = Z3Solver::new();
    let small = solver.get_as_z3_ast(&konst(ConstantValue::U128(7)));
    let big_val = (u64::MAX as u128) + 5;
    let big = solver.get_as_z3_ast(&konst(ConstantValue::U128(big_val)));
    assert_eq!(small, Term::IntLit(NumLit::USmall(7)));
    assert_eq!(big, Term::IntLit(NumLit::BigU(big_val)));
}

#[test]
fn float_constants_keep_bit_patterns() {
    let mut solver = Z3Solver::new();
    let f32_bits: u32 = 0x4048_f5c3;
    let f64_bits: u64 = 0x4009_21fb_5444_2d18;
    assert_eq!(solver.get_as_z3_ast(&konst(ConstantValue::F32(f32_bits))), Term::FpLit32(f32_bits));
    assert_eq!(solver.get_as_z3_ast(&konst(ConstantValue::F64(f64_bits))), Term::FpLit64(f64_bits));
}

#[test]
fn unrecognized_constant_becomes_fresh_opaque() {
    let mut solver = Z3Solver::new();
    let a = solver.get_as_z3_ast(&konst(ConstantValue::Other));
    let b = solver.get_as_z3_ast(&konst(ConstantValue::Other));
    assert_eq!(a, Term::FreshConst { id: 0, sort: Sort::Any });
    assert_eq!(b, Term::FreshConst { id: 1, sort: Sort::Any });
    assert_ne!(a, b);
}

#[test]
fn variable_sorts_follow_declared_type() {
    let mut solver = Z3Solver::new();
    let mk = |t: ExpressionType| Expression::Variable { path: String::from("p"), var_type: t };
    assert_eq!(
        solver.get_as_z3_ast(&mk(ExpressionType::Bool)),
        Term::NamedConst { sym: Symbol::PathName(String::from("p")), sort: Sort::Bool },
    );
    assert_eq!(
        solver.get_as_z3_ast(&mk(ExpressionType::U16)),
        Term::NamedConst { sym: Symbol::PathName(String::from("p")), sort: Sort::Int },
    );
    assert_eq!(
        solver.get_as_z3_ast(&mk(ExpressionType::F32)),
        Term::NamedConst { sym: Symbol::PathName(String::from("p")), sort: Sort::F32 },
    );
    assert_eq!(
        solver.get_as_z3_ast(&mk(ExpressionType::F64)),
        Term::NamedConst { sym: Symbol::PathName(String::from("p")), sort: Sort::F64 },
    );
    // a non-primitive variable is unconstrained: fresh, not named
    assert_eq!(
        solver.get_as_z3_ast(&mk(ExpressionType::NonPrimitive)),
        Term::FreshConst { id: 0, sort: Sort::Any },
    );
}

#[test]
fn same_path_same_type_is_same_symbol() {
    let mut solver = Z3Solver::new();
    let a = solver.get_as_z3_ast(&int_var("x"));
    let b = solver.get_as_z3_ast(&int_var("x"));
    assert_eq!(a, b);
}

#[test]
fn same_path_different_sort_is_different_symbol() {
    let mut solver = Z3Solver::new();
    let as_int = solver.get_as_z3_ast(&int_var("x"));
    let as_bv = solver.get_as_bv_z3_ast(&int_var("x"), 16);
    assert_ne!(as_int, as_bv);
    assert_eq!(
        as_bv,
        Term::NamedConst { sym: Symbol::PathName(String::from("x")), sort: Sort::BitVec(16) },
    );
}

#[test]
fn reference_is_integer_sorted_and_marked() {
    let mut solver = Z3Solver::new();
    let (f, t) = solver.get_as_numeric_z3_ast(&Expression::Reference(String::from("x")));
    assert!(!f);
    assert_eq!(t, Term::NamedConst { sym: Symbol::RefName(String::from("x")), sort: Sort::Int });
    // distinct from the variable of the same path
    let mut other = Z3Solver::new();
    assert_ne!(t, other.get_as_z3_ast(&int_var("x")));
}

#[test]
fn top_lowers_fresh_in_each_view() {
    let mut solver = Z3Solver::new();
    let (f, n) = solver.get_as_numeric_z3_ast(&Expression::Top);
    let b = solver.get_as_bool_z3_ast(&Expression::Top);
    let v = solver.get_as_bv_z3_ast(&Expression::Top, 8);
    assert!(!f);
    assert_eq!(n, Term::FreshConst { id: 0, sort: Sort::Int });
    assert_eq!(b, Term::FreshConst { id: 1, sort: Sort::Bool });
    assert_eq!(v, Term::FreshConst { id: 2, sort: Sort::BitVec(8) });
}

#[test]
fn unsupported_node_degrades_to_fresh_opaque() {
    let mut solver = Z3Solver::new();
    let t = solver.get_as_z3_ast(&Expression::Unsupported);
    assert_eq!(t, Term::FreshConst { id: 0, sort: Sort::Any });
}

#[test]
fn integer_comparison_terms() {
    let mut solver = Z3Solver::new();
    let gt = Expression::GreaterThan {
        left: Box::new(int_var("x")),
        right: Box::new(konst(ConstantValue::I128(5))),
    };
    let t = solver.get_as_smt_predicate(&gt);
    let x = Term::NamedConst { sym: Symbol::PathName(String::from("x")), sort: Sort::Int };
    assert_eq!(t, Term::Gt(Box::new(x), Box::new(Term::IntLit(NumLit::Small(5)))));
}

#[test]
fn float_ne_is_nan_inclusive_disjunction() {
    let mut solver = Z3Solver::new();
    let nan_bits: u32 = 0x7fc0_0000;
    let one_bits: u32 = 0x3f80_0000;
    let ne = Expression::Ne {
        left: Box::new(konst(ConstantValue::F32(nan_bits))),
        right: Box::new(konst(ConstantValue::F32(one_bits))),
    };
    let t = solver.get_as_z3_ast(&ne);
    let l = Term::FpLit32(nan_bits);
    let r = Term::FpLit32(one_bits);
    let expected = Term::Or(
        Box::new(Term::FpIsNan(Box::new(Term::FpLit32(nan_bits)))),
        Box::new(Term::Or(
            Box::new(Term::FpIsNan(Box::new(Term::FpLit32(one_bits)))),
            Box::new(Term::Not(Box::new(Term::FpEq(Box::new(l), Box::new(r))))),
        )),
    );
    assert_eq!(t, expected);
}

#[test]
fn float_equals_uses_ieee_equality() {
    let mut solver = Z3Solver::new();
    let a: u32 = 0x7fc0_0000;
    let b: u32 = 0x3f80_0000;
    let eq = Expression::Equals {
        left: Box::new(konst(ConstantValue::F32(a))),
        right: Box::new(konst(ConstantValue::F32(b))),
    };
    let t = solver.get_as_z3_ast(&eq);
    assert_eq!(
        t,
        Term::FpEq(Box::new(Term::FpLit32(a)), Box::new(Term::FpLit32(b))),
    );
}

#[test]
fn signed_add_overflow_predicate_shape() {
    let mut solver = Z3Solver::new();
    let e = Expression::AddOverflows {
        left: Box::new(konst(ConstantValue::I128(100))),
        right: Box::new(konst(ConstantValue::I128(100))),
        result_type: ExpressionType::I8,
    };
    let t = solver.get_as_z3_ast(&e);
    let hundred = || Box::new(Term::Int2Bv {
        width: 8,
        operand: Box::new(Term::IntLit(NumLit::Small(100))),
    });
    let expected = Term::Not(Box::new(Term::And(
        Box::new(Term::BvAddNoOverflow { left: hundred(), right: hundred(), is_signed: true }),
        Box::new(Term::BvAddNoUnderflow { left: hundred(), right: hundred() }),
    )));
    assert_eq!(t, expected);
}

#[test]
fn unsigned_add_overflow_checks_only_overflow() {
    let mut solver = Z3Solver::new();
    let e = Expression::AddOverflows {
        left: Box::new(konst(ConstantValue::U128(200))),
        right: Box::new(konst(ConstantValue::U128(100))),
        result_type: ExpressionType::U8,
    };
    let t = solver.get_as_z3_ast(&e);
    let bv = |v: u64| Box::new(Term::Int2Bv {
        width: 8,
        operand: Box::new(Term::IntLit(NumLit::USmall(v))),
    });
    let expected = Term::Not(Box::new(Term::BvAddNoOverflow {
        left: bv(200),
        right: bv(100),
        is_signed: false,
    }));
    assert_eq!(t, expected);
}

#[test]
fn signed_sub_overflow_predicate_shape() {
    let mut solver = Z3Solver::new();
    let e = Expression::SubOverflows {
        left: Box::new(konst(ConstantValue::I128(3))),
        right: Box::new(konst(ConstantValue::I128(4))),
        result_type: ExpressionType::I16,
    };
    let t = solver.get_as_z3_ast(&e);
    let bv = |v: i64| Box::new(Term::Int2Bv {
        width: 16,
        operand: Box::new(Term::IntLit(NumLit::Small(v))),
    });
    let expected = Term::Not(Box::new(Term::And(
        Box::new(Term::BvSubNoOverflow { left: bv(3), right: bv(4) }),
        Box::new(Term::BvSubNoUnderflow { left: bv(3), right: bv(4), is_signed: true }),
    )));
    assert_eq!(t, expected);
}

#[test]
fn shift_overflow_compares_amount_to_width() {
    let mut solver = Z3Solver::new();
    let e = Expression::ShlOverflows {
        left: Box::new(int_var("x")),
        right: Box::new(konst(ConstantValue::I128(40))),
        result_type: ExpressionType::I32,
    };
    let t = solver.get_as_z3_ast(&e);
    let expected = Term::Ge(
        Box::new(Term::IntLit(NumLit::Small(40))),
        Box::new(Term::IntLit(NumLit::Small(32))),
    );
    assert_eq!(t, expected);
}

#[test]
fn bitwise_ops_are_lowered_at_128_bits() {
    let mut solver = Z3Solver::new();
    let e = Expression::BitAnd {
        left: Box::new(konst(ConstantValue::U128(6))),
        right: Box::new(konst(ConstantValue::U128(3))),
    };
    let t = solver.get_as_z3_ast(&e);
    let bv = |v: u64| Box::new(Term::Int2Bv {
        width: 128,
        operand: Box::new(Term::IntLit(NumLit::USmall(v))),
    });
    assert_eq!(t, Term::BvAnd(bv(6), bv(3)));
}

#[test]
fn shr_uses_result_type_width_and_signedness() {
    let mut solver = Z3Solver::new();
    let signed = Expression::Shr {
        left: Box::new(konst(ConstantValue::I128(-8))),
        right: Box::new(konst(ConstantValue::I128(1))),
        result_type: ExpressionType::I8,
    };
    let t = solver.get_as_z3_ast(&signed);
    let bv = |v: i64| Box::new(Term::Int2Bv {
        width: 8,
        operand: Box::new(Term::IntLit(NumLit::Small(v))),
    });
    assert_eq!(t, Term::BvAshr(bv(-8), bv(1)));

    let unsigned = Expression::Shr {
        left: Box::new(konst(ConstantValue::U128(8))),
        right: Box::new(konst(ConstantValue::U128(1))),
        result_type: ExpressionType::U8,
    };
    let u = solver.get_as_z3_ast(&unsigned);
    let ubv = |v: u64| Box::new(Term::Int2Bv {
        width: 8,
        operand: Box::new(Term::IntLit(NumLit::USmall(v))),
    });
    assert_eq!(u, Term::BvLshr(ubv(8), ubv(1)));
}

#[test]
fn boolean_result_folds_to_one_or_zero_in_numeric_view() {
    let mut solver = Z3Solver::new();
    let e = Expression::And {
        left: Box::new(konst(ConstantValue::True)),
        right: Box::new(konst(ConstantValue::False)),
    };
    let (f, t) = solver.get_as_numeric_z3_ast(&e);
    assert!(!f);
    let expected = Term::Ite(
        Box::new(Term::And(Box::new(Term::BoolLit(true)), Box::new(Term::BoolLit(false)))),
        Box::new(Term::IntLit(NumLit::Small(1))),
        Box::new(Term::IntLit(NumLit::Small(0))),
    );
    assert_eq!(t, expected);
}

#[test]
fn bitwise_result_tested_against_zero_in_bool_view() {
    let mut solver = Z3Solver::new();
    let e = Expression::BitOr {
        left: Box::new(konst(ConstantValue::U128(1))),
        right: Box::new(konst(ConstantValue::U128(2))),
    };
    let t = solver.get_as_bool_z3_ast(&e);
    let bv = |v: u64| Box::new(Term::Int2Bv {
        width: 128,
        operand: Box::new(Term::IntLit(NumLit::USmall(v))),
    });
    let expected = Term::Not(Box::new(Term::Equal(
        Box::new(Term::Bv2Int(Box::new(Term::BvOr(bv(1), bv(2))))),
        Box::new(Term::IntLit(NumLit::Small(0))),
    )));
    assert_eq!(t, expected);
}

#[test]
fn boolean_shape_selected_into_bit_patterns_in_bv_view() {
    let mut solver = Z3Solver::new();
    let e = Expression::Not { operand: Box::new(konst(ConstantValue::False)) };
    let t = solver.get_as_bv_z3_ast(&e, 4);
    let expected = Term::Ite(
        Box::new(Term::Not(Box::new(Term::BoolLit(false)))),
        Box::new(Term::Int2Bv { width: 4, operand: Box::new(Term::IntLit(NumLit::Small(1))) }),
        Box::new(Term::Int2Bv { width: 4, operand: Box::new(Term::IntLit(NumLit::Small(0))) }),
    );
    assert_eq!(t, expected);
}

#[test]
fn conditional_expression_in_any_view() {
    let mut solver = Z3Solver::new();
    let e = Expression::ConditionalExpression {
        condition: Box::new(konst(ConstantValue::True)),
        consequent: Box::new(konst(ConstantValue::I128(1))),
        alternate: Box::new(konst(ConstantValue::I128(2))),
    };
    let t = solver.get_as_z3_ast(&e);
    let expected = Term::Ite(
        Box::new(Term::BoolLit(true)),
        Box::new(Term::IntLit(NumLit::Small(1))),
        Box::new(Term::IntLit(NumLit::Small(2))),
    );
    assert_eq!(t, expected);
}

#[test]
fn float_arithmetic_and_negation() {
    let mut solver = Z3Solver::new();
    let a: u32 = 0x3f80_0000;
    let b: u32 = 0x4000_0000;
    let sum = Expression::Add {
        left: Box::new(konst(ConstantValue::F32(a))),
        right: Box::new(konst(ConstantValue::F32(b))),
    };
    let (f, t) = solver.get_as_numeric_z3_ast(&sum);
    assert!(f);
    assert_eq!(
        t,
        Term::FpAdd(Box::new(Term::FpLit32(a)), Box::new(Term::FpLit32(b))),
    );
    let neg = Expression::Neg { operand: Box::new(konst(ConstantValue::F32(a))) };
    let (nf, nt) = solver.get_as_numeric_z3_ast(&neg);
    assert!(nf);
    assert_eq!(nt, Term::FpNeg(Box::new(Term::FpLit32(a))));

    let int_neg = Expression::Neg { operand: Box::new(konst(ConstantValue::I128(4))) };
    let (inf, int) = solver.get_as_numeric_z3_ast(&int_neg);
    assert!(!inf);
    assert_eq!(int, Term::UnaryMinus(Box::new(Term::IntLit(NumLit::Small(4)))));
}

#[test]
fn duplicate_is_structural_identity() {
    let mut solver = Z3Solver::new();
    let e = Expression::GreaterThan {
        left: Box::new(int_var("y")),
        right: Box::new(konst(ConstantValue::I128(0))),
    };
    let t = solver.get_as_z3_ast(&e);
    assert_eq!(t.duplicate(), t);
}
