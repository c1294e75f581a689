//! The laws the encoder obeys, proved against the spec lowering of
//! [`crate::encode`] and the reference semantics of [`crate::semantics`]:
//! the literal views of the boolean constants, exactness of the integer
//! numeral paths, exactness of the synthesized signed add-overflow
//! predicate, the NaN-inclusive disequality of floats, symbol identity of
//! variables, distinctness of independently lowered unknowns, checkpoint
//! isolation of the assertion stack, and the end-to-end contradiction of
//! incompatible bounds on one variable.

use vstd::prelude::*;

use vstd::arithmetic::power2::pow2;

use crate::encode::{bump_id, is_float_expr, lower_any, lower_bool, lower_bv, lower_numeric};
use crate::ir::{ConstantValue, Expression, ExpressionType};
use crate::numeral::{dec_rep_signed, lemma_dec_rep_signed_value, lemma_dec_rep_value, numeral_value, dec_rep};
use crate::semantics::{
    as_signed, eval, f32_is_nan_bits, fp_of_f32_bits, satisfiable, satisfies_all, smax, smin,
    Env, FpValue, Value,
};
use crate::term::{NumLit, Sort, Symbol, Term};

verus! {

/// A term true under some interpretation is satisfiable as a singleton
/// constraint set.
pub proof fn lemma_eval_true_satisfiable(env: Env, t: Term)
    requires
        eval(env, t) == Some(Value::Bool(true)),
    ensures
        satisfiable(seq![t]),
{
    assert(seq![t][0] == t);
    assert(satisfies_all(env, seq![t]));
}

/// The boolean view lowers the boolean constants to the logical literals,
/// and the numeric view lowers them to the non-float integer one and zero;
/// neither draws a fresh constant.
pub proof fn lemma_boolean_constant_views(c: u64, env: Env)
    ensures
        lower_bool(Expression::CompileTimeConstant(ConstantValue::True), c) == (
            Term::BoolLit(true),
            c,
        ),
        lower_bool(Expression::CompileTimeConstant(ConstantValue::False), c) == (
            Term::BoolLit(false),
            c,
        ),
        eval(env, Term::BoolLit(true)) == Some(Value::Bool(true)),
        eval(env, Term::BoolLit(false)) == Some(Value::Bool(false)),
        !is_float_expr(Expression::CompileTimeConstant(ConstantValue::True)),
        !is_float_expr(Expression::CompileTimeConstant(ConstantValue::False)),
        lower_numeric(Expression::CompileTimeConstant(ConstantValue::True), c) == (
            Term::IntLit(NumLit::Small(1)),
            c,
        ),
        lower_numeric(Expression::CompileTimeConstant(ConstantValue::False), c) == (
            Term::IntLit(NumLit::Small(0)),
            c,
        ),
        eval(env, Term::IntLit(NumLit::Small(1))) == Some(Value::Int(1)),
        eval(env, Term::IntLit(NumLit::Small(0))) == Some(Value::Int(0)),
{
}

/// A 128-bit signed constant lowers, without drawing a fresh constant, to
/// a numeral denoting exactly its value: the native 64-bit numeral when
/// the value fits, the decimal numeral otherwise — and the decimal digits
/// rendered for the backend denote the same value.
pub proof fn lemma_i128_constant_exact(v: i128, c: u64, env: Env)
    ensures
        lower_any(Expression::CompileTimeConstant(ConstantValue::I128(v)), c).1 == c,
        eval(env, lower_any(Expression::CompileTimeConstant(ConstantValue::I128(v)), c).0)
            == Some(Value::Int(v as int)),
        i64::MIN <= v <= i64::MAX ==> lower_any(
            Expression::CompileTimeConstant(ConstantValue::I128(v)),
            c,
        ).0 == Term::IntLit(NumLit::Small(v as i64)),
        !(i64::MIN <= v <= i64::MAX) ==> lower_any(
            Expression::CompileTimeConstant(ConstantValue::I128(v)),
            c,
        ).0 == Term::IntLit(NumLit::BigI(v)),
        numeral_value(dec_rep_signed(v as int)) == v as int,
{
    lemma_dec_rep_signed_value(v as int);
}

/// The unsigned twin of [`lemma_i128_constant_exact`].
pub proof fn lemma_u128_constant_exact(v: u128, c: u64, env: Env)
    ensures
        lower_any(Expression::CompileTimeConstant(ConstantValue::U128(v)), c).1 == c,
        eval(env, lower_any(Expression::CompileTimeConstant(ConstantValue::U128(v)), c).0)
            == Some(Value::Int(v as int)),
        v <= u64::MAX ==> lower_any(Expression::CompileTimeConstant(ConstantValue::U128(v)), c).0
            == Term::IntLit(NumLit::USmall(v as u64)),
        v > u64::MAX ==> lower_any(Expression::CompileTimeConstant(ConstantValue::U128(v)), c).0
            == Term::IntLit(NumLit::BigU(v)),
        numeral_value(dec_rep(v as nat)) == v as int,
{
    lemma_dec_rep_value(v as nat);
    crate::numeral::lemma_dec_rep_digits(v as nat);
}

/// For every signed result type and every pair of operand bit patterns:
/// the lowered add-overflow check is true exactly when the mathematical
/// sum of the operands' signed readings escapes the signed range of the
/// result type's width.
pub proof fn lemma_add_overflows_signed_exact(
    env: Env,
    left: Expression,
    right: Expression,
    result_type: ExpressionType,
    c: u64,
    a: nat,
    b: nat,
)
    requires
        result_type.is_signed_integer(),
        eval(env, lower_bv(left, result_type.bit_length() as u32, c).0) == Some(
            Value::Bits { width: result_type.bit_length() as u32, val: a },
        ),
        eval(
            env,
            lower_bv(
                right,
                result_type.bit_length() as u32,
                lower_bv(left, result_type.bit_length() as u32, c).1,
            ).0,
        ) == Some(Value::Bits { width: result_type.bit_length() as u32, val: b }),
    ensures
        ({
            let e = Expression::AddOverflows {
                left: Box::new(left),
                right: Box::new(right),
                result_type,
            };
            let w = result_type.bit_length() as nat;
            let s = as_signed(w, a) + as_signed(w, b);
            eval(env, lower_any(e, c).0) == Some(
                Value::Bool(!(smin(w) <= s <= smax(w))),
            )
        }),
{
    let w32 = result_type.bit_length() as u32;
    let w = result_type.bit_length() as nat;
    assert(w32 >= 1);
    let e = Expression::AddOverflows {
        left: Box::new(left),
        right: Box::new(right),
        result_type,
    };
    let lt = lower_bv(left, w32, c).0;
    let c1 = lower_bv(left, w32, c).1;
    let rt = lower_bv(right, w32, c1).0;
    let no_over = Term::BvAddNoOverflow {
        left: Box::new(lt),
        right: Box::new(rt),
        is_signed: true,
    };
    let no_under = Term::BvAddNoUnderflow { left: Box::new(lt), right: Box::new(rt) };
    assert(lower_any(e, c).0 == Term::Not(
        Box::new(Term::And(Box::new(no_over), Box::new(no_under))),
    ));
    let s = as_signed(w, a) + as_signed(w, b);
    assert(eval(env, no_over) == Some(Value::Bool(s <= smax(w))));
    assert(eval(env, no_under) == Some(Value::Bool(s >= smin(w))));
    assert(eval(env, Term::And(Box::new(no_over), Box::new(no_under))) == Some(
        Value::Bool(s <= smax(w) && s >= smin(w)),
    ));
    assert(eval(env, lower_any(e, c).0) == Some(Value::Bool(!(smin(w) <= s <= smax(w)))));
}

/// The unsigned twin: the check is true exactly when the plain sum does
/// not fit the width.
pub proof fn lemma_add_overflows_unsigned_exact(
    env: Env,
    left: Expression,
    right: Expression,
    result_type: ExpressionType,
    c: u64,
    a: nat,
    b: nat,
)
    requires
        !result_type.is_signed_integer(),
        eval(env, lower_bv(left, result_type.bit_length() as u32, c).0) == Some(
            Value::Bits { width: result_type.bit_length() as u32, val: a },
        ),
        eval(
            env,
            lower_bv(
                right,
                result_type.bit_length() as u32,
                lower_bv(left, result_type.bit_length() as u32, c).1,
            ).0,
        ) == Some(Value::Bits { width: result_type.bit_length() as u32, val: b }),
    ensures
        ({
            let e = Expression::AddOverflows {
                left: Box::new(left),
                right: Box::new(right),
                result_type,
            };
            eval(env, lower_any(e, c).0) == Some(
                Value::Bool(a + b >= pow2(result_type.bit_length() as nat)),
            )
        }),
{
    let w32 = result_type.bit_length() as u32;
    assert(w32 >= 1);
    let e = Expression::AddOverflows {
        left: Box::new(left),
        right: Box::new(right),
        result_type,
    };
    let lt = lower_bv(left, w32, c).0;
    let c1 = lower_bv(left, w32, c).1;
    let rt = lower_bv(right, w32, c1).0;
    let no_over = Term::BvAddNoOverflow {
        left: Box::new(lt),
        right: Box::new(rt),
        is_signed: false,
    };
    assert(lower_any(e, c).0 == Term::Not(Box::new(no_over)));
    assert(eval(env, no_over) == Some(Value::Bool(a + b < pow2(w32 as nat))));
    assert(eval(env, lower_any(e, c).0) == Some(Value::Bool(!(a + b < pow2(w32 as nat)))));
}

/// Float disequality is NaN-inclusive: with a NaN on either side it holds
/// whatever the other operand is, while the `Equals` lowering of the same
/// pair is false — disequality is deliberately not the negation of IEEE
/// equality.
pub proof fn lemma_ne_nan(
    env: Env,
    left: Expression,
    right: Expression,
    c: u64,
    dbl: bool,
    lv: FpValue,
    rv: FpValue,
)
    requires
        is_float_expr(left),
        eval(env, lower_numeric(left, c).0) == Some(Value::Fp { double: dbl, val: lv }),
        eval(env, lower_numeric(right, lower_numeric(left, c).1).0) == Some(
            Value::Fp { double: dbl, val: rv },
        ),
        lv == FpValue::Nan || rv == FpValue::Nan,
    ensures
        eval(
            env,
            lower_any(Expression::Ne { left: Box::new(left), right: Box::new(right) }, c).0,
        ) == Some(Value::Bool(true)),
        eval(
            env,
            lower_any(Expression::Equals { left: Box::new(left), right: Box::new(right) }, c).0,
        ) == Some(Value::Bool(false)),
{
    let lt = lower_numeric(left, c).0;
    let c1 = lower_numeric(left, c).1;
    let rt = lower_numeric(right, c1).0;
    let fpeq = Term::FpEq(Box::new(lt), Box::new(rt));
    assert(eval(env, fpeq) == Some(Value::Bool(false)));
    let ne = Term::Not(Box::new(fpeq));
    assert(eval(env, ne) == Some(Value::Bool(true)));
    let l_nan = Term::FpIsNan(Box::new(lt));
    let r_nan = Term::FpIsNan(Box::new(rt));
    assert(eval(env, l_nan) == Some(Value::Bool(lv == FpValue::Nan)));
    assert(eval(env, r_nan) == Some(Value::Bool(rv == FpValue::Nan)));
    let inner = Term::Or(Box::new(r_nan), Box::new(ne));
    assert(eval(env, inner) == Some(Value::Bool(true)));
    let outer = Term::Or(Box::new(l_nan), Box::new(inner));
    assert(eval(env, outer) == Some(Value::Bool(true)));
    assert(lower_any(Expression::Ne { left: Box::new(left), right: Box::new(right) }, c).0
        == outer);
    assert(lower_any(Expression::Equals { left: Box::new(left), right: Box::new(right) }, c).0
        == fpeq);
}

/// With a NaN literal on one side, asserting the float disequality is
/// satisfiable whatever the other literal is, and asserting the equality
/// is unsatisfiable.
pub proof fn lemma_ne_nan_literals(nan_bits: u32, other_bits: u32, c: u64)
    requires
        f32_is_nan_bits(nan_bits),
    ensures
        ({
            let l = Expression::CompileTimeConstant(ConstantValue::F32(nan_bits));
            let r = Expression::CompileTimeConstant(ConstantValue::F32(other_bits));
            &&& satisfiable(
                seq![lower_any(Expression::Ne { left: Box::new(l), right: Box::new(r) }, c).0],
            )
            &&& !satisfiable(
                seq![lower_any(Expression::Equals { left: Box::new(l), right: Box::new(r) }, c).0],
            )
        }),
{
    let l = Expression::CompileTimeConstant(ConstantValue::F32(nan_bits));
    let r = Expression::CompileTimeConstant(ConstantValue::F32(other_bits));
    let ne_term = lower_any(Expression::Ne { left: Box::new(l), right: Box::new(r) }, c).0;
    let eq_term = lower_any(Expression::Equals { left: Box::new(l), right: Box::new(r) }, c).0;
    assert(is_float_expr(l));
    assert(lower_any(l, c) == (Term::FpLit32(nan_bits), c));
    assert(lower_numeric(l, c) == (Term::FpLit32(nan_bits), c));
    assert(lower_any(r, c) == (Term::FpLit32(other_bits), c));
    assert(lower_numeric(r, c) == (Term::FpLit32(other_bits), c));
    assert(fp_of_f32_bits(nan_bits) == FpValue::Nan);
    assert forall|env: Env|
        eval(env, ne_term) == Some(Value::Bool(true)) && eval(env, eq_term) == Some(
            Value::Bool(false),
        ) by {
        assert(eval(env, Term::FpLit32(nan_bits)) == Some(
            Value::Fp { double: false, val: FpValue::Nan },
        ));
        assert(eval(env, Term::FpLit32(other_bits)) == Some(
            Value::Fp { double: false, val: fp_of_f32_bits(other_bits) },
        ));
        lemma_ne_nan(env, l, r, c, false, FpValue::Nan, fp_of_f32_bits(other_bits));
    }
    let witness = Env {
        vars: Map::<(Symbol, Sort), Value>::empty(),
        fresh: Map::<u64, Value>::empty(),
    };
    lemma_eval_true_satisfiable(witness, ne_term);
    assert forall|env: Env| !satisfies_all(env, seq![eq_term]) by {
        assert(seq![eq_term][0] == eq_term);
        assert(eval(env, eq_term) == Some(Value::Bool(false)));
    }
}

/// Two variables with the same path and the same declared primitive type
/// lower to the same named constant — one solver symbol — whatever the
/// session counter stands at, the counter does not advance, and forcing
/// the two lowerings apart is unsatisfiable.
pub proof fn lemma_variable_identity(path: String, var_type: ExpressionType, c1: u64, c2: u64)
    requires
        var_type != ExpressionType::NonPrimitive,
    ensures
        lower_any(Expression::Variable { path, var_type }, c1).0 == lower_any(
            Expression::Variable { path, var_type },
            c2,
        ).0,
        lower_any(Expression::Variable { path, var_type }, c1).1 == c1,
        ({
            let v = lower_any(Expression::Variable { path, var_type }, c1).0;
            !satisfiable(seq![Term::Not(Box::new(Term::Equal(Box::new(v), Box::new(v))))])
        }),
{
    let v = lower_any(Expression::Variable { path, var_type }, c1).0;
    let distinct = Term::Not(Box::new(Term::Equal(Box::new(v), Box::new(v))));
    assert forall|env: Env| !satisfies_all(env, seq![distinct]) by {
        assert(seq![distinct][0] == distinct);
        if eval(env, v) is Some {
            assert(eval(env, Term::Equal(Box::new(v), Box::new(v))) == Some(Value::Bool(true)));
            assert(eval(env, distinct) == Some(Value::Bool(false)));
        } else {
            assert(eval(env, distinct) is None);
        }
    }
}

/// Two unknown values lowered independently through the numeric view are
/// distinct fresh constants, and asserting them unequal is satisfiable:
/// nothing ties one unknown to another.
pub proof fn lemma_top_distinguishable(c: u64)
    requires
        c < u64::MAX,
    ensures
        lower_numeric(Expression::Top, c).0 == (Term::FreshConst { id: c, sort: Sort::Int }),
        lower_numeric(Expression::Top, bump_id(c)).0 == (
            Term::FreshConst { id: (c + 1) as u64, sort: Sort::Int }
        ),
        lower_numeric(Expression::Top, c).0 != lower_numeric(Expression::Top, bump_id(c)).0,
        ({
            let first = lower_numeric(Expression::Top, c).0;
            let second = lower_numeric(Expression::Top, bump_id(c)).0;
            satisfiable(
                seq![Term::Not(Box::new(Term::Equal(Box::new(first), Box::new(second))))],
            )
        }),
{
    let first = lower_numeric(Expression::Top, c).0;
    let second = lower_numeric(Expression::Top, bump_id(c)).0;
    let distinct = Term::Not(Box::new(Term::Equal(Box::new(first), Box::new(second))));
    let cp1 = (c + 1) as u64;
    let witness = Env {
        vars: Map::<(Symbol, Sort), Value>::empty(),
        fresh: Map::<u64, Value>::empty().insert(c, Value::Int(0)).insert(cp1, Value::Int(1)),
    };
    assert(witness.fresh.dom().contains(c) && witness.fresh.dom().contains(cp1));
    assert(eval(witness, first) == Some(Value::Int(0)));
    assert(eval(witness, second) == Some(Value::Int(1)));
    let eq = Term::Equal(Box::new(first), Box::new(second));
    assert(eval(witness, eq) == Some(Value::Bool(false)));
    assert(eval(witness, distinct) == Some(Value::Bool(true)));
    lemma_eval_true_satisfiable(witness, distinct);
}

/// Checkpoint isolation: pushing a frame, asserting into it, and
/// backtracking restores the assertion stack — and with it satisfiability
/// — of the pre-push state. The frame algebra here is exactly what
/// [`crate::z3_solver::Z3Solver`]'s push, assert and backtrack contracts
/// state.
pub proof fn lemma_checkpoint_isolation(frames: Seq<Seq<Term>>, t: Term)
    ensures
        ({
            let pushed = frames.push(Seq::<Term>::empty());
            let with_assert = pushed.drop_last().push(pushed.last().push(t));
            &&& with_assert.drop_last() == frames
            &&& satisfiable(with_assert.drop_last().flatten()) == satisfiable(frames.flatten())
        }),
{
    let pushed = frames.push(Seq::<Term>::empty());
    let with_assert = pushed.drop_last().push(pushed.last().push(t));
    assert(pushed.drop_last() =~= frames);
    assert(with_assert.drop_last() =~= frames);
}

/// Asserting that one integer variable is both above five and below three
/// is unsatisfiable, while the first bound alone is satisfiable; the terms
/// are exactly what the predicate view produces for those comparisons.
pub proof fn lemma_contradictory_bounds(path: String, c: u64)
    ensures
        ({
            let x = Term::NamedConst { sym: Symbol::PathName(path), sort: Sort::Int };
            let gt5 = Term::Gt(Box::new(x), Box::new(Term::IntLit(NumLit::Small(5))));
            let lt3 = Term::Lt(Box::new(x), Box::new(Term::IntLit(NumLit::Small(3))));
            let var = Expression::Variable { path, var_type: ExpressionType::I64 };
            &&& lower_bool(
                Expression::GreaterThan {
                    left: Box::new(var),
                    right: Box::new(Expression::CompileTimeConstant(ConstantValue::I128(5))),
                },
                c,
            ) == (gt5, c)
            &&& lower_bool(
                Expression::LessThan {
                    left: Box::new(var),
                    right: Box::new(Expression::CompileTimeConstant(ConstantValue::I128(3))),
                },
                c,
            ) == (lt3, c)
            &&& !satisfiable(seq![gt5, lt3])
            &&& satisfiable(seq![gt5])
        }),
{
    let x = Term::NamedConst { sym: Symbol::PathName(path), sort: Sort::Int };
    let gt5 = Term::Gt(Box::new(x), Box::new(Term::IntLit(NumLit::Small(5))));
    let lt3 = Term::Lt(Box::new(x), Box::new(Term::IntLit(NumLit::Small(3))));
    let var = Expression::Variable { path, var_type: ExpressionType::I64 };
    let five = Expression::CompileTimeConstant(ConstantValue::I128(5));
    let three = Expression::CompileTimeConstant(ConstantValue::I128(3));
    assert(!is_float_expr(var));
    assert(lower_any(var, c) == (x, c));
    assert(lower_numeric(var, c) == (x, c));
    assert(lower_any(five, c) == (Term::IntLit(NumLit::Small(5)), c));
    assert(lower_numeric(five, c) == (Term::IntLit(NumLit::Small(5)), c));
    assert(lower_any(three, c) == (Term::IntLit(NumLit::Small(3)), c));
    assert(lower_numeric(three, c) == (Term::IntLit(NumLit::Small(3)), c));
    let gt_expr = Expression::GreaterThan { left: Box::new(var), right: Box::new(five) };
    let lt_expr = Expression::LessThan { left: Box::new(var), right: Box::new(three) };
    assert(lower_any(gt_expr, c) == (gt5, c));
    assert(lower_bool(gt_expr, c) == (gt5, c));
    assert(lower_any(lt_expr, c) == (lt3, c));
    assert(lower_bool(lt_expr, c) == (lt3, c));
    let both = seq![gt5, lt3];
    assert forall|env: Env| !satisfies_all(env, both) by {
        if satisfies_all(env, both) {
            assert(both[0] == gt5);
            assert(both[1] == lt3);
            assert(eval(env, gt5) == Some(Value::Bool(true)));
            assert(eval(env, lt3) == Some(Value::Bool(true)));
            assert(eval(env, Term::IntLit(NumLit::Small(5))) == Some(Value::Int(5)));
            assert(eval(env, Term::IntLit(NumLit::Small(3))) == Some(Value::Int(3)));
            let xv = eval(env, x);
            assert(xv matches Some(Value::Int(a)) && a > 5);
            assert(xv matches Some(Value::Int(a)) && a < 3);
            assert(false);
        }
    }
    let witness = Env {
        vars: Map::<(Symbol, Sort), Value>::empty().insert(
            (Symbol::PathName(path), Sort::Int),
            Value::Int(6),
        ),
        fresh: Map::<u64, Value>::empty(),
    };
    assert(eval(witness, x) == Some(Value::Int(6)));
    assert(eval(witness, Term::IntLit(NumLit::Small(5))) == Some(Value::Int(5)));
    assert(eval(witness, gt5) == Some(Value::Bool(true)));
    lemma_eval_true_satisfiable(witness, gt5);
}

/// The end-to-end overflow scenario: at the signed eight-bit type, the
/// add-overflow check of one hundred plus one hundred is true (asserting
/// it is satisfiable), while for one plus two it is false (asserting it is
/// unsatisfiable).
pub proof fn lemma_add_overflow_scenarios(c: u64)
    ensures
        ({
            let overflowing = Expression::AddOverflows {
                left: Box::new(Expression::CompileTimeConstant(ConstantValue::I128(100))),
                right: Box::new(Expression::CompileTimeConstant(ConstantValue::I128(100))),
                result_type: ExpressionType::I8,
            };
            satisfiable(seq![lower_any(overflowing, c).0])
        }),
        ({
            let fitting = Expression::AddOverflows {
                left: Box::new(Expression::CompileTimeConstant(ConstantValue::I128(1))),
                right: Box::new(Expression::CompileTimeConstant(ConstantValue::I128(2))),
                result_type: ExpressionType::I8,
            };
            !satisfiable(seq![lower_any(fitting, c).0])
        }),
{
    vstd::arithmetic::power2::lemma2_to64();
    let hundred = Expression::CompileTimeConstant(ConstantValue::I128(100));
    let one = Expression::CompileTimeConstant(ConstantValue::I128(1));
    let two = Expression::CompileTimeConstant(ConstantValue::I128(2));
    let overflowing = Expression::AddOverflows {
        left: Box::new(hundred),
        right: Box::new(hundred),
        result_type: ExpressionType::I8,
    };
    let fitting = Expression::AddOverflows {
        left: Box::new(one),
        right: Box::new(two),
        result_type: ExpressionType::I8,
    };
    let witness = Env {
        vars: Map::<(Symbol, Sort), Value>::empty(),
        fresh: Map::<u64, Value>::empty(),
    };
    assert(pow2(8) == 256 && pow2(7) == 128);
    assert(lower_any(hundred, c) == (Term::IntLit(NumLit::Small(100)), c));
    assert(lower_numeric(hundred, c) == (Term::IntLit(NumLit::Small(100)), c));
    assert(lower_bv(hundred, 8, c) == (
        Term::Int2Bv { width: 8, operand: Box::new(Term::IntLit(NumLit::Small(100))) },
        c,
    ));
    assert(eval(witness, Term::IntLit(NumLit::Small(100))) == Some(Value::Int(100)));
    assert(eval(witness, lower_bv(hundred, 8, c).0) == Some(Value::Bits { width: 8, val: 100 }))
        by {
        assert((100int % 256int) as nat == 100);
    }
    lemma_add_overflows_signed_exact(witness, hundred, hundred, ExpressionType::I8, c, 100, 100);
    assert(as_signed(8, 100) == 100);
    assert(smax(8) == 127);
    assert(eval(witness, lower_any(overflowing, c).0) == Some(Value::Bool(true)));
    lemma_eval_true_satisfiable(witness, lower_any(overflowing, c).0);
    assert(lower_any(one, c) == (Term::IntLit(NumLit::Small(1)), c));
    assert(lower_numeric(one, c) == (Term::IntLit(NumLit::Small(1)), c));
    assert(lower_bv(one, 8, c) == (
        Term::Int2Bv { width: 8, operand: Box::new(Term::IntLit(NumLit::Small(1))) },
        c,
    ));
    assert(lower_any(two, c) == (Term::IntLit(NumLit::Small(2)), c));
    assert(lower_numeric(two, c) == (Term::IntLit(NumLit::Small(2)), c));
    assert(lower_bv(two, 8, c) == (
        Term::Int2Bv { width: 8, operand: Box::new(Term::IntLit(NumLit::Small(2))) },
        c,
    ));
    assert forall|env: Env| !satisfies_all(env, seq![lower_any(fitting, c).0]) by {
        assert(eval(env, Term::IntLit(NumLit::Small(1))) == Some(Value::Int(1)));
        assert(eval(env, Term::IntLit(NumLit::Small(2))) == Some(Value::Int(2)));
        assert(eval(env, lower_bv(one, 8, c).0) == Some(Value::Bits { width: 8, val: 1 })) by {
            assert((1int % 256int) as nat == 1);
        }
        assert(eval(env, lower_bv(two, 8, lower_bv(one, 8, c).1).0) == Some(
            Value::Bits { width: 8, val: 2 },
        )) by {
            assert((2int % 256int) as nat == 2);
        }
        lemma_add_overflows_signed_exact(env, one, two, ExpressionType::I8, c, 1, 2);
        assert(as_signed(8, 1) == 1);
        assert(as_signed(8, 2) == 2);
        assert(smin(8) == -128);
        assert(eval(env, lower_any(fitting, c).0) == Some(Value::Bool(false)));
        assert(seq![lower_any(fitting, c).0][0] == lower_any(fitting, c).0);
    }
}

} // verus!
