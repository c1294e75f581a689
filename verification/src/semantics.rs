//! A reference semantics for the term model: what a term denotes under an
//! interpretation of its named and fresh constants. The semantics is
//! partial on purpose — floating-point arithmetic and ordering, bit-vector
//! data operations and the remainder operator are left without a value —
//! but it pins down everything the encoder's laws speak about: literals,
//! constants, boolean structure, integer comparison and arithmetic, IEEE
//! equality against NaN, the overflow predicates, and the conversions
//! between the integer and bit-vector sorts.

use vstd::prelude::*;

use vstd::arithmetic::power2::pow2;

use crate::term::{num_lit_value, Sort, Symbol, Term};

verus! {

/// A floating-point value as the model sees it: a NaN, or one of the
/// non-NaN values keyed by its bit pattern with the two zeros identified.
/// The model says nothing about rounding; it only needs to tell NaNs from
/// numbers and numbers from one another.
pub enum FpValue {
    Nan,
    Num(int),
}

/// A value in one of the solver's sorts.
pub enum Value {
    Bool(bool),
    Int(int),
    Fp { double: bool, val: FpValue },
    Bits { width: u32, val: nat },
    Opaque(int),
}

/// The sort a value inhabits.
pub open spec fn value_sort(v: Value) -> Sort {
    match v {
        Value::Bool(_) => Sort::Bool,
        Value::Int(_) => Sort::Int,
        Value::Fp { double, .. } => if double {
            Sort::F64
        } else {
            Sort::F32
        },
        Value::Bits { width, .. } => Sort::BitVec(width),
        Value::Opaque(_) => Sort::Any,
    }
}

/// Whether a value inhabits the given sort; a bit-vector value must also
/// fit its width.
pub open spec fn value_has_sort(v: Value, s: Sort) -> bool {
    value_sort(v) == s && match v {
        Value::Bits { width, val } => val < pow2(width as nat),
        _ => true,
    }
}

/// An interpretation: one value per named constant (keyed by symbol and
/// sort, as the solver keys them) and one per fresh-constant id.
pub struct Env {
    pub vars: Map<(Symbol, Sort), Value>,
    pub fresh: Map<u64, Value>,
}

/// Whether a 32-bit pattern is an IEEE NaN: exponent all ones, mantissa
/// not zero.
pub open spec fn f32_is_nan_bits(bits: u32) -> bool {
    (bits >> 23) & 0xff == 0xff && bits & 0x7fffff != 0
}

/// Whether a 64-bit pattern is an IEEE NaN.
pub open spec fn f64_is_nan_bits(bits: u64) -> bool {
    (bits >> 52) & 0x7ff == 0x7ff && bits & 0xf_ffff_ffff_ffff != 0
}

/// The model key of a non-NaN 32-bit float: its pattern, with the negative
/// zero identified with the positive one.
pub open spec fn f32_value_key(bits: u32) -> int {
    if bits == 0x8000_0000 {
        0
    } else {
        bits as int
    }
}

/// The model key of a non-NaN 64-bit float.
pub open spec fn f64_value_key(bits: u64) -> int {
    if bits == 0x8000_0000_0000_0000 {
        0
    } else {
        bits as int
    }
}

/// The model value of a 32-bit float literal.
pub open spec fn fp_of_f32_bits(bits: u32) -> FpValue {
    if f32_is_nan_bits(bits) {
        FpValue::Nan
    } else {
        FpValue::Num(f32_value_key(bits))
    }
}

/// The model value of a 64-bit float literal.
pub open spec fn fp_of_f64_bits(bits: u64) -> FpValue {
    if f64_is_nan_bits(bits) {
        FpValue::Nan
    } else {
        FpValue::Num(f64_value_key(bits))
    }
}

/// IEEE (ordered) equality in the model: false whenever either side is a
/// NaN, key equality otherwise.
pub open spec fn fp_eq(a: FpValue, b: FpValue) -> bool {
    match (a, b) {
        (FpValue::Num(x), FpValue::Num(y)) => x == y,
        _ => false,
    }
}

/// The largest signed value of a bit-vector width (the width is at least
/// one).
pub open spec fn smax(w: nat) -> int {
    pow2((w - 1) as nat) - 1
}

/// The smallest signed value of a bit-vector width.
pub open spec fn smin(w: nat) -> int {
    -(pow2((w - 1) as nat) as int)
}

/// The two's-complement reading of a bit pattern of the given width.
pub open spec fn as_signed(w: nat, v: nat) -> int {
    if v < pow2((w - 1) as nat) {
        v as int
    } else {
        v as int - pow2(w)
    }
}

/// What a term denotes under an interpretation, where the model assigns a
/// value at all. `None` means either an ill-sorted term, a constant the
/// interpretation leaves out, or an operator outside the model.
pub open spec fn eval(env: Env, t: Term) -> Option<Value>
    decreases t,
{
    match t {
        Term::BoolLit(b) => Some(Value::Bool(b)),
        Term::IntLit(n) => Some(Value::Int(num_lit_value(n))),
        Term::FpLit32(bits) => Some(Value::Fp { double: false, val: fp_of_f32_bits(bits) }),
        Term::FpLit64(bits) => Some(Value::Fp { double: true, val: fp_of_f64_bits(bits) }),
        Term::NamedConst { sym, sort } => {
            if env.vars.dom().contains((sym, sort)) && value_has_sort(
                env.vars[(sym, sort)],
                sort,
            ) {
                Some(env.vars[(sym, sort)])
            } else {
                None
            }
        },
        Term::FreshConst { id, sort } => {
            if env.fresh.dom().contains(id) && value_has_sort(env.fresh[id], sort) {
                Some(env.fresh[id])
            } else {
                None
            }
        },
        Term::Not(x) => match eval(env, *x) {
            Some(Value::Bool(b)) => Some(Value::Bool(!b)),
            _ => None,
        },
        Term::And(l, r) => match (eval(env, *l), eval(env, *r)) {
            (Some(Value::Bool(a)), Some(Value::Bool(b))) => Some(Value::Bool(a && b)),
            _ => None,
        },
        Term::Or(l, r) => match (eval(env, *l), eval(env, *r)) {
            (Some(Value::Bool(a)), Some(Value::Bool(b))) => Some(Value::Bool(a || b)),
            _ => None,
        },
        Term::Equal(l, r) => match (eval(env, *l), eval(env, *r)) {
            (Some(a), Some(b)) => if value_sort(a) == value_sort(b) {
                Some(Value::Bool(a == b))
            } else {
                None
            },
            _ => None,
        },
        Term::Ge(l, r) => match (eval(env, *l), eval(env, *r)) {
            (Some(Value::Int(a)), Some(Value::Int(b))) => Some(Value::Bool(a >= b)),
            _ => None,
        },
        Term::Gt(l, r) => match (eval(env, *l), eval(env, *r)) {
            (Some(Value::Int(a)), Some(Value::Int(b))) => Some(Value::Bool(a > b)),
            _ => None,
        },
        Term::Le(l, r) => match (eval(env, *l), eval(env, *r)) {
            (Some(Value::Int(a)), Some(Value::Int(b))) => Some(Value::Bool(a <= b)),
            _ => None,
        },
        Term::Lt(l, r) => match (eval(env, *l), eval(env, *r)) {
            (Some(Value::Int(a)), Some(Value::Int(b))) => Some(Value::Bool(a < b)),
            _ => None,
        },
        Term::Add(l, r) => match (eval(env, *l), eval(env, *r)) {
            (Some(Value::Int(a)), Some(Value::Int(b))) => Some(Value::Int(a + b)),
            _ => None,
        },
        Term::Sub(l, r) => match (eval(env, *l), eval(env, *r)) {
            (Some(Value::Int(a)), Some(Value::Int(b))) => Some(Value::Int(a - b)),
            _ => None,
        },
        Term::Mul(l, r) => match (eval(env, *l), eval(env, *r)) {
            (Some(Value::Int(a)), Some(Value::Int(b))) => Some(Value::Int(a * b)),
            _ => None,
        },
        Term::Div(l, r) => match (eval(env, *l), eval(env, *r)) {
            // Euclidean division, as the solver's integer division; a zero
            // divisor is outside the model.
            (Some(Value::Int(a)), Some(Value::Int(b))) => if b != 0 {
                Some(Value::Int(a / b))
            } else {
                None
            },
            _ => None,
        },
        Term::Rem(_, _) => None,
        Term::UnaryMinus(x) => match eval(env, *x) {
            Some(Value::Int(a)) => Some(Value::Int(-a)),
            _ => None,
        },
        Term::FpEq(l, r) => match (eval(env, *l), eval(env, *r)) {
            (Some(Value::Fp { double: d1, val: a }), Some(Value::Fp { double: d2, val: b })) => {
                if d1 == d2 {
                    Some(Value::Bool(fp_eq(a, b)))
                } else {
                    None
                }
            },
            _ => None,
        },
        Term::FpGe(_, _) => None,
        Term::FpGt(_, _) => None,
        Term::FpLe(_, _) => None,
        Term::FpLt(_, _) => None,
        Term::FpIsNan(x) => match eval(env, *x) {
            Some(Value::Fp { val, .. }) => Some(Value::Bool(val == FpValue::Nan)),
            _ => None,
        },
        Term::FpAdd(_, _) => None,
        Term::FpSub(_, _) => None,
        Term::FpMul(_, _) => None,
        Term::FpDiv(_, _) => None,
        Term::FpRem(_, _) => None,
        Term::FpNeg(_) => None,
        Term::Ite(c, th, el) => match eval(env, *c) {
            Some(Value::Bool(true)) => eval(env, *th),
            Some(Value::Bool(false)) => eval(env, *el),
            _ => None,
        },
        Term::BvAnd(_, _) => None,
        Term::BvOr(_, _) => None,
        Term::BvXor(_, _) => None,
        Term::BvShl(_, _) => None,
        Term::BvLshr(_, _) => None,
        Term::BvAshr(_, _) => None,
        Term::BvAddNoOverflow { left, right, is_signed } => {
            match (eval(env, *left), eval(env, *right)) {
                (
                    Some(Value::Bits { width: w1, val: a }),
                    Some(Value::Bits { width: w2, val: b }),
                ) => if w1 == w2 && w1 >= 1 {
                    if is_signed {
                        Some(
                            Value::Bool(
                                as_signed(w1 as nat, a) + as_signed(w1 as nat, b) <= smax(
                                    w1 as nat,
                                ),
                            ),
                        )
                    } else {
                        Some(Value::Bool(a + b < pow2(w1 as nat)))
                    }
                } else {
                    None
                },
                _ => None,
            }
        },
        Term::BvAddNoUnderflow { left, right } => {
            match (eval(env, *left), eval(env, *right)) {
                (
                    Some(Value::Bits { width: w1, val: a }),
                    Some(Value::Bits { width: w2, val: b }),
                ) => if w1 == w2 && w1 >= 1 {
                    Some(
                        Value::Bool(
                            as_signed(w1 as nat, a) + as_signed(w1 as nat, b) >= smin(w1 as nat),
                        ),
                    )
                } else {
                    None
                },
                _ => None,
            }
        },
        Term::BvSubNoOverflow { left, right } => {
            match (eval(env, *left), eval(env, *right)) {
                (
                    Some(Value::Bits { width: w1, val: a }),
                    Some(Value::Bits { width: w2, val: b }),
                ) => if w1 == w2 && w1 >= 1 {
                    Some(
                        Value::Bool(
                            as_signed(w1 as nat, a) - as_signed(w1 as nat, b) <= smax(w1 as nat),
                        ),
                    )
                } else {
                    None
                },
                _ => None,
            }
        },
        Term::BvSubNoUnderflow { left, right, is_signed } => {
            match (eval(env, *left), eval(env, *right)) {
                (
                    Some(Value::Bits { width: w1, val: a }),
                    Some(Value::Bits { width: w2, val: b }),
                ) => if w1 == w2 && w1 >= 1 {
                    if is_signed {
                        Some(
                            Value::Bool(
                                as_signed(w1 as nat, a) - as_signed(w1 as nat, b) >= smin(
                                    w1 as nat,
                                ),
                            ),
                        )
                    } else {
                        Some(Value::Bool(a >= b))
                    }
                } else {
                    None
                },
                _ => None,
            }
        },
        Term::BvMulNoOverflow { left, right, is_signed } => {
            match (eval(env, *left), eval(env, *right)) {
                (
                    Some(Value::Bits { width: w1, val: a }),
                    Some(Value::Bits { width: w2, val: b }),
                ) => if w1 == w2 && w1 >= 1 {
                    if is_signed {
                        Some(
                            Value::Bool(
                                as_signed(w1 as nat, a) * as_signed(w1 as nat, b) <= smax(
                                    w1 as nat,
                                ),
                            ),
                        )
                    } else {
                        Some(Value::Bool(a * b < pow2(w1 as nat)))
                    }
                } else {
                    None
                },
                _ => None,
            }
        },
        Term::BvMulNoUnderflow { left, right } => {
            match (eval(env, *left), eval(env, *right)) {
                (
                    Some(Value::Bits { width: w1, val: a }),
                    Some(Value::Bits { width: w2, val: b }),
                ) => if w1 == w2 && w1 >= 1 {
                    Some(
                        Value::Bool(
                            as_signed(w1 as nat, a) * as_signed(w1 as nat, b) >= smin(w1 as nat),
                        ),
                    )
                } else {
                    None
                },
                _ => None,
            }
        },
        Term::Int2Bv { width, operand } => match eval(env, *operand) {
            Some(Value::Int(m)) => Some(
                Value::Bits { width, val: (m % (pow2(width as nat) as int)) as nat },
            ),
            _ => None,
        },
        Term::Bv2Int(x) => match eval(env, *x) {
            Some(Value::Bits { val, .. }) => Some(Value::Int(val as int)),
            _ => None,
        },
    }
}

/// Whether an interpretation makes every term of the sequence true.
pub open spec fn satisfies_all(env: Env, ts: Seq<Term>) -> bool {
    forall|i: int| 0 <= i < ts.len() ==> eval(env, ts[i]) == Some(Value::Bool(true))
}

/// Whether some interpretation makes every term of the sequence true.
pub open spec fn satisfiable(ts: Seq<Term>) -> bool {
    exists|env: Env| satisfies_all(env, ts)
}

} // verus!
