//! The solver-term model that the encoder produces. Each variant stands for
//! exactly one term constructor of the underlying solver, so an unverified
//! backend can replay a `Term` into solver calls one for one. Term identity
//! is structural: two equal `Term` values denote the same solver term, and
//! in particular a named constant is identified by its symbol and sort.

use vstd::prelude::*;

verus! {

/// A solver sort tag: opaque ("any"), boolean, mathematical integer, the
/// two floating-point sorts, or a bit-vector sort of an explicit width.
#[derive(Clone, Copy, PartialEq, Eq, Structural, Debug)]
pub enum Sort {
    Any,
    Bool,
    Int,
    F32,
    F64,
    BitVec(u32),
}

/// The symbol of a named solver constant. A variable's symbol is the
/// textual form of its path; a reference's symbol is the same text marked
/// as a reference (the backend renders it with a `&` prefix), so that a
/// reference and a variable with the same path stay distinct symbols.
#[derive(PartialEq, Eq, Debug)]
pub enum Symbol {
    PathName(String),
    RefName(String),
}

/// An integer-sorted numeral, kept in the form the backend emits it:
/// a signed or unsigned 64-bit native numeral, or — for 128-bit constants
/// whose value escapes 64 bits — a decimal numeral string (rendered by
/// [`crate::numeral`]).
#[derive(Clone, Copy, PartialEq, Eq, Structural, Debug)]
pub enum NumLit {
    Small(i64),
    USmall(u64),
    BigI(i128),
    BigU(u128),
}

/// The mathematical value a numeral denotes.
pub open spec fn num_lit_value(n: NumLit) -> int {
    match n {
        NumLit::Small(v) => v as int,
        NumLit::USmall(v) => v as int,
        NumLit::BigI(v) => v as int,
        NumLit::BigU(v) => v as int,
    }
}

/// One solver term. Boolean, integer and floating-point literals;
/// named and fresh constants; the boolean, integer, floating-point and
/// bit-vector operators the encoder uses; and the conversions between
/// the integer and bit-vector sorts. Floating-point arithmetic is under
/// the fixed round-to-nearest-ties-to-even mode, which the backend
/// supplies. A fresh constant carries the session counter value that
/// created it: distinct ids are distinct unconstrained symbols.
#[derive(PartialEq, Eq, Debug)]
pub enum Term {
    BoolLit(bool),
    IntLit(NumLit),
    FpLit32(u32),
    FpLit64(u64),
    NamedConst { sym: Symbol, sort: Sort },
    FreshConst { id: u64, sort: Sort },
    Not(Box<Term>),
    And(Box<Term>, Box<Term>),
    Or(Box<Term>, Box<Term>),
    Equal(Box<Term>, Box<Term>),
    Ge(Box<Term>, Box<Term>),
    Gt(Box<Term>, Box<Term>),
    Le(Box<Term>, Box<Term>),
    Lt(Box<Term>, Box<Term>),
    Add(Box<Term>, Box<Term>),
    Sub(Box<Term>, Box<Term>),
    Mul(Box<Term>, Box<Term>),
    Div(Box<Term>, Box<Term>),
    Rem(Box<Term>, Box<Term>),
    UnaryMinus(Box<Term>),
    FpEq(Box<Term>, Box<Term>),
    FpGe(Box<Term>, Box<Term>),
    FpGt(Box<Term>, Box<Term>),
    FpLe(Box<Term>, Box<Term>),
    FpLt(Box<Term>, Box<Term>),
    FpIsNan(Box<Term>),
    FpAdd(Box<Term>, Box<Term>),
    FpSub(Box<Term>, Box<Term>),
    FpMul(Box<Term>, Box<Term>),
    FpDiv(Box<Term>, Box<Term>),
    FpRem(Box<Term>, Box<Term>),
    FpNeg(Box<Term>),
    Ite(Box<Term>, Box<Term>, Box<Term>),
    BvAnd(Box<Term>, Box<Term>),
    BvOr(Box<Term>, Box<Term>),
    BvXor(Box<Term>, Box<Term>),
    BvShl(Box<Term>, Box<Term>),
    BvLshr(Box<Term>, Box<Term>),
    BvAshr(Box<Term>, Box<Term>),
    BvAddNoOverflow { left: Box<Term>, right: Box<Term>, is_signed: bool },
    BvAddNoUnderflow { left: Box<Term>, right: Box<Term> },
    BvSubNoOverflow { left: Box<Term>, right: Box<Term> },
    BvSubNoUnderflow { left: Box<Term>, right: Box<Term>, is_signed: bool },
    BvMulNoOverflow { left: Box<Term>, right: Box<Term>, is_signed: bool },
    BvMulNoUnderflow { left: Box<Term>, right: Box<Term> },
    Int2Bv { width: u32, operand: Box<Term> },
    Bv2Int(Box<Term>),
}

impl Symbol {
    /// A copy that is the same symbol.
    pub fn duplicate(&self) -> (r: Symbol)
        ensures
            r == *self,
    {
        match self {
            Symbol::PathName(s) => Symbol::PathName(s.clone()),
            Symbol::RefName(s) => Symbol::RefName(s.clone()),
        }
    }
}

impl Term {
    /// A structurally equal copy: it denotes the same solver term.
    pub fn duplicate(&self) -> (r: Term)
        ensures
            r == *self,
        decreases *self,
    {
        match self {
            Term::BoolLit(b) => Term::BoolLit(*b),
            Term::IntLit(n) => Term::IntLit(*n),
            Term::FpLit32(b) => Term::FpLit32(*b),
            Term::FpLit64(b) => Term::FpLit64(*b),
            Term::NamedConst { sym, sort } => Term::NamedConst {
                sym: sym.duplicate(),
                sort: *sort,
            },
            Term::FreshConst { id, sort } => Term::FreshConst { id: *id, sort: *sort },
            Term::Not(t) => Term::Not(Box::new((**t).duplicate())),
            Term::And(l, r) => Term::And(
                Box::new((**l).duplicate()),
                Box::new((**r).duplicate()),
            ),
            Term::Or(l, r) => Term::Or(Box::new((**l).duplicate()), Box::new((**r).duplicate())),
            Term::Equal(l, r) => Term::Equal(
                Box::new((**l).duplicate()),
                Box::new((**r).duplicate()),
            ),
            Term::Ge(l, r) => Term::Ge(Box::new((**l).duplicate()), Box::new((**r).duplicate())),
            Term::Gt(l, r) => Term::Gt(Box::new((**l).duplicate()), Box::new((**r).duplicate())),
            Term::Le(l, r) => Term::Le(Box::new((**l).duplicate()), Box::new((**r).duplicate())),
            Term::Lt(l, r) => Term::Lt(Box::new((**l).duplicate()), Box::new((**r).duplicate())),
            Term::Add(l, r) => Term::Add(Box::new((**l).duplicate()), Box::new((**r).duplicate())),
            Term::Sub(l, r) => Term::Sub(Box::new((**l).duplicate()), Box::new((**r).duplicate())),
            Term::Mul(l, r) => Term::Mul(Box::new((**l).duplicate()), Box::new((**r).duplicate())),
            Term::Div(l, r) => Term::Div(Box::new((**l).duplicate()), Box::new((**r).duplicate())),
            Term::Rem(l, r) => Term::Rem(Box::new((**l).duplicate()), Box::new((**r).duplicate())),
            Term::UnaryMinus(t) => Term::UnaryMinus(Box::new((**t).duplicate())),
            Term::FpEq(l, r) => Term::FpEq(
                Box::new((**l).duplicate()),
                Box::new((**r).duplicate()),
            ),
            Term::FpGe(l, r) => Term::FpGe(
                Box::new((**l).duplicate()),
                Box::new((**r).duplicate()),
            ),
            Term::FpGt(l, r) => Term::FpGt(
                Box::new((**l).duplicate()),
                Box::new((**r).duplicate()),
            ),
            Term::FpLe(l, r) => Term::FpLe(
                Box::new((**l).duplicate()),
                Box::new((**r).duplicate()),
            ),
            Term::FpLt(l, r) => Term::FpLt(
                Box::new((**l).duplicate()),
                Box::new((**r).duplicate()),
            ),
            Term::FpIsNan(t) => Term::FpIsNan(Box::new((**t).duplicate())),
            Term::FpAdd(l, r) => Term::FpAdd(
                Box::new((**l).duplicate()),
                Box::new((**r).duplicate()),
            ),
            Term::FpSub(l, r) => Term::FpSub(
                Box::new((**l).duplicate()),
                Box::new((**r).duplicate()),
            ),
            Term::FpMul(l, r) => Term::FpMul(
                Box::new((**l).duplicate()),
                Box::new((**r).duplicate()),
            ),
            Term::FpDiv(l, r) => Term::FpDiv(
                Box::new((**l).duplicate()),
                Box::new((**r).duplicate()),
            ),
            Term::FpRem(l, r) => Term::FpRem(
                Box::new((**l).duplicate()),
                Box::new((**r).duplicate()),
            ),
            Term::FpNeg(t) => Term::FpNeg(Box::new((**t).duplicate())),
            Term::Ite(c, t, e) => Term::Ite(
                Box::new((**c).duplicate()),
                Box::new((**t).duplicate()),
                Box::new((**e).duplicate()),
            ),
            Term::BvAnd(l, r) => Term::BvAnd(
                Box::new((**l).duplicate()),
                Box::new((**r).duplicate()),
            ),
            Term::BvOr(l, r) => Term::BvOr(
                Box::new((**l).duplicate()),
                Box::new((**r).duplicate()),
            ),
            Term::BvXor(l, r) => Term::BvXor(
                Box::new((**l).duplicate()),
                Box::new((**r).duplicate()),
            ),
            Term::BvShl(l, r) => Term::BvShl(
                Box::new((**l).duplicate()),
                Box::new((**r).duplicate()),
            ),
            Term::BvLshr(l, r) => Term::BvLshr(
                Box::new((**l).duplicate()),
                Box::new((**r).duplicate()),
            ),
            Term::BvAshr(l, r) => Term::BvAshr(
                Box::new((**l).duplicate()),
                Box::new((**r).duplicate()),
            ),
            Term::BvAddNoOverflow { left, right, is_signed } => Term::BvAddNoOverflow {
                left: Box::new((**left).duplicate()),
                right: Box::new((**right).duplicate()),
                is_signed: *is_signed,
            },
            Term::BvAddNoUnderflow { left, right } => Term::BvAddNoUnderflow {
                left: Box::new((**left).duplicate()),
                right: Box::new((**right).duplicate()),
            },
            Term::BvSubNoOverflow { left, right } => Term::BvSubNoOverflow {
                left: Box::new((**left).duplicate()),
                right: Box::new((**right).duplicate()),
            },
            Term::BvSubNoUnderflow { left, right, is_signed } => Term::BvSubNoUnderflow {
                left: Box::new((**left).duplicate()),
                right: Box::new((**right).duplicate()),
                is_signed: *is_signed,
            },
            Term::BvMulNoOverflow { left, right, is_signed } => Term::BvMulNoOverflow {
                left: Box::new((**left).duplicate()),
                right: Box::new((**right).duplicate()),
                is_signed: *is_signed,
            },
            Term::BvMulNoUnderflow { left, right } => Term::BvMulNoUnderflow {
                left: Box::new((**left).duplicate()),
                right: Box::new((**right).duplicate()),
            },
            Term::Int2Bv { width, operand } => Term::Int2Bv {
                width: *width,
                operand: Box::new((**operand).duplicate()),
            },
            Term::Bv2Int(t) => Term::Bv2Int(Box::new((**t).duplicate())),
        }
    }
}

/// The sort of a term, read off its head constructor. An if-then-else
/// takes the sort of its first branch; the floating-point and bit-vector
/// operators take the sort of their left operand.
pub open spec fn sort_of(t: Term) -> Sort
    decreases t,
{
    match t {
        Term::BoolLit(_) => Sort::Bool,
        Term::IntLit(_) => Sort::Int,
        Term::FpLit32(_) => Sort::F32,
        Term::FpLit64(_) => Sort::F64,
        Term::NamedConst { sym: _, sort } => sort,
        Term::FreshConst { id: _, sort } => sort,
        Term::Not(_) => Sort::Bool,
        Term::And(_, _) => Sort::Bool,
        Term::Or(_, _) => Sort::Bool,
        Term::Equal(_, _) => Sort::Bool,
        Term::Ge(_, _) => Sort::Bool,
        Term::Gt(_, _) => Sort::Bool,
        Term::Le(_, _) => Sort::Bool,
        Term::Lt(_, _) => Sort::Bool,
        Term::Add(_, _) => Sort::Int,
        Term::Sub(_, _) => Sort::Int,
        Term::Mul(_, _) => Sort::Int,
        Term::Div(_, _) => Sort::Int,
        Term::Rem(_, _) => Sort::Int,
        Term::UnaryMinus(_) => Sort::Int,
        Term::FpEq(_, _) => Sort::Bool,
        Term::FpGe(_, _) => Sort::Bool,
        Term::FpGt(_, _) => Sort::Bool,
        Term::FpLe(_, _) => Sort::Bool,
        Term::FpLt(_, _) => Sort::Bool,
        Term::FpIsNan(_) => Sort::Bool,
        Term::FpAdd(l, _) => sort_of(*l),
        Term::FpSub(l, _) => sort_of(*l),
        Term::FpMul(l, _) => sort_of(*l),
        Term::FpDiv(l, _) => sort_of(*l),
        Term::FpRem(l, _) => sort_of(*l),
        Term::FpNeg(o) => sort_of(*o),
        Term::Ite(_, c, _) => sort_of(*c),
        Term::BvAnd(l, _) => sort_of(*l),
        Term::BvOr(l, _) => sort_of(*l),
        Term::BvXor(l, _) => sort_of(*l),
        Term::BvShl(l, _) => sort_of(*l),
        Term::BvLshr(l, _) => sort_of(*l),
        Term::BvAshr(l, _) => sort_of(*l),
        Term::BvAddNoOverflow { .. } => Sort::Bool,
        Term::BvAddNoUnderflow { .. } => Sort::Bool,
        Term::BvSubNoOverflow { .. } => Sort::Bool,
        Term::BvSubNoUnderflow { .. } => Sort::Bool,
        Term::BvMulNoOverflow { .. } => Sort::Bool,
        Term::BvMulNoUnderflow { .. } => Sort::Bool,
        Term::Int2Bv { width, operand: _ } => Sort::BitVec(width),
        Term::Bv2Int(_) => Sort::Int,
    }
}

} // verus!
