//! The expression tree that the encoder consumes: a tagged union of
//! operators over constants, variables and fully unknown values, plus the
//! small type descriptor (bit width, signedness) that checked arithmetic
//! and shift operators carry.

use vstd::prelude::*;

verus! {

/// The declared type of a variable, or the result type of a checked
/// arithmetic or shift operator. The encoder reads two things from it:
/// the bit width and whether the type is a signed integer.
#[derive(Clone, Copy, PartialEq, Eq, Structural, Debug)]
pub enum ExpressionType {
    Bool,
    Char,
    F32,
    F64,
    I8,
    I16,
    I32,
    I64,
    I128,
    Isize,
    U8,
    U16,
    U32,
    U64,
    U128,
    Usize,
    NonPrimitive,
}

impl ExpressionType {
    /// The width, in bits, of a value of this type.
    pub open spec fn spec_bit_length(self) -> u8 {
        match self {
            ExpressionType::Bool => 1,
            ExpressionType::Char => 16,
            ExpressionType::F32 => 32,
            ExpressionType::F64 => 64,
            ExpressionType::I8 => 8,
            ExpressionType::I16 => 16,
            ExpressionType::I32 => 32,
            ExpressionType::I64 => 64,
            ExpressionType::I128 => 128,
            ExpressionType::Isize => 64,
            ExpressionType::U8 => 8,
            ExpressionType::U16 => 16,
            ExpressionType::U32 => 32,
            ExpressionType::U64 => 64,
            ExpressionType::U128 => 128,
            ExpressionType::Usize => 64,
            ExpressionType::NonPrimitive => 128,
        }
    }

    #[verifier::when_used_as_spec(spec_bit_length)]
    pub fn bit_length(self) -> (r: u8)
        ensures
            r == self.spec_bit_length(),
    {
        match self {
            ExpressionType::Bool => 1,
            ExpressionType::Char => 16,
            ExpressionType::F32 => 32,
            ExpressionType::F64 => 64,
            ExpressionType::I8 => 8,
            ExpressionType::I16 => 16,
            ExpressionType::I32 => 32,
            ExpressionType::I64 => 64,
            ExpressionType::I128 => 128,
            ExpressionType::Isize => 64,
            ExpressionType::U8 => 8,
            ExpressionType::U16 => 16,
            ExpressionType::U32 => 32,
            ExpressionType::U64 => 64,
            ExpressionType::U128 => 128,
            ExpressionType::Usize => 64,
            ExpressionType::NonPrimitive => 128,
        }
    }

    /// Whether the type is a signed, fixed-width integer type.
    pub open spec fn spec_is_signed_integer(self) -> bool {
        match self {
            ExpressionType::I8
            | ExpressionType::I16
            | ExpressionType::I32
            | ExpressionType::I64
            | ExpressionType::I128
            | ExpressionType::Isize => true,
            _ => false,
        }
    }

    #[verifier::when_used_as_spec(spec_is_signed_integer)]
    pub fn is_signed_integer(self) -> (r: bool)
        ensures
            r == self.spec_is_signed_integer(),
    {
        match self {
            ExpressionType::I8
            | ExpressionType::I16
            | ExpressionType::I32
            | ExpressionType::I64
            | ExpressionType::I128
            | ExpressionType::Isize => true,
            _ => false,
        }
    }
}

/// A literal from the constant-folding domain of the expression tree.
/// Floating-point literals carry their raw bit pattern, so that this
/// crate holds no floating-point value itself; a character is widened
/// to its 16-bit code point by the encoder. A constant kind the encoder
/// does not interpret appears as `Other` and is lowered to a fresh
/// opaque term.
#[derive(Clone, Copy, PartialEq, Eq, Structural, Debug)]
pub enum ConstantValue {
    True,
    False,
    Char(char),
    I128(i128),
    U128(u128),
    F32(u32),
    F64(u64),
    Other,
}

/// One node of the expression tree. Children are owned subtrees read by
/// reference; the encoder never mutates a node. `Top` is the fully unknown
/// value: each occurrence lowers to a distinct fresh constant. `Unsupported`
/// stands for any node shape the encoder does not recognize; it degrades to
/// a fresh opaque constant rather than failing.
#[derive(PartialEq, Eq, Debug)]
pub enum Expression {
    Add { left: Box<Expression>, right: Box<Expression> },
    AddOverflows { left: Box<Expression>, right: Box<Expression>, result_type: ExpressionType },
    And { left: Box<Expression>, right: Box<Expression> },
    BitAnd { left: Box<Expression>, right: Box<Expression> },
    BitOr { left: Box<Expression>, right: Box<Expression> },
    BitXor { left: Box<Expression>, right: Box<Expression> },
    CompileTimeConstant(ConstantValue),
    ConditionalExpression {
        condition: Box<Expression>,
        consequent: Box<Expression>,
        alternate: Box<Expression>,
    },
    Div { left: Box<Expression>, right: Box<Expression> },
    Equals { left: Box<Expression>, right: Box<Expression> },
    GreaterOrEqual { left: Box<Expression>, right: Box<Expression> },
    GreaterThan { left: Box<Expression>, right: Box<Expression> },
    LessOrEqual { left: Box<Expression>, right: Box<Expression> },
    LessThan { left: Box<Expression>, right: Box<Expression> },
    Mul { left: Box<Expression>, right: Box<Expression> },
    MulOverflows { left: Box<Expression>, right: Box<Expression>, result_type: ExpressionType },
    Ne { left: Box<Expression>, right: Box<Expression> },
    Neg { operand: Box<Expression> },
    Not { operand: Box<Expression> },
    Or { left: Box<Expression>, right: Box<Expression> },
    Reference(String),
    Rem { left: Box<Expression>, right: Box<Expression> },
    Shl { left: Box<Expression>, right: Box<Expression> },
    ShlOverflows { left: Box<Expression>, right: Box<Expression>, result_type: ExpressionType },
    Shr { left: Box<Expression>, right: Box<Expression>, result_type: ExpressionType },
    ShrOverflows { left: Box<Expression>, right: Box<Expression>, result_type: ExpressionType },
    Sub { left: Box<Expression>, right: Box<Expression> },
    SubOverflows { left: Box<Expression>, right: Box<Expression>, result_type: ExpressionType },
    Top,
    Variable { path: String, var_type: ExpressionType },
    Unsupported,
}

} // verus!
