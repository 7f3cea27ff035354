use vstd::prelude::*;

verus! {

/// Binary operators of the IR.
#[derive(Clone, Copy, Debug, PartialEq, Eq, Structural, Hash)]
pub enum BinOp {
    Add,
    Sub,
    Mul,
    Div,
    Mod,
    LShift,
    RShift,
    RShiftLog,
    Eq,
    Neq,
    Less,
    Leq,
    Greater,
    Geq,
    LogOr,
    LogAnd,
    BitOr,
    BitXor,
    BitAnd,
}

/// Unary operators of the IR.
#[derive(Clone, Copy, Debug, PartialEq, Eq, Structural, Hash)]
pub enum UnOp {
    Neg,
    LogNot,
    BitNot,
}

/// A comparison result as an IR value: 1 for true, 0 for false.
pub open spec fn bool_value(b: bool) -> i32 {
    if b { 1 } else { 0 }
}

/// A shift amount is valid when it lies in `0..32`.
pub open spec fn valid_shift(b: i32) -> bool {
    0 <= b < 32
}

/// The value of `a op b` on 32-bit two's-complement integers, or `None` where
/// the operation is undefined (division or remainder by zero, `MIN / -1`,
/// `MIN % -1`, a shift amount outside `0..32`).
pub open spec fn binop_value(op: BinOp, a: i32, b: i32) -> Option<i32> {
    match op {
        BinOp::Add => Some(a.wrapping_add(b)),
        BinOp::Sub => Some(a.wrapping_sub(b)),
        BinOp::Mul => Some(a.wrapping_mul(b)),
        BinOp::Div => a.checked_div(b),
        BinOp::Mod => a.checked_rem(b),
        BinOp::LShift => if valid_shift(b) { Some(a << (b as u32)) } else { None },
        BinOp::RShift => if valid_shift(b) { Some(a >> (b as u32)) } else { None },
        BinOp::RShiftLog => if valid_shift(b) {
            Some(((a as u32) >> (b as u32)) as i32)
        } else {
            None
        },
        BinOp::Eq => Some(bool_value(a == b)),
        BinOp::Neq => Some(bool_value(a != b)),
        BinOp::Less => Some(bool_value(a < b)),
        BinOp::Leq => Some(bool_value(a <= b)),
        BinOp::Greater => Some(bool_value(a > b)),
        BinOp::Geq => Some(bool_value(a >= b)),
        BinOp::LogOr => Some(a | b),
        BinOp::LogAnd => Some(a & b),
        BinOp::BitOr => Some(a | b),
        BinOp::BitXor => Some(a ^ b),
        BinOp::BitAnd => Some(a & b),
    }
}

/// The value of `op a` on 32-bit two's-complement integers.
pub open spec fn unop_value(op: UnOp, a: i32) -> i32 {
    match op {
        UnOp::Neg => (0i32).wrapping_sub(a),
        UnOp::BitNot => !a,
        UnOp::LogNot => a ^ 1,
    }
}

impl BinOp {
    /// Computes `a op b`; `None` where the result is undefined.
    pub fn eval(&self, a: i32, b: i32) -> (r: Option<i32>)
        ensures
            r == binop_value(*self, a, b),
    {
        match self {
            BinOp::Add => Some(a.wrapping_add(b)),
            BinOp::Sub => Some(a.wrapping_sub(b)),
            BinOp::Mul => Some(a.wrapping_mul(b)),
            BinOp::Div => a.checked_div(b),
            BinOp::Mod => a.checked_rem(b),
            BinOp::LShift => if 0 <= b && b < 32 { Some(a << (b as u32)) } else { None },
            BinOp::RShift => if 0 <= b && b < 32 { Some(a >> (b as u32)) } else { None },
            BinOp::RShiftLog => if 0 <= b && b < 32 {
                Some(((a as u32) >> (b as u32)) as i32)
            } else {
                None
            },
            BinOp::Eq => Some(if a == b { 1 } else { 0 }),
            BinOp::Neq => Some(if a != b { 1 } else { 0 }),
            BinOp::Less => Some(if a < b { 1 } else { 0 }),
            BinOp::Leq => Some(if a <= b { 1 } else { 0 }),
            BinOp::Greater => Some(if a > b { 1 } else { 0 }),
            BinOp::Geq => Some(if a >= b { 1 } else { 0 }),
            BinOp::LogOr => Some(a | b),
            BinOp::LogAnd => Some(a & b),
            BinOp::BitOr => Some(a | b),
            BinOp::BitXor => Some(a ^ b),
            BinOp::BitAnd => Some(a & b),
        }
    }

    /// The operator's spelling in the textual IR.
    pub fn symbol(&self) -> (r: &'static str)
        ensures
            r@ == binop_symbol(*self),
    {
        match self {
            BinOp::Add => "+",
            BinOp::Sub => "-",
            BinOp::Mul => "*",
            BinOp::Div => "/",
            BinOp::Mod => "%",
            BinOp::LShift => "<<",
            BinOp::RShift => ">>",
            BinOp::RShiftLog => ">>>",
            BinOp::Eq => "==",
            BinOp::Neq => "!=",
            BinOp::Less => "<",
            BinOp::Leq => "<=",
            BinOp::Greater => ">",
            BinOp::Geq => ">=",
            BinOp::LogOr => "||",
            BinOp::LogAnd => "&&",
            BinOp::BitOr => "|",
            BinOp::BitXor => "^",
            BinOp::BitAnd => "&",
        }
    }
}

/// The spelling of a binary operator in the textual IR.
pub open spec fn binop_symbol(op: BinOp) -> Seq<char> {
    match op {
        BinOp::Add => "+"@,
        BinOp::Sub => "-"@,
        BinOp::Mul => "*"@,
        BinOp::Div => "/"@,
        BinOp::Mod => "%"@,
        BinOp::LShift => "<<"@,
        BinOp::RShift => ">>"@,
        BinOp::RShiftLog => ">>>"@,
        BinOp::Eq => "=="@,
        BinOp::Neq => "!="@,
        BinOp::Less => "<"@,
        BinOp::Leq => "<="@,
        BinOp::Greater => ">"@,
        BinOp::Geq => ">="@,
        BinOp::LogOr => "||"@,
        BinOp::LogAnd => "&&"@,
        BinOp::BitOr => "|"@,
        BinOp::BitXor => "^"@,
        BinOp::BitAnd => "&"@,
    }
}

impl UnOp {
    /// Computes `op a`; total.
    pub fn eval(&self, a: i32) -> (r: i32)
        ensures
            r == unop_value(*self, a),
    {
        match self {
            UnOp::Neg => (0i32).wrapping_sub(a),
            UnOp::BitNot => !a,
            UnOp::LogNot => a ^ 1,
        }
    }
}

/// The spelling of a unary operator in the textual IR.
pub open spec fn unop_symbol(op: UnOp) -> Seq<char> {
    match op {
        UnOp::Neg => "-"@,
        UnOp::LogNot => "!"@,
        UnOp::BitNot => "~"@,
    }
}

impl UnOp {
    /// The operator's spelling in the textual IR.
    pub fn symbol(&self) -> (r: &'static str)
        ensures
            r@ == unop_symbol(*self),
    {
        match self {
            UnOp::Neg => "-",
            UnOp::LogNot => "!",
            UnOp::BitNot => "~",
        }
    }
}

/// Wrapping addition: `MIN + MIN` is 0.
pub proof fn lemma_min_plus_min()
    ensures
        binop_value(BinOp::Add, i32::MIN, i32::MIN) == Some(0i32),
{
}

/// Division and remainder by zero are undefined for every dividend, and so is
/// `MIN / -1`.
pub proof fn lemma_undefined_division(k: i32)
    ensures
        binop_value(BinOp::Div, k, 0) is None,
        binop_value(BinOp::Mod, k, 0) is None,
        binop_value(BinOp::Div, i32::MIN, -1i32) is None,
        binop_value(BinOp::Mod, i32::MIN, -1i32) is None,
{
}

} // verus!
