use vstd::prelude::*;

use crate::lexer::Token;

verus! {

/// A byte range `start..end` of the source.
#[derive(Clone, Copy, Debug, PartialEq, Eq, Structural)]
pub struct Span {
    pub start: usize,
    pub end: usize,
}

/// The kinds of parse errors.
#[derive(Clone, Debug, PartialEq, Eq)]
pub enum ParseErrorKind {
    /// The text that starts no instruction.
    UnknownInstr(String),
    InvalidFuncName(String),
    FuncNeedBlock,
    /// Expected the first token, found the second.
    NoMatch(Token, Token),
    NoTemp(Token),
    NoBlock(Token),
    NoName(Token),
    InvalidOperand,
    EOF,
}

/// A parse error: its kind and the source it points at.
#[derive(Clone, Debug, PartialEq, Eq)]
pub struct ParseError(pub ParseErrorKind, pub Span);

/// A parse error kind as a mathematical value.
pub enum ErrKindV {
    UnknownInstr(Seq<char>),
    InvalidFuncName(Seq<char>),
    FuncNeedBlock,
    NoMatch(Token, Token),
    NoTemp(Token),
    NoBlock(Token),
    NoName(Token),
    InvalidOperand,
    EOF,
}

/// A parse error as a mathematical value.
pub struct ParseErrorV {
    pub kind: ErrKindV,
    pub span: Span,
}

impl View for ParseErrorKind {
    type V = ErrKindV;

    open spec fn view(&self) -> ErrKindV {
        match self {
            ParseErrorKind::UnknownInstr(s) => ErrKindV::UnknownInstr(s@),
            ParseErrorKind::InvalidFuncName(s) => ErrKindV::InvalidFuncName(s@),
            ParseErrorKind::FuncNeedBlock => ErrKindV::FuncNeedBlock,
            ParseErrorKind::NoMatch(a, b) => ErrKindV::NoMatch(*a, *b),
            ParseErrorKind::NoTemp(t) => ErrKindV::NoTemp(*t),
            ParseErrorKind::NoBlock(t) => ErrKindV::NoBlock(*t),
            ParseErrorKind::NoName(t) => ErrKindV::NoName(*t),
            ParseErrorKind::InvalidOperand => ErrKindV::InvalidOperand,
            ParseErrorKind::EOF => ErrKindV::EOF,
        }
    }
}

impl View for ParseError {
    type V = ParseErrorV;

    open spec fn view(&self) -> ParseErrorV {
        ParseErrorV { kind: self.0@, span: self.1 }
    }
}

/// Code of a parse error kind.
pub open spec fn parse_code(k: ErrKindV) -> u64 {
    match k {
        ErrKindV::UnknownInstr(_) => 0,
        ErrKindV::InvalidFuncName(_) => 1,
        ErrKindV::FuncNeedBlock => 2,
        ErrKindV::NoMatch(_, _) => 94,
        ErrKindV::NoTemp(_) => 95,
        ErrKindV::NoBlock(_) => 96,
        ErrKindV::NoName(_) => 97,
        ErrKindV::InvalidOperand => 98,
        ErrKindV::EOF => 99,
    }
}

impl ParseError {
    /// The error's code.
    pub fn code(&self) -> (r: u64)
        ensures
            r == parse_code(self@.kind),
    {
        match &self.0 {
            ParseErrorKind::UnknownInstr(_) => 0,
            ParseErrorKind::InvalidFuncName(_) => 1,
            ParseErrorKind::FuncNeedBlock => 2,
            ParseErrorKind::NoMatch(_, _) => 94,
            ParseErrorKind::NoTemp(_) => 95,
            ParseErrorKind::NoBlock(_) => 96,
            ParseErrorKind::NoName(_) => 97,
            ParseErrorKind::InvalidOperand => 98,
            ParseErrorKind::EOF => 99,
        }
    }

    /// The error's headline.
    pub fn message(&self) -> (r: &'static str)
        ensures
            self@.kind is UnknownInstr ==> r@ == "Unknown or Invalid Instruction(s)"@,
            self@.kind is InvalidFuncName ==> r@ == "Invalid Expected Function Name(s)"@,
            self@.kind is FuncNeedBlock ==> r@ == "Function(s) Need at Least 1 Block"@,
            self@.kind is NoMatch ==> r@ == "No Match"@,
            self@.kind is NoTemp ==> r@ == "Require a Temp Label"@,
            self@.kind is NoBlock ==> r@ == "Require a Block Label"@,
            self@.kind is NoName ==> r@ == "Require a Name Label"@,
            self@.kind is InvalidOperand ==> r@ == "Invalid Operand"@,
            self@.kind is EOF ==> r@ == "Reached End of File"@,
    {
        match &self.0 {
            ParseErrorKind::UnknownInstr(_) => "Unknown or Invalid Instruction(s)",
            ParseErrorKind::InvalidFuncName(_) => "Invalid Expected Function Name(s)",
            ParseErrorKind::FuncNeedBlock => "Function(s) Need at Least 1 Block",
            ParseErrorKind::NoMatch(_, _) => "No Match",
            ParseErrorKind::NoTemp(_) => "Require a Temp Label",
            ParseErrorKind::NoBlock(_) => "Require a Block Label",
            ParseErrorKind::NoName(_) => "Require a Name Label",
            ParseErrorKind::InvalidOperand => "Invalid Operand",
            ParseErrorKind::EOF => "Reached End of File",
        }
    }

    /// The explanatory note, where there is one.
    pub fn note(&self) -> (r: Option<&'static str>)
        ensures
            self@.kind is UnknownInstr ==> (r matches Some(s) && s@
                == "See the format description for the valid instructions."@),
            self@.kind is InvalidFuncName ==> (r matches Some(s) && s@
                == "Invalid Expected Function Name(s)"@),
            self@.kind is FuncNeedBlock ==> (r matches Some(s) && s@
                == "Function(s) Need at Least 1 Block"@),
            self@.kind is EOF ==> (r matches Some(s) && s@ == "Reached End of File"@),
            (self@.kind is NoMatch || self@.kind is NoTemp || self@.kind is NoBlock
                || self@.kind is NoName || self@.kind is InvalidOperand) ==> r is None,
    {
        match &self.0 {
            ParseErrorKind::UnknownInstr(_) => Some("See the format description for the valid instructions."),
            ParseErrorKind::InvalidFuncName(_) => Some("Invalid Expected Function Name(s)"),
            ParseErrorKind::FuncNeedBlock => Some("Function(s) Need at Least 1 Block"),
            ParseErrorKind::EOF => Some("Reached End of File"),
            _ => None,
        }
    }

    /// The source the error points at.
    pub fn span(&self) -> (r: Span)
        ensures
            r == self.1,
    {
        self.1
    }
}

} // verus!
