use vstd::prelude::*;

use crate::ir::{
    block_ids_unique, func_names_unique,
    BasicBlock, BlockID, BlockV, Branch, BranchKind, Cond, CondJumpKind, Func, FuncV, Instr,
    InstrKind, InstrV, KindV, Operand, Program, ProgramV, Temp, TempID,
};
use crate::lexer::{
    dec_value, is_digit, lex, lex_spec, lemma_lex_sane, lexemes_sane, register_at, register_named,
    Lexeme, Token,
};
use crate::ops::{BinOp, UnOp};
use crate::parse_error::{ErrKindV, ParseError, ParseErrorKind, ParseErrorV, Span};
use crate::text::{chars_of, lossy_text, text_of};
use vstd::string::StringSliceAdditionalSpecFns;

verus! {

/// The bytes of a lexeme.
pub open spec fn lexeme_bytes(s: Seq<u8>, lx: Lexeme) -> Seq<u8> {
    s.subrange(lx.start as int, lx.end as int)
}

/// The temporary an identifier names: a register, or `t` and a number.
pub open spec fn temp_named(w: Seq<u8>) -> Option<Temp> {
    match register_named(w) {
        Some(r) => Some(Temp(TempID::Reg(r))),
        None => if w.len() >= 2 && w[0] == 116 && (forall|j: int| 1 <= j < w.len() ==> is_digit(#[trigger] w[j]))
            && dec_value(w.subrange(1, w.len() as int)) <= u64::MAX {
            Some(Temp(TempID::Num(dec_value(w.subrange(1, w.len() as int)) as u64)))
        } else {
            None
        },
    }
}

/// The temporary a lexeme names.
pub open spec fn temp_of(s: Seq<u8>, lx: Lexeme) -> Option<Temp> {
    match lx.tok {
        Token::Temp(n) => Some(Temp(TempID::Num(n))),
        Token::Id => temp_named(lexeme_bytes(s, lx)),
        _ => None,
    }
}

/// The operand a lexeme stands for.
pub open spec fn operand_of(s: Seq<u8>, lx: Lexeme) -> Option<Operand> {
    match lx.tok {
        Token::Const(v) => Some(Operand::Const(v)),
        _ => match temp_of(s, lx) {
            Some(t) => Some(Operand::Temp(t)),
            None => None,
        },
    }
}

/// The binary operator a token spells.
pub open spec fn binop_of(t: Token) -> Option<BinOp> {
    match t {
        Token::Add => Some(BinOp::Add),
        Token::Sub => Some(BinOp::Sub),
        Token::Mul => Some(BinOp::Mul),
        Token::Div => Some(BinOp::Div),
        Token::Mod => Some(BinOp::Mod),
        Token::LShift => Some(BinOp::LShift),
        Token::RShift => Some(BinOp::RShift),
        Token::RShiftLog => Some(BinOp::RShiftLog),
        Token::Eq => Some(BinOp::Eq),
        Token::Neq => Some(BinOp::Neq),
        Token::Less => Some(BinOp::Less),
        Token::Leq => Some(BinOp::Leq),
        Token::Greater => Some(BinOp::Greater),
        Token::Geq => Some(BinOp::Geq),
        Token::BitAnd => Some(BinOp::BitAnd),
        Token::BitXor => Some(BinOp::BitXor),
        Token::BitOr => Some(BinOp::BitOr),
        Token::LogAnd => Some(BinOp::LogAnd),
        Token::LogOr => Some(BinOp::LogOr),
        _ => None,
    }
}

/// The unary operator a token spells.
pub open spec fn unop_of(t: Token) -> Option<UnOp> {
    match t {
        Token::Sub => Some(UnOp::Neg),
        Token::LogNot => Some(UnOp::LogNot),
        Token::BitNot => Some(UnOp::BitNot),
        _ => None,
    }
}

/// The flag condition of a `j..` terminator token.
pub open spec fn cond_jump_of(t: Token) -> Option<CondJumpKind> {
    match t {
        Token::Jz => Some(CondJumpKind::Zero),
        Token::Jnz => Some(CondJumpKind::NotZero),
        Token::Je => Some(CondJumpKind::Equal),
        Token::Jne => Some(CondJumpKind::NotEqual),
        Token::Jl => Some(CondJumpKind::Less),
        Token::Jle => Some(CondJumpKind::LessEqual),
        Token::Jg => Some(CondJumpKind::Greater),
        Token::Jge => Some(CondJumpKind::GreaterEqual),
        Token::Jnl => Some(CondJumpKind::NotLess),
        Token::Jnle => Some(CondJumpKind::NotLessEqual),
        Token::Jng => Some(CondJumpKind::NotGreater),
        Token::Jnge => Some(CondJumpKind::NotGreaterEqual),
        _ => None,
    }
}

/// The token starts a block terminator.
pub open spec fn is_terminator(t: Token) -> bool {
    t == Token::Ret || t == Token::Jmp || t == Token::Cmp || cond_jump_of(t) is Some
}

/// The error at the end of the source.
pub open spec fn eof_error(s: Seq<u8>) -> ParseErrorV {
    ParseErrorV { kind: ErrKindV::EOF, span: Span { start: s.len() as usize, end: s.len() as usize } }
}

/// An error of kind `k` at lexeme `pos`.
pub open spec fn error_at(t: Seq<Lexeme>, pos: int, k: ErrKindV) -> ParseErrorV {
    ParseErrorV { kind: k, span: Span { start: t[pos].start, end: t[pos].end } }
}

/// The last lexeme of the line that lexeme `k` stands on.
pub open spec fn last_on_line(t: Seq<Lexeme>, k: int) -> int
    decreases t.len() - k,
{
    if 0 <= k && k + 1 < t.len() && t[k + 1].tok != Token::NewLine {
        last_on_line(t, k + 1)
    } else {
        k
    }
}

/// Lexeme `pos` starts no instruction: the error spans the rest of its line.
pub open spec fn unknown_instr(s: Seq<u8>, t: Seq<Lexeme>, pos: int) -> ParseErrorV {
    ParseErrorV {
        kind: ErrKindV::UnknownInstr(lossy_text(lexeme_bytes(s, t[pos]))),
        span: Span { start: t[pos].start, end: t[last_on_line(t, pos)].end },
    }
}

/// The next line number; it stays at the largest one.
pub open spec fn inc(line: u64) -> u64 {
    if line < u64::MAX {
        (line + 1) as u64
    } else {
        line
    }
}

/// An operand at `pos`.
pub open spec fn p_operand(s: Seq<u8>, t: Seq<Lexeme>, pos: int) -> Result<(Operand, int), ParseErrorV> {
    if pos >= t.len() {
        Err(eof_error(s))
    } else {
        match operand_of(s, t[pos]) {
            Some(o) => Ok((o, pos + 1)),
            None => Err(error_at(t, pos, ErrKindV::InvalidOperand)),
        }
    }
}

/// A temporary at `pos`.
pub open spec fn p_temp(s: Seq<u8>, t: Seq<Lexeme>, pos: int) -> Result<(Temp, int), ParseErrorV> {
    if pos >= t.len() {
        Err(eof_error(s))
    } else {
        match temp_of(s, t[pos]) {
            Some(x) => Ok((x, pos + 1)),
            None => Err(error_at(t, pos, ErrKindV::NoTemp(t[pos].tok))),
        }
    }
}

/// A block label at `pos`.
pub open spec fn p_block(s: Seq<u8>, t: Seq<Lexeme>, pos: int) -> Result<(BlockID, int), ParseErrorV> {
    if pos >= t.len() {
        Err(eof_error(s))
    } else {
        match t[pos].tok {
            Token::Block(n) => Ok((BlockID(n), pos + 1)),
            _ => Err(error_at(t, pos, ErrKindV::NoBlock(t[pos].tok))),
        }
    }
}

/// A function name at `pos`.
pub open spec fn p_name(s: Seq<u8>, t: Seq<Lexeme>, pos: int) -> Result<(Seq<char>, int), ParseErrorV> {
    if pos >= t.len() {
        Err(eof_error(s))
    } else {
        match t[pos].tok {
            Token::Id => Ok((chars_of(lexeme_bytes(s, t[pos])), pos + 1)),
            _ => Err(error_at(t, pos, ErrKindV::NoName(t[pos].tok))),
        }
    }
}

/// Operands up to the end of the line.
pub open spec fn p_operands(s: Seq<u8>, t: Seq<Lexeme>, pos: int) -> Result<(Seq<Operand>, int), ParseErrorV>
    decreases t.len() - pos,
{
    if pos < 0 || pos >= t.len() {
        Err(eof_error(s))
    } else if t[pos].tok == Token::NewLine {
        Ok((Seq::empty(), pos))
    } else {
        match p_operand(s, t, pos) {
            Err(e) => Err(e),
            Ok((o, _)) => match p_operands(s, t, pos + 1) {
                Ok((rest, e)) => Ok((seq![o] + rest, e)),
                Err(e) => Err(e),
            },
        }
    }
}

/// Temporaries up to the end of the line.
pub open spec fn p_temps(s: Seq<u8>, t: Seq<Lexeme>, pos: int) -> Result<(Seq<Temp>, int), ParseErrorV>
    decreases t.len() - pos,
{
    if pos < 0 || pos >= t.len() {
        Err(eof_error(s))
    } else if t[pos].tok == Token::NewLine {
        Ok((Seq::empty(), pos))
    } else {
        match p_temp(s, t, pos) {
            Err(e) => Err(e),
            Ok((x, _)) => match p_temps(s, t, pos + 1) {
                Ok((rest, e)) => Ok((seq![x] + rest, e)),
                Err(e) => Err(e),
            },
        }
    }
}

/// Block labels up to the end of the line.
pub open spec fn p_blocks_ids(s: Seq<u8>, t: Seq<Lexeme>, pos: int) -> Result<(Seq<BlockID>, int), ParseErrorV>
    decreases t.len() - pos,
{
    if pos < 0 || pos >= t.len() {
        Err(eof_error(s))
    } else if t[pos].tok == Token::NewLine {
        Ok((Seq::empty(), pos))
    } else {
        match p_block(s, t, pos) {
            Err(e) => Err(e),
            Ok((b, _)) => match p_blocks_ids(s, t, pos + 1) {
                Ok((rest, e)) => Ok((seq![b] + rest, e)),
                Err(e) => Err(e),
            },
        }
    }
}

/// Skips empty lines, counting them.
pub open spec fn skip_nl(t: Seq<Lexeme>, pos: int, line: u64) -> (int, u64)
    decreases t.len() - pos,
{
    if 0 <= pos < t.len() && t[pos].tok == Token::NewLine {
        skip_nl(t, pos + 1, inc(line))
    } else {
        (pos, line)
    }
}

/// The end of a line (or of the source), then any empty lines.
pub open spec fn p_line_end(t: Seq<Lexeme>, pos: int, line: u64) -> Result<(int, u64), ParseErrorV> {
    if pos >= t.len() {
        Ok((pos, line))
    } else if t[pos].tok == Token::NewLine {
        Ok(skip_nl(t, pos + 1, inc(line)))
    } else {
        Err(error_at(t, pos, ErrKindV::NoMatch(Token::NewLine, t[pos].tok)))
    }
}

/// The right-hand side of an assignment to `dest`, from `pos`.
pub open spec fn p_rhs(s: Seq<u8>, t: Seq<Lexeme>, pos: int, dest: Temp) -> Result<(KindV, int), ParseErrorV> {
    if pos >= t.len() {
        Err(eof_error(s))
    } else if unop_of(t[pos].tok) is Some {
        match p_operand(s, t, pos + 1) {
            Ok((src, e)) => Ok((KindV::UnOp { op: unop_of(t[pos].tok)->0, dest, src }, e)),
            Err(e) => Err(e),
        }
    } else if t[pos].tok == Token::Phi {
        match p_operands(s, t, pos + 1) {
            Ok((srcs, e)) => Ok((KindV::Phi { dest, srcs }, e)),
            Err(e) => Err(e),
        }
    } else if t[pos].tok == Token::Call {
        match p_name(s, t, pos + 1) {
            Err(e) => Err(e),
            Ok((name, at2)) => match p_operands(s, t, at2) {
                Ok((src, e)) => Ok((KindV::Call { name, dest: Some(dest), src }, e)),
                Err(e) => Err(e),
            },
        }
    } else {
        match operand_of(s, t[pos]) {
            None => Err(unknown_instr(s, t, pos)),
            Some(a) => if pos + 1 >= t.len() || t[pos + 1].tok == Token::NewLine {
                Ok((KindV::Mov { dest, src: a }, pos + 1))
            } else {
                match binop_of(t[pos + 1].tok) {
                    None => Err(error_at(t, pos + 1, ErrKindV::InvalidOperand)),
                    Some(op) => match p_operand(s, t, pos + 2) {
                        Ok((b, e)) => Ok((KindV::BinOp { op, dest, src1: a, src2: b }, e)),
                        Err(e) => Err(e),
                    },
                }
            },
        }
    }
}

/// A body instruction at `pos`, up to the end of its line.
pub open spec fn p_instr(s: Seq<u8>, t: Seq<Lexeme>, pos: int) -> Result<(KindV, int), ParseErrorV> {
    if pos >= t.len() {
        Err(eof_error(s))
    } else {
        let tok = t[pos].tok;
        if tok == Token::If {
            match p_operand(s, t, pos + 1) {
                Err(e) => Err(e),
                Ok((cond, at2)) => match p_block(s, t, at2) {
                    Ok((block, e)) => Ok((KindV::If { cond, block }, e)),
                    Err(e) => Err(e),
                },
            }
        } else if tok == Token::Print {
            match p_operand(s, t, pos + 1) {
                Ok((value, e)) => Ok((KindV::Print { value }, e)),
                Err(e) => Err(e),
            }
        } else if tok == Token::Dump {
            Ok((KindV::Dump, pos + 1))
        } else if tok == Token::Nop {
            Ok((KindV::Nop, pos + 1))
        } else if tok == Token::Call {
            match p_name(s, t, pos + 1) {
                Err(e) => Err(e),
                Ok((name, at2)) => match p_operands(s, t, at2) {
                    Ok((src, e)) => Ok((KindV::Call { name, dest: None, src }, e)),
                    Err(e) => Err(e),
                },
            }
        } else {
            match temp_of(s, t[pos]) {
                None => Err(unknown_instr(s, t, pos)),
                Some(dest) => if pos + 1 >= t.len() {
                    Err(eof_error(s))
                } else if t[pos + 1].tok == Token::Assign {
                    p_rhs(s, t, pos + 2, dest)
                } else {
                    Err(error_at(t, pos + 1, ErrKindV::NoMatch(Token::Assign, t[pos + 1].tok)))
                },
            }
        }
    }
}

/// The condition of a `cmp` at `pos`: an operand, or two operands and an
/// operator; a block label after the first operand marks the first form.
pub open spec fn p_cond(s: Seq<u8>, t: Seq<Lexeme>, pos: int) -> Result<(Cond, int), ParseErrorV> {
    match p_operand(s, t, pos) {
        Err(e) => Err(e),
        Ok((a, at2)) => if at2 >= t.len() {
            Err(eof_error(s))
        } else if t[at2].tok is Block {
            Ok((Cond::Value(a), at2))
        } else {
            match binop_of(t[at2].tok) {
                None => Err(error_at(t, at2, ErrKindV::InvalidOperand)),
                Some(op) => match p_operand(s, t, at2 + 1) {
                    Ok((b, e)) => Ok((Cond::BinOp(a, op, b), e)),
                    Err(e) => Err(e),
                },
            }
        },
    }
}

/// Two block labels from `pos`.
pub open spec fn p_two_blocks(s: Seq<u8>, t: Seq<Lexeme>, pos: int) -> Result<(BlockID, BlockID, int), ParseErrorV> {
    match p_block(s, t, pos) {
        Err(e) => Err(e),
        Ok((a, at2)) => match p_block(s, t, at2) {
            Ok((b, e)) => Ok((a, b, e)),
            Err(e) => Err(e),
        },
    }
}

/// The terminator at `pos`, a terminator token.
pub open spec fn p_terminator(s: Seq<u8>, t: Seq<Lexeme>, pos: int) -> Result<(BranchKind, int), ParseErrorV> {
    let tok = t[pos].tok;
    if tok == Token::Ret {
        if pos + 1 >= t.len() || t[pos + 1].tok == Token::NewLine {
            Ok((BranchKind::Ret(None), pos + 1))
        } else {
            match p_operand(s, t, pos + 1) {
                Ok((v, e)) => Ok((BranchKind::Ret(Some(v)), e)),
                Err(e) => Err(e),
            }
        }
    } else if tok == Token::Jmp {
        match p_block(s, t, pos + 1) {
            Ok((b, e)) => Ok((BranchKind::Jump(b), e)),
            Err(e) => Err(e),
        }
    } else if tok == Token::Cmp {
        match p_cond(s, t, pos + 1) {
            Err(e) => Err(e),
            Ok((c, at2)) => match p_two_blocks(s, t, at2) {
                Ok((a, b, e)) => Ok((BranchKind::Cond(c, a, b), e)),
                Err(e) => Err(e),
            },
        }
    } else {
        match cond_jump_of(tok) {
            None => Err(unknown_instr(s, t, pos)),
            Some(k) => match p_two_blocks(s, t, pos + 1) {
                Ok((a, b, e)) => Ok((BranchKind::CondJump(k, a, b), e)),
                Err(e) => Err(e),
            },
        }
    }
}

/// The body instructions from `pos` up to the terminator.
pub open spec fn p_body(s: Seq<u8>, t: Seq<Lexeme>, pos: int, line: u64) -> Result<
    (Seq<InstrV>, int, u64),
    ParseErrorV,
>
    decreases t.len() - pos,
{
    if pos < 0 || pos >= t.len() {
        Err(eof_error(s))
    } else if is_terminator(t[pos].tok) {
        Ok((Seq::empty(), pos, line))
    } else {
        match p_instr(s, t, pos) {
            Err(e) => Err(e),
            Ok((k, at2)) => match p_line_end(t, at2, line) {
                Err(e) => Err(e),
                Ok((at3, l3)) => if pos < at3 <= t.len() {
                    match p_body(s, t, at3, l3) {
                        Ok((rest, at4, l4)) => Ok((seq![InstrV { line, kind: k }] + rest, at4, l4)),
                        Err(e) => Err(e),
                    }
                } else {
                    Err(eof_error(s))
                },
            },
        }
    }
}

/// The body and terminator of a block from `pos`.
pub open spec fn p_block_inner(s: Seq<u8>, t: Seq<Lexeme>, pos: int, line: u64) -> Result<
    (Seq<InstrV>, Branch, int, u64),
    ParseErrorV,
> {
    match p_body(s, t, pos, line) {
        Err(e) => Err(e),
        Ok((lines, at2, l2)) => match p_terminator(s, t, at2) {
            Err(e) => Err(e),
            Ok((k, at3)) => match p_line_end(t, at3, l2) {
                Ok((at4, l4)) => Ok((lines, Branch { kind: k, line: l2 }, at4, l4)),
                Err(e) => Err(e),
            },
        },
    }
}

/// `i` is the first position of a block with id `id`.
pub open spec fn blockv_at(bs: Seq<BlockV>, id: BlockID, i: int) -> bool {
    &&& 0 <= i < bs.len()
    &&& bs[i].id == id
    &&& forall|j: int| 0 <= j < i ==> #[trigger] bs[j].id != id
}

/// The blocks with `b` added; a block of the same id is replaced.
pub open spec fn insert_block(bs: Seq<BlockV>, b: BlockV) -> Seq<BlockV> {
    if exists|i: int| blockv_at(bs, b.id, i) {
        bs.update(choose|i: int| blockv_at(bs, b.id, i), b)
    } else {
        bs.push(b)
    }
}

/// `i` is the first position of a function named `name`.
pub open spec fn funcv_at(fs: Seq<FuncV>, name: Seq<char>, i: int) -> bool {
    &&& 0 <= i < fs.len()
    &&& fs[i].name == name
    &&& forall|j: int| 0 <= j < i ==> #[trigger] fs[j].name != name
}

/// The functions with `f` added; a function of the same name is replaced.
pub open spec fn insert_func(fs: Seq<FuncV>, f: FuncV) -> Seq<FuncV> {
    if exists|i: int| funcv_at(fs, f.name, i) {
        fs.update(choose|i: int| funcv_at(fs, f.name, i), f)
    } else {
        fs.push(f)
    }
}

/// The error for a function without blocks, at `pos`.
pub open spec fn need_block_error(s: Seq<u8>, t: Seq<Lexeme>, pos: int) -> ParseErrorV {
    if 0 <= pos < t.len() {
        error_at(t, pos, ErrKindV::FuncNeedBlock)
    } else {
        ParseErrorV { kind: ErrKindV::FuncNeedBlock, span: Span { start: s.len() as usize, end: s.len() as usize } }
    }
}

/// Labelled blocks from `pos`, added to `acc`, up to the next function or the
/// end of the source.
pub open spec fn p_blocks(s: Seq<u8>, t: Seq<Lexeme>, pos: int, line: u64, acc: Seq<BlockV>) -> Result<
    (Seq<BlockV>, int, u64),
    ParseErrorV,
>
    decreases t.len() - pos,
{
    if pos < 0 || pos >= t.len() || t[pos].tok == Token::Id {
        if acc.len() == 0 {
            Err(need_block_error(s, t, pos))
        } else {
            Ok((acc, pos, line))
        }
    } else {
        match t[pos].tok {
            Token::Block(n) => match p_blocks_ids(s, t, pos + 1) {
                Err(e) => Err(e),
                Ok((preds, at2)) => match p_line_end(t, at2, line) {
                    Err(e) => Err(e),
                    Ok((at3, l3)) => match p_block_inner(s, t, at3, l3) {
                        Err(e) => Err(e),
                        Ok((lines, branch, at4, l4)) => if pos < at4 <= t.len() {
                            p_blocks(
                                s,
                                t,
                                at4,
                                l4,
                                insert_block(
                                    acc,
                                    BlockV { id: BlockID(n), preds, lines, branch, line_start: line },
                                ),
                            )
                        } else {
                            Err(eof_error(s))
                        },
                    },
                },
            },
            _ => Err(error_at(t, pos, ErrKindV::NoBlock(t[pos].tok))),
        }
    }
}

/// The body of a function starts with an instruction rather than a block
/// label: a temporary, or `ret`.
pub open spec fn starts_single_block(s: Seq<u8>, t: Seq<Lexeme>, pos: int) -> bool {
    0 <= pos < t.len() && (t[pos].tok == Token::Ret || temp_of(s, t[pos]) is Some)
}

/// A function from `pos`: name, parameters, and one unlabelled block (id 0,
/// no predecessors) or labelled blocks.
pub open spec fn p_func(s: Seq<u8>, t: Seq<Lexeme>, pos: int, line: u64) -> Result<
    (FuncV, int, u64),
    ParseErrorV,
> {
    match p_name(s, t, pos) {
        Err(e) => Err(e),
        Ok((name, at1)) => match p_temps(s, t, at1) {
            Err(e) => Err(e),
            Ok((params, at2)) => match p_line_end(t, at2, line) {
                Err(e) => Err(e),
                Ok((at3, l3)) => if starts_single_block(s, t, at3) {
                    match p_block_inner(s, t, at3, l3) {
                        Err(e) => Err(e),
                        Ok((lines, branch, at4, l4)) => Ok((
                            FuncV {
                                name,
                                params,
                                blocks: seq![
                                    BlockV {
                                        id: BlockID(0),
                                        preds: Seq::empty(),
                                        lines,
                                        branch,
                                        line_start: l3,
                                    },
                                ],
                                line_start: line,
                            },
                            at4,
                            l4,
                        )),
                    }
                } else {
                    match p_blocks(s, t, at3, l3, Seq::empty()) {
                        Err(e) => Err(e),
                        Ok((blocks, at4, l4)) => Ok((FuncV { name, params, blocks, line_start: line }, at4, l4)),
                    }
                },
            },
        },
    }
}

/// Functions from `pos` to the end, added to `acc`.
pub open spec fn p_program(s: Seq<u8>, t: Seq<Lexeme>, pos: int, line: u64, acc: Seq<FuncV>) -> Result<
    Seq<FuncV>,
    ParseErrorV,
>
    decreases t.len() - pos,
{
    if pos < 0 || pos >= t.len() {
        Ok(acc)
    } else {
        match p_func(s, t, pos, line) {
            Err(e) => Err(e),
            Ok((f, at2, l2)) => if pos < at2 <= t.len() {
                p_program(s, t, at2, l2, insert_func(acc, f))
            } else {
                Err(eof_error(s))
            },
        }
    }
}

/// The program that the source bytes `s` spell, or the first error.
pub open spec fn parse_spec(s: Seq<u8>) -> Result<ProgramV, ParseErrorV> {
    let t = lex_spec(s);
    let (at0, l0) = skip_nl(t, 0, 1);
    match p_program(s, t, at0, l0, Seq::empty()) {
        Ok(fs) => Ok(ProgramV { funcs: fs }),
        Err(e) => Err(e),
    }
}


/// A parse result with its position as an integer and its error as a view.
pub open spec fn rv<A>(r: Result<(A, usize), ParseError>) -> Result<(A, int), ParseErrorV> {
    match r {
        Ok((a, e)) => Ok((a, e as int)),
        Err(x) => Err(x@),
    }
}

/// A parse result of a list, as a sequence.
pub open spec fn rv_vec<A>(r: Result<(Vec<A>, usize), ParseError>) -> Result<(Seq<A>, int), ParseErrorV> {
    match r {
        Ok((a, e)) => Ok((a@, e as int)),
        Err(x) => Err(x@),
    }
}

/// A list parse result with `pre` in front.
pub open spec fn prepend<A>(pre: Seq<A>, r: Result<(Seq<A>, int), ParseErrorV>) -> Result<
    (Seq<A>, int),
    ParseErrorV,
> {
    match r {
        Ok((rest, e)) => Ok((pre + rest, e)),
        Err(x) => Err(x),
    }
}

/// The lexemes `t` of the source `s`, which both fit in memory.
pub open spec fn input_ok(s: Seq<u8>, t: Seq<Lexeme>) -> bool {
    lexemes_sane(s, t) && s.len() <= usize::MAX && t.len() <= usize::MAX
}

fn eof_err(src: &[u8]) -> (r: ParseError)
    ensures
        r@ == eof_error(src@),
{
    ParseError(ParseErrorKind::EOF, Span { start: src.len(), end: src.len() })
}

fn err_at(t: &Vec<Lexeme>, pos: usize, kind: ParseErrorKind) -> (r: ParseError)
    requires
        pos < t@.len(),
    ensures
        r@ == error_at(t@, pos as int, kind@),
{
    ParseError(kind, Span { start: t[pos].start, end: t[pos].end })
}

/// The error for lexeme `pos`, which starts no instruction.
fn unknown_err(src: &[u8], t: &Vec<Lexeme>, pos: usize) -> (r: ParseError)
    requires
        input_ok(src@, t@),
        pos < t@.len(),
    ensures
        r@ == unknown_instr(src@, t@, pos as int),
{
    let mut k = pos;
    while k + 1 < t.len() && t[k + 1].tok != Token::NewLine
        invariant
            pos <= k < t@.len(),
            t@.len() <= usize::MAX,
            last_on_line(t@, k as int) == last_on_line(t@, pos as int),
        decreases t@.len() - k,
    {
        k = k + 1;
    }
    let lx = t[pos];
    assert(t@[pos as int] == lx);
    let text = text_of(src, lx.start, lx.end);
    ParseError(ParseErrorKind::UnknownInstr(text), Span { start: lx.start, end: t[k].end })
}

/// The temporary that identifier bytes `src[i..e]` name.
fn temp_named_at(src: &[u8], i: usize, e: usize) -> (r: Option<Temp>)
    requires
        i <= e <= src@.len(),
    ensures
        r == temp_named(src@.subrange(i as int, e as int)),
{
    let ghost w = src@.subrange(i as int, e as int);
    if let Some(reg) = register_at(src, i, e) {
        return Some(Temp(TempID::Reg(reg)));
    }
    if e - i < 2 || src[i] != 116 {
        assert(e - i < 2 || w[0] != 116);
        return None;
    }
    let mut k = i + 1;
    while k < e
        invariant
            i + 1 <= k <= e <= src@.len(),
            w == src@.subrange(i as int, e as int),
            register_named(w) is None,
            forall|j: int| 1 <= j < k - i ==> is_digit(#[trigger] w[j]),
        decreases e - k,
    {
        if !(48 <= src[k] && src[k] <= 57) {
            assert(!is_digit(w[k - i]));
            assert(!(forall|j: int| 1 <= j < w.len() ==> is_digit(#[trigger] w[j])));
            return None;
        }
        k = k + 1;
    }
    assert(w.subrange(1, w.len() as int) =~= src@.subrange(i + 1, e as int));
    assert forall|j: int| i + 1 <= j < e implies is_digit(#[trigger] src@[j]) by {
        assert(w[j - i] == src@[j]);
    }
    match crate::lexer::dec_at(src, i + 1, e, u64::MAX) {
        Some(v) => Some(Temp(TempID::Num(v))),
        None => None,
    }
}

/// The temporary that lexeme `pos` names.
fn temp_at(src: &[u8], t: &Vec<Lexeme>, pos: usize) -> (r: Option<Temp>)
    requires
        input_ok(src@, t@),
        pos < t@.len(),
    ensures
        r == temp_of(src@, t@[pos as int]),
{
    let lx = t[pos];
    match lx.tok {
        Token::Temp(n) => Some(Temp(TempID::Num(n))),
        Token::Id => temp_named_at(src, lx.start, lx.end),
        _ => None,
    }
}

/// The operand that lexeme `pos` stands for.
fn operand_at(src: &[u8], t: &Vec<Lexeme>, pos: usize) -> (r: Option<Operand>)
    requires
        input_ok(src@, t@),
        pos < t@.len(),
    ensures
        r == operand_of(src@, t@[pos as int]),
{
    match t[pos].tok {
        Token::Const(v) => Some(Operand::Const(v)),
        _ => match temp_at(src, t, pos) {
            Some(x) => Some(Operand::Temp(x)),
            None => None,
        },
    }
}

/// The binary operator a token spells; `InvalidOperand` at `span` otherwise.
pub fn binop_code(op_token: Token, span: Span) -> (r: Result<BinOp, ParseError>)
    ensures
        match binop_of(op_token) {
            Some(op) => r == Ok::<BinOp, ParseError>(op),
            None => r matches Err(e) && e@ == (ParseErrorV { kind: ErrKindV::InvalidOperand, span }),
        },
{
    match op_token {
        Token::Add => Ok(BinOp::Add),
        Token::Sub => Ok(BinOp::Sub),
        Token::Mul => Ok(BinOp::Mul),
        Token::Div => Ok(BinOp::Div),
        Token::Mod => Ok(BinOp::Mod),
        Token::LShift => Ok(BinOp::LShift),
        Token::RShift => Ok(BinOp::RShift),
        Token::RShiftLog => Ok(BinOp::RShiftLog),
        Token::Eq => Ok(BinOp::Eq),
        Token::Neq => Ok(BinOp::Neq),
        Token::Less => Ok(BinOp::Less),
        Token::Leq => Ok(BinOp::Leq),
        Token::Greater => Ok(BinOp::Greater),
        Token::Geq => Ok(BinOp::Geq),
        Token::BitAnd => Ok(BinOp::BitAnd),
        Token::BitXor => Ok(BinOp::BitXor),
        Token::BitOr => Ok(BinOp::BitOr),
        Token::LogAnd => Ok(BinOp::LogAnd),
        Token::LogOr => Ok(BinOp::LogOr),
        _ => Err(ParseError(ParseErrorKind::InvalidOperand, span)),
    }
}

/// The unary operator a token spells; `InvalidOperand` at `span` otherwise.
pub fn unop_code(op_token: Token, span: Span) -> (r: Result<UnOp, ParseError>)
    ensures
        match unop_of(op_token) {
            Some(op) => r == Ok::<UnOp, ParseError>(op),
            None => r matches Err(e) && e@ == (ParseErrorV { kind: ErrKindV::InvalidOperand, span }),
        },
{
    match op_token {
        Token::Sub => Ok(UnOp::Neg),
        Token::LogNot => Ok(UnOp::LogNot),
        Token::BitNot => Ok(UnOp::BitNot),
        _ => Err(ParseError(ParseErrorKind::InvalidOperand, span)),
    }
}

fn cond_jump_code(tok: Token) -> (r: Option<CondJumpKind>)
    ensures
        r == cond_jump_of(tok),
{
    match tok {
        Token::Jz => Some(CondJumpKind::Zero),
        Token::Jnz => Some(CondJumpKind::NotZero),
        Token::Je => Some(CondJumpKind::Equal),
        Token::Jne => Some(CondJumpKind::NotEqual),
        Token::Jl => Some(CondJumpKind::Less),
        Token::Jle => Some(CondJumpKind::LessEqual),
        Token::Jg => Some(CondJumpKind::Greater),
        Token::Jge => Some(CondJumpKind::GreaterEqual),
        Token::Jnl => Some(CondJumpKind::NotLess),
        Token::Jnle => Some(CondJumpKind::NotLessEqual),
        Token::Jng => Some(CondJumpKind::NotGreater),
        Token::Jnge => Some(CondJumpKind::NotGreaterEqual),
        _ => None,
    }
}

fn is_terminator_tok(tok: Token) -> (r: bool)
    ensures
        r == is_terminator(tok),
{
    tok == Token::Ret || tok == Token::Jmp || tok == Token::Cmp || cond_jump_code(tok).is_some()
}

fn operand(src: &[u8], t: &Vec<Lexeme>, pos: usize) -> (r: Result<(Operand, usize), ParseError>)
    requires
        input_ok(src@, t@),
        pos <= t@.len(),
    ensures
        rv(r) == p_operand(src@, t@, pos as int),
        r matches Ok((_, e)) ==> e == pos + 1 && e <= t@.len(),
{
    if pos >= t.len() {
        return Err(eof_err(src));
    }
    match operand_at(src, t, pos) {
        Some(o) => Ok((o, pos + 1)),
        None => Err(err_at(t, pos, ParseErrorKind::InvalidOperand)),
    }
}

fn temp(src: &[u8], t: &Vec<Lexeme>, pos: usize) -> (r: Result<(Temp, usize), ParseError>)
    requires
        input_ok(src@, t@),
        pos <= t@.len(),
    ensures
        rv(r) == p_temp(src@, t@, pos as int),
        r matches Ok((_, e)) ==> e == pos + 1 && e <= t@.len(),
{
    if pos >= t.len() {
        return Err(eof_err(src));
    }
    match temp_at(src, t, pos) {
        Some(x) => Ok((x, pos + 1)),
        None => Err(err_at(t, pos, ParseErrorKind::NoTemp(t[pos].tok))),
    }
}

fn block(src: &[u8], t: &Vec<Lexeme>, pos: usize) -> (r: Result<(BlockID, usize), ParseError>)
    requires
        input_ok(src@, t@),
        pos <= t@.len(),
    ensures
        rv(r) == p_block(src@, t@, pos as int),
        r matches Ok((_, e)) ==> e == pos + 1 && e <= t@.len(),
{
    if pos >= t.len() {
        return Err(eof_err(src));
    }
    match t[pos].tok {
        Token::Block(n) => Ok((BlockID(n), pos + 1)),
        _ => Err(err_at(t, pos, ParseErrorKind::NoBlock(t[pos].tok))),
    }
}

fn name(src: &[u8], t: &Vec<Lexeme>, pos: usize) -> (r: Result<(String, usize), ParseError>)
    requires
        input_ok(src@, t@),
        pos <= t@.len(),
    ensures
        match r {
            Ok((n, e)) => p_name(src@, t@, pos as int) == Ok::<(Seq<char>, int), ParseErrorV>((n@, e as int)),
            Err(x) => p_name(src@, t@, pos as int) == Err::<(Seq<char>, int), ParseErrorV>(x@),
        },
        r matches Ok((_, e)) ==> e == pos + 1 && e <= t@.len(),
{
    if pos >= t.len() {
        return Err(eof_err(src));
    }
    let lx = t[pos];
    match lx.tok {
        Token::Id => {
            assert(t@[pos as int] == lx);
            let ghost w = src@.subrange(lx.start as int, lx.end as int);
            assert forall|j: int| 0 <= j < w.len() implies #[trigger] w[j] < 128 by {
                assert(crate::lexer::is_id_char(src@[lx.start + j]));
            }
            let text = text_of(src, lx.start, lx.end);
            Ok((text, pos + 1))
        },
        _ => Err(err_at(t, pos, ParseErrorKind::NoName(lx.tok))),
    }
}


fn operands(src: &[u8], t: &Vec<Lexeme>, pos: usize) -> (r: Result<(Vec<Operand>, usize), ParseError>)
    requires
        input_ok(src@, t@),
        pos <= t@.len(),
    ensures
        rv_vec(r) == p_operands(src@, t@, pos as int),
        r matches Ok((_, e)) ==> pos <= e < t@.len(),
{
    let mut out: Vec<Operand> = Vec::new();
    let mut p = pos;
    while p < t.len() && t[p].tok != Token::NewLine
        invariant
            input_ok(src@, t@),
            pos <= p <= t@.len(),
            p_operands(src@, t@, pos as int) == prepend(out@, p_operands(src@, t@, p as int)),
        decreases t@.len() - p,
    {
        match operand(src, t, p) {
            Ok((o, _)) => {
                let ghost before = out@;
                out.push(o);
                proof {
                    match p_operands(src@, t@, p + 1) {
                        Ok((rest, e)) => {
                            assert(before + (seq![o] + rest) =~= out@ + rest);
                        },
                        Err(_) => {},
                    }
                }
            },
            Err(e) => {
                return Err(e);
            },
        }
        p = p + 1;
    }
    if p >= t.len() {
        return Err(eof_err(src));
    }
    assert(out@ + Seq::<Operand>::empty() =~= out@);
    Ok((out, p))
}

fn temps(src: &[u8], t: &Vec<Lexeme>, pos: usize) -> (r: Result<(Vec<Temp>, usize), ParseError>)
    requires
        input_ok(src@, t@),
        pos <= t@.len(),
    ensures
        rv_vec(r) == p_temps(src@, t@, pos as int),
        r matches Ok((_, e)) ==> pos <= e < t@.len(),
{
    let mut out: Vec<Temp> = Vec::new();
    let mut p = pos;
    while p < t.len() && t[p].tok != Token::NewLine
        invariant
            input_ok(src@, t@),
            pos <= p <= t@.len(),
            p_temps(src@, t@, pos as int) == prepend(out@, p_temps(src@, t@, p as int)),
        decreases t@.len() - p,
    {
        match temp(src, t, p) {
            Ok((x, _)) => {
                let ghost before = out@;
                out.push(x);
                proof {
                    match p_temps(src@, t@, p + 1) {
                        Ok((rest, e)) => {
                            assert(before + (seq![x] + rest) =~= out@ + rest);
                        },
                        Err(_) => {},
                    }
                }
            },
            Err(e) => {
                return Err(e);
            },
        }
        p = p + 1;
    }
    if p >= t.len() {
        return Err(eof_err(src));
    }
    assert(out@ + Seq::<Temp>::empty() =~= out@);
    Ok((out, p))
}

fn block_ids(src: &[u8], t: &Vec<Lexeme>, pos: usize) -> (r: Result<(Vec<BlockID>, usize), ParseError>)
    requires
        input_ok(src@, t@),
        pos <= t@.len(),
    ensures
        rv_vec(r) == p_blocks_ids(src@, t@, pos as int),
        r matches Ok((_, e)) ==> pos <= e < t@.len(),
{
    let mut out: Vec<BlockID> = Vec::new();
    let mut p = pos;
    while p < t.len() && t[p].tok != Token::NewLine
        invariant
            input_ok(src@, t@),
            pos <= p <= t@.len(),
            p_blocks_ids(src@, t@, pos as int) == prepend(out@, p_blocks_ids(src@, t@, p as int)),
        decreases t@.len() - p,
    {
        match block(src, t, p) {
            Ok((x, _)) => {
                let ghost before = out@;
                out.push(x);
                proof {
                    match p_blocks_ids(src@, t@, p + 1) {
                        Ok((rest, e)) => {
                            assert(before + (seq![x] + rest) =~= out@ + rest);
                        },
                        Err(_) => {},
                    }
                }
            },
            Err(e) => {
                return Err(e);
            },
        }
        p = p + 1;
    }
    if p >= t.len() {
        return Err(eof_err(src));
    }
    assert(out@ + Seq::<BlockID>::empty() =~= out@);
    Ok((out, p))
}

fn inc_line(line: u64) -> (r: u64)
    ensures
        r == inc(line),
{
    if line < u64::MAX {
        line + 1
    } else {
        line
    }
}

fn skip_newlines(t: &Vec<Lexeme>, pos: usize, line: u64) -> (r: (usize, u64))
    requires
        pos <= t@.len(),
    ensures
        (r.0 as int, r.1) == skip_nl(t@, pos as int, line),
        pos <= r.0 <= t@.len(),
{
    let mut p = pos;
    let mut l = line;
    while p < t.len() && t[p].tok == Token::NewLine
        invariant
            pos <= p <= t@.len(),
            skip_nl(t@, p as int, l) == skip_nl(t@, pos as int, line),
        decreases t@.len() - p,
    {
        p = p + 1;
        l = inc_line(l);
    }
    (p, l)
}

fn line_end(t: &Vec<Lexeme>, pos: usize, line: u64) -> (r: Result<(usize, u64), ParseError>)
    requires
        pos <= t@.len(),
    ensures
        match r {
            Ok((p, l)) => p_line_end(t@, pos as int, line) == Ok::<(int, u64), ParseErrorV>((p as int, l)),
            Err(x) => p_line_end(t@, pos as int, line) == Err::<(int, u64), ParseErrorV>(x@),
        },
        r matches Ok((p, _)) ==> pos <= p <= t@.len(),
{
    if pos >= t.len() {
        Ok((pos, line))
    } else if t[pos].tok == Token::NewLine {
        Ok(skip_newlines(t, pos + 1, inc_line(line)))
    } else {
        Err(err_at(t, pos, ParseErrorKind::NoMatch(Token::NewLine, t[pos].tok)))
    }
}

/// A parse result of an instruction, with its kind as a view.
pub open spec fn rv_kind(r: Result<(InstrKind, usize), ParseError>) -> Result<(KindV, int), ParseErrorV> {
    match r {
        Ok((k, e)) => Ok((k@, e as int)),
        Err(x) => Err(x@),
    }
}

fn rhs(src: &[u8], t: &Vec<Lexeme>, pos: usize, dest: Temp) -> (r: Result<(InstrKind, usize), ParseError>)
    requires
        input_ok(src@, t@),
        pos <= t@.len(),
    ensures
        rv_kind(r) == p_rhs(src@, t@, pos as int, dest),
        r matches Ok((_, e)) ==> pos < e <= t@.len(),
{
    if pos >= t.len() {
        return Err(eof_err(src));
    }
    let tok = t[pos].tok;
    let span = Span { start: t[pos].start, end: t[pos].end };
    if let Ok(op) = unop_code(tok, span) {
        match operand(src, t, pos + 1) {
            Ok((x, e)) => Ok((InstrKind::UnOp { op, dest, src: x }, e)),
            Err(e) => Err(e),
        }
    } else if tok == Token::Phi {
        match operands(src, t, pos + 1) {
            Ok((srcs, e)) => Ok((InstrKind::Phi { dest, srcs }, e)),
            Err(e) => Err(e),
        }
    } else if tok == Token::Call {
        match name(src, t, pos + 1) {
            Err(e) => Err(e),
            Ok((n, at2)) => match operands(src, t, at2) {
                Ok((args, e)) => Ok((InstrKind::Call { name: n, dest: Some(dest), src: args }, e)),
                Err(e) => Err(e),
            },
        }
    } else {
        match operand_at(src, t, pos) {
            None => Err(unknown_err(src, t, pos)),
            Some(a) => {
                if pos + 1 >= t.len() || t[pos + 1].tok == Token::NewLine {
                    Ok((InstrKind::Mov { dest, src: a }, pos + 1))
                } else {
                    let span2 = Span { start: t[pos + 1].start, end: t[pos + 1].end };
                    match binop_code(t[pos + 1].tok, span2) {
                        Err(e) => Err(e),
                        Ok(op) => match operand(src, t, pos + 2) {
                            Ok((b, e)) => Ok((InstrKind::BinOp { op, dest, src1: a, src2: b }, e)),
                            Err(e) => Err(e),
                        },
                    }
                }
            },
        }
    }
}

fn instr(src: &[u8], t: &Vec<Lexeme>, pos: usize) -> (r: Result<(InstrKind, usize), ParseError>)
    requires
        input_ok(src@, t@),
        pos <= t@.len(),
    ensures
        rv_kind(r) == p_instr(src@, t@, pos as int),
        r matches Ok((_, e)) ==> pos < e <= t@.len(),
{
    if pos >= t.len() {
        return Err(eof_err(src));
    }
    let tok = t[pos].tok;
    if tok == Token::If {
        match operand(src, t, pos + 1) {
            Err(e) => Err(e),
            Ok((cond, at2)) => match block(src, t, at2) {
                Ok((b, e)) => Ok((InstrKind::If { cond, block: b }, e)),
                Err(e) => Err(e),
            },
        }
    } else if tok == Token::Print {
        match operand(src, t, pos + 1) {
            Ok((value, e)) => Ok((InstrKind::Print { value }, e)),
            Err(e) => Err(e),
        }
    } else if tok == Token::Dump {
        Ok((InstrKind::Dump, pos + 1))
    } else if tok == Token::Nop {
        Ok((InstrKind::Nop, pos + 1))
    } else if tok == Token::Call {
        match name(src, t, pos + 1) {
            Err(e) => Err(e),
            Ok((n, at2)) => match operands(src, t, at2) {
                Ok((args, e)) => Ok((InstrKind::Call { name: n, dest: None, src: args }, e)),
                Err(e) => Err(e),
            },
        }
    } else {
        match temp_at(src, t, pos) {
            None => Err(unknown_err(src, t, pos)),
            Some(dest) => {
                if pos + 1 >= t.len() {
                    Err(eof_err(src))
                } else if t[pos + 1].tok == Token::Assign {
                    rhs(src, t, pos + 2, dest)
                } else {
                    Err(err_at(t, pos + 1, ParseErrorKind::NoMatch(Token::Assign, t[pos + 1].tok)))
                }
            },
        }
    }
}


fn cond(src: &[u8], t: &Vec<Lexeme>, pos: usize) -> (r: Result<(Cond, usize), ParseError>)
    requires
        input_ok(src@, t@),
        pos <= t@.len(),
    ensures
        rv(r) == p_cond(src@, t@, pos as int),
        r matches Ok((_, e)) ==> pos < e <= t@.len(),
{
    match operand(src, t, pos) {
        Err(e) => Err(e),
        Ok((a, at2)) => {
            if at2 >= t.len() {
                Err(eof_err(src))
            } else if let Token::Block(_) = t[at2].tok {
                Ok((Cond::Value(a), at2))
            } else {
                let span = Span { start: t[at2].start, end: t[at2].end };
                match binop_code(t[at2].tok, span) {
                    Err(e) => Err(e),
                    Ok(op) => match operand(src, t, at2 + 1) {
                        Ok((b, e)) => Ok((Cond::BinOp(a, op, b), e)),
                        Err(e) => Err(e),
                    },
                }
            }
        },
    }
}

fn two_blocks(src: &[u8], t: &Vec<Lexeme>, pos: usize) -> (r: Result<(BlockID, BlockID, usize), ParseError>)
    requires
        input_ok(src@, t@),
        pos <= t@.len(),
    ensures
        match r {
            Ok((a, b, e)) => p_two_blocks(src@, t@, pos as int) == Ok::<(BlockID, BlockID, int), ParseErrorV>((a, b, e as int)),
            Err(x) => p_two_blocks(src@, t@, pos as int) == Err::<(BlockID, BlockID, int), ParseErrorV>(x@),
        },
        r matches Ok((_, _, e)) ==> pos < e <= t@.len(),
{
    match block(src, t, pos) {
        Err(e) => Err(e),
        Ok((a, at2)) => match block(src, t, at2) {
            Ok((b, e)) => Ok((a, b, e)),
            Err(e) => Err(e),
        },
    }
}

fn terminator(src: &[u8], t: &Vec<Lexeme>, pos: usize) -> (r: Result<(BranchKind, usize), ParseError>)
    requires
        input_ok(src@, t@),
        pos < t@.len(),
    ensures
        rv(r) == p_terminator(src@, t@, pos as int),
        r matches Ok((_, e)) ==> pos < e <= t@.len(),
{
    let tok = t[pos].tok;
    if tok == Token::Ret {
        if pos + 1 >= t.len() || t[pos + 1].tok == Token::NewLine {
            Ok((BranchKind::Ret(None), pos + 1))
        } else {
            match operand(src, t, pos + 1) {
                Ok((v, e)) => Ok((BranchKind::Ret(Some(v)), e)),
                Err(e) => Err(e),
            }
        }
    } else if tok == Token::Jmp {
        match block(src, t, pos + 1) {
            Ok((b, e)) => Ok((BranchKind::Jump(b), e)),
            Err(e) => Err(e),
        }
    } else if tok == Token::Cmp {
        match cond(src, t, pos + 1) {
            Err(e) => Err(e),
            Ok((c, at2)) => match two_blocks(src, t, at2) {
                Ok((a, b, e)) => Ok((BranchKind::Cond(c, a, b), e)),
                Err(e) => Err(e),
            },
        }
    } else {
        match cond_jump_code(tok) {
            None => Err(unknown_err(src, t, pos)),
            Some(k) => match two_blocks(src, t, pos + 1) {
                Ok((a, b, e)) => Ok((BranchKind::CondJump(k, a, b), e)),
                Err(e) => Err(e),
            },
        }
    }
}

/// The views of a list of instructions.
pub open spec fn instrs_view(v: Seq<Instr>) -> Seq<InstrV> {
    v.map(|i: int, x: Instr| x@)
}

/// A body parse result with `pre` in front.
pub open spec fn prepend_body(pre: Seq<InstrV>, r: Result<(Seq<InstrV>, int, u64), ParseErrorV>) -> Result<
    (Seq<InstrV>, int, u64),
    ParseErrorV,
> {
    match r {
        Ok((rest, e, l)) => Ok((pre + rest, e, l)),
        Err(x) => Err(x),
    }
}

fn body(src: &[u8], t: &Vec<Lexeme>, pos: usize, line: u64) -> (r: Result<(Vec<Instr>, usize, u64), ParseError>)
    requires
        input_ok(src@, t@),
        pos <= t@.len(),
    ensures
        match r {
            Ok((v, e, l)) => p_body(src@, t@, pos as int, line) == Ok::<(Seq<InstrV>, int, u64), ParseErrorV>((instrs_view(v@), e as int, l)),
            Err(x) => p_body(src@, t@, pos as int, line) == Err::<(Seq<InstrV>, int, u64), ParseErrorV>(x@),
        },
        r matches Ok((_, e, _)) ==> pos <= e < t@.len(),
{
    let mut out: Vec<Instr> = Vec::new();
    let mut p = pos;
    let mut l = line;
    while p < t.len() && !is_terminator_tok(t[p].tok)
        invariant
            input_ok(src@, t@),
            pos <= p <= t@.len(),
            p_body(src@, t@, pos as int, line) == prepend_body(instrs_view(out@), p_body(src@, t@, p as int, l)),
        decreases t@.len() - p,
    {
        match instr(src, t, p) {
            Err(e) => {
                return Err(e);
            },
            Ok((k, at2)) => match line_end(t, at2, l) {
                Err(e) => {
                    return Err(e);
                },
                Ok((at3, l3)) => {
                    let ghost before = out@;
                    let ins = Instr { line: l, kind: k };
                    out.push(ins);
                    proof {
                        assert(instrs_view(out@) =~= instrs_view(before).push(ins@));
                        match p_body(src@, t@, at3 as int, l3) {
                            Ok((rest, e, le)) => {
                                assert(instrs_view(before) + (seq![ins@] + rest) =~= instrs_view(out@) + rest);
                            },
                            Err(_) => {},
                        }
                    }
                    p = at3;
                    l = l3;
                },
            },
        }
    }
    if p >= t.len() {
        return Err(eof_err(src));
    }
    assert(instrs_view(out@) + Seq::<InstrV>::empty() =~= instrs_view(out@));
    Ok((out, p, l))
}

fn block_inner(src: &[u8], t: &Vec<Lexeme>, pos: usize, line: u64) -> (r: Result<(Vec<Instr>, Branch, usize, u64), ParseError>)
    requires
        input_ok(src@, t@),
        pos <= t@.len(),
    ensures
        match r {
            Ok((v, b, e, l)) => p_block_inner(src@, t@, pos as int, line) == Ok::<(Seq<InstrV>, Branch, int, u64), ParseErrorV>((instrs_view(v@), b, e as int, l)),
            Err(x) => p_block_inner(src@, t@, pos as int, line) == Err::<(Seq<InstrV>, Branch, int, u64), ParseErrorV>(x@),
        },
        r matches Ok((_, _, e, _)) ==> pos < e <= t@.len(),
{
    match body(src, t, pos, line) {
        Err(e) => Err(e),
        Ok((lines, at2, l2)) => match terminator(src, t, at2) {
            Err(e) => Err(e),
            Ok((k, at3)) => match line_end(t, at3, l2) {
                Ok((at4, l4)) => Ok((lines, Branch { kind: k, line: l2 }, at4, l4)),
                Err(e) => Err(e),
            },
        },
    }
}


/// The views of a list of blocks.
pub open spec fn blocks_view(v: Seq<BasicBlock>) -> Seq<BlockV> {
    v.map(|i: int, b: BasicBlock| b@)
}

/// The views of a list of functions.
pub open spec fn funcs_view(v: Seq<Func>) -> Seq<FuncV> {
    v.map(|i: int, f: Func| f@)
}

/// Adds `b` to `bs`, replacing a block of the same id.
fn add_block(bs: &mut Vec<BasicBlock>, b: BasicBlock)
    ensures
        blocks_view(final(bs)@) == insert_block(blocks_view(old(bs)@), b@),
{
    let ghost old_v = blocks_view(bs@);
    match crate::ir::find_block(bs, b.id) {
        Some(i) => {
            proof {
                assert(blockv_at(old_v, b@.id, i as int));
                let k = choose|k: int| blockv_at(old_v, b@.id, k);
                if k < i as int {
                    assert(old_v[k].id == bs@[k].id);
                } else if k > i as int {
                    assert(old_v[i as int].id == b.id);
                }
                assert(k == i);
            }
            bs.set(i, b);
            assert(blocks_view(bs@) =~= old_v.update(i as int, b@));
            assert(insert_block(old_v, b@) == old_v.update(i as int, b@));
        },
        None => {
            assert forall|k: int| !blockv_at(old_v, b@.id, k) by {
                if 0 <= k < old_v.len() {
                    assert(old_v[k].id == bs@[k].id);
                }
            }
            bs.push(b);
            assert(blocks_view(bs@) =~= old_v.push(b@));
            assert(insert_block(old_v, b@) == old_v.push(b@));
        },
    }
}

/// Adds `f` to `fs`, replacing a function of the same name.
fn add_func(fs: &mut Vec<Func>, f: Func)
    ensures
        funcs_view(final(fs)@) == insert_func(funcs_view(old(fs)@), f@),
{
    let ghost old_v = funcs_view(fs@);
    match crate::ir::find_func(fs, &f.name) {
        Some(i) => {
            proof {
                assert(funcv_at(old_v, f@.name, i as int));
                let k = choose|k: int| funcv_at(old_v, f@.name, k);
                if k < i as int {
                    assert(old_v[k].name == fs@[k].name@);
                } else if k > i as int {
                    assert(old_v[i as int].name == f.name@);
                }
                assert(k == i);
            }
            fs.set(i, f);
            assert(funcs_view(fs@) =~= old_v.update(i as int, f@));
        },
        None => {
            assert forall|k: int| !funcv_at(old_v, f@.name, k) by {
                if 0 <= k < old_v.len() {
                    assert(old_v[k].name == fs@[k].name@);
                }
            }
            fs.push(f);
            assert(funcs_view(fs@) =~= old_v.push(f@));
        },
    }
}

fn need_block_err(src: &[u8], t: &Vec<Lexeme>, pos: usize) -> (r: ParseError)
    ensures
        r@ == need_block_error(src@, t@, pos as int),
{
    if pos < t.len() {
        err_at(t, pos, ParseErrorKind::FuncNeedBlock)
    } else {
        ParseError(ParseErrorKind::FuncNeedBlock, Span { start: src.len(), end: src.len() })
    }
}

fn blocks(src: &[u8], t: &Vec<Lexeme>, pos: usize, line: u64) -> (r: Result<(Vec<BasicBlock>, usize, u64), ParseError>)
    requires
        input_ok(src@, t@),
        pos <= t@.len(),
    ensures
        match r {
            Ok((v, e, l)) => p_blocks(src@, t@, pos as int, line, Seq::empty()) == Ok::<(Seq<BlockV>, int, u64), ParseErrorV>((blocks_view(v@), e as int, l)),
            Err(x) => p_blocks(src@, t@, pos as int, line, Seq::empty()) == Err::<(Seq<BlockV>, int, u64), ParseErrorV>(x@),
        },
        r matches Ok((_, e, _)) ==> pos <= e <= t@.len(),
{
    let mut acc: Vec<BasicBlock> = Vec::new();
    let mut p = pos;
    let mut l = line;
    assert(blocks_view(acc@) =~= Seq::<BlockV>::empty());
    while p < t.len() && t[p].tok != Token::Id
        invariant
            input_ok(src@, t@),
            pos <= p <= t@.len(),
            p_blocks(src@, t@, pos as int, line, Seq::empty()) == p_blocks(src@, t@, p as int, l, blocks_view(acc@)),
        decreases t@.len() - p,
    {
        let start_line = l;
        match t[p].tok {
            Token::Block(n) => {
                let (preds, at2) = match block_ids(src, t, p + 1) {
                    Ok(x) => x,
                    Err(e) => {
                        return Err(e);
                    },
                };
                let (at3, l3) = match line_end(t, at2, l) {
                    Ok(x) => x,
                    Err(e) => {
                        return Err(e);
                    },
                };
                let (lines, branch, at4, l4) = match block_inner(src, t, at3, l3) {
                    Ok(x) => x,
                    Err(e) => {
                        return Err(e);
                    },
                };
                let b = BasicBlock { id: BlockID(n), preds, lines, branch, line_start: start_line };
                assert(b@ == (BlockV { id: BlockID(n), preds: preds@, lines: instrs_view(lines@), branch, line_start: start_line }));
                add_block(&mut acc, b);
                p = at4;
                l = l4;
            },
            _ => {
                return Err(err_at(t, p, ParseErrorKind::NoBlock(t[p].tok)));
            },
        }
    }
    if acc.len() == 0 {
        return Err(need_block_err(src, t, p));
    }
    Ok((acc, p, l))
}

fn starts_single(src: &[u8], t: &Vec<Lexeme>, pos: usize) -> (r: bool)
    requires
        input_ok(src@, t@),
    ensures
        r == starts_single_block(src@, t@, pos as int),
{
    pos < t.len() && (t[pos].tok == Token::Ret || temp_at(src, t, pos).is_some())
}

fn func(src: &[u8], t: &Vec<Lexeme>, pos: usize, line: u64) -> (r: Result<(Func, usize, u64), ParseError>)
    requires
        input_ok(src@, t@),
        pos <= t@.len(),
    ensures
        match r {
            Ok((f, e, l)) => p_func(src@, t@, pos as int, line) == Ok::<(FuncV, int, u64), ParseErrorV>((f@, e as int, l)),
            Err(x) => p_func(src@, t@, pos as int, line) == Err::<(FuncV, int, u64), ParseErrorV>(x@),
        },
        r matches Ok((_, e, _)) ==> pos < e <= t@.len(),
{
    let (fname, at1) = match name(src, t, pos) {
        Ok(x) => x,
        Err(e) => {
            return Err(e);
        },
    };
    let (params, at2) = match temps(src, t, at1) {
        Ok(x) => x,
        Err(e) => {
            return Err(e);
        },
    };
    let (at3, l3) = match line_end(t, at2, line) {
        Ok(x) => x,
        Err(e) => {
            return Err(e);
        },
    };
    if starts_single(src, t, at3) {
        let (lines, branch, at4, l4) = match block_inner(src, t, at3, l3) {
            Ok(x) => x,
            Err(e) => {
                return Err(e);
            },
        };
        let b = BasicBlock { id: BlockID(0), preds: Vec::new(), lines, branch, line_start: l3 };
        let mut bs: Vec<BasicBlock> = Vec::new();
        bs.push(b);
        let f = Func { name: fname, params, blocks: bs, line_start: line };
        assert(b@.preds =~= Seq::<BlockID>::empty());
        assert(f@.blocks =~= seq![b@]);
        Ok((f, at4, l4))
    } else {
        let (bs, at4, l4) = match blocks(src, t, at3, l3) {
            Ok(x) => x,
            Err(e) => {
                return Err(e);
            },
        };
        let f = Func { name: fname, params, blocks: bs, line_start: line };
        Ok((f, at4, l4))
    }
}

proof fn lemma_lex_from_len(s: Seq<u8>, i: int)
    requires
        0 <= i <= s.len(),
    ensures
        crate::lexer::lex_from(s, i).len() <= s.len() - i,
    decreases s.len() - i,
{
    if i < s.len() {
        let (t, j) = crate::lexer::scan(s, i);
        if i < j <= s.len() {
            lemma_lex_from_len(s, j);
        }
    }
}

/// Parses the source text into a program: functions in the order of their
/// first header, a later function of the same name replacing an earlier one.
pub fn parse(file_str: &str) -> (r: Result<Program, ParseError>)
    ensures
        match r {
            Ok(p) => parse_spec(file_str.spec_bytes()) == Ok::<ProgramV, ParseErrorV>(p@),
            Err(e) => parse_spec(file_str.spec_bytes()) == Err::<ProgramV, ParseErrorV>(e@),
        },
        r matches Ok(p) ==> func_names_unique(p.funcs@),
        r matches Ok(p) ==> forall|i: int|
            0 <= i < p.funcs@.len() ==> #[trigger] p.funcs@[i].blocks@.len() > 0 && block_ids_unique(
                p.funcs@[i].blocks@,
            ),
{
    let src = file_str.as_bytes();
    let n = src.len();
    let t = lex(src);
    proof {
        lemma_lex_sane(src@);
        lemma_lex_from_len(src@, 0);
    }
    let (at0, l0) = skip_newlines(&t, 0, 1);
    let mut funcs: Vec<Func> = Vec::new();
    let mut p = at0;
    let mut l = l0;
    assert(funcs_view(funcs@) =~= Seq::<FuncV>::empty());
    while p < t.len()
        invariant
            input_ok(src@, t@),
            t@ == lex_spec(src@),
            src@ == file_str.spec_bytes(),
            (at0 as int, l0) == skip_nl(t@, 0, 1),
            at0 <= p <= t@.len(),
            p_program(src@, t@, at0 as int, l0, Seq::empty()) == p_program(src@, t@, p as int, l, funcs_view(funcs@)),
        decreases t@.len() - p,
    {
        let (f, at2, l2) = match func(src, &t, p, l) {
            Ok(x) => x,
            Err(e) => {
                assert(p_program(src@, t@, p as int, l, funcs_view(funcs@)) == Err::<Seq<FuncV>, ParseErrorV>(e@));
                assert(p_program(src@, t@, at0 as int, l0, Seq::empty()) == Err::<Seq<FuncV>, ParseErrorV>(e@));
                return Err(e);
            },
        };
        add_func(&mut funcs, f);
        p = at2;
        l = l2;
    }
    let prog = Program { funcs };
    assert(prog@.funcs == funcs_view(prog.funcs@));
    proof {
        lemma_parse_ok(src@);
        let fs = prog.funcs@;
        let vs = prog@.funcs;
        assert(funcvs_ok(vs));
        assert forall|i: int, j: int| 0 <= i < fs.len() && 0 <= j < fs.len() && i != j implies #[trigger] fs[i].name@ != #[trigger] fs[j].name@ by {
            assert(vs[i].name == fs[i].name@);
            assert(vs[j].name == fs[j].name@);
        }
        assert forall|i: int| 0 <= i < fs.len() implies #[trigger] fs[i].blocks@.len() > 0 && block_ids_unique(fs[i].blocks@) by {
            assert(funcv_ok(vs[i]));
            assert(vs[i].blocks == blocks_view(fs[i].blocks@));
            let bs = fs[i].blocks@;
            assert forall|a: int, b: int| 0 <= a < bs.len() && 0 <= b < bs.len() && a != b implies #[trigger] bs[a].id != #[trigger] bs[b].id by {
                assert(vs[i].blocks[a].id == bs[a].id);
                assert(vs[i].blocks[b].id == bs[b].id);
            }
        }
    }
    Ok(prog)
}

/// Block ids are unique.
pub open spec fn blockv_ids_unique(bs: Seq<BlockV>) -> bool {
    forall|i: int, j: int| 0 <= i < bs.len() && 0 <= j < bs.len() && i != j ==> #[trigger] bs[i].id != #[trigger] bs[j].id
}

/// A function has blocks, with unique ids.
pub open spec fn funcv_ok(f: FuncV) -> bool {
    f.blocks.len() > 0 && blockv_ids_unique(f.blocks)
}

/// Function names are unique and every function is well formed.
pub open spec fn funcvs_ok(fs: Seq<FuncV>) -> bool {
    &&& forall|i: int, j: int| 0 <= i < fs.len() && 0 <= j < fs.len() && i != j ==> #[trigger] fs[i].name != #[trigger] fs[j].name
    &&& forall|i: int| 0 <= i < fs.len() ==> funcv_ok(#[trigger] fs[i])
}

proof fn lemma_insert_block_unique(bs: Seq<BlockV>, b: BlockV)
    requires
        blockv_ids_unique(bs),
    ensures
        blockv_ids_unique(insert_block(bs, b)),
        insert_block(bs, b).len() > 0,
{
    if exists|i: int| blockv_at(bs, b.id, i) {
        let k = choose|i: int| blockv_at(bs, b.id, i);
        let r = bs.update(k, b);
        assert forall|i: int, j: int| 0 <= i < r.len() && 0 <= j < r.len() && i != j implies #[trigger] r[i].id != #[trigger] r[j].id by {
            if i == k {
                assert(bs[j].id != bs[k].id);
            } else if j == k {
                assert(bs[i].id != bs[k].id);
            } else {
                assert(bs[i].id != bs[j].id);
            }
        }
    } else {
        let r = bs.push(b);
        assert forall|i: int, j: int| 0 <= i < r.len() && 0 <= j < r.len() && i != j implies #[trigger] r[i].id != #[trigger] r[j].id by {
            if i == bs.len() {
                if r[i].id == r[j].id {
                    let jj = j;
                    assert(bs[jj].id == b.id);
                    lemma_some_block_at(bs, b.id, jj);
                }
            } else if j == bs.len() {
                if r[i].id == r[j].id {
                    lemma_some_block_at(bs, b.id, i);
                }
            } else {
                assert(bs[i].id != bs[j].id);
            }
        }
    }
}

proof fn lemma_some_block_at(bs: Seq<BlockV>, id: BlockID, j: int)
    requires
        0 <= j < bs.len(),
        bs[j].id == id,
    ensures
        exists|i: int| blockv_at(bs, id, i),
    decreases j,
{
    if forall|k: int| 0 <= k < j ==> #[trigger] bs[k].id != id {
        assert(blockv_at(bs, id, j));
    } else {
        let k = choose|k: int| 0 <= k < j && #[trigger] bs[k].id == id;
        lemma_some_block_at(bs, id, k);
    }
}

proof fn lemma_some_func_at(fs: Seq<FuncV>, name: Seq<char>, j: int)
    requires
        0 <= j < fs.len(),
        fs[j].name == name,
    ensures
        exists|i: int| funcv_at(fs, name, i),
    decreases j,
{
    if forall|k: int| 0 <= k < j ==> #[trigger] fs[k].name != name {
        assert(funcv_at(fs, name, j));
    } else {
        let k = choose|k: int| 0 <= k < j && #[trigger] fs[k].name == name;
        lemma_some_func_at(fs, name, k);
    }
}

proof fn lemma_insert_func_ok(fs: Seq<FuncV>, f: FuncV)
    requires
        funcvs_ok(fs),
        funcv_ok(f),
    ensures
        funcvs_ok(insert_func(fs, f)),
{
    if exists|i: int| funcv_at(fs, f.name, i) {
        let k = choose|i: int| funcv_at(fs, f.name, i);
        let r = fs.update(k, f);
        assert forall|i: int, j: int| 0 <= i < r.len() && 0 <= j < r.len() && i != j implies #[trigger] r[i].name != #[trigger] r[j].name by {
            if i == k {
                assert(fs[j].name != fs[k].name);
            } else if j == k {
                assert(fs[i].name != fs[k].name);
            } else {
                assert(fs[i].name != fs[j].name);
            }
        }
        assert forall|i: int| 0 <= i < r.len() implies funcv_ok(#[trigger] r[i]) by {
            if i != k {
                assert(funcv_ok(fs[i]));
            }
        }
    } else {
        let r = fs.push(f);
        assert forall|i: int, j: int| 0 <= i < r.len() && 0 <= j < r.len() && i != j implies #[trigger] r[i].name != #[trigger] r[j].name by {
            if i == fs.len() {
                if r[i].name == r[j].name {
                    lemma_some_func_at(fs, f.name, j);
                }
            } else if j == fs.len() {
                if r[i].name == r[j].name {
                    lemma_some_func_at(fs, f.name, i);
                }
            } else {
                assert(fs[i].name != fs[j].name);
            }
        }
        assert forall|i: int| 0 <= i < r.len() implies funcv_ok(#[trigger] r[i]) by {
            if i < fs.len() {
                assert(funcv_ok(fs[i]));
            }
        }
    }
}

proof fn lemma_p_blocks_ok(s: Seq<u8>, t: Seq<Lexeme>, pos: int, line: u64, acc: Seq<BlockV>)
    requires
        blockv_ids_unique(acc),
    ensures
        p_blocks(s, t, pos, line, acc) matches Ok((bs, _, _)) ==> bs.len() > 0 && blockv_ids_unique(bs),
    decreases t.len() - pos,
{
    if !(pos < 0 || pos >= t.len() || t[pos].tok == Token::Id) {
        if let Token::Block(n) = t[pos].tok {
            if let Ok((preds, at2)) = p_blocks_ids(s, t, pos + 1) {
                if let Ok((at3, l3)) = p_line_end(t, at2, line) {
                    if let Ok((lines, branch, at4, l4)) = p_block_inner(s, t, at3, l3) {
                        if pos < at4 <= t.len() {
                            let b = BlockV { id: BlockID(n), preds, lines, branch, line_start: line };
                            lemma_insert_block_unique(acc, b);
                            lemma_p_blocks_ok(s, t, at4, l4, insert_block(acc, b));
                        }
                    }
                }
            }
        }
    }
}

proof fn lemma_p_func_ok(s: Seq<u8>, t: Seq<Lexeme>, pos: int, line: u64)
    ensures
        p_func(s, t, pos, line) matches Ok((f, _, _)) ==> funcv_ok(f),
{
    if let Ok((name, at1)) = p_name(s, t, pos) {
        if let Ok((params, at2)) = p_temps(s, t, at1) {
            if let Ok((at3, l3)) = p_line_end(t, at2, line) {
                if !starts_single_block(s, t, at3) {
                    lemma_p_blocks_ok(s, t, at3, l3, Seq::empty());
                }
            }
        }
    }
}

proof fn lemma_p_program_ok(s: Seq<u8>, t: Seq<Lexeme>, pos: int, line: u64, acc: Seq<FuncV>)
    requires
        funcvs_ok(acc),
    ensures
        p_program(s, t, pos, line, acc) matches Ok(fs) ==> funcvs_ok(fs),
    decreases t.len() - pos,
{
    if !(pos < 0 || pos >= t.len()) {
        lemma_p_func_ok(s, t, pos, line);
        if let Ok((f, at2, l2)) = p_func(s, t, pos, line) {
            if pos < at2 <= t.len() {
                lemma_insert_func_ok(acc, f);
                lemma_p_program_ok(s, t, at2, l2, insert_func(acc, f));
            }
        }
    }
}

/// A parsed program has unique function names, and each function has blocks
/// with unique ids.
pub proof fn lemma_parse_ok(s: Seq<u8>)
    ensures
        parse_spec(s) matches Ok(pv) ==> funcvs_ok(pv.funcs),
{
    let t = lex_spec(s);
    let (at0, l0) = skip_nl(t, 0, 1);
    lemma_p_program_ok(s, t, at0, l0, Seq::empty());
}

/// Parsing is deterministic: the same source gives the same result.
pub proof fn lemma_parse_deterministic(s1: Seq<u8>, s2: Seq<u8>)
    requires
        s1 == s2,
    ensures
        parse_spec(s1) == parse_spec(s2),
{
}

} // verus!
