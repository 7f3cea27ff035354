use vstd::prelude::*;

use vstd::string::StringSliceAdditionalSpecFns;
use vstd::utf8::encode_utf8;

use crate::ir::{
    reg_name, BasicBlock, BlockID, BlockV, BranchKind, Cond, CondJumpKind, Func, FuncV, Instr,
    InstrKind, InstrV, KindV, Operand, Program, ProgramV, Temp, TempID,
};
use crate::ops::{binop_symbol, unop_symbol};
use crate::parser::{blocks_view, funcs_view, instrs_view};

verus! {

/// The decimal digits of `n`.
pub open spec fn digits(n: nat) -> Seq<u8>
    decreases n,
{
    if n < 10 {
        seq![(48 + n) as u8]
    } else {
        digits(n / 10) + seq![(48 + n % 10) as u8]
    }
}

/// An integer in decimal, with a minus sign when negative.
pub open spec fn int_text(v: int) -> Seq<u8> {
    if v < 0 {
        seq![45u8] + digits((-v) as nat)
    } else {
        digits(v as nat)
    }
}

/// A temporary: `#n`, or a register's name.
pub open spec fn temp_text(t: Temp) -> Seq<u8> {
    match t.0 {
        TempID::Num(n) => seq![35u8] + digits(n as nat),
        TempID::Reg(r) => encode_utf8(reg_name(r)),
    }
}

pub open spec fn operand_text(o: Operand) -> Seq<u8> {
    match o {
        Operand::Temp(t) => temp_text(t),
        Operand::Const(v) => int_text(v as int),
    }
}

/// A block label: `@n`.
pub open spec fn block_text(b: BlockID) -> Seq<u8> {
    seq![64u8] + digits(b.0 as nat)
}

/// Each operand after a space.
pub open spec fn operands_text(os: Seq<Operand>) -> Seq<u8>
    decreases os.len(),
{
    if os.len() == 0 {
        Seq::empty()
    } else {
        operands_text(os.drop_last()) + seq![32u8] + operand_text(os.last())
    }
}

/// Each temporary after a space.
pub open spec fn temps_text(ts: Seq<Temp>) -> Seq<u8>
    decreases ts.len(),
{
    if ts.len() == 0 {
        Seq::empty()
    } else {
        temps_text(ts.drop_last()) + seq![32u8] + temp_text(ts.last())
    }
}

/// Each block label after a space.
pub open spec fn block_ids_text(bs: Seq<BlockID>) -> Seq<u8>
    decreases bs.len(),
{
    if bs.len() == 0 {
        Seq::empty()
    } else {
        block_ids_text(bs.drop_last()) + seq![32u8] + block_text(bs.last())
    }
}

/// The suffix after `j` of a flag-condition jump.
pub open spec fn jump_suffix(k: CondJumpKind) -> Seq<u8> {
    match k {
        CondJumpKind::Zero => "z".spec_bytes(),
        CondJumpKind::NotZero => "nz".spec_bytes(),
        CondJumpKind::Equal => "e".spec_bytes(),
        CondJumpKind::NotEqual => "ne".spec_bytes(),
        CondJumpKind::Less => "l".spec_bytes(),
        CondJumpKind::LessEqual => "le".spec_bytes(),
        CondJumpKind::Greater => "g".spec_bytes(),
        CondJumpKind::GreaterEqual => "ge".spec_bytes(),
        CondJumpKind::NotLess => "nl".spec_bytes(),
        CondJumpKind::NotLessEqual => "nle".spec_bytes(),
        CondJumpKind::NotGreater => "ng".spec_bytes(),
        CondJumpKind::NotGreaterEqual => "nge".spec_bytes(),
    }
}

/// The text of a body instruction.
pub open spec fn kind_text(k: KindV) -> Seq<u8> {
    match k {
        KindV::BinOp { op, dest, src1, src2 } => temp_text(dest) + " = ".spec_bytes() + operand_text(src1)
            + seq![32u8] + encode_utf8(binop_symbol(op)) + seq![32u8] + operand_text(src2),
        KindV::UnOp { op, dest, src } => temp_text(dest) + " = ".spec_bytes() + encode_utf8(
            unop_symbol(op),
        ) + seq![32u8] + operand_text(src),
        KindV::Mov { dest, src } => temp_text(dest) + " = ".spec_bytes() + operand_text(src),
        KindV::If { cond, block } => "if ".spec_bytes() + operand_text(cond) + seq![32u8]
            + block_text(block),
        KindV::Phi { dest, srcs } => temp_text(dest) + " = phi".spec_bytes() + operands_text(srcs),
        KindV::Call { name, dest, src } => match dest {
            Some(d) => temp_text(d) + " = call ".spec_bytes() + encode_utf8(name) + operands_text(src),
            None => "call ".spec_bytes() + encode_utf8(name) + operands_text(src),
        },
        KindV::Print { value } => "print ".spec_bytes() + operand_text(value),
        KindV::Dump => "dump".spec_bytes(),
        KindV::Nop => "nop".spec_bytes(),
    }
}

/// The text of a terminator.
pub open spec fn branch_text(b: BranchKind) -> Seq<u8> {
    match b {
        BranchKind::Ret(None) => "ret".spec_bytes(),
        BranchKind::Ret(Some(v)) => "ret ".spec_bytes() + operand_text(v),
        BranchKind::Jump(t) => "jmp ".spec_bytes() + block_text(t),
        BranchKind::Cond(Cond::Value(a), t, f) => "cmp ".spec_bytes() + operand_text(a) + seq![32u8]
            + block_text(t) + seq![32u8] + block_text(f),
        BranchKind::Cond(Cond::BinOp(a, op, c), t, f) => "cmp ".spec_bytes() + operand_text(a)
            + seq![32u8] + encode_utf8(binop_symbol(op)) + seq![32u8] + operand_text(c) + seq![32u8]
            + block_text(t) + seq![32u8] + block_text(f),
        BranchKind::CondJump(k, t, f) => seq![106u8] + jump_suffix(k) + seq![32u8] + block_text(t)
            + seq![32u8] + block_text(f),
    }
}

/// Each instruction on a line of its own, indented.
pub open spec fn lines_text(ls: Seq<InstrV>) -> Seq<u8>
    decreases ls.len(),
{
    if ls.len() == 0 {
        Seq::empty()
    } else {
        lines_text(ls.drop_last()) + "  ".spec_bytes() + kind_text(ls.last().kind) + seq![10u8]
    }
}

/// A block: its label and predecessors, its body, its terminator.
pub open spec fn block_v_text(b: BlockV) -> Seq<u8> {
    block_text(b.id) + block_ids_text(b.preds) + seq![10u8] + lines_text(b.lines) + "  ".spec_bytes()
        + branch_text(b.branch.kind) + seq![10u8]
}

pub open spec fn blocks_text(bs: Seq<BlockV>) -> Seq<u8>
    decreases bs.len(),
{
    if bs.len() == 0 {
        Seq::empty()
    } else {
        blocks_text(bs.drop_last()) + block_v_text(bs.last())
    }
}

/// A function: its header line, then its blocks.
pub open spec fn func_text(f: FuncV) -> Seq<u8> {
    encode_utf8(f.name) + temps_text(f.params) + seq![10u8] + blocks_text(f.blocks)
}

pub open spec fn funcs_text(fs: Seq<FuncV>) -> Seq<u8>
    decreases fs.len(),
{
    if fs.len() == 0 {
        Seq::empty()
    } else {
        funcs_text(fs.drop_last()) + func_text(fs.last())
    }
}

/// The program in the textual IR.
pub open spec fn program_text(p: ProgramV) -> Seq<u8> {
    funcs_text(p.funcs)
}

fn push_str(out: &mut Vec<u8>, s: &str)
    ensures
        final(out)@ == old(out)@ + s.spec_bytes(),
{
    let b = s.as_bytes();
    let mut i: usize = 0;
    while i < b.len()
        invariant
            i <= b@.len(),
            b@ == s.spec_bytes(),
            out@ == old(out)@ + b@.subrange(0, i as int),
        decreases b@.len() - i,
    {
        out.push(b[i]);
        i = i + 1;
        assert(out@ =~= old(out)@ + b@.subrange(0, i as int));
    }
    assert(b@.subrange(0, i as int) =~= b@);
}

fn push_u64(out: &mut Vec<u8>, n: u64)
    ensures
        final(out)@ == old(out)@ + digits(n as nat),
    decreases n,
{
    if n >= 10 {
        push_u64(out, n / 10);
    }
    out.push(48 + (n % 10) as u8);
    proof {
        if n >= 10 {
            assert(out@ =~= old(out)@ + digits(n as nat));
        } else {
            assert(out@ =~= old(out)@ + digits(n as nat));
        }
    }
}

fn push_i32(out: &mut Vec<u8>, v: i32)
    ensures
        final(out)@ == old(out)@ + int_text(v as int),
{
    if v < 0 {
        out.push(45);
        let m: i64 = -(v as i64);
        push_u64(out, m as u64);
        assert(out@ =~= old(out)@ + int_text(v as int));
    } else {
        push_u64(out, v as u64);
    }
}

fn push_temp(out: &mut Vec<u8>, t: &Temp)
    ensures
        final(out)@ == old(out)@ + temp_text(*t),
{
    match t.0 {
        TempID::Num(n) => {
            out.push(35);
            push_u64(out, n);
            assert(out@ =~= old(out)@ + temp_text(*t));
        },
        TempID::Reg(r) => {
            push_str(out, r.name());
        },
    }
}

fn push_operand(out: &mut Vec<u8>, o: &Operand)
    ensures
        final(out)@ == old(out)@ + operand_text(*o),
{
    match o {
        Operand::Temp(t) => push_temp(out, t),
        Operand::Const(v) => push_i32(out, *v),
    }
}

fn push_block(out: &mut Vec<u8>, b: BlockID)
    ensures
        final(out)@ == old(out)@ + block_text(b),
{
    out.push(64);
    push_u64(out, b.0);
    assert(out@ =~= old(out)@ + block_text(b));
}

fn push_space(out: &mut Vec<u8>)
    ensures
        final(out)@ == old(out)@ + seq![32u8],
{
    out.push(32);
    assert(out@ =~= old(out)@ + seq![32u8]);
}

fn push_newline(out: &mut Vec<u8>)
    ensures
        final(out)@ == old(out)@ + seq![10u8],
{
    out.push(10);
    assert(out@ =~= old(out)@ + seq![10u8]);
}

fn push_operands(out: &mut Vec<u8>, os: &Vec<Operand>)
    ensures
        final(out)@ == old(out)@ + operands_text(os@),
{
    let mut i: usize = 0;
    while i < os.len()
        invariant
            i <= os@.len(),
            out@ == old(out)@ + operands_text(os@.subrange(0, i as int)),
        decreases os@.len() - i,
    {
        assert(os@.subrange(0, i + 1).drop_last() =~= os@.subrange(0, i as int));
        push_space(out);
        push_operand(out, &os[i]);
        i = i + 1;
        assert(out@ =~= old(out)@ + operands_text(os@.subrange(0, i as int)));
    }
    assert(os@.subrange(0, i as int) =~= os@);
}

fn push_temps(out: &mut Vec<u8>, ts: &Vec<Temp>)
    ensures
        final(out)@ == old(out)@ + temps_text(ts@),
{
    let mut i: usize = 0;
    while i < ts.len()
        invariant
            i <= ts@.len(),
            out@ == old(out)@ + temps_text(ts@.subrange(0, i as int)),
        decreases ts@.len() - i,
    {
        assert(ts@.subrange(0, i + 1).drop_last() =~= ts@.subrange(0, i as int));
        push_space(out);
        push_temp(out, &ts[i]);
        i = i + 1;
        assert(out@ =~= old(out)@ + temps_text(ts@.subrange(0, i as int)));
    }
    assert(ts@.subrange(0, i as int) =~= ts@);
}

fn push_block_ids(out: &mut Vec<u8>, bs: &Vec<BlockID>)
    ensures
        final(out)@ == old(out)@ + block_ids_text(bs@),
{
    let mut i: usize = 0;
    while i < bs.len()
        invariant
            i <= bs@.len(),
            out@ == old(out)@ + block_ids_text(bs@.subrange(0, i as int)),
        decreases bs@.len() - i,
    {
        assert(bs@.subrange(0, i + 1).drop_last() =~= bs@.subrange(0, i as int));
        push_space(out);
        push_block(out, bs[i]);
        i = i + 1;
        assert(out@ =~= old(out)@ + block_ids_text(bs@.subrange(0, i as int)));
    }
    assert(bs@.subrange(0, i as int) =~= bs@);
}

fn jump_suffix_str(k: CondJumpKind) -> (r: &'static str)
    ensures
        r.spec_bytes() == jump_suffix(k),
{
    match k {
        CondJumpKind::Zero => "z",
        CondJumpKind::NotZero => "nz",
        CondJumpKind::Equal => "e",
        CondJumpKind::NotEqual => "ne",
        CondJumpKind::Less => "l",
        CondJumpKind::LessEqual => "le",
        CondJumpKind::Greater => "g",
        CondJumpKind::GreaterEqual => "ge",
        CondJumpKind::NotLess => "nl",
        CondJumpKind::NotLessEqual => "nle",
        CondJumpKind::NotGreater => "ng",
        CondJumpKind::NotGreaterEqual => "nge",
    }
}


fn push_kind(out: &mut Vec<u8>, k: &InstrKind)
    ensures
        final(out)@ == old(out)@ + kind_text(k@),
{
    match k {
        InstrKind::BinOp { op, dest, src1, src2 } => {
            push_temp(out, dest);
            push_str(out, " = ");
            push_operand(out, src1);
            push_space(out);
            push_str(out, op.symbol());
            push_space(out);
            push_operand(out, src2);
        },
        InstrKind::UnOp { op, dest, src } => {
            push_temp(out, dest);
            push_str(out, " = ");
            push_str(out, op.symbol());
            push_space(out);
            push_operand(out, src);
        },
        InstrKind::Mov { dest, src } => {
            push_temp(out, dest);
            push_str(out, " = ");
            push_operand(out, src);
        },
        InstrKind::If { cond, block } => {
            push_str(out, "if ");
            push_operand(out, cond);
            push_space(out);
            push_block(out, *block);
        },
        InstrKind::Phi { dest, srcs } => {
            push_temp(out, dest);
            push_str(out, " = phi");
            push_operands(out, srcs);
        },
        InstrKind::Call { name, dest, src } => {
            match dest {
                Some(d) => {
                    push_temp(out, d);
                    push_str(out, " = call ");
                },
                None => {
                    push_str(out, "call ");
                },
            }
            push_str(out, name.as_str());
            push_operands(out, src);
        },
        InstrKind::Print { value } => {
            push_str(out, "print ");
            push_operand(out, value);
        },
        InstrKind::Dump => {
            push_str(out, "dump");
        },
        InstrKind::Nop => {
            push_str(out, "nop");
        },
    }
    assert(out@ =~= old(out)@ + kind_text(k@));
}

fn push_branch(out: &mut Vec<u8>, b: &BranchKind)
    ensures
        final(out)@ == old(out)@ + branch_text(*b),
{
    match b {
        BranchKind::Ret(None) => {
            push_str(out, "ret");
        },
        BranchKind::Ret(Some(v)) => {
            push_str(out, "ret ");
            push_operand(out, v);
        },
        BranchKind::Jump(t) => {
            push_str(out, "jmp ");
            push_block(out, *t);
        },
        BranchKind::Cond(c, t, f) => {
            push_str(out, "cmp ");
            match c {
                Cond::Value(a) => {
                    push_operand(out, a);
                },
                Cond::BinOp(a, op, x) => {
                    push_operand(out, a);
                    push_space(out);
                    push_str(out, op.symbol());
                    push_space(out);
                    push_operand(out, x);
                },
            }
            push_space(out);
            push_block(out, *t);
            push_space(out);
            push_block(out, *f);
        },
        BranchKind::CondJump(k, t, f) => {
            out.push(106);
            push_str(out, jump_suffix_str(*k));
            push_space(out);
            push_block(out, *t);
            push_space(out);
            push_block(out, *f);
        },
    }
    assert(out@ =~= old(out)@ + branch_text(*b));
}

fn push_lines(out: &mut Vec<u8>, ls: &Vec<Instr>)
    ensures
        final(out)@ == old(out)@ + lines_text(instrs_view(ls@)),
{
    let ghost v = instrs_view(ls@);
    let mut i: usize = 0;
    while i < ls.len()
        invariant
            i <= ls@.len(),
            v == instrs_view(ls@),
            out@ == old(out)@ + lines_text(v.subrange(0, i as int)),
        decreases ls@.len() - i,
    {
        assert(v.subrange(0, i + 1).drop_last() =~= v.subrange(0, i as int));
        let ghost before = out@;
        push_str(out, "  ");
        push_kind(out, &ls[i].kind);
        push_newline(out);
        i = i + 1;
        assert(out@ =~= old(out)@ + lines_text(v.subrange(0, i as int)));
    }
    assert(v.subrange(0, i as int) =~= v);
}

fn push_basic_block(out: &mut Vec<u8>, b: &BasicBlock)
    ensures
        final(out)@ == old(out)@ + block_v_text(b@),
{
    push_block(out, b.id);
    push_block_ids(out, &b.preds);
    push_newline(out);
    push_lines(out, &b.lines);
    push_str(out, "  ");
    push_branch(out, &b.branch.kind);
    push_newline(out);
    assert(out@ =~= old(out)@ + block_v_text(b@));
}

fn push_func(out: &mut Vec<u8>, f: &Func)
    ensures
        final(out)@ == old(out)@ + func_text(f@),
{
    push_str(out, f.name.as_str());
    push_temps(out, &f.params);
    push_newline(out);
    let ghost v = blocks_view(f.blocks@);
    let ghost mid = out@;
    let mut i: usize = 0;
    while i < f.blocks.len()
        invariant
            i <= f.blocks@.len(),
            v == blocks_view(f.blocks@),
            out@ == mid + blocks_text(v.subrange(0, i as int)),
        decreases f.blocks@.len() - i,
    {
        assert(v.subrange(0, i + 1).drop_last() =~= v.subrange(0, i as int));
        push_basic_block(out, &f.blocks[i]);
        i = i + 1;
        assert(out@ =~= mid + blocks_text(v.subrange(0, i as int)));
    }
    assert(v.subrange(0, i as int) =~= v);
    assert(out@ =~= old(out)@ + func_text(f@));
}

/// The program in the textual IR: each function's header line (name and
/// parameters), then each block's label line (id and predecessors), its
/// instructions indented, and its terminator.
pub fn render(p: &Program) -> (r: Vec<u8>)
    ensures
        r@ == program_text(p@),
{
    let mut out: Vec<u8> = Vec::new();
    let ghost v = funcs_view(p.funcs@);
    let mut i: usize = 0;
    while i < p.funcs.len()
        invariant
            i <= p.funcs@.len(),
            v == funcs_view(p.funcs@),
            out@ == funcs_text(v.subrange(0, i as int)),
        decreases p.funcs@.len() - i,
    {
        assert(v.subrange(0, i + 1).drop_last() =~= v.subrange(0, i as int));
        push_func(&mut out, &p.funcs[i]);
        i = i + 1;
    }
    assert(v.subrange(0, i as int) =~= v);
    out
}

} // verus!
