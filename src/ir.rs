use vstd::prelude::*;

use crate::ops::BinOp;
use crate::ops::UnOp;

verus! {

/// The fifteen hardware registers that can stand as temporaries.
#[derive(Clone, Copy, Debug, PartialEq, Eq, Structural, Hash, PartialOrd, Ord)]
pub enum Register {
    EAX,
    EBX,
    ECX,
    EDX,
    EDI,
    ESI,
    EBP,
    R8D,
    R9D,
    R10D,
    R11D,
    R12D,
    R13D,
    R14D,
    R15D,
}

/// Number of registers.
pub const NUM_REGISTERS: usize = 15;

/// Position of a register in the fixed register order.
pub open spec fn reg_index(r: Register) -> int {
    match r {
        Register::EAX => 0,
        Register::EBX => 1,
        Register::ECX => 2,
        Register::EDX => 3,
        Register::EDI => 4,
        Register::ESI => 5,
        Register::EBP => 6,
        Register::R8D => 7,
        Register::R9D => 8,
        Register::R10D => 9,
        Register::R11D => 10,
        Register::R12D => 11,
        Register::R13D => 12,
        Register::R14D => 13,
        Register::R15D => 14,
    }
}

/// The register at a position of the fixed register order.
pub open spec fn reg_at(i: int) -> Register {
    if i == 0 { Register::EAX }
    else if i == 1 { Register::EBX }
    else if i == 2 { Register::ECX }
    else if i == 3 { Register::EDX }
    else if i == 4 { Register::EDI }
    else if i == 5 { Register::ESI }
    else if i == 6 { Register::EBP }
    else if i == 7 { Register::R8D }
    else if i == 8 { Register::R9D }
    else if i == 9 { Register::R10D }
    else if i == 10 { Register::R11D }
    else if i == 11 { Register::R12D }
    else if i == 12 { Register::R13D }
    else if i == 13 { Register::R14D }
    else { Register::R15D }
}

/// The lower-case name of a register in the textual IR.
pub open spec fn reg_name(r: Register) -> Seq<char> {
    match r {
        Register::EAX => "eax"@,
        Register::EBX => "ebx"@,
        Register::ECX => "ecx"@,
        Register::EDX => "edx"@,
        Register::EDI => "edi"@,
        Register::ESI => "esi"@,
        Register::EBP => "ebp"@,
        Register::R8D => "r8d"@,
        Register::R9D => "r9d"@,
        Register::R10D => "r10d"@,
        Register::R11D => "r11d"@,
        Register::R12D => "r12d"@,
        Register::R13D => "r13d"@,
        Register::R14D => "r14d"@,
        Register::R15D => "r15d"@,
    }
}

impl Register {
    /// Position of the register in the fixed register order.
    pub fn index(&self) -> (r: usize)
        ensures
            r as int == reg_index(*self),
            r < NUM_REGISTERS,
    {
        match self {
            Register::EAX => 0,
            Register::EBX => 1,
            Register::ECX => 2,
            Register::EDX => 3,
            Register::EDI => 4,
            Register::ESI => 5,
            Register::EBP => 6,
            Register::R8D => 7,
            Register::R9D => 8,
            Register::R10D => 9,
            Register::R11D => 10,
            Register::R12D => 11,
            Register::R13D => 12,
            Register::R14D => 13,
            Register::R15D => 14,
        }
    }

    /// The register at position `i` of the fixed register order.
    pub fn from_index(i: usize) -> (r: Register)
        requires
            i < NUM_REGISTERS,
        ensures
            r == reg_at(i as int),
            reg_index(r) == i,
    {
        if i == 0 { Register::EAX }
        else if i == 1 { Register::EBX }
        else if i == 2 { Register::ECX }
        else if i == 3 { Register::EDX }
        else if i == 4 { Register::EDI }
        else if i == 5 { Register::ESI }
        else if i == 6 { Register::EBP }
        else if i == 7 { Register::R8D }
        else if i == 8 { Register::R9D }
        else if i == 9 { Register::R10D }
        else if i == 10 { Register::R11D }
        else if i == 11 { Register::R12D }
        else if i == 12 { Register::R13D }
        else if i == 13 { Register::R14D }
        else { Register::R15D }
    }

    /// The register's name in the textual IR.
    pub fn name(&self) -> (r: &'static str)
        ensures
            r@ == reg_name(*self),
    {
        match self {
            Register::EAX => "eax",
            Register::EBX => "ebx",
            Register::ECX => "ecx",
            Register::EDX => "edx",
            Register::EDI => "edi",
            Register::ESI => "esi",
            Register::EBP => "ebp",
            Register::R8D => "r8d",
            Register::R9D => "r9d",
            Register::R10D => "r10d",
            Register::R11D => "r11d",
            Register::R12D => "r12d",
            Register::R13D => "r13d",
            Register::R14D => "r14d",
            Register::R15D => "r15d",
        }
    }
}

/// What a temporary names: a numbered virtual register or a hardware register.
#[derive(Clone, Copy, Debug, PartialEq, Eq, Structural, Hash, PartialOrd, Ord)]
pub enum TempID {
    Num(u64),
    Reg(Register),
}

/// A temporary (virtual register).
#[derive(Clone, Copy, Debug, PartialEq, Eq, Structural, Hash, PartialOrd, Ord)]
pub struct Temp(pub TempID);

/// The id of a basic block within its function.
#[derive(Clone, Copy, Debug, PartialEq, Eq, Structural, Hash, PartialOrd, Ord)]
pub struct BlockID(pub u64);

/// An instruction operand: a temporary or a 32-bit constant.
#[derive(Clone, Copy, Debug, PartialEq, Eq, Structural, Hash)]
pub enum Operand {
    Temp(Temp),
    Const(i32),
}

/// The body instructions of a basic block.
#[derive(Clone, Debug, PartialEq, Eq)]
#[allow(inconsistent_fields)]
pub enum InstrKind {
    BinOp { op: BinOp, dest: Temp, src1: Operand, src2: Operand },
    UnOp { op: UnOp, dest: Temp, src: Operand },
    Mov { dest: Temp, src: Operand },
    /// Jump to `block` in the middle of a block when `cond` is not zero.
    If { cond: Operand, block: BlockID },
    /// `srcs` is parallel to the predecessor list of the containing block.
    Phi { dest: Temp, srcs: Vec<Operand> },
    Call { name: String, dest: Option<Temp>, src: Vec<Operand> },
    Print { value: Operand },
    Dump,
    Nop,
}

/// An instruction with the source line it stands on.
#[derive(Clone, Debug, PartialEq, Eq)]
pub struct Instr {
    pub line: u64,
    pub kind: InstrKind,
}

/// The temporary that an instruction defines, if any.
pub open spec fn instr_dest(k: InstrKind) -> Option<Temp> {
    match k {
        InstrKind::BinOp { dest, .. } => Some(dest),
        InstrKind::UnOp { dest, .. } => Some(dest),
        InstrKind::Mov { dest, .. } => Some(dest),
        InstrKind::Phi { dest, .. } => Some(dest),
        InstrKind::Call { dest, .. } => dest,
        _ => None,
    }
}

impl Instr {
    /// The temporary that this instruction defines, if any.
    pub fn dest(&self) -> (r: Option<Temp>)
        ensures
            r == instr_dest(self.kind),
    {
        match &self.kind {
            InstrKind::BinOp { dest, .. } => Some(*dest),
            InstrKind::UnOp { dest, .. } => Some(*dest),
            InstrKind::Mov { dest, .. } => Some(*dest),
            InstrKind::Phi { dest, .. } => Some(*dest),
            InstrKind::Call { dest, .. } => *dest,
            _ => None,
        }
    }
}

/// The condition of a `cmp` terminator.
#[derive(Clone, Copy, Debug, PartialEq, Eq, Structural)]
pub enum Cond {
    BinOp(Operand, BinOp, Operand),
    Value(Operand),
}

/// The flag conditions of the `j..` terminators.
#[derive(Clone, Copy, Debug, PartialEq, Eq, Structural)]
pub enum CondJumpKind {
    Zero,
    NotZero,
    Equal,
    NotEqual,
    Less,
    LessEqual,
    Greater,
    GreaterEqual,
    NotLess,
    NotLessEqual,
    NotGreater,
    NotGreaterEqual,
}

/// A block terminator.
#[derive(Clone, Copy, Debug, PartialEq, Eq, Structural)]
pub enum BranchKind {
    Cond(Cond, BlockID, BlockID),
    Jump(BlockID),
    CondJump(CondJumpKind, BlockID, BlockID),
    Ret(Option<Operand>),
}

/// A terminator with the source line it stands on.
#[derive(Clone, Copy, Debug, PartialEq, Eq, Structural)]
pub struct Branch {
    pub kind: BranchKind,
    pub line: u64,
}

/// A basic block: its id, its ordered predecessors, its body and terminator.
#[derive(Clone, Debug, PartialEq, Eq)]
pub struct BasicBlock {
    pub id: BlockID,
    pub preds: Vec<BlockID>,
    pub lines: Vec<Instr>,
    pub branch: Branch,
    pub line_start: u64,
}

/// A function: name, parameters, and its blocks, whose ids are unique.
#[derive(Clone, Debug, PartialEq, Eq)]
pub struct Func {
    pub name: String,
    pub params: Vec<Temp>,
    pub blocks: Vec<BasicBlock>,
    pub line_start: u64,
}

/// A program: its functions, whose names are unique.
#[derive(Clone, Debug, PartialEq, Eq)]
pub struct Program {
    pub funcs: Vec<Func>,
}

/// Block ids are unique within the block list.
pub open spec fn block_ids_unique(bs: Seq<BasicBlock>) -> bool {
    forall|i: int, j: int|
        0 <= i < bs.len() && 0 <= j < bs.len() && i != j ==> #[trigger] bs[i].id != #[trigger] bs[j].id
}

/// Function names are unique within the function list.
pub open spec fn func_names_unique(fs: Seq<Func>) -> bool {
    forall|i: int, j: int|
        0 <= i < fs.len() && 0 <= j < fs.len() && i != j ==> #[trigger] fs[i].name@ != #[trigger] fs[j].name@
}

/// `i` is the position of the block with id `id`.
pub open spec fn block_at(bs: Seq<BasicBlock>, id: BlockID, i: int) -> bool {
    &&& 0 <= i < bs.len()
    &&& bs[i].id == id
    &&& forall|j: int| 0 <= j < i ==> #[trigger] bs[j].id != id
}

/// `i` is the position of the function named `name`.
pub open spec fn func_at(fs: Seq<Func>, name: Seq<char>, i: int) -> bool {
    &&& 0 <= i < fs.len()
    &&& fs[i].name@ == name
    &&& forall|j: int| 0 <= j < i ==> #[trigger] fs[j].name@ != name
}

/// `i` is the position of the entry block: the first block of least id.
pub open spec fn entry_at(bs: Seq<BasicBlock>, i: int) -> bool {
    &&& 0 <= i < bs.len()
    &&& forall|j: int| 0 <= j < bs.len() ==> bs[i].id.0 <= #[trigger] bs[j].id.0
    &&& forall|j: int| 0 <= j < i ==> bs[i].id.0 < #[trigger] bs[j].id.0
}

/// The position of the block with id `id`, if there is one.
pub open spec fn block_pos(bs: Seq<BasicBlock>, id: BlockID) -> Option<int> {
    if exists|i: int| block_at(bs, id, i) {
        Some(choose|i: int| block_at(bs, id, i))
    } else {
        None
    }
}

/// The position of the function named `name`, if there is one.
pub open spec fn func_pos(fs: Seq<Func>, name: Seq<char>) -> Option<int> {
    if exists|i: int| func_at(fs, name, i) {
        Some(choose|i: int| func_at(fs, name, i))
    } else {
        None
    }
}

/// The position of the entry block, if the function has a block.
pub open spec fn entry_pos(bs: Seq<BasicBlock>) -> Option<int> {
    if exists|i: int| entry_at(bs, i) {
        Some(choose|i: int| entry_at(bs, i))
    } else {
        None
    }
}

/// Finds the position of the block with id `id`.
pub fn find_block(bs: &Vec<BasicBlock>, id: BlockID) -> (r: Option<usize>)
    ensures
        match r {
            Some(i) => block_at(bs@, id, i as int),
            None => forall|j: int| 0 <= j < bs@.len() ==> #[trigger] bs@[j].id != id,
        },
        r matches Some(i) ==> block_pos(bs@, id) == Some(i as int),
        r is None ==> block_pos(bs@, id) is None,
{
    let mut i: usize = 0;
    while i < bs.len()
        invariant
            i <= bs@.len(),
            forall|j: int| 0 <= j < i ==> #[trigger] bs@[j].id != id,
        decreases bs@.len() - i,
    {
        if bs[i].id == id {
            proof {
                assert(block_at(bs@, id, i as int));
                let k = choose|k: int| block_at(bs@, id, k);
                assert(k == i);
            }
            return Some(i);
        }
        i = i + 1;
    }
    None
}

/// Finds the position of the function named `name`.
pub fn find_func(fs: &Vec<Func>, name: &String) -> (r: Option<usize>)
    ensures
        match r {
            Some(i) => func_at(fs@, name@, i as int),
            None => forall|j: int| 0 <= j < fs@.len() ==> #[trigger] fs@[j].name@ != name@,
        },
        r matches Some(i) ==> func_pos(fs@, name@) == Some(i as int),
        r is None ==> func_pos(fs@, name@) is None,
{
    let mut i: usize = 0;
    while i < fs.len()
        invariant
            i <= fs@.len(),
            forall|j: int| 0 <= j < i ==> #[trigger] fs@[j].name@ != name@,
        decreases fs@.len() - i,
    {
        if fs[i].name == *name {
            proof {
                assert(func_at(fs@, name@, i as int));
                let k = choose|k: int| func_at(fs@, name@, k);
                assert(k == i);
            }
            return Some(i);
        }
        i = i + 1;
    }
    None
}

/// Finds the position of the entry block: the first block of least id.
pub fn find_entry(bs: &Vec<BasicBlock>) -> (r: Option<usize>)
    ensures
        match r {
            Some(i) => entry_at(bs@, i as int),
            None => bs@.len() == 0,
        },
        r matches Some(i) ==> entry_pos(bs@) == Some(i as int),
        r is None ==> entry_pos(bs@) is None,
{
    if bs.len() == 0 {
        return None;
    }
    let mut best: usize = 0;
    let mut i: usize = 1;
    while i < bs.len()
        invariant
            1 <= i <= bs@.len(),
            best < i,
            forall|j: int| 0 <= j < i ==> bs@[best as int].id.0 <= #[trigger] bs@[j].id.0,
            forall|j: int| 0 <= j < best ==> bs@[best as int].id.0 < #[trigger] bs@[j].id.0,
        decreases bs@.len() - i,
    {
        if bs[i].id.0 < bs[best].id.0 {
            best = i;
        }
        i = i + 1;
    }
    proof {
        assert(entry_at(bs@, best as int));
        let k = choose|k: int| entry_at(bs@, k);
        assert(bs@[k].id.0 <= bs@[best as int].id.0);
        assert(bs@[best as int].id.0 <= bs@[k].id.0);
        if k < best {
            assert(bs@[best as int].id.0 < bs@[k].id.0);
        } else if k > best {
            assert(bs@[k].id.0 < bs@[best as int].id.0);
        }
    }
    Some(best)
}


/// A body instruction as a mathematical value.
pub enum KindV {
    BinOp { op: BinOp, dest: Temp, src1: Operand, src2: Operand },
    UnOp { op: UnOp, dest: Temp, src: Operand },
    Mov { dest: Temp, src: Operand },
    If { cond: Operand, block: BlockID },
    Phi { dest: Temp, srcs: Seq<Operand> },
    Call { name: Seq<char>, dest: Option<Temp>, src: Seq<Operand> },
    Print { value: Operand },
    Dump,
    Nop,
}

/// An instruction as a mathematical value.
pub struct InstrV {
    pub line: u64,
    pub kind: KindV,
}

/// A basic block as a mathematical value.
pub struct BlockV {
    pub id: BlockID,
    pub preds: Seq<BlockID>,
    pub lines: Seq<InstrV>,
    pub branch: Branch,
    pub line_start: u64,
}

/// A function as a mathematical value.
pub struct FuncV {
    pub name: Seq<char>,
    pub params: Seq<Temp>,
    pub blocks: Seq<BlockV>,
    pub line_start: u64,
}

/// A program as a mathematical value.
pub struct ProgramV {
    pub funcs: Seq<FuncV>,
}

impl View for InstrKind {
    type V = KindV;

    open spec fn view(&self) -> KindV {
        match self {
            InstrKind::BinOp { op, dest, src1, src2 } => KindV::BinOp {
                op: *op,
                dest: *dest,
                src1: *src1,
                src2: *src2,
            },
            InstrKind::UnOp { op, dest, src } => KindV::UnOp { op: *op, dest: *dest, src: *src },
            InstrKind::Mov { dest, src } => KindV::Mov { dest: *dest, src: *src },
            InstrKind::If { cond, block } => KindV::If { cond: *cond, block: *block },
            InstrKind::Phi { dest, srcs } => KindV::Phi { dest: *dest, srcs: srcs@ },
            InstrKind::Call { name, dest, src } => KindV::Call { name: name@, dest: *dest, src: src@ },
            InstrKind::Print { value } => KindV::Print { value: *value },
            InstrKind::Dump => KindV::Dump,
            InstrKind::Nop => KindV::Nop,
        }
    }
}

impl View for Instr {
    type V = InstrV;

    open spec fn view(&self) -> InstrV {
        InstrV { line: self.line, kind: self.kind@ }
    }
}

impl View for BasicBlock {
    type V = BlockV;

    open spec fn view(&self) -> BlockV {
        BlockV {
            id: self.id,
            preds: self.preds@,
            lines: self.lines@.map(|i: int, x: Instr| x@),
            branch: self.branch,
            line_start: self.line_start,
        }
    }
}

impl View for Func {
    type V = FuncV;

    open spec fn view(&self) -> FuncV {
        FuncV {
            name: self.name@,
            params: self.params@,
            blocks: self.blocks@.map(|i: int, b: BasicBlock| b@),
            line_start: self.line_start,
        }
    }
}

impl View for Program {
    type V = ProgramV;

    open spec fn view(&self) -> ProgramV {
        ProgramV { funcs: self.funcs@.map(|i: int, f: Func| f@) }
    }
}

} // verus!
