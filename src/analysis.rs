use vstd::prelude::*;

use std::collections::HashMap;

use crate::ir::{
    block_pos, find_block, find_func, func_pos, instr_dest, BasicBlock, BlockID, BranchKind, Func,
    InstrKind, Program, Temp, TempID,
};

verus! {

/// Where in a block an instruction stands: its terminator, or the body
/// instruction of that index.
#[derive(Clone, Copy, Debug, PartialEq, Eq, Structural, Hash)]
pub enum BlockLoc {
    Branch,
    Line(u64),
}

/// A place in a function: a block and a place in it.
#[derive(Clone, Copy, Debug, PartialEq, Eq, Structural, Hash)]
pub struct Loc(pub BlockID, pub BlockLoc);

/// The semantic errors.
#[derive(Clone, Copy, Debug, PartialEq, Eq, Structural)]
pub enum SemError {
    /// The program has no function named `main`.
    NoMain,
    /// Predecessor lists, jump targets and phi arities disagree.
    InvalidCFG,
    /// The temporary is defined at both places (strict SSA).
    MultiDefs(Temp, Loc, Loc),
    /// The temporary is used at the place and defined nowhere.
    NoDef(Temp, Loc),
}

/// Code of a semantic error.
pub open spec fn sem_code(e: SemError) -> u64 {
    match e {
        SemError::NoMain => 0,
        SemError::InvalidCFG => 1,
        SemError::MultiDefs(..) => 2,
        SemError::NoDef(..) => 3,
    }
}

impl SemError {
    /// The error's code.
    pub fn code(&self) -> (r: u64)
        ensures
            r == sem_code(*self),
    {
        match self {
            SemError::NoMain => 0,
            SemError::InvalidCFG => 1,
            SemError::MultiDefs(..) => 2,
            SemError::NoDef(..) => 3,
        }
    }

    /// The error's headline.
    pub fn message(&self) -> (r: &'static str)
        ensures
            self is NoMain ==> r@ == "Missing Function `main`"@,
            self is InvalidCFG ==> r@ == "Invalid Control-Flow Graph"@,
            self is MultiDefs ==> r@ == "Temporary Defined Multiple Times"@,
            self is NoDef ==> r@ == "Temporary Never Defined"@,
    {
        match self {
            SemError::NoMain => "Missing Function `main`",
            SemError::InvalidCFG => "Invalid Control-Flow Graph",
            SemError::MultiDefs(..) => "Temporary Defined Multiple Times",
            SemError::NoDef(..) => "Temporary Never Defined",
        }
    }

    /// An explanatory note, where there is one.
    pub fn note(&self) -> (r: Option<&'static str>)
        ensures
            self is NoMain ==> (r matches Some(s) && s@
                == "VM needs a function called `main` to start executing at"@),
            !(self is NoMain) ==> r is None,
    {
        match self {
            SemError::NoMain => Some("VM needs a function called `main` to start executing at"),
            _ => None,
        }
    }
}

/// The program has a function named `main`.
pub open spec fn has_main_spec(p: Program) -> bool {
    func_pos(p.funcs@, "main"@) is Some
}

/// Block `b`, line `l` of `f` defines numbered temporary `n`.
pub open spec fn defines(f: Func, b: int, l: int, n: u64) -> bool {
    &&& 0 <= b < f.blocks@.len()
    &&& 0 <= l < f.blocks@[b].lines@.len()
    &&& instr_dest(f.blocks@[b].lines@[l].kind) == Some(Temp(TempID::Num(n)))
}

/// Place `(b1, l1)` comes before place `(b2, l2)`.
pub open spec fn before(b1: int, l1: int, b2: int, l2: int) -> bool {
    b1 < b2 || (b1 == b2 && l1 < l2)
}

/// Every numbered temporary of `f` has at most one definition.
pub open spec fn single_defs(f: Func) -> bool {
    forall|n: u64, b1: int, l1: int, b2: int, l2: int|
        #[trigger] defines(f, b1, l1, n) && #[trigger] defines(f, b2, l2, n) ==> b1 == b2 && l1
            == l2
}

/// Every function of the program is in strict SSA form.
pub open spec fn ssa_spec(p: Program) -> bool {
    forall|i: int| 0 <= i < p.funcs@.len() ==> single_defs(#[trigger] p.funcs@[i])
}

/// The place of body instruction `l` of block `b` of `f`.
pub open spec fn line_loc(f: Func, b: int, l: int) -> Loc {
    Loc(f.blocks@[b].id, BlockLoc::Line(l as u64))
}

/// `e` reports two definitions of one numbered temporary in function `f`,
/// at two different places, the one that comes first first.
pub open spec fn multi_defs_in(f: Func, e: SemError) -> bool {
    exists|n: u64, b1: int, l1: int, b2: int, l2: int|
        #![trigger defines(f, b1, l1, n), defines(f, b2, l2, n)]
        {
            &&& defines(f, b1, l1, n)
            &&& defines(f, b2, l2, n)
            &&& before(b1, l1, b2, l2)
            &&& e == SemError::MultiDefs(Temp(TempID::Num(n)), line_loc(f, b1, l1), line_loc(f, b2, l2))
        }
}

/// `e` reports the first repeated definition of `f`: the place `(b2, l2)`
/// that comes first among all places that define a numbered temporary defined
/// at an earlier place, paired with that temporary's first definition
/// `(b1, l1)`.
pub open spec fn first_repeat(f: Func, e: SemError) -> bool {
    exists|n: u64, b1: int, l1: int, b2: int, l2: int|
        #![trigger defines(f, b1, l1, n), defines(f, b2, l2, n)]
        {
            &&& defines(f, b1, l1, n)
            &&& defines(f, b2, l2, n)
            &&& before(b1, l1, b2, l2)
            &&& e == SemError::MultiDefs(Temp(TempID::Num(n)), line_loc(f, b1, l1), line_loc(f, b2, l2))
            &&& forall|b: int, l: int| #[trigger] defines(f, b, l, n) ==> !before(b, l, b1, l1)
            &&& forall|m: u64, b: int, l: int, c: int, k: int|
                #[trigger] defines(f, b, l, m) && #[trigger] defines(f, c, k, m) && before(b, l, c, k)
                    ==> !before(c, k, b2, l2)
        }
}

/// Checks that `f` is in strict SSA form.
fn func_ssa(f: &Func) -> (r: Result<(), SemError>)
    ensures
        r is Ok <==> single_defs(*f),
        r matches Err(e) ==> multi_defs_in(*f, e) && first_repeat(*f, e),
{
    let mut defs: HashMap<u64, (usize, usize)> = HashMap::new();
    let mut b: usize = 0;
    while b < f.blocks.len()
        invariant
            b <= f.blocks@.len(),
            forall|n: u64, b1: int, l1: int, b2: int, l2: int|
                #[trigger] defines(*f, b1, l1, n) && #[trigger] defines(*f, b2, l2, n) && b1 < b
                    && b2 < b ==> b1 == b2 && l1 == l2,
            forall|n: u64|
                #[trigger] defs@.contains_key(n) ==> {
                    let (b1, l1) = defs@[n];
                    &&& defines(*f, b1 as int, l1 as int, n)
                    &&& b1 < b
                },
            forall|n: u64, b1: int, l1: int|
                #[trigger] defines(*f, b1, l1, n) && b1 < b ==> defs@.contains_key(n),
        decreases f.blocks@.len() - b,
    {
        let lines = &f.blocks[b].lines;
        let mut l: usize = 0;
        while l < lines.len()
            invariant
                b < f.blocks@.len(),
                lines@ == f.blocks@[b as int].lines@,
                l <= lines@.len(),
                forall|n: u64, b1: int, l1: int, b2: int, l2: int|
                    #[trigger] defines(*f, b1, l1, n) && #[trigger] defines(*f, b2, l2, n)
                        && before(b1, l1, b as int, l as int) && before(b2, l2, b as int, l as int)
                        ==> b1 == b2 && l1 == l2,
                forall|n: u64|
                    #[trigger] defs@.contains_key(n) ==> {
                        let (b1, l1) = defs@[n];
                        &&& defines(*f, b1 as int, l1 as int, n)
                        &&& before(b1 as int, l1 as int, b as int, l as int)
                    },
                forall|n: u64, b1: int, l1: int|
                    #[trigger] defines(*f, b1, l1, n) && before(b1, l1, b as int, l as int)
                        ==> defs@.contains_key(n),
            decreases lines@.len() - l,
        {
            if let Some(Temp(TempID::Num(n))) = lines[l].dest() {
                assert(defines(*f, b as int, l as int, n));
                match defs.get(&n) {
                    Some(first) => {
                        let (b1, l1) = *first;
                        let e = SemError::MultiDefs(
                            Temp(TempID::Num(n)),
                            Loc(f.blocks[b1].id, BlockLoc::Line(l1 as u64)),
                            Loc(f.blocks[b].id, BlockLoc::Line(l as u64)),
                        );
                        assert(defines(*f, b1 as int, l1 as int, n));
                        assert(e == SemError::MultiDefs(
                            Temp(TempID::Num(n)),
                            line_loc(*f, b1 as int, l1 as int),
                            line_loc(*f, b as int, l as int),
                        ));
                        assert(multi_defs_in(*f, e));
                        assert forall|b: int, l: int| #[trigger] defines(*f, b, l, n) implies !before(b, l, b1 as int, l1 as int) by {
                        }
                        assert forall|m: u64, bb: int, ll: int, c: int, k: int|
                            #[trigger] defines(*f, bb, ll, m) && #[trigger] defines(*f, c, k, m) && before(bb, ll, c, k)
                                implies !before(c, k, b as int, l as int) by {
                        }
                        assert(first_repeat(*f, e));
                        return Err(e);
                    },
                    None => {
                        defs.insert(n, (b, l));
                    },
                }
            }
            l = l + 1;
        }
        b = b + 1;
    }
    Ok(())
}

/// `e` is the first repeated definition of function `i`, and every function
/// before it is in strict SSA form.
pub open spec fn ssa_error_at(p: Program, e: SemError, i: int) -> bool {
    &&& 0 <= i < p.funcs@.len()
    &&& forall|j: int| 0 <= j < i ==> single_defs(#[trigger] p.funcs@[j])
    &&& multi_defs_in(p.funcs@[i], e)
    &&& first_repeat(p.funcs@[i], e)
}

/// `e` is the first repeated definition of the first function, in order, that
/// is not in strict SSA form.
pub open spec fn ssa_error(p: Program, e: SemError) -> bool {
    exists|i: int| #[trigger] ssa_error_at(p, e, i)
}

proof fn lemma_first_repeat_unique(f: Func, e1: SemError, e2: SemError)
    requires
        first_repeat(f, e1),
        first_repeat(f, e2),
    ensures
        e1 == e2,
{
    let (n, b1, l1, b2, l2) = choose|n: u64, b1: int, l1: int, b2: int, l2: int|
        #![trigger defines(f, b1, l1, n), defines(f, b2, l2, n)]
        {
            &&& defines(f, b1, l1, n)
            &&& defines(f, b2, l2, n)
            &&& before(b1, l1, b2, l2)
            &&& e1 == SemError::MultiDefs(Temp(TempID::Num(n)), line_loc(f, b1, l1), line_loc(f, b2, l2))
            &&& forall|b: int, l: int| #[trigger] defines(f, b, l, n) ==> !before(b, l, b1, l1)
            &&& forall|m: u64, b: int, l: int, c: int, k: int|
                #[trigger] defines(f, b, l, m) && #[trigger] defines(f, c, k, m) && before(b, l, c, k)
                    ==> !before(c, k, b2, l2)
        };
    let (m, c1, k1, c2, k2) = choose|n: u64, b1: int, l1: int, b2: int, l2: int|
        #![trigger defines(f, b1, l1, n), defines(f, b2, l2, n)]
        {
            &&& defines(f, b1, l1, n)
            &&& defines(f, b2, l2, n)
            &&& before(b1, l1, b2, l2)
            &&& e2 == SemError::MultiDefs(Temp(TempID::Num(n)), line_loc(f, b1, l1), line_loc(f, b2, l2))
            &&& forall|b: int, l: int| #[trigger] defines(f, b, l, n) ==> !before(b, l, b1, l1)
            &&& forall|m: u64, b: int, l: int, c: int, k: int|
                #[trigger] defines(f, b, l, m) && #[trigger] defines(f, c, k, m) && before(b, l, c, k)
                    ==> !before(c, k, b2, l2)
        };
    assert(!before(c2, k2, b2, l2));
    assert(!before(b2, l2, c2, k2));
    assert(b2 == c2 && l2 == k2);
    assert(n == m);
    assert(!before(c1, k1, b1, l1));
    assert(!before(b1, l1, c1, k1));
}

/// The first repeated definition of the first function not in strict SSA form
/// is one error: the report is fixed by the program.
pub proof fn lemma_ssa_error_unique(p: Program, e1: SemError, e2: SemError)
    requires
        ssa_error(p, e1),
        ssa_error(p, e2),
    ensures
        e1 == e2,
{
    let i = choose|i: int| #[trigger] ssa_error_at(p, e1, i);
    let j = choose|j: int| #[trigger] ssa_error_at(p, e2, j);
    if i < j {
        assert(single_defs(p.funcs@[i]));
    } else if j < i {
        assert(single_defs(p.funcs@[j]));
    }
    lemma_first_repeat_unique(p.funcs@[i], e1, e2);
}

/// Checks that every function of the program is in strict SSA form: each
/// numbered temporary defined by at most one instruction. Reports the first
/// repeated definition found.
pub fn ssa_form(p: &Program) -> (r: Result<(), SemError>)
    ensures
        r is Ok <==> ssa_spec(*p),
        r matches Err(e) ==> ssa_error(*p, e),
{
    let mut i: usize = 0;
    while i < p.funcs.len()
        invariant
            i <= p.funcs@.len(),
            forall|j: int| 0 <= j < i ==> single_defs(#[trigger] p.funcs@[j]),
        decreases p.funcs@.len() - i,
    {
        match func_ssa(&p.funcs[i]) {
            Ok(()) => {},
            Err(e) => {
                assert(ssa_error_at(*p, e, i as int));
                return Err(e);
            },
        }
        i = i + 1;
    }
    Ok(())
}


/// The blocks a terminator can pass control to.
pub open spec fn branch_targets(k: BranchKind) -> Seq<BlockID> {
    match k {
        BranchKind::Cond(_, t, f) => seq![t, f],
        BranchKind::Jump(t) => seq![t],
        BranchKind::CondJump(_, t, f) => seq![t, f],
        BranchKind::Ret(_) => Seq::empty(),
    }
}

/// Body instruction `l` of `b` is an `if` that jumps to `target`.
pub open spec fn if_jumps_to(b: BasicBlock, l: int, target: BlockID) -> bool {
    &&& 0 <= l < b.lines@.len()
    &&& b.lines@[l].kind matches InstrKind::If { block, .. } && block == target
}

/// Block `b` can pass control to `target`, by an `if` or by its terminator.
pub open spec fn transfers_to(b: BasicBlock, target: BlockID) -> bool {
    branch_targets(b.branch.kind).contains(target) || exists|l: int| #[trigger] if_jumps_to(b, l, target)
}

/// Predecessor `u` of block `b` of `f` names a block that can pass control to `b`.
pub open spec fn pred_ok(f: Func, b: BasicBlock, u: BlockID) -> bool {
    match block_pos(f.blocks@, u) {
        Some(j) => transfers_to(f.blocks@[j], b.id),
        None => false,
    }
}

/// Block `b` of `f` may pass control to `target`: a block of `f` that lists `b`
/// as a predecessor.
pub open spec fn target_ok(f: Func, b: BasicBlock, target: BlockID) -> bool {
    match block_pos(f.blocks@, target) {
        Some(j) => f.blocks@[j].preds@.contains(b.id),
        None => false,
    }
}

/// Block `b` of `f` agrees with the rest of `f`: its predecessors can reach it,
/// the blocks it jumps to list it, and each phi has one operand per
/// predecessor.
pub open spec fn block_cfg_ok(f: Func, b: BasicBlock) -> bool {
    &&& forall|k: int| 0 <= k < b.preds@.len() ==> pred_ok(f, b, #[trigger] b.preds@[k])
    &&& forall|k: int|
        0 <= k < branch_targets(b.branch.kind).len() ==> target_ok(
            f,
            b,
            #[trigger] branch_targets(b.branch.kind)[k],
        )
    &&& forall|l: int| 0 <= l < b.lines@.len() ==> line_cfg_ok(f, b, #[trigger] b.lines@[l].kind)
}

/// A body instruction of block `b` of `f` agrees with the control-flow graph.
pub open spec fn line_cfg_ok(f: Func, b: BasicBlock, k: InstrKind) -> bool {
    match k {
        InstrKind::If { block, .. } => target_ok(f, b, block),
        InstrKind::Phi { srcs, .. } => srcs@.len() == b.preds@.len(),
        _ => true,
    }
}

/// Every block of `f` agrees with the rest of `f`.
pub open spec fn cfg_ok(f: Func) -> bool {
    forall|i: int| 0 <= i < f.blocks@.len() ==> block_cfg_ok(f, #[trigger] f.blocks@[i])
}

/// Every function of the program has a consistent control-flow graph.
pub open spec fn cfg_spec(p: Program) -> bool {
    forall|i: int| 0 <= i < p.funcs@.len() ==> cfg_ok(#[trigger] p.funcs@[i])
}

/// The result of semantic analysis: `NoMain`, else `InvalidCFG`, else (under
/// strict SSA) a repeated definition, else success.
pub open spec fn sem_spec_ok(p: Program, ssa: bool, r: Result<(), SemError>) -> bool {
    if !has_main_spec(p) {
        r == Err::<(), SemError>(SemError::NoMain)
    } else if !cfg_spec(p) {
        r == Err::<(), SemError>(SemError::InvalidCFG)
    } else if ssa && !ssa_spec(p) {
        r matches Err(e) && ssa_error(p, e)
    } else {
        r is Ok
    }
}

fn contains_block(v: &Vec<BlockID>, x: BlockID) -> (r: bool)
    ensures
        r == v@.contains(x),
{
    let mut i: usize = 0;
    while i < v.len()
        invariant
            i <= v@.len(),
            forall|j: int| 0 <= j < i ==> v@[j] != x,
        decreases v@.len() - i,
    {
        if v[i] == x {
            assert(v@[i as int] == x);
            return true;
        }
        i = i + 1;
    }
    false
}

fn branch_targets_of(k: &BranchKind) -> (r: Vec<BlockID>)
    ensures
        r@ == branch_targets(*k),
{
    match k {
        BranchKind::Cond(_, t, f) => {
            let v = vec![*t, *f];
            assert(v@ =~= seq![*t, *f]);
            v
        },
        BranchKind::Jump(t) => {
            let v = vec![*t];
            assert(v@ =~= seq![*t]);
            v
        },
        BranchKind::CondJump(_, t, f) => {
            let v = vec![*t, *f];
            assert(v@ =~= seq![*t, *f]);
            v
        },
        BranchKind::Ret(_) => {
            let v: Vec<BlockID> = Vec::new();
            assert(v@ =~= Seq::<BlockID>::empty());
            v
        },
    }
}

fn transfers(b: &BasicBlock, target: BlockID) -> (r: bool)
    ensures
        r == transfers_to(*b, target),
{
    let ts = branch_targets_of(&b.branch.kind);
    if contains_block(&ts, target) {
        return true;
    }
    let mut l: usize = 0;
    while l < b.lines.len()
        invariant
            l <= b.lines@.len(),
            forall|j: int| 0 <= j < l ==> !#[trigger] if_jumps_to(*b, j, target),
        decreases b.lines@.len() - l,
    {
        if let InstrKind::If { block, .. } = &b.lines[l].kind {
            if *block == target {
                assert(if_jumps_to(*b, l as int, target));
                return true;
            }
        }
        l = l + 1;
    }
    assert forall|j: int| !#[trigger] if_jumps_to(*b, j, target) by {
    }
    false
}

fn check_target(f: &Func, b: &BasicBlock, target: BlockID) -> (r: bool)
    ensures
        r == target_ok(*f, *b, target),
{
    match find_block(&f.blocks, target) {
        Some(j) => contains_block(&f.blocks[j].preds, b.id),
        None => false,
    }
}

fn check_block(f: &Func, b: &BasicBlock) -> (r: bool)
    ensures
        r == block_cfg_ok(*f, *b),
{
    let mut k: usize = 0;
    while k < b.preds.len()
        invariant
            k <= b.preds@.len(),
            forall|j: int| 0 <= j < k ==> pred_ok(*f, *b, #[trigger] b.preds@[j]),
        decreases b.preds@.len() - k,
    {
        let ok = match find_block(&f.blocks, b.preds[k]) {
            Some(j) => transfers(&f.blocks[j], b.id),
            None => false,
        };
        if !ok {
            return false;
        }
        k = k + 1;
    }
    let ts = branch_targets_of(&b.branch.kind);
    let mut k: usize = 0;
    while k < ts.len()
        invariant
            k <= ts@.len(),
            ts@ == branch_targets(b.branch.kind),
            forall|j: int| 0 <= j < k ==> target_ok(*f, *b, #[trigger] ts@[j]),
        decreases ts@.len() - k,
    {
        if !check_target(f, b, ts[k]) {
            return false;
        }
        k = k + 1;
    }
    let mut l: usize = 0;
    while l < b.lines.len()
        invariant
            l <= b.lines@.len(),
            forall|j: int| 0 <= j < l ==> line_cfg_ok(*f, *b, #[trigger] b.lines@[j].kind),
        decreases b.lines@.len() - l,
    {
        let ok = match &b.lines[l].kind {
            InstrKind::If { block, .. } => check_target(f, b, *block),
            InstrKind::Phi { srcs, .. } => srcs.len() == b.preds.len(),
            _ => true,
        };
        if !ok {
            return false;
        }
        l = l + 1;
    }
    true
}

/// Checks that every function's control-flow graph is consistent: each
/// predecessor can pass control to its block, each jump target lists the
/// jumping block as a predecessor, each phi has one operand per predecessor.
pub fn check_cfg(p: &Program) -> (r: bool)
    ensures
        r == cfg_spec(*p),
{
    let mut i: usize = 0;
    while i < p.funcs.len()
        invariant
            i <= p.funcs@.len(),
            forall|j: int| 0 <= j < i ==> cfg_ok(#[trigger] p.funcs@[j]),
        decreases p.funcs@.len() - i,
    {
        let f = &p.funcs[i];
        let mut b: usize = 0;
        while b < f.blocks.len()
            invariant
                i < p.funcs@.len(),
                *f == p.funcs@[i as int],
                forall|j: int| 0 <= j < i ==> cfg_ok(#[trigger] p.funcs@[j]),
                b <= f.blocks@.len(),
                forall|j: int| 0 <= j < b ==> block_cfg_ok(*f, #[trigger] f.blocks@[j]),
            decreases f.blocks@.len() - b,
        {
            if !check_block(f, &f.blocks[b]) {
                assert(!block_cfg_ok(*f, f.blocks@[b as int]));
                assert(!cfg_ok(p.funcs@[i as int]));
                return false;
            }
            b = b + 1;
        }
        i = i + 1;
    }
    true
}

/// Checks that the program has a function named `main`.
pub fn has_main(p: &Program) -> (r: Result<(), SemError>)
    ensures
        r is Ok <==> has_main_spec(*p),
        r is Err ==> r == Err::<(), SemError>(SemError::NoMain),
{
    let name = "main".to_owned();
    match find_func(&p.funcs, &name) {
        Some(_) => Ok(()),
        None => Err(SemError::NoMain),
    }
}

/// Semantic analysis: `main` exists, the control-flow graphs are consistent,
/// and, when `ssa` is set, every function is in strict SSA form.
pub fn sem_analysis(p: &Program, ssa: bool) -> (r: Result<(), SemError>)
    ensures
        sem_spec_ok(*p, ssa, r),
{
    has_main(p)?;
    if !check_cfg(p) {
        return Err(SemError::InvalidCFG);
    }
    if ssa {
        ssa_form(p)?;
    }
    Ok(())
}

} // verus!
