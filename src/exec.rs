use vstd::prelude::*;

use crate::clock::{elapsed_secs, now};
use crate::ir::{
    block_pos, entry_pos, find_block, find_entry, find_func, func_pos, BasicBlock, BlockID,
    BranchKind, Cond, CondJumpKind, Func, InstrKind, Operand, Program, Temp,
};
use crate::ops::{binop_value, unop_value};
use crate::store::{
    empty_store, operand_value, store_listing, store_set, store_wf, TempsView, TempStore,
};

verus! {

/// How a run ends.
#[derive(Clone, Copy, Debug, PartialEq, Eq, Structural)]
pub enum ReturnType {
    /// `main` returned this value.
    Return(i32),
    /// A division, remainder or shift had no defined result.
    DivByZero,
    /// The time budget ran out.
    Timeout,
    /// The program broke an invariant that validation does not cover: a phi
    /// in a block entered from nowhere, an undefined temporary, a missing
    /// block or function, or a call with the wrong number of arguments. The
    /// number is the source line of the offending instruction or terminator
    /// (0 where there is none).
    InvalidProgram(u64),
}

/// What a `print` or `dump` instruction emits.
#[derive(Clone, Debug, PartialEq, Eq)]
pub enum Event {
    /// `print value` on `line`, where `value` evaluated to `result`.
    Print { line: u64, value: Operand, result: i32 },
    /// `dump` on `line`: every live temporary with its value, sorted.
    Dump { line: u64, temps: Vec<(Temp, i32)> },
}

/// An emitted event, with the dump listing as a sequence.
pub enum EventView {
    Print(u64, Operand, i32),
    Dump(u64, Seq<(Temp, i32)>),
}

impl View for Event {
    type V = EventView;

    open spec fn view(&self) -> EventView {
        match self {
            Event::Print { line, value, result } => EventView::Print(*line, *value, *result),
            Event::Dump { line, temps } => EventView::Dump(*line, temps@),
        }
    }
}

/// The events of a list, as views.
pub open spec fn events_view(es: Seq<Event>) -> Seq<EventView> {
    es.map(|i: int, e: Event| e@)
}

/// One function invocation: which function, which block (by position), the
/// block control came from, the next instruction, and the temporaries.
pub struct FrameView {
    pub func: int,
    pub blk: int,
    pub prev: Option<BlockID>,
    pub pc: int,
    pub store: TempsView,
}

/// What one step of the machine does.
pub enum StepView {
    Continue,
    Emit(EventView),
    Halt(ReturnType),
}

/// The flag conditions of the `j..` terminators, over the zero, sign and
/// overflow flags.
pub open spec fn flag_jump(k: CondJumpKind, zero: bool, sign: bool, overflow: bool) -> bool {
    match k {
        CondJumpKind::Zero | CondJumpKind::Equal => zero,
        CondJumpKind::NotZero | CondJumpKind::NotEqual => !zero,
        CondJumpKind::Less | CondJumpKind::NotGreaterEqual => sign != overflow,
        CondJumpKind::LessEqual | CondJumpKind::NotGreater => sign != overflow || zero,
        CondJumpKind::Greater | CondJumpKind::NotLessEqual => sign == overflow && !zero,
        CondJumpKind::GreaterEqual | CondJumpKind::NotLess => sign == overflow,
    }
}

/// `i` is the first position of block `u` among the predecessors.
pub open spec fn pred_at(preds: Seq<BlockID>, u: BlockID, i: int) -> bool {
    &&& 0 <= i < preds.len()
    &&& preds[i] == u
    &&& forall|j: int| 0 <= j < i ==> #[trigger] preds[j] != u
}

/// The first position of block `u` among the predecessors, if it is one.
pub open spec fn pred_pos(preds: Seq<BlockID>, u: BlockID) -> Option<int> {
    if exists|i: int| pred_at(preds, u, i) {
        Some(choose|i: int| pred_at(preds, u, i))
    } else {
        None
    }
}

/// The values of the operands, in order; `None` if one is undefined.
pub open spec fn operand_values(s: TempsView, ops: Seq<Operand>) -> Option<Seq<i32>>
    decreases ops.len(),
{
    if ops.len() == 0 {
        Some(Seq::empty())
    } else {
        match (operand_values(s, ops.drop_last()), operand_value(s, ops.last())) {
            (Some(vs), Some(v)) => Some(vs.push(v)),
            _ => None,
        }
    }
}

/// The store after each parameter is bound, in order, to its argument.
pub open spec fn bind_params(s: TempsView, params: Seq<Temp>, args: Seq<i32>) -> TempsView
    decreases params.len(),
{
    if params.len() == 0 || args.len() == 0 {
        s
    } else {
        store_set(
            bind_params(s, params.drop_last(), args.drop_last()),
            params.last(),
            args.last(),
        )
    }
}

/// The frame that starts function `fi` of `p` on `args`, or the failure.
pub open spec fn call_frame(p: Program, fi: int, args: Seq<i32>, line: u64) -> Result<
    FrameView,
    ReturnType,
> {
    let g = p.funcs@[fi];
    if g.params@.len() != args.len() {
        Err(ReturnType::InvalidProgram(line))
    } else {
        match entry_pos(g.blocks@) {
            None => Err(ReturnType::InvalidProgram(line)),
            Some(e) => Ok(
                FrameView {
                    func: fi,
                    blk: e,
                    prev: None,
                    pc: 0,
                    store: bind_params(empty_store(), g.params@, args),
                },
            ),
        }
    }
}

/// The machine at the start of a call of the function named `name` on `args`.
pub open spec fn start_spec(p: Program, name: Seq<char>, args: Seq<i32>) -> Result<
    Seq<FrameView>,
    ReturnType,
> {
    match func_pos(p.funcs@, name) {
        None => Err(ReturnType::InvalidProgram(0)),
        Some(fi) => match call_frame(p, fi, args, p.funcs@[fi].line_start) {
            Ok(fr) => Ok(seq![fr]),
            Err(e) => Err(e),
        },
    }
}

/// The top frame moves on to its next instruction with store `s`.
pub open spec fn next(fr: Seq<FrameView>, t: FrameView, s: TempsView) -> (Seq<FrameView>, StepView) {
    (
        fr.update(fr.len() - 1, FrameView { func: t.func, blk: t.blk, prev: t.prev, pc: t.pc + 1, store: s }),
        StepView::Continue,
    )
}

/// The run stops on an invalid program.
pub open spec fn invalid(fr: Seq<FrameView>, line: u64) -> (Seq<FrameView>, StepView) {
    (fr, StepView::Halt(ReturnType::InvalidProgram(line)))
}

/// The top frame, in block `b` of function `f`, moves to the block `target`.
pub open spec fn goto(
    fr: Seq<FrameView>,
    t: FrameView,
    f: Func,
    b: BasicBlock,
    target: BlockID,
    line: u64,
) -> (Seq<FrameView>, StepView) {
    match block_pos(f.blocks@, target) {
        Some(j) => (
            fr.update(fr.len() - 1, FrameView { func: t.func, blk: j, prev: Some(b.id), pc: 0, store: t.store }),
            StepView::Continue,
        ),
        None => invalid(fr, line),
    }
}

/// The top frame returns `v`: the run ends if it was the only one; otherwise
/// the caller stores `v` in its call's destination and moves on.
pub open spec fn return_value(p: Program, fr: Seq<FrameView>, v: i32) -> (Seq<FrameView>, StepView) {
    return_to(p, fr.drop_last(), v)
}

/// Value `v` comes back to the invocations `rest`, the innermost last.
pub open spec fn return_to(p: Program, rest: Seq<FrameView>, v: i32) -> (Seq<FrameView>, StepView) {
    if rest.len() == 0 {
        (rest, StepView::Halt(ReturnType::Return(v)))
    } else {
        let c = rest.last();
        if 0 <= c.func < p.funcs@.len() && 0 <= c.blk < p.funcs@[c.func].blocks@.len() && 0 <= c.pc
            < p.funcs@[c.func].blocks@[c.blk].lines@.len() {
            let s = match p.funcs@[c.func].blocks@[c.blk].lines@[c.pc].kind {
                InstrKind::Call { dest: Some(d), .. } => store_set(c.store, d, v),
                _ => c.store,
            };
            next(rest, c, s)
        } else {
            invalid(rest, 0)
        }
    }
}

/// One body instruction of the top frame `t`, in block `b` of function `f`.
pub open spec fn instr_step(
    p: Program,
    fr: Seq<FrameView>,
    t: FrameView,
    f: Func,
    b: BasicBlock,
) -> (Seq<FrameView>, StepView) {
    let ins = b.lines@[t.pc];
    let s = t.store;
    let line = ins.line;
    match ins.kind {
        InstrKind::BinOp { op, dest, src1, src2 } => match (
            operand_value(s, src1),
            operand_value(s, src2),
        ) {
            (Some(x), Some(y)) => match binop_value(op, x, y) {
                Some(v) => next(fr, t, store_set(s, dest, v)),
                None => (fr, StepView::Halt(ReturnType::DivByZero)),
            },
            _ => invalid(fr, line),
        },
        InstrKind::UnOp { op, dest, src } => match operand_value(s, src) {
            Some(x) => next(fr, t, store_set(s, dest, unop_value(op, x))),
            None => invalid(fr, line),
        },
        InstrKind::Mov { dest, src } => match operand_value(s, src) {
            Some(x) => next(fr, t, store_set(s, dest, x)),
            None => invalid(fr, line),
        },
        InstrKind::If { cond, block } => match operand_value(s, cond) {
            Some(c) => if c != 0 {
                goto(fr, t, f, b, block, line)
            } else {
                next(fr, t, s)
            },
            None => invalid(fr, line),
        },
        InstrKind::Phi { dest, srcs } => match t.prev {
            None => invalid(fr, line),
            Some(u) => match pred_pos(b.preds@, u) {
                Some(i) => if i < srcs@.len() {
                    match operand_value(s, srcs@[i]) {
                        Some(v) => next(fr, t, store_set(s, dest, v)),
                        None => invalid(fr, line),
                    }
                } else {
                    invalid(fr, line)
                },
                None => invalid(fr, line),
            },
        },
        InstrKind::Call { name, dest, src } => match operand_values(s, src@) {
            None => invalid(fr, line),
            Some(args) => match func_pos(p.funcs@, name@) {
                None => invalid(fr, line),
                Some(ci) => match call_frame(p, ci, args, line) {
                    Ok(nf) => (fr.push(nf), StepView::Continue),
                    Err(e) => (fr, StepView::Halt(e)),
                },
            },
        },
        InstrKind::Print { value } => match operand_value(s, value) {
            Some(v) => (next(fr, t, s).0, StepView::Emit(EventView::Print(line, value, v))),
            None => invalid(fr, line),
        },
        InstrKind::Dump => (next(fr, t, s).0, StepView::Emit(EventView::Dump(line, store_listing(s)))),
        InstrKind::Nop => next(fr, t, s),
    }
}

/// The terminator of block `b` of function `f`, run by the top frame `t`.
pub open spec fn branch_step(
    p: Program,
    fr: Seq<FrameView>,
    t: FrameView,
    f: Func,
    b: BasicBlock,
) -> (Seq<FrameView>, StepView) {
    let s = t.store;
    let line = b.branch.line;
    match b.branch.kind {
        BranchKind::Ret(None) => return_value(p, fr, 0),
        BranchKind::Ret(Some(op)) => match operand_value(s, op) {
            Some(v) => return_value(p, fr, v),
            None => invalid(fr, line),
        },
        BranchKind::Jump(target) => goto(fr, t, f, b, target, line),
        BranchKind::Cond(Cond::Value(op), tb, fb) => match operand_value(s, op) {
            Some(c) => goto(fr, t, f, b, if c != 0 { tb } else { fb }, line),
            None => invalid(fr, line),
        },
        BranchKind::Cond(Cond::BinOp(x, op, y), tb, fb) => match (
            operand_value(s, x),
            operand_value(s, y),
        ) {
            (Some(a), Some(c)) => match binop_value(op, a, c) {
                Some(v) => goto(fr, t, f, b, if v != 0 { tb } else { fb }, line),
                None => (fr, StepView::Halt(ReturnType::DivByZero)),
            },
            _ => invalid(fr, line),
        },
        BranchKind::CondJump(k, tb, fb) => goto(
            fr,
            t,
            f,
            b,
            if flag_jump(k, false, false, false) { tb } else { fb },
            line,
        ),
    }
}

/// One step of the machine: the top frame runs its next instruction, or its
/// block's terminator once the body is done.
pub open spec fn step_spec(p: Program, fr: Seq<FrameView>) -> (Seq<FrameView>, StepView) {
    if fr.len() == 0 {
        invalid(fr, 0)
    } else {
        let t = fr.last();
        if 0 <= t.func < p.funcs@.len() && 0 <= t.blk < p.funcs@[t.func].blocks@.len() {
            let f = p.funcs@[t.func];
            let b = f.blocks@[t.blk];
            if 0 <= t.pc < b.lines@.len() {
                instr_step(p, fr, t, f, b)
            } else {
                branch_step(p, fr, t, f, b)
            }
        } else {
            invalid(fr, 0)
        }
    }
}

/// The machine after some steps: its frames, the events emitted so far, and
/// the outcome once it has stopped.
pub struct Trace {
    pub frames: Seq<FrameView>,
    pub events: Seq<EventView>,
    pub outcome: Option<ReturnType>,
}

/// The machine after `n` steps from `fr`; once stopped it stays as it is.
pub open spec fn trace_after(p: Program, fr: Seq<FrameView>, n: nat) -> Trace
    decreases n,
{
    if n == 0 {
        Trace { frames: fr, events: Seq::empty(), outcome: None }
    } else {
        let t = trace_after(p, fr, (n - 1) as nat);
        if t.outcome is Some {
            t
        } else {
            let (fr2, s) = step_spec(p, t.frames);
            match s {
                StepView::Continue => Trace { frames: fr2, events: t.events, outcome: None },
                StepView::Emit(e) => Trace { frames: fr2, events: t.events.push(e), outcome: None },
                StepView::Halt(r) => Trace { frames: fr2, events: t.events, outcome: Some(r) },
            }
        }
    }
}

struct Frame {
    func: usize,
    blk: usize,
    prev: Option<BlockID>,
    pc: usize,
    store: TempStore,
}

impl View for Frame {
    type V = FrameView;

    closed spec fn view(&self) -> FrameView {
        FrameView {
            func: self.func as int,
            blk: self.blk as int,
            prev: self.prev,
            pc: self.pc as int,
            store: self.store@,
        }
    }
}

/// What one step of the machine did.
#[derive(Debug, PartialEq, Eq)]
pub enum StepOut {
    Continue,
    Emit(Event),
    Halt(ReturnType),
}

impl View for StepOut {
    type V = StepView;

    open spec fn view(&self) -> StepView {
        match self {
            StepOut::Continue => StepView::Continue,
            StepOut::Emit(e) => StepView::Emit(e@),
            StepOut::Halt(r) => StepView::Halt(*r),
        }
    }
}

/// The interpreter: a stack of function invocations, the innermost last.
pub struct ProgContext {
    frames: Vec<Frame>,
}

impl View for ProgContext {
    type V = Seq<FrameView>;

    closed spec fn view(&self) -> Seq<FrameView> {
        self.frames@.map(|i: int, f: Frame| f@)
    }
}


/// The values of the operands, in order; `None` if one is undefined.
fn eval_operands(store: &TempStore, ops: &Vec<Operand>) -> (r: Option<Vec<i32>>)
    requires
        store_wf(store@),
    ensures
        match r {
            Some(v) => operand_values(store@, ops@) == Some(v@),
            None => operand_values(store@, ops@) is None,
        },
{
    let mut vals: Vec<i32> = Vec::new();
    let mut i: usize = 0;
    while i < ops.len()
        invariant
            i <= ops@.len(),
            store_wf(store@),
            operand_values(store@, ops@.subrange(0, i as int)) == Some(vals@),
        decreases ops@.len() - i,
    {
        assert(ops@.subrange(0, i + 1).drop_last() =~= ops@.subrange(0, i as int));
        match store.get(&ops[i]) {
            Some(v) => {
                vals.push(v);
            },
            None => {
                proof { lemma_values_none(store@, ops@, i as int + 1); }
                return None;
            },
        }
        i = i + 1;
    }
    assert(ops@.subrange(0, i as int) =~= ops@);
    Some(vals)
}

proof fn lemma_values_none(s: TempsView, ops: Seq<Operand>, k: int)
    requires
        0 < k <= ops.len(),
        operand_values(s, ops.subrange(0, k)) is None,
    ensures
        operand_values(s, ops) is None,
    decreases ops.len() - k,
{
    if k < ops.len() {
        assert(ops.subrange(0, k + 1).drop_last() =~= ops.subrange(0, k));
        lemma_values_none(s, ops, k + 1);
    } else {
        assert(ops.subrange(0, k) =~= ops);
    }
}

/// Position of `u` among the predecessors, first occurrence.
fn find_pred(preds: &Vec<BlockID>, u: BlockID) -> (r: Option<usize>)
    ensures
        match r {
            Some(i) => pred_pos(preds@, u) == Some(i as int),
            None => pred_pos(preds@, u) is None,
        },
{
    let mut i: usize = 0;
    while i < preds.len()
        invariant
            i <= preds@.len(),
            forall|j: int| 0 <= j < i ==> #[trigger] preds@[j] != u,
        decreases preds@.len() - i,
    {
        if preds[i] == u {
            proof {
                assert(pred_at(preds@, u, i as int));
                let k = choose|k: int| pred_at(preds@, u, k);
                assert(k == i);
            }
            return Some(i);
        }
        i = i + 1;
    }
    None
}

/// The frame that starts function `fi` of `p` on `args`, or the failure.
fn make_frame(p: &Program, fi: usize, args: &Vec<i32>, line: u64) -> (r: Result<Frame, ReturnType>)
    requires
        fi < p.funcs@.len(),
    ensures
        match (r, call_frame(*p, fi as int, args@, line)) {
            (Ok(f), Ok(v)) => f@ == v && store_wf(f@.store),
            (Err(e), Err(v)) => e == v,
            _ => false,
        },
{
    let g = &p.funcs[fi];
    if g.params.len() != args.len() {
        return Err(ReturnType::InvalidProgram(line));
    }
    let e = match find_entry(&g.blocks) {
        Some(e) => e,
        None => {
            return Err(ReturnType::InvalidProgram(line));
        },
    };
    let mut store = TempStore::new();
    let mut i: usize = 0;
    while i < g.params.len()
        invariant
            i <= g.params@.len(),
            g.params@.len() == args@.len(),
            store_wf(store@),
            store@ == bind_params(empty_store(), g.params@.subrange(0, i as int), args@.subrange(0, i as int)),
        decreases g.params@.len() - i,
    {
        assert(g.params@.subrange(0, i + 1).drop_last() =~= g.params@.subrange(0, i as int));
        assert(args@.subrange(0, i + 1).drop_last() =~= args@.subrange(0, i as int));
        store.save(&g.params[i], args[i]);
        i = i + 1;
    }
    assert(g.params@.subrange(0, i as int) =~= g.params@);
    assert(args@.subrange(0, i as int) =~= args@);
    Ok(Frame { func: fi, blk: e, prev: None, pc: 0, store })
}

impl ProgContext {
    /// Every frame's store is well formed.
    pub closed spec fn wf(&self) -> bool {
        forall|i: int| 0 <= i < self.frames@.len() ==> store_wf(#[trigger] self.frames@[i]@.store)
    }

    /// The machine at the start of a call of the function named `name` on
    /// `args`; the failure where that call cannot start.
    pub fn new(p: &Program, name: &String, args: &Vec<i32>) -> (r: Result<ProgContext, ReturnType>)
        ensures
            match (r, start_spec(*p, name@, args@)) {
                (Ok(m), Ok(v)) => m@ == v && m.wf(),
                (Err(e), Err(v)) => e == v,
                _ => false,
            },
    {
        let fi = match find_func(&p.funcs, name) {
            Some(fi) => fi,
            None => {
                return Err(ReturnType::InvalidProgram(0));
            },
        };
        match make_frame(p, fi, args, p.funcs[fi].line_start) {
            Ok(f) => {
                let mut frames: Vec<Frame> = Vec::new();
                frames.push(f);
                let m = ProgContext { frames };
                assert(m@ =~= seq![f@]);
                Ok(m)
            },
            Err(e) => Err(e),
        }
    }

    /// Whether the innermost invocation is about to start a block.
    pub fn at_block_start(&self) -> (r: bool)
        ensures
            r == (self@.len() > 0 && self@.last().pc == 0),
    {
        let n = self.frames.len();
        n > 0 && self.frames[n - 1].pc == 0
    }

    /// Pushes an invocation.
    fn put(&mut self, t: Frame)
        requires
            old(self).wf(),
            store_wf(t@.store),
        ensures
            final(self)@ == old(self)@.push(t@),
            final(self).wf(),
    {
        self.frames.push(t);
        assert(self@ =~= old(self)@.push(t@));
        assert forall|i: int| 0 <= i < self.frames@.len() implies store_wf(#[trigger] self.frames@[i]@.store) by {
            if i < old(self).frames@.len() {
                assert(self.frames@[i] == old(self).frames@[i]);
            }
        }
    }

    /// Takes the innermost invocation off.
    fn take(&mut self) -> (t: Frame)
        requires
            old(self).wf(),
            old(self)@.len() > 0,
        ensures
            old(self)@ == final(self)@.push(t@),
            store_wf(t@.store),
            final(self).wf(),
    {
        let ghost n = self.frames@.len();
        let t = self.frames.pop().unwrap();
        assert(old(self).frames@[n - 1] == t);
        assert(old(self)@ =~= self@.push(t@));
        assert forall|i: int| 0 <= i < self.frames@.len() implies store_wf(#[trigger] self.frames@[i]@.store) by {
            assert(self.frames@[i] == old(self).frames@[i]);
        }
        t
    }

    /// The innermost invocation `t`, taken off, moves to block `target`.
    fn goto_block(&mut self, p: &Program, t: Frame, target: BlockID, line: u64) -> (r: StepOut)
        requires
            old(self).wf(),
            store_wf(t@.store),
            t.func < p.funcs@.len(),
            t.blk < p.funcs@[t.func as int].blocks@.len(),
        ensures
            final(self).wf(),
            (final(self)@, r@) == goto(
                old(self)@.push(t@),
                t@,
                p.funcs@[t.func as int],
                p.funcs@[t.func as int].blocks@[t.blk as int],
                target,
                line,
            ),
    {
        let ghost fr = self@.push(t@);
        let mut t = t;
        let f = &p.funcs[t.func];
        let from = f.blocks[t.blk].id;
        match find_block(&f.blocks, target) {
            Some(j) => {
                t.blk = j;
                t.prev = Some(from);
                t.pc = 0;
                self.put(t);
                assert(self@ =~= fr.update(fr.len() - 1, t@));
                StepOut::Continue
            },
            None => {
                self.put(t);
                StepOut::Halt(ReturnType::InvalidProgram(line))
            },
        }
    }

    /// The innermost invocation `t`, taken off, moves on to its next
    /// instruction.
    fn advance(&mut self, t: Frame)
        requires
            old(self).wf(),
            store_wf(t@.store),
            t.pc < usize::MAX,
        ensures
            final(self).wf(),
            final(self)@ == next(old(self)@.push(t@), t@, t@.store).0,
    {
        let ghost fr = self@.push(t@);
        let mut t = t;
        t.pc = t.pc + 1;
        self.put(t);
        assert(self@ =~= fr.update(fr.len() - 1, t@));
    }

    /// Value `v` comes back to the remaining invocations.
    fn return_with(&mut self, p: &Program, v: i32) -> (r: StepOut)
        requires
            old(self).wf(),
        ensures
            final(self).wf(),
            (final(self)@, r@) == return_to(*p, old(self)@, v),
    {
        if self.frames.len() == 0 {
            return StepOut::Halt(ReturnType::Return(v));
        }
        let mut c = self.take();
        if c.func < p.funcs.len() && c.blk < p.funcs[c.func].blocks.len() && c.pc
            < p.funcs[c.func].blocks[c.blk].lines.len() {
            match &p.funcs[c.func].blocks[c.blk].lines[c.pc].kind {
                InstrKind::Call { dest: Some(d), .. } => {
                    c.store.save(d, v);
                },
                _ => {},
            }
            self.advance(c);
            StepOut::Continue
        } else {
            self.put(c);
            StepOut::Halt(ReturnType::InvalidProgram(0))
        }
    }

    /// Runs the next body instruction of the invocation `t`, taken off.
    fn exec_instr(&mut self, p: &Program, t: Frame) -> (r: StepOut)
        requires
            old(self).wf(),
            store_wf(t@.store),
            t.func < p.funcs@.len(),
            t.blk < p.funcs@[t.func as int].blocks@.len(),
            t.pc < p.funcs@[t.func as int].blocks@[t.blk as int].lines@.len(),
        ensures
            final(self).wf(),
            (final(self)@, r@) == instr_step(
                *p,
                old(self)@.push(t@),
                t@,
                p.funcs@[t.func as int],
                p.funcs@[t.func as int].blocks@[t.blk as int],
            ),
    {
        let mut t = t;
        let f = &p.funcs[t.func];
        let b = &f.blocks[t.blk];
        let nlines = b.lines.len();
        assert(t.pc < nlines);
        let ins = &b.lines[t.pc];
        let line = ins.line;
        match &ins.kind {
            InstrKind::BinOp { op, dest, src1, src2 } => {
                match (t.store.get(src1), t.store.get(src2)) {
                    (Some(x), Some(y)) => match op.eval(x, y) {
                        Some(v) => {
                            t.store.save(dest, v);
                            self.advance(t);
                            StepOut::Continue
                        },
                        None => {
                            self.put(t);
                            StepOut::Halt(ReturnType::DivByZero)
                        },
                    },
                    _ => {
                        self.put(t);
                        StepOut::Halt(ReturnType::InvalidProgram(line))
                    },
                }
            },
            InstrKind::UnOp { op, dest, src } => {
                match t.store.get(src) {
                    Some(x) => {
                        t.store.save(dest, op.eval(x));
                        self.advance(t);
                        StepOut::Continue
                    },
                    None => {
                        self.put(t);
                        StepOut::Halt(ReturnType::InvalidProgram(line))
                    },
                }
            },
            InstrKind::Mov { dest, src } => {
                match t.store.get(src) {
                    Some(x) => {
                        t.store.save(dest, x);
                        self.advance(t);
                        StepOut::Continue
                    },
                    None => {
                        self.put(t);
                        StepOut::Halt(ReturnType::InvalidProgram(line))
                    },
                }
            },
            InstrKind::If { cond, block } => {
                match t.store.get(cond) {
                    Some(c) => {
                        if c != 0 {
                            self.goto_block(p, t, *block, line)
                        } else {
                            self.advance(t);
                            StepOut::Continue
                        }
                    },
                    None => {
                        self.put(t);
                        StepOut::Halt(ReturnType::InvalidProgram(line))
                    },
                }
            },
            InstrKind::Phi { dest, srcs } => {
                let found = match t.prev {
                    Some(u) => find_pred(&b.preds, u),
                    None => None,
                };
                match found {
                    Some(i) => {
                        if i < srcs.len() {
                            match t.store.get(&srcs[i]) {
                                Some(v) => {
                                    t.store.save(dest, v);
                                    self.advance(t);
                                    StepOut::Continue
                                },
                                None => {
                                    self.put(t);
                                    StepOut::Halt(ReturnType::InvalidProgram(line))
                                },
                            }
                        } else {
                            self.put(t);
                            StepOut::Halt(ReturnType::InvalidProgram(line))
                        }
                    },
                    None => {
                        self.put(t);
                        StepOut::Halt(ReturnType::InvalidProgram(line))
                    },
                }
            },
            InstrKind::Call { name, dest: _, src } => {
                match eval_operands(&t.store, src) {
                    None => {
                        self.put(t);
                        StepOut::Halt(ReturnType::InvalidProgram(line))
                    },
                    Some(args) => match find_func(&p.funcs, name) {
                        None => {
                            self.put(t);
                            StepOut::Halt(ReturnType::InvalidProgram(line))
                        },
                        Some(ci) => match make_frame(p, ci, &args, line) {
                            Ok(nf) => {
                                self.put(t);
                                self.put(nf);
                                StepOut::Continue
                            },
                            Err(e) => {
                                self.put(t);
                                StepOut::Halt(e)
                            },
                        },
                    },
                }
            },
            InstrKind::Print { value } => {
                match t.store.get(value) {
                    Some(v) => {
                        self.advance(t);
                        StepOut::Emit(Event::Print { line, value: *value, result: v })
                    },
                    None => {
                        self.put(t);
                        StepOut::Halt(ReturnType::InvalidProgram(line))
                    },
                }
            },
            InstrKind::Dump => {
                let temps = t.store.listing();
                self.advance(t);
                StepOut::Emit(Event::Dump { line, temps })
            },
            InstrKind::Nop => {
                self.advance(t);
                StepOut::Continue
            },
        }
    }

    /// Runs the terminator of the block of the invocation `t`, taken off.
    fn exec_branch(&mut self, p: &Program, t: Frame) -> (r: StepOut)
        requires
            old(self).wf(),
            store_wf(t@.store),
            t.func < p.funcs@.len(),
            t.blk < p.funcs@[t.func as int].blocks@.len(),
        ensures
            final(self).wf(),
            (final(self)@, r@) == branch_step(
                *p,
                old(self)@.push(t@),
                t@,
                p.funcs@[t.func as int],
                p.funcs@[t.func as int].blocks@[t.blk as int],
            ),
    {
        let ghost fr = old(self)@.push(t@);
        assert(fr.drop_last() =~= old(self)@);
        let f = &p.funcs[t.func];
        let b = &f.blocks[t.blk];
        let line = b.branch.line;
        match b.branch.kind {
            BranchKind::Ret(None) => self.return_with(p, 0),
            BranchKind::Ret(Some(op)) => {
                match t.store.get(&op) {
                    Some(v) => self.return_with(p, v),
                    None => {
                        self.put(t);
                        StepOut::Halt(ReturnType::InvalidProgram(line))
                    },
                }
            },
            BranchKind::Jump(target) => self.goto_block(p, t, target, line),
            BranchKind::Cond(Cond::Value(op), tb, fb) => {
                match t.store.get(&op) {
                    Some(c) => self.goto_block(p, t, if c != 0 { tb } else { fb }, line),
                    None => {
                        self.put(t);
                        StepOut::Halt(ReturnType::InvalidProgram(line))
                    },
                }
            },
            BranchKind::Cond(Cond::BinOp(x, op, y), tb, fb) => {
                match (t.store.get(&x), t.store.get(&y)) {
                    (Some(a), Some(c)) => match op.eval(a, c) {
                        Some(v) => self.goto_block(p, t, if v != 0 { tb } else { fb }, line),
                        None => {
                            self.put(t);
                            StepOut::Halt(ReturnType::DivByZero)
                        },
                    },
                    _ => {
                        self.put(t);
                        StepOut::Halt(ReturnType::InvalidProgram(line))
                    },
                }
            },
            BranchKind::CondJump(k, tb, fb) => {
                let taken = flag_jump_taken(k, false, false, false);
                self.goto_block(p, t, if taken { tb } else { fb }, line)
            },
        }
    }

    /// Runs one step: the next instruction of the innermost invocation, or
    /// its block's terminator once the body is done.
    pub fn step(&mut self, p: &Program) -> (r: StepOut)
        requires
            old(self).wf(),
        ensures
            final(self).wf(),
            (final(self)@, r@) == step_spec(*p, old(self)@),
    {
        if self.frames.len() == 0 {
            return StepOut::Halt(ReturnType::InvalidProgram(0));
        }
        let t = self.take();
        if t.func >= p.funcs.len() || t.blk >= p.funcs[t.func].blocks.len() {
            self.put(t);
            return StepOut::Halt(ReturnType::InvalidProgram(0));
        }
        if t.pc < p.funcs[t.func].blocks[t.blk].lines.len() {
            self.exec_instr(p, t)
        } else {
            self.exec_branch(p, t)
        }
    }
} // impl

/// Whether a `j..` terminator jumps to its first target, given the flags.
fn flag_jump_taken(k: CondJumpKind, zero: bool, sign: bool, overflow: bool) -> (r: bool)
    ensures
        r == flag_jump(k, zero, sign, overflow),
{
    match k {
        CondJumpKind::Zero | CondJumpKind::Equal => zero,
        CondJumpKind::NotZero | CondJumpKind::NotEqual => !zero,
        CondJumpKind::Less | CondJumpKind::NotGreaterEqual => sign != overflow,
        CondJumpKind::LessEqual | CondJumpKind::NotGreater => sign != overflow || zero,
        CondJumpKind::Greater | CondJumpKind::NotLessEqual => sign == overflow && !zero,
        CondJumpKind::GreaterEqual | CondJumpKind::NotLess => sign == overflow,
    }
}

} // verus!

verus! {

/// The top frame is about to start a block.
pub open spec fn at_block_start_spec(fr: Seq<FrameView>) -> bool {
    fr.len() > 0 && fr.last().pc == 0
}

/// The time budget `limit` is exceeded by `elapsed` seconds, checked only at
/// the start of a block.
pub open spec fn budget_exceeded(fr: Seq<FrameView>, elapsed: u64, limit: Option<u64>) -> bool {
    at_block_start_spec(fr) && match limit {
        Some(l) => elapsed > l,
        None => false,
    }
}

/// One step under a time budget, given the seconds elapsed so far: `Timeout`,
/// with the machine unchanged, where the budget is exceeded at the start of a
/// block; otherwise one step of the machine.
pub open spec fn tick_spec(p: Program, fr: Seq<FrameView>, elapsed: u64, limit: Option<u64>) -> (
    Seq<FrameView>,
    StepView,
) {
    if budget_exceeded(fr, elapsed, limit) {
        (fr, StepView::Halt(ReturnType::Timeout))
    } else {
        step_spec(p, fr)
    }
}

/// The machine after `n` steps from `fr` under the budget `limit`, where step
/// `k` sees `clock[k]` seconds elapsed; once stopped it stays as it is.
pub open spec fn clocked_after(
    p: Program,
    fr: Seq<FrameView>,
    limit: Option<u64>,
    clock: Seq<u64>,
    n: nat,
) -> Trace
    decreases n,
{
    if n == 0 {
        Trace { frames: fr, events: Seq::empty(), outcome: None }
    } else {
        let t = clocked_after(p, fr, limit, clock, (n - 1) as nat);
        if t.outcome is Some {
            t
        } else {
            let (fr2, s) = tick_spec(p, t.frames, clock[n - 1], limit);
            match s {
                StepView::Continue => Trace { frames: fr2, events: t.events, outcome: None },
                StepView::Emit(e) => Trace { frames: fr2, events: t.events.push(e), outcome: None },
                StepView::Halt(r) => Trace { frames: fr2, events: t.events, outcome: Some(r) },
            }
        }
    }
}

/// The run of the function named `name` on `args` under the budget `limit`,
/// with the clock readings `clock`, gives `r` and `events`: the failure to
/// start it; or the outcome within `u64::MAX` steps and the events up to it;
/// or, when it has not stopped after `u64::MAX` steps, `Timeout` and the
/// events so far.
pub open spec fn run_with_clock_ok(
    p: Program,
    name: Seq<char>,
    args: Seq<i32>,
    limit: Option<u64>,
    clock: Seq<u64>,
    r: ReturnType,
    events: Seq<EventView>,
) -> bool {
    match start_spec(p, name, args) {
        Err(e) => r == e && events.len() == 0,
        Ok(fr) => exists|n: nat|
            {
                let tr = #[trigger] clocked_after(p, fr, limit, clock, n);
                &&& n <= u64::MAX
                &&& tr.events == events
                &&& (tr.outcome == Some(r) || (tr.outcome is None && n == u64::MAX && r
                    == ReturnType::Timeout))
            },
    }
}

/// `r` and `events` are what a run of the function named `name` on `args`
/// under the budget `limit` gives for some clock readings.
pub open spec fn run_result_ok(
    p: Program,
    name: Seq<char>,
    args: Seq<i32>,
    limit: Option<u64>,
    r: ReturnType,
    events: Seq<EventView>,
) -> bool {
    exists|clock: Seq<u64>| #[trigger] run_with_clock_ok(p, name, args, limit, clock, r, events)
}

proof fn lemma_clock_prefix(p: Program, fr: Seq<FrameView>, limit: Option<u64>, clock: Seq<u64>, x: u64, n: nat)
    requires
        n <= clock.len(),
    ensures
        clocked_after(p, fr, limit, clock.push(x), n) == clocked_after(p, fr, limit, clock, n),
    decreases n,
{
    if n > 0 {
        lemma_clock_prefix(p, fr, limit, clock, x, (n - 1) as nat);
        assert(clock.push(x)[n - 1] == clock[n - 1]);
    }
}

impl ProgContext {
    /// One step under the budget `limit`, given the seconds `elapsed` since
    /// the run began: `Timeout` with the machine unchanged where the budget is
    /// exceeded at the start of a block, otherwise `step`.
    pub fn tick(&mut self, p: &Program, elapsed: u64, limit: Option<u64>) -> (r: StepOut)
        requires
            old(self).wf(),
        ensures
            final(self).wf(),
            (final(self)@, r@) == tick_spec(*p, old(self)@, elapsed, limit),
    {
        if self.at_block_start() {
            if let Some(l) = limit {
                if elapsed > l {
                    return StepOut::Halt(ReturnType::Timeout);
                }
            }
        }
        self.step(p)
    }
}

/// Runs the function named `name` of `p` on `args` under a budget of
/// `timeout` seconds, checked at the start of each block (none: no budget);
/// at most `u64::MAX` steps are taken. Returns the outcome and the events of
/// the `print` and `dump` instructions that ran.
#[verifier::rlimit(40)]
pub fn execute(p: &Program, name: &String, args: &Vec<i32>, timeout: Option<u64>) -> (r: (
    ReturnType,
    Vec<Event>,
))
    ensures
        run_result_ok(*p, name@, args@, timeout, r.0, events_view(r.1@)),
{
    let start = now();
    let ghost mut clock: Seq<u64> = Seq::empty();
    let mut m = match ProgContext::new(p, name, args) {
        Ok(m) => m,
        Err(e) => {
            let none: Vec<Event> = Vec::new();
            assert(events_view(none@) =~= Seq::empty());
            assert(run_with_clock_ok(*p, name@, args@, timeout, clock, e, events_view(none@)));
            return (e, none);
        },
    };
    let ghost fr0 = m@;
    let mut events: Vec<Event> = Vec::new();
    let mut fuel: u64 = u64::MAX;
    let ghost mut k: nat = 0;
    assert(events_view(events@) =~= Seq::empty());
    while fuel > 0
        invariant
            m.wf(),
            start_spec(*p, name@, args@) == Ok::<Seq<FrameView>, ReturnType>(fr0),
            clock.len() == k,
            k + fuel == u64::MAX,
            clocked_after(*p, fr0, timeout, clock, k) == (Trace {
                frames: m@,
                events: events_view(events@),
                outcome: None,
            }),
        decreases fuel,
    {
        let elapsed = if timeout.is_some() && m.at_block_start() {
            elapsed_secs(&start)
        } else {
            0
        };
        let ghost before = events@;
        let out = m.tick(p, elapsed, timeout);
        proof {
            lemma_clock_prefix(*p, fr0, timeout, clock, elapsed, k);
            clock = clock.push(elapsed);
            k = k + 1;
        }
        match out {
            StepOut::Continue => {},
            StepOut::Emit(e) => {
                events.push(e);
                assert(events_view(events@) =~= events_view(before).push(e@));
            },
            StepOut::Halt(r) => {
                assert(clocked_after(*p, fr0, timeout, clock, k).events == events_view(events@));
                assert(run_with_clock_ok(*p, name@, args@, timeout, clock, r, events_view(events@)));
                return (r, events);
            },
        }
        fuel = fuel - 1;
    }
    assert(clocked_after(*p, fr0, timeout, clock, k).events == events_view(events@));
    assert(run_with_clock_ok(*p, name@, args@, timeout, clock, ReturnType::Timeout, events_view(events@)));
    (ReturnType::Timeout, events)
}

impl ProgContext {
    /// Runs `main` of `prog` with no arguments under a time budget of
    /// `timeout` seconds (none: no budget).
    pub fn run(prog: &Program, timeout: Option<u64>) -> (r: ReturnType)
        ensures
            exists|events: Seq<EventView>| run_result_ok(*prog, "main"@, Seq::empty(), timeout, r, events),
    {
        let name = "main".to_owned();
        let args: Vec<i32> = Vec::new();
        let (r, events) = execute(prog, &name, &args, timeout);
        assert(args@ =~= Seq::<i32>::empty());
        assert(run_result_ok(*prog, "main"@, Seq::empty(), timeout, r, events_view(events@)));
        r
    }
}

proof fn lemma_clocked_halted_stays(
    p: Program,
    fr: Seq<FrameView>,
    limit: Option<u64>,
    clock: Seq<u64>,
    n: nat,
    m: nat,
)
    requires
        clocked_after(p, fr, limit, clock, n).outcome is Some,
        n <= m,
    ensures
        clocked_after(p, fr, limit, clock, m) == clocked_after(p, fr, limit, clock, n),
    decreases m - n,
{
    if n < m {
        lemma_clocked_halted_stays(p, fr, limit, clock, n, (m - 1) as nat);
    }
}

/// Without a budget the clock plays no part: the run is the machine's own
/// steps.
pub proof fn lemma_no_budget(p: Program, fr: Seq<FrameView>, clock: Seq<u64>, n: nat)
    ensures
        clocked_after(p, fr, None, clock, n) == trace_after(p, fr, n),
    decreases n,
{
    if n > 0 {
        lemma_no_budget(p, fr, clock, (n - 1) as nat);
    }
}

/// Interpretation is deterministic: two runs of the same function of the same
/// program on the same arguments under the same budget, seeing the same clock
/// readings, end the same way with the same events.
pub proof fn lemma_run_deterministic(
    p: Program,
    name: Seq<char>,
    args: Seq<i32>,
    limit: Option<u64>,
    clock: Seq<u64>,
    r1: ReturnType,
    e1: Seq<EventView>,
    r2: ReturnType,
    e2: Seq<EventView>,
)
    requires
        run_with_clock_ok(p, name, args, limit, clock, r1, e1),
        run_with_clock_ok(p, name, args, limit, clock, r2, e2),
    ensures
        r1 == r2,
        e1 == e2,
{
    if let Ok(fr) = start_spec(p, name, args) {
        let n1 = choose|n: nat|
            {
                let tr = #[trigger] clocked_after(p, fr, limit, clock, n);
                &&& n <= u64::MAX
                &&& tr.events == e1
                &&& (tr.outcome == Some(r1) || (tr.outcome is None && n == u64::MAX && r1
                    == ReturnType::Timeout))
            };
        let n2 = choose|n: nat|
            {
                let tr = #[trigger] clocked_after(p, fr, limit, clock, n);
                &&& n <= u64::MAX
                &&& tr.events == e2
                &&& (tr.outcome == Some(r2) || (tr.outcome is None && n == u64::MAX && r2
                    == ReturnType::Timeout))
            };
        if clocked_after(p, fr, limit, clock, n1).outcome is Some {
            lemma_clocked_halted_stays(p, fr, limit, clock, n1, u64::MAX as nat);
            if clocked_after(p, fr, limit, clock, n2).outcome is Some {
                lemma_clocked_halted_stays(p, fr, limit, clock, n2, u64::MAX as nat);
            }
        } else if clocked_after(p, fr, limit, clock, n2).outcome is Some {
            lemma_clocked_halted_stays(p, fr, limit, clock, n2, u64::MAX as nat);
        }
    }
}

/// Without a budget, two runs of the same function of the same program on the
/// same arguments end the same way with the same events, whatever the clock.
pub proof fn lemma_run_deterministic_unbudgeted(
    p: Program,
    name: Seq<char>,
    args: Seq<i32>,
    r1: ReturnType,
    e1: Seq<EventView>,
    r2: ReturnType,
    e2: Seq<EventView>,
)
    requires
        run_result_ok(p, name, args, None, r1, e1),
        run_result_ok(p, name, args, None, r2, e2),
    ensures
        r1 == r2,
        e1 == e2,
{
    let c1 = choose|c: Seq<u64>| #[trigger] run_with_clock_ok(p, name, args, None, c, r1, e1);
    let c2 = choose|c: Seq<u64>| #[trigger] run_with_clock_ok(p, name, args, None, c, r2, e2);
    if let Ok(fr) = start_spec(p, name, args) {
        let n2 = choose|n: nat|
            {
                let tr = #[trigger] clocked_after(p, fr, None, c2, n);
                &&& n <= u64::MAX
                &&& tr.events == e2
                &&& (tr.outcome == Some(r2) || (tr.outcome is None && n == u64::MAX && r2
                    == ReturnType::Timeout))
            };
        lemma_no_budget(p, fr, c1, n2);
        lemma_no_budget(p, fr, c2, n2);
        assert(run_with_clock_ok(p, name, args, None, c1, r2, e2));
    }
    lemma_run_deterministic(p, name, args, None, c1, r1, e1, r2, e2);
}

/// Without a budget, a run ends in `Timeout` only when the machine has not
/// stopped after `u64::MAX` steps.
pub proof fn lemma_timeout_needs_budget(
    p: Program,
    name: Seq<char>,
    args: Seq<i32>,
    events: Seq<EventView>,
)
    requires
        run_result_ok(p, name, args, None, ReturnType::Timeout, events),
    ensures
        start_spec(p, name, args) matches Ok(fr) && trace_after(p, fr, u64::MAX as nat).outcome is None,
{
    let c = choose|c: Seq<u64>| #[trigger] run_with_clock_ok(p, name, args, None, c, ReturnType::Timeout, events);
    if let Ok(fr) = start_spec(p, name, args) {
        let n = choose|n: nat|
            {
                let tr = #[trigger] clocked_after(p, fr, None, c, n);
                &&& n <= u64::MAX
                &&& tr.events == events
                &&& (tr.outcome == Some(ReturnType::Timeout) || (tr.outcome is None && n == u64::MAX))
            };
        lemma_no_budget(p, fr, c, n);
        lemma_no_budget(p, fr, c, u64::MAX as nat);
        if trace_after(p, fr, n).outcome is Some {
            lemma_step_never_times_out(p, fr, n);
        }
    }
}

/// The machine's own steps never give `Timeout`: only the budget does.
pub proof fn lemma_step_never_times_out(p: Program, fr: Seq<FrameView>, n: nat)
    ensures
        trace_after(p, fr, n).outcome != Some(ReturnType::Timeout),
    decreases n,
{
    if n > 0 {
        lemma_step_never_times_out(p, fr, (n - 1) as nat);
        let t = trace_after(p, fr, (n - 1) as nat);
        if t.outcome is None {
            lemma_step_no_timeout(p, t.frames);
        }
    }
}

proof fn lemma_step_no_timeout(p: Program, fr: Seq<FrameView>)
    ensures
        step_spec(p, fr).1 != StepView::Halt(ReturnType::Timeout),
{
}

/// A phi takes the operand that stands at the position of the block control
/// came from among its block's predecessors.
pub proof fn lemma_phi_selects(p: Program, fr: Seq<FrameView>, u: BlockID, i: int, v: i32)
    requires
        fr.len() > 0,
        0 <= fr.last().func < p.funcs@.len(),
        0 <= fr.last().blk < p.funcs@[fr.last().func].blocks@.len(),
        0 <= fr.last().pc < p.funcs@[fr.last().func].blocks@[fr.last().blk].lines@.len(),
        p.funcs@[fr.last().func].blocks@[fr.last().blk].lines@[fr.last().pc].kind is Phi,
        fr.last().prev == Some(u),
        pred_pos(p.funcs@[fr.last().func].blocks@[fr.last().blk].preds@, u) == Some(i),
        i < p.funcs@[fr.last().func].blocks@[fr.last().blk].lines@[fr.last().pc].kind->Phi_srcs@.len(),
        operand_value(
            fr.last().store,
            p.funcs@[fr.last().func].blocks@[fr.last().blk].lines@[fr.last().pc].kind->Phi_srcs@[i],
        ) == Some(v),
    ensures
        step_spec(p, fr).1 is Continue,
        step_spec(p, fr).0.last().store == store_set(
            fr.last().store,
            p.funcs@[fr.last().func].blocks@[fr.last().blk].lines@[fr.last().pc].kind->Phi_dest,
            v,
        ),
{
}

/// In a run, a phi reached after `n` steps in a block entered from block `u`
/// writes, at step `n + 1`, the operand at the position of `u` among the
/// block's predecessors (unless the budget ran out at that moment).
pub proof fn lemma_phi_in_run(
    p: Program,
    fr0: Seq<FrameView>,
    limit: Option<u64>,
    clock: Seq<u64>,
    n: nat,
    u: BlockID,
    i: int,
    v: i32,
)
    requires
        n < clock.len(),
        ({
            let fr = clocked_after(p, fr0, limit, clock, n).frames;
            &&& clocked_after(p, fr0, limit, clock, n).outcome is None
            &&& !budget_exceeded(fr, clock[n as int], limit)
            &&& fr.len() > 0
            &&& 0 <= fr.last().func < p.funcs@.len()
            &&& 0 <= fr.last().blk < p.funcs@[fr.last().func].blocks@.len()
            &&& 0 <= fr.last().pc < p.funcs@[fr.last().func].blocks@[fr.last().blk].lines@.len()
            &&& p.funcs@[fr.last().func].blocks@[fr.last().blk].lines@[fr.last().pc].kind is Phi
            &&& fr.last().prev == Some(u)
            &&& pred_pos(p.funcs@[fr.last().func].blocks@[fr.last().blk].preds@, u) == Some(i)
            &&& i < p.funcs@[fr.last().func].blocks@[fr.last().blk].lines@[fr.last().pc].kind->Phi_srcs@.len()
            &&& operand_value(
                fr.last().store,
                p.funcs@[fr.last().func].blocks@[fr.last().blk].lines@[fr.last().pc].kind->Phi_srcs@[i],
            ) == Some(v)
        }),
    ensures
        ({
            let fr = clocked_after(p, fr0, limit, clock, n).frames;
            let next_t = clocked_after(p, fr0, limit, clock, n + 1);
            &&& next_t.outcome is None
            &&& next_t.frames.last().store == store_set(
                fr.last().store,
                p.funcs@[fr.last().func].blocks@[fr.last().blk].lines@[fr.last().pc].kind->Phi_dest,
                v,
            )
        }),
{
    let fr = clocked_after(p, fr0, limit, clock, n).frames;
    lemma_phi_selects(p, fr, u, i, v);
    assert(clocked_after(p, fr0, limit, clock, (n + 1 - 1) as nat) == clocked_after(p, fr0, limit, clock, n));
}

/// Control that leaves a block by a jump, a taken `if` or a `cmp` arrives with
/// that block recorded as the one it came from.
pub proof fn lemma_goto_records_source(
    fr: Seq<FrameView>,
    t: FrameView,
    f: Func,
    b: BasicBlock,
    target: BlockID,
    line: u64,
)
    requires
        fr.len() > 0,
        block_pos(f.blocks@, target) is Some,
    ensures
        goto(fr, t, f, b, target, line).0.last().prev == Some(b.id),
        f.blocks@[goto(fr, t, f, b, target, line).0.last().blk].id == target,
{
    let j = choose|j: int| crate::ir::block_at(f.blocks@, target, j);
}

} // verus!
