use vstd::prelude::*;

use crate::ir::{reg_at, reg_index, Operand, Register, Temp, TempID, NUM_REGISTERS};

verus! {

/// The values of the temporaries of one function invocation: one per register,
/// in the fixed register order, and the defined numbered temporaries, sorted by
/// number.
pub struct TempsView {
    pub regs: Seq<i32>,
    pub nums: Seq<(u64, i32)>,
}

/// The numbered temporaries are listed by strictly increasing number.
pub open spec fn sorted_keys(s: Seq<(u64, i32)>) -> bool {
    forall|i: int, j: int| 0 <= i < j < s.len() ==> #[trigger] s[i].0 < #[trigger] s[j].0
}

/// Entry `i` holds temporary number `n`.
pub open spec fn has_key(s: Seq<(u64, i32)>, n: u64, i: int) -> bool {
    0 <= i < s.len() && s[i].0 == n
}

/// Position `i` is where number `n`, absent, would be inserted.
pub open spec fn gap_at(s: Seq<(u64, i32)>, n: u64, i: int) -> bool {
    &&& 0 <= i <= s.len()
    &&& forall|j: int| 0 <= j < i ==> #[trigger] s[j].0 < n
    &&& forall|j: int| i <= j < s.len() ==> #[trigger] s[j].0 > n
}

/// The value of numbered temporary `n`, if it is defined.
pub open spec fn num_lookup(s: Seq<(u64, i32)>, n: u64) -> Option<i32> {
    if exists|i: int| has_key(s, n, i) {
        Some(s[choose|i: int| has_key(s, n, i)].1)
    } else {
        None
    }
}

/// The listing after numbered temporary `n` is set to `v`.
pub open spec fn num_insert(s: Seq<(u64, i32)>, n: u64, v: i32) -> Seq<(u64, i32)> {
    if exists|i: int| has_key(s, n, i) {
        s.update(choose|i: int| has_key(s, n, i), (n, v))
    } else {
        s.insert(choose|i: int| gap_at(s, n, i), (n, v))
    }
}

/// A well-formed store: one value per register, numbers sorted.
pub open spec fn store_wf(s: TempsView) -> bool {
    s.regs.len() == NUM_REGISTERS && sorted_keys(s.nums)
}

/// The store at the start of an invocation: every register 0, no numbered
/// temporary defined.
pub open spec fn empty_store() -> TempsView {
    TempsView { regs: Seq::new(NUM_REGISTERS as nat, |i: int| 0i32), nums: Seq::empty() }
}

/// The value of an operand: a constant, a register, or a defined numbered
/// temporary; `None` for an undefined numbered temporary.
pub open spec fn operand_value(s: TempsView, op: Operand) -> Option<i32> {
    match op {
        Operand::Const(v) => Some(v),
        Operand::Temp(Temp(TempID::Reg(r))) => Some(s.regs[reg_index(r)]),
        Operand::Temp(Temp(TempID::Num(n))) => num_lookup(s.nums, n),
    }
}

/// The store after temporary `t` is set to `v`.
pub open spec fn store_set(s: TempsView, t: Temp, v: i32) -> TempsView {
    match t.0 {
        TempID::Reg(r) => TempsView { regs: s.regs.update(reg_index(r), v), nums: s.nums },
        TempID::Num(n) => TempsView { regs: s.regs, nums: num_insert(s.nums, n, v) },
    }
}

/// Every temporary of the store with its value, sorted as temporaries sort:
/// numbered ones by number, then the registers in their fixed order.
pub open spec fn store_listing(s: TempsView) -> Seq<(Temp, i32)> {
    s.nums.map(|i: int, e: (u64, i32)| (Temp(TempID::Num(e.0)), e.1))
        + s.regs.map(|i: int, v: i32| (Temp(TempID::Reg(reg_at(i))), v))
}

proof fn lemma_key_unique(s: Seq<(u64, i32)>, n: u64, i: int)
    requires
        sorted_keys(s),
        has_key(s, n, i),
    ensures
        num_lookup(s, n) == Some(s[i].1),
        (choose|k: int| has_key(s, n, k)) == i,
{
    let k = choose|k: int| has_key(s, n, k);
    assert(has_key(s, n, k));
    if k < i {
        assert(s[k].0 < s[i].0);
    } else if k > i {
        assert(s[i].0 < s[k].0);
    }
}

proof fn lemma_gap_unique(s: Seq<(u64, i32)>, n: u64, i: int)
    requires
        gap_at(s, n, i),
    ensures
        (choose|k: int| gap_at(s, n, k)) == i,
        forall|k: int| !has_key(s, n, k),
{
    let k = choose|k: int| gap_at(s, n, k);
    assert(gap_at(s, n, k));
    if k < i {
        assert(s[k].0 < n);
        assert(s[k].0 > n);
    } else if k > i {
        assert(s[i].0 > n);
        assert(s[i].0 < n);
    }
    assert forall|k: int| !has_key(s, n, k) by {
        if 0 <= k < s.len() {
            if k < i {
                assert(s[k].0 < n);
            } else {
                assert(s[k].0 > n);
            }
        }
    }
}

/// The temporaries of one invocation.
pub struct TempStore {
    regs: Vec<i32>,
    nums: Vec<(u64, i32)>,
}

impl View for TempStore {
    type V = TempsView;

    closed spec fn view(&self) -> TempsView {
        TempsView { regs: self.regs@, nums: self.nums@ }
    }
}

impl TempStore {
    /// A store with every register 0 and no numbered temporary.
    pub fn new() -> (r: TempStore)
        ensures
            r@ == empty_store(),
            store_wf(r@),
    {
        let mut regs: Vec<i32> = Vec::new();
        let mut i: usize = 0;
        while i < NUM_REGISTERS
            invariant
                i <= NUM_REGISTERS,
                regs@ == Seq::new(i as nat, |k: int| 0i32),
            decreases NUM_REGISTERS - i,
        {
            regs.push(0);
            i = i + 1;
            assert(regs@ =~= Seq::new(i as nat, |k: int| 0i32));
        }
        let r = TempStore { regs, nums: Vec::new() };
        assert(r@.regs =~= empty_store().regs);
        assert(r@.nums =~= empty_store().nums);
        r
    }

    /// Position of number `n` in the sorted listing, and whether it is there.
    fn locate(&self, n: u64) -> (r: (usize, bool))
        requires
            store_wf(self@),
        ensures
            r.1 ==> has_key(self@.nums, n, r.0 as int),
            !r.1 ==> gap_at(self@.nums, n, r.0 as int),
    {
        let mut i: usize = 0;
        while i < self.nums.len() && self.nums[i].0 < n
            invariant
                i <= self.nums@.len(),
                forall|j: int| 0 <= j < i ==> #[trigger] self.nums@[j].0 < n,
            decreases self.nums@.len() - i,
        {
            i = i + 1;
        }
        let found = i < self.nums.len() && self.nums[i].0 == n;
        proof {
            if !found {
                assert forall|j: int| i <= j < self.nums@.len() implies #[trigger] self.nums@[j].0 > n by {
                    if j > i {
                        assert(self.nums@[i as int].0 < self.nums@[j].0);
                    }
                }
            }
        }
        (i, found)
    }

    /// The value of an operand; `None` for an undefined numbered temporary.
    pub fn get(&self, op: &Operand) -> (r: Option<i32>)
        requires
            store_wf(self@),
        ensures
            r == operand_value(self@, *op),
    {
        match op {
            Operand::Const(v) => Some(*v),
            Operand::Temp(Temp(TempID::Reg(reg))) => Some(self.regs[reg.index()]),
            Operand::Temp(Temp(TempID::Num(n))) => {
                let (i, found) = self.locate(*n);
                if found {
                    proof { lemma_key_unique(self@.nums, *n, i as int); }
                    Some(self.nums[i].1)
                } else {
                    proof { lemma_gap_unique(self@.nums, *n, i as int); }
                    None
                }
            },
        }
    }

    /// Sets temporary `dest` to `v`.
    pub fn save(&mut self, dest: &Temp, v: i32)
        requires
            store_wf(old(self)@),
        ensures
            final(self)@ == store_set(old(self)@, *dest, v),
            store_wf(final(self)@),
    {
        match dest.0 {
            TempID::Reg(reg) => {
                let k = reg.index();
                self.regs.set(k, v);
            },
            TempID::Num(n) => {
                let (i, found) = self.locate(n);
                let ghost s = self.nums@;
                if found {
                    proof { lemma_key_unique(s, n, i as int); }
                    self.nums.set(i, (n, v));
                    assert(sorted_keys(self.nums@)) by {
                        assert forall|a: int, b: int| 0 <= a < b < self.nums@.len() implies
                            #[trigger] self.nums@[a].0 < #[trigger] self.nums@[b].0 by {
                            assert(s[a].0 < s[b].0);
                        }
                    }
                } else {
                    proof { lemma_gap_unique(s, n, i as int); }
                    self.nums.insert(i, (n, v));
                    assert(sorted_keys(self.nums@)) by {
                        assert forall|a: int, b: int| 0 <= a < b < self.nums@.len() implies
                            #[trigger] self.nums@[a].0 < #[trigger] self.nums@[b].0 by {
                            if b < i {
                                assert(s[a].0 < s[b].0);
                            } else if b == i {
                                assert(s[a].0 < n);
                            } else if a < i {
                                assert(s[a].0 < n);
                                assert(s[b - 1].0 > n);
                            } else if a == i {
                                assert(s[b - 1].0 > n);
                            } else {
                                assert(s[a - 1].0 < s[b - 1].0);
                            }
                        }
                    }
                }
                assert(self@.nums == num_insert(s, n, v));
            },
        }
    }

    /// Every temporary with its value, numbered ones by number, then the
    /// registers in their fixed order.
    pub fn listing(&self) -> (r: Vec<(Temp, i32)>)
        requires
            store_wf(self@),
        ensures
            r@ == store_listing(self@),
    {
        let mut out: Vec<(Temp, i32)> = Vec::new();
        let ghost numpart = self@.nums.map(|i: int, e: (u64, i32)| (Temp(TempID::Num(e.0)), e.1));
        let ghost regpart = self@.regs.map(|i: int, v: i32| (Temp(TempID::Reg(reg_at(i))), v));
        let mut i: usize = 0;
        while i < self.nums.len()
            invariant
                i <= self.nums@.len(),
                out@ == numpart.subrange(0, i as int),
                numpart == self@.nums.map(|i: int, e: (u64, i32)| (Temp(TempID::Num(e.0)), e.1)),
            decreases self.nums@.len() - i,
        {
            let (n, v) = self.nums[i];
            out.push((Temp(TempID::Num(n)), v));
            i = i + 1;
            assert(out@ =~= numpart.subrange(0, i as int));
        }
        let mut k: usize = 0;
        while k < self.regs.len()
            invariant
                k <= self.regs@.len(),
                self.regs@.len() == NUM_REGISTERS,
                out@ == numpart + regpart.subrange(0, k as int),
                regpart == self@.regs.map(|i: int, v: i32| (Temp(TempID::Reg(reg_at(i))), v)),
            decreases self.regs@.len() - k,
        {
            let reg = Register::from_index(k);
            out.push((Temp(TempID::Reg(reg)), self.regs[k]));
            k = k + 1;
            assert(out@ =~= numpart + regpart.subrange(0, k as int));
        }
        assert(regpart.subrange(0, k as int) =~= regpart);
        out
    }
}

} // verus!
