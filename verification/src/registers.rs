//! Mech registers: small scratch storage a mech keeps between turns.

use vstd::prelude::*;
use crate::seqs::{first_index, lemma_first_index, lemma_first_index_unique};

verus! {

/// The accumulator register: holds numbers.
pub const EAX: u32 = 0;
/// The base register: holds text.
pub const EBX: u32 = 1;
/// The counter register: holds numbers.
pub const ECX: u32 = 2;

#[derive(Debug, PartialEq, Eq)]
pub enum RegisterValue {
    Number(u64),
    Text(String),
}

pub enum RegisterValueView {
    Number(u64),
    Text(Seq<char>),
}

impl View for RegisterValue {
    type V = RegisterValueView;

    open spec fn view(&self) -> RegisterValueView {
        match self {
            RegisterValue::Number(n) => RegisterValueView::Number(*n),
            RegisterValue::Text(s) => RegisterValueView::Text(s@),
        }
    }
}

impl Clone for RegisterValue {
    fn clone(&self) -> (r: Self)
        ensures
            r@ == self@,
    {
        match self {
            RegisterValue::Number(n) => RegisterValue::Number(*n),
            RegisterValue::Text(s) => RegisterValue::Text(s.clone()),
        }
    }
}

#[derive(Debug, PartialEq, Eq)]
pub enum RegisterOperation {
    Accumulate(u64),
    Decrement(u64),
    Assign(RegisterValue),
}

pub enum RegisterOperationView {
    Accumulate(u64),
    Decrement(u64),
    Assign(RegisterValueView),
}

impl View for RegisterOperation {
    type V = RegisterOperationView;

    open spec fn view(&self) -> RegisterOperationView {
        match self {
            RegisterOperation::Accumulate(n) => RegisterOperationView::Accumulate(*n),
            RegisterOperation::Decrement(n) => RegisterOperationView::Decrement(*n),
            RegisterOperation::Assign(v) => RegisterOperationView::Assign(v@),
        }
    }
}

impl Clone for RegisterOperation {
    fn clone(&self) -> (r: Self)
        ensures
            r@ == self@,
    {
        match self {
            RegisterOperation::Accumulate(n) => RegisterOperation::Accumulate(*n),
            RegisterOperation::Decrement(n) => RegisterOperation::Decrement(*n),
            RegisterOperation::Assign(v) => RegisterOperation::Assign(v.clone()),
        }
    }
}

/// Whether register entries name pairwise distinct registers.
pub open spec fn distinct_registers(regs: Seq<(u32, RegisterValueView)>) -> bool {
    forall|i: int, j: int| 0 <= i < j < regs.len() ==> regs[i].0 != regs[j].0
}

/// A mech's registers, as (register, value) entries.
pub open spec fn registers_view(regs: Seq<(u32, RegisterValue)>) -> Seq<(u32, RegisterValueView)> {
    regs.map_values(|e: (u32, RegisterValue)| (e.0, e.1@))
}

/// Whether an entry belongs to register `reg`.
pub open spec fn is_register(reg: u32) -> spec_fn((u32, RegisterValueView)) -> bool {
    |e: (u32, RegisterValueView)| e.0 == reg
}

/// The index of the first entry for register `reg`, or -1.
pub open spec fn register_index(regs: Seq<(u32, RegisterValueView)>, reg: u32) -> int {
    first_index(regs, is_register(reg))
}

/// The value held in register `reg`, if any.
pub open spec fn register_get(regs: Seq<(u32, RegisterValueView)>, reg: u32) -> Option<RegisterValueView> {
    let i = register_index(regs, reg);
    if i >= 0 {
        Some(regs[i].1)
    } else {
        None
    }
}

/// Stores `val` in register `reg`: replaces the entry if there is one,
/// else appends a new one.
pub open spec fn register_put(
    regs: Seq<(u32, RegisterValueView)>,
    reg: u32,
    val: RegisterValueView,
) -> Seq<(u32, RegisterValueView)> {
    let i = register_index(regs, reg);
    if i >= 0 {
        regs.update(i, (reg, val))
    } else {
        regs.push((reg, val))
    }
}

/// Reading a register after storing into it gives the stored value; other
/// registers are unaffected.
pub proof fn lemma_register_put(regs: Seq<(u32, RegisterValueView)>, reg: u32, val: RegisterValueView, other: u32)
    requires
        other != reg,
    ensures
        register_get(register_put(regs, reg, val), reg) == Some(val),
        register_get(register_put(regs, reg, val), other) == register_get(regs, other),
{
    let t = register_put(regs, reg, val);
    let i = register_index(regs, reg);
    lemma_first_index(regs, is_register(reg));
    lemma_first_index(regs, is_register(other));
    if i >= 0 {
        assert forall|j: int| 0 <= j < regs.len() implies is_register(reg)(#[trigger] regs[j]) == is_register(reg)(t[j]) by {}
        assert forall|j: int| 0 <= j < regs.len() implies is_register(other)(#[trigger] regs[j]) == is_register(other)(t[j]) by {}
        crate::seqs::lemma_first_index_preserved(regs, t, is_register(reg));
        crate::seqs::lemma_first_index_preserved(regs, t, is_register(other));
        let k = register_index(regs, other);
        if k >= 0 {
            assert(k != i);
        }
    } else {
        crate::seqs::lemma_first_index_push(regs, (reg, val), is_register(reg));
        crate::seqs::lemma_first_index_push(regs, (reg, val), is_register(other));
        let k = register_index(regs, other);
        if k >= 0 {
            assert(t[k] == regs[k]);
        }
    }
}

/// Storing into a register keeps the registers distinct.
pub proof fn lemma_register_put_distinct(regs: Seq<(u32, RegisterValueView)>, reg: u32, val: RegisterValueView)
    requires
        distinct_registers(regs),
    ensures
        distinct_registers(register_put(regs, reg, val)),
{
    let t = register_put(regs, reg, val);
    let i = register_index(regs, reg);
    lemma_first_index(regs, is_register(reg));
    assert forall|a: int, b: int| 0 <= a < b < t.len() implies t[a].0 != t[b].0 by {
        if i >= 0 {
            if a == i {
                assert(regs[a].0 == reg);
                assert(regs[b].0 != regs[a].0);
            } else if b == i {
                assert(regs[b].0 == reg);
                assert(regs[a].0 != regs[b].0);
            }
        } else if b == regs.len() {
            assert(!is_register(reg)(regs[a]));
        }
    }
}

/// Looks up the entry index of register `reg`.
pub fn find_register(regs: &Vec<(u32, RegisterValue)>, reg: u32) -> (r: Option<usize>)
    ensures
        match r {
            Some(i) => i as int == register_index(registers_view(regs@), reg) && i < regs.len(),
            None => register_index(registers_view(regs@), reg) == -1,
        },
{
    let ghost v = registers_view(regs@);
    let mut i: usize = 0;
    while i < regs.len()
        invariant
            i <= regs.len(),
            v == registers_view(regs@),
            forall|j: int| 0 <= j < i ==> v[j].0 != reg,
        decreases regs.len() - i,
    {
        if regs[i].0 == reg {
            proof {
                lemma_first_index_unique(v, is_register(reg), i as int);
            }
            return Some(i);
        }
        i = i + 1;
    }
    proof {
        lemma_first_index(v, is_register(reg));
        let k = register_index(v, reg);
        if k >= 0 {
            assert(is_register(reg)(v[k]));
        }
    }
    None
}

/// Clones a register file.
pub fn clone_registers(regs: &Vec<(u32, RegisterValue)>) -> (r: Vec<(u32, RegisterValue)>)
    ensures
        registers_view(r@) == registers_view(regs@),
{
    let mut out: Vec<(u32, RegisterValue)> = Vec::new();
    let mut i: usize = 0;
    while i < regs.len()
        invariant
            i <= regs.len(),
            registers_view(out@) == registers_view(regs@).subrange(0, i as int),
        decreases regs.len() - i,
    {
        let v = regs[i].1.clone();
        assert(v@ == regs@[i as int].1@);
        let e = (regs[i].0, v);
        let ghost before = out@;
        out.push(e);
        assert(out@ == before.push(e));
        assert(registers_view(out@) =~= registers_view(before).push((e.0, e.1@)));
        assert(registers_view(regs@).subrange(0, i + 1) =~= registers_view(regs@).subrange(0, i as int).push((e.0, e.1@)));
        i = i + 1;
    }
    assert(registers_view(regs@).subrange(0, i as int) =~= registers_view(regs@));
    out
}

} // verus!
