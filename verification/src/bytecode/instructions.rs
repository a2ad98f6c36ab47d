use vstd::prelude::*;

use crate::item_set::{ItemMap, ItemSet};
use crate::ix::BlockIx;
use crate::regs::{RealReg, Reg, RegClass, VirtualReg};

verus! {

/// One bytecode instruction. Register operands are plain register numbers;
/// jump targets are basic-block numbers.
#[derive(Clone, Debug)]
pub enum Instruction {
    Load(u32, u32, u32),
    Store(u32, u32, u32),
    LoadInt(u32, u64),
    LoadNull(u32),
    LoadBool(u32, bool),
    LoadNum(u32, u64),
    LoadConst(u32, u32),
    LoadGlobal(u32, u32),
    LoadThis(u32),
    LoadStatic(u32, u32),
    LoadU(u32, u32),
    StoreU(u32, u32),
    Construct(u32, u32, u32),
    ConstructArray(u32, u32),
    Call(u32, u32, u32),
    VirtCall(u32, u32, u32, u32),
    TailCall(u32, u32, u32),
    Return(Option<u32>),
    MakeEnv(u32, u32),
    Push(u32),
    Pop(u32),
    StoreStack(u32, u16),
    LoadStack(u32, u16),
    Goto(u16),
    GotoIfFalse(u32, u16),
    GotoIfTrue(u32, u16),
    ConditionalGoto(u32, u16, u16),
    Add(u32, u32, u32),
    Sub(u32, u32, u32),
    Div(u32, u32, u32),
    Mod(u32, u32, u32),
    Mul(u32, u32, u32),
    Shr(u32, u32, u32),
    Shl(u32, u32, u32),
    Greater(u32, u32, u32),
    Less(u32, u32, u32),
    GreaterEqual(u32, u32, u32),
    LessEqual(u32, u32, u32),
    Equal(u32, u32, u32),
    NotEqual(u32, u32, u32),
    Not(u32, u32),
    And(u32, u32, u32),
    Or(u32, u32, u32),
    Xor(u32, u32, u32),
    BoolAnd(u32, u32, u32),
    BoolOr(u32, u32, u32),
    CatchBlock(u32, u32),
    Move(u32, u32),
    Safepoint,
    UnfinishedGoto(String),
    UnfinishedGotoF(u32, String),
    UnfinishedGotoT(u32, String),
}

/// The blocks an instruction may jump to, in order.
pub open spec fn targets(ins: Instruction) -> Seq<u32> {
    match ins {
        Instruction::Goto(x) => seq![x as u32],
        Instruction::GotoIfFalse(_, x) => seq![x as u32],
        Instruction::GotoIfTrue(_, x) => seq![x as u32],
        Instruction::ConditionalGoto(_, x, y) => seq![x as u32, y as u32],
        _ => Seq::empty(),
    }
}

/// The register numbers an instruction defines, modifies and uses, in
/// that order.
pub open spec fn reg_roles(ins: Instruction) -> (Seq<u32>, Seq<u32>, Seq<u32>) {
    match ins {
        Instruction::Load(x, y, z) => (seq![x], seq![], seq![y, z]),
        Instruction::Store(x, y, z) => (seq![], seq![x], seq![y, z]),
        Instruction::LoadNum(r, _) => (seq![r], seq![], seq![]),
        Instruction::LoadInt(r, _) => (seq![r], seq![], seq![]),
        Instruction::LoadConst(r, _) => (seq![r], seq![], seq![]),
        Instruction::LoadGlobal(r, _) => (seq![r], seq![], seq![]),
        Instruction::LoadNull(r) => (seq![r], seq![], seq![]),
        Instruction::LoadThis(r) => (seq![r], seq![], seq![]),
        Instruction::LoadBool(r, _) => (seq![r], seq![], seq![]),
        Instruction::LoadStatic(r, _) => (seq![r], seq![], seq![]),
        Instruction::LoadU(r, _) => (seq![r], seq![], seq![]),
        Instruction::StoreU(r, _) => (seq![r], seq![], seq![]),
        Instruction::Construct(r0, r1, _) => (seq![r0], seq![], seq![r1]),
        Instruction::ConstructArray(r0, _) => (seq![r0], seq![], seq![]),
        Instruction::Call(r0, r1, _) => (seq![r0], seq![], seq![r1]),
        Instruction::TailCall(r0, r1, _) => (seq![r0], seq![], seq![r1]),
        Instruction::VirtCall(r0, r1, r2, _) => (seq![r0], seq![], seq![r1, r2]),
        Instruction::Return(Some(r)) => (seq![], seq![], seq![r]),
        Instruction::MakeEnv(r0, _) => (seq![], seq![r0], seq![]),
        Instruction::Push(r0) => (seq![], seq![], seq![r0]),
        Instruction::Pop(r0) => (seq![r0], seq![], seq![]),
        Instruction::Move(r0, r1) => (seq![r0], seq![], seq![r1]),
        Instruction::StoreStack(r, _) => (seq![], seq![], seq![r]),
        Instruction::LoadStack(r, _) => (seq![r], seq![], seq![]),
        Instruction::Add(r0, r1, r2) => (seq![r0], seq![], seq![r1, r2]),
        Instruction::Sub(r0, r1, r2) => (seq![r0], seq![], seq![r1, r2]),
        Instruction::Div(r0, r1, r2) => (seq![r0], seq![], seq![r1, r2]),
        Instruction::Mod(r0, r1, r2) => (seq![r0], seq![], seq![r1, r2]),
        Instruction::Mul(r0, r1, r2) => (seq![r0], seq![], seq![r1, r2]),
        Instruction::Shr(r0, r1, r2) => (seq![r0], seq![], seq![r1, r2]),
        Instruction::Shl(r0, r1, r2) => (seq![r0], seq![], seq![r1, r2]),
        Instruction::Greater(r0, r1, r2) => (seq![r0], seq![], seq![r1, r2]),
        Instruction::Less(r0, r1, r2) => (seq![r0], seq![], seq![r1, r2]),
        Instruction::GreaterEqual(r0, r1, r2) => (seq![r0], seq![], seq![r1, r2]),
        Instruction::LessEqual(r0, r1, r2) => (seq![r0], seq![], seq![r1, r2]),
        Instruction::Equal(r0, r1, r2) => (seq![r0], seq![], seq![r1, r2]),
        Instruction::NotEqual(r0, r1, r2) => (seq![r0], seq![], seq![r1, r2]),
        Instruction::And(r0, r1, r2) => (seq![r0], seq![], seq![r1, r2]),
        Instruction::Or(r0, r1, r2) => (seq![r0], seq![], seq![r1, r2]),
        Instruction::Xor(r0, r1, r2) => (seq![r0], seq![], seq![r1, r2]),
        Instruction::BoolAnd(r0, r1, r2) => (seq![r0], seq![], seq![r1, r2]),
        Instruction::BoolOr(r0, r1, r2) => (seq![r0], seq![], seq![r1, r2]),
        Instruction::Not(r0, r1) => (seq![r0], seq![], seq![r1]),
        Instruction::GotoIfFalse(r0, _) => (seq![], seq![], seq![r0]),
        Instruction::GotoIfTrue(r0, _) => (seq![], seq![], seq![r0]),
        Instruction::ConditionalGoto(r0, _, _) => (seq![], seq![], seq![r0]),
        _ => (seq![], seq![], seq![]),
    }
}

/// Every register number the instruction defines, modifies or uses.
pub open spec fn reported_regs(ins: Instruction) -> Seq<u32> {
    reg_roles(ins).0 + reg_roles(ins).1 + reg_roles(ins).2
}

/// Renaming touches only the registers that `get_reg_usage` reports: when
/// both maps send every reported register number to itself, renaming
/// leaves the instruction as it was.
pub proof fn lemma_renaming_touches_only_reported(ins: Instruction, d: Map<VirtualReg, RealReg>, u: Map<VirtualReg, RealReg>)
    requires
        forall|k: int|
            0 <= k < reported_regs(ins).len() ==> mapped_num(#[trigger] reported_regs(ins)[k], d) == reported_regs(ins)[k]
                && mapped_num(reported_regs(ins)[k], u) == reported_regs(ins)[k],
    ensures
        map_regs_spec(ins, d, u) == ins,
{
    let all = reported_regs(ins);
    if all.len() > 0 {
        assert(mapped_num(all[0], d) == all[0]);
    }
    if all.len() > 1 {
        assert(mapped_num(all[1], d) == all[1]);
    }
    if all.len() > 2 {
        assert(mapped_num(all[2], d) == all[2]);
    }
}

/// Renaming moves every modified or used register that the use map moves:
/// the instruction then changes.
pub proof fn lemma_renaming_moves_used(ins: Instruction, d: Map<VirtualReg, RealReg>, u: Map<VirtualReg, RealReg>, k: int)
    requires
        0 <= k < (reg_roles(ins).1 + reg_roles(ins).2).len(),
        mapped_num((reg_roles(ins).1 + reg_roles(ins).2)[k], u) != (reg_roles(ins).1 + reg_roles(ins).2)[k],
    ensures
        map_regs_spec(ins, d, u) != ins,
{
}

/// Renaming moves every defined register that its map moves (the use map
/// for `StoreU`, the definition map otherwise): the instruction then
/// changes.
pub proof fn lemma_renaming_moves_defined(ins: Instruction, d: Map<VirtualReg, RealReg>, u: Map<VirtualReg, RealReg>, k: int)
    requires
        0 <= k < reg_roles(ins).0.len(),
        mapped_num(reg_roles(ins).0[k], if ins is StoreU { u } else { d }) != reg_roles(ins).0[k],
    ensures
        map_regs_spec(ins, d, u) != ins,
{
}

/// The register that register number `n` stands for: the virtual `I64`
/// register `n`, or, once registers are allocated, the real `I64` register
/// with encoding 1 and index `n` (truncated to 8 bits).
pub open spec fn role_reg(n: u32, mapped: bool) -> Reg {
    if mapped {
        Reg::real_reg(RegClass::I64, 1, n as u8)
    } else {
        Reg::virtual_reg(RegClass::I64, n)
    }
}

/// The registers that a list of register numbers stands for.
pub open spec fn reg_set(ns: Seq<u32>, mapped: bool) -> Set<Reg> {
    ns.map_values(|n: u32| role_reg(n, mapped)).to_set()
}

/// Every number of the list can name a virtual register.
pub open spec fn all_virtual_numbers(ns: Seq<u32>) -> bool {
    forall|i: int| 0 <= i < ns.len() ==> ns[i] < 0x1000_0000
}

/// Every register number of an instruction can name a virtual register.
pub open spec fn regs_fit(ins: Instruction) -> bool {
    let (d, m, u) = reg_roles(ins);
    all_virtual_numbers(d) && all_virtual_numbers(m) && all_virtual_numbers(u)
}

/// The virtual register that register number `n` stands for before
/// allocation.
pub open spec fn vreg_of(n: u32) -> VirtualReg {
    VirtualReg::of(Reg::virtual_reg(RegClass::I64, n))
}

/// Register number `n` can be mapped through `m`.
pub open spec fn map_ok(n: u32, m: Map<VirtualReg, RealReg>) -> bool {
    n < 0x1000_0000 && m.contains_key(vreg_of(n))
}

/// The number that register number `n` becomes through `m`: the index of
/// the real register it is mapped to.
pub open spec fn mapped_num(n: u32, m: Map<VirtualReg, RealReg>) -> u32 {
    m[vreg_of(n)]@.index()
}

/// Every register of the instruction can be mapped: defined registers
/// through `d`, the others through `u`.
pub open spec fn can_map(ins: Instruction, d: Map<VirtualReg, RealReg>, u: Map<VirtualReg, RealReg>) -> bool {
    match ins {
        Instruction::LoadBool(r, _) | Instruction::LoadNull(r) | Instruction::LoadNum(r, _)
        | Instruction::LoadInt(r, _) | Instruction::LoadConst(r, _) | Instruction::LoadGlobal(r, _)
        | Instruction::LoadThis(r) | Instruction::LoadStatic(r, _) | Instruction::LoadU(r, _)
        | Instruction::ConstructArray(r, _) | Instruction::Pop(r) | Instruction::LoadStack(r, _) => map_ok(r, d),
        Instruction::Load(r0, r1, r2) | Instruction::Add(r0, r1, r2) | Instruction::Sub(r0, r1, r2)
        | Instruction::Div(r0, r1, r2) | Instruction::Mod(r0, r1, r2) | Instruction::Mul(r0, r1, r2)
        | Instruction::Shr(r0, r1, r2) | Instruction::Shl(r0, r1, r2) | Instruction::Greater(r0, r1, r2)
        | Instruction::Less(r0, r1, r2) | Instruction::GreaterEqual(r0, r1, r2)
        | Instruction::LessEqual(r0, r1, r2) | Instruction::Equal(r0, r1, r2)
        | Instruction::NotEqual(r0, r1, r2) | Instruction::And(r0, r1, r2) | Instruction::Or(r0, r1, r2)
        | Instruction::Xor(r0, r1, r2) | Instruction::BoolAnd(r0, r1, r2) | Instruction::BoolOr(r0, r1, r2)
        | Instruction::VirtCall(r0, r1, r2, _) => map_ok(r0, d) && map_ok(r1, u) && map_ok(r2, u),
        Instruction::Store(r0, r1, r2) => map_ok(r0, u) && map_ok(r1, u) && map_ok(r2, u),
        Instruction::Construct(r0, r1, _) | Instruction::Call(r0, r1, _) | Instruction::TailCall(r0, r1, _)
        | Instruction::Move(r0, r1) | Instruction::Not(r0, r1) => map_ok(r0, d) && map_ok(r1, u),
        Instruction::StoreU(r, _) | Instruction::Return(Some(r)) | Instruction::MakeEnv(r, _)
        | Instruction::Push(r) | Instruction::StoreStack(r, _) | Instruction::GotoIfFalse(r, _)
        | Instruction::GotoIfTrue(r, _) | Instruction::ConditionalGoto(r, _, _) => map_ok(r, u),
        _ => true,
    }
}

/// The instruction with its registers renamed to the real registers they
/// are mapped to: defined registers through `d`, the others through `u`.
pub open spec fn map_regs_spec(ins: Instruction, d: Map<VirtualReg, RealReg>, u: Map<VirtualReg, RealReg>) -> Instruction {
    let md = |n: u32| mapped_num(n, d);
    let mu = |n: u32| mapped_num(n, u);
    match ins {
        Instruction::LoadBool(r, b) => Instruction::LoadBool(md(r), b),
        Instruction::Load(r0, r1, r2) => Instruction::Load(md(r0), mu(r1), mu(r2)),
        Instruction::Add(r0, r1, r2) => Instruction::Add(md(r0), mu(r1), mu(r2)),
        Instruction::Sub(r0, r1, r2) => Instruction::Sub(md(r0), mu(r1), mu(r2)),
        Instruction::Div(r0, r1, r2) => Instruction::Div(md(r0), mu(r1), mu(r2)),
        Instruction::Mod(r0, r1, r2) => Instruction::Mod(md(r0), mu(r1), mu(r2)),
        Instruction::Mul(r0, r1, r2) => Instruction::Mul(md(r0), mu(r1), mu(r2)),
        Instruction::Shr(r0, r1, r2) => Instruction::Shr(md(r0), mu(r1), mu(r2)),
        Instruction::Shl(r0, r1, r2) => Instruction::Shl(md(r0), mu(r1), mu(r2)),
        Instruction::Greater(r0, r1, r2) => Instruction::Greater(md(r0), mu(r1), mu(r2)),
        Instruction::Less(r0, r1, r2) => Instruction::Less(md(r0), mu(r1), mu(r2)),
        Instruction::GreaterEqual(r0, r1, r2) => Instruction::GreaterEqual(md(r0), mu(r1), mu(r2)),
        Instruction::LessEqual(r0, r1, r2) => Instruction::LessEqual(md(r0), mu(r1), mu(r2)),
        Instruction::Equal(r0, r1, r2) => Instruction::Equal(md(r0), mu(r1), mu(r2)),
        Instruction::NotEqual(r0, r1, r2) => Instruction::NotEqual(md(r0), mu(r1), mu(r2)),
        Instruction::And(r0, r1, r2) => Instruction::And(md(r0), mu(r1), mu(r2)),
        Instruction::Or(r0, r1, r2) => Instruction::Or(md(r0), mu(r1), mu(r2)),
        Instruction::Xor(r0, r1, r2) => Instruction::Xor(md(r0), mu(r1), mu(r2)),
        Instruction::BoolAnd(r0, r1, r2) => Instruction::BoolAnd(md(r0), mu(r1), mu(r2)),
        Instruction::BoolOr(r0, r1, r2) => Instruction::BoolOr(md(r0), mu(r1), mu(r2)),
        Instruction::LoadNull(r) => Instruction::LoadNull(md(r)),
        Instruction::Store(r0, r1, r2) => Instruction::Store(mu(r0), mu(r1), mu(r2)),
        Instruction::LoadNum(r, v) => Instruction::LoadNum(md(r), v),
        Instruction::LoadInt(r, v) => Instruction::LoadInt(md(r), v),
        Instruction::LoadConst(r, v) => Instruction::LoadConst(md(r), v),
        Instruction::LoadGlobal(r, v) => Instruction::LoadGlobal(md(r), v),
        Instruction::LoadThis(r) => Instruction::LoadThis(md(r)),
        Instruction::LoadStatic(r, v) => Instruction::LoadStatic(md(r), v),
        Instruction::LoadU(r, v) => Instruction::LoadU(md(r), v),
        Instruction::StoreU(r, v) => Instruction::StoreU(mu(r), v),
        Instruction::Construct(r0, r1, v) => Instruction::Construct(md(r0), mu(r1), v),
        Instruction::ConstructArray(r, v) => Instruction::ConstructArray(md(r), v),
        Instruction::Call(r0, r1, v) => Instruction::Call(md(r0), mu(r1), v),
        Instruction::TailCall(r0, r1, v) => Instruction::TailCall(md(r0), mu(r1), v),
        Instruction::VirtCall(r0, r1, r2, v) => Instruction::VirtCall(md(r0), mu(r1), mu(r2), v),
        Instruction::Return(Some(r)) => Instruction::Return(Some(mu(r))),
        Instruction::MakeEnv(r, v) => Instruction::MakeEnv(mu(r), v),
        Instruction::Push(r) => Instruction::Push(mu(r)),
        Instruction::Pop(r) => Instruction::Pop(md(r)),
        Instruction::Move(r0, r1) => Instruction::Move(md(r0), mu(r1)),
        Instruction::StoreStack(r, v) => Instruction::StoreStack(mu(r), v),
        Instruction::LoadStack(r, v) => Instruction::LoadStack(md(r), v),
        Instruction::Not(r0, r1) => Instruction::Not(md(r0), mu(r1)),
        Instruction::GotoIfFalse(r, t) => Instruction::GotoIfFalse(mu(r), t),
        Instruction::GotoIfTrue(r, t) => Instruction::GotoIfTrue(mu(r), t),
        Instruction::ConditionalGoto(r, t, f) => Instruction::ConditionalGoto(mu(r), t, f),
        _ => ins,
    }
}

/// The register that `n` is mapped to through `m`, as a register number.
fn map_one(n: u32, m: &ItemMap<VirtualReg, RealReg>) -> (r: u32)
    requires
        map_ok(n, m@),
    ensures
        r == mapped_num(n, m@),
{
    let v = Reg::new_virtual(RegClass::I64, n).to_virtual_reg();
    let target = m.get(&v).unwrap();
    target.get_index() as u32
}

/// The set of registers that the numbers `ns` stand for.
fn regs_for(ns: &Vec<u32>, mapped: bool) -> (r: ItemSet<Reg>)
    requires
        !mapped ==> all_virtual_numbers(ns@),
    ensures
        r@ == reg_set(ns@, mapped),
{
    let ghost f = |n: u32| role_reg(n, mapped);
    let mut s = ItemSet::<Reg>::empty();
    let mut i: usize = 0;
    proof {
        assert(ns@.subrange(0, 0).map_values(f).to_set() =~= Set::<Reg>::empty());
    }
    while i < ns.len()
        invariant
            i <= ns@.len(),
            !mapped ==> all_virtual_numbers(ns@),
            f == (|n: u32| role_reg(n, mapped)),
            s@ == ns@.subrange(0, i as int).map_values(f).to_set(),
        decreases ns@.len() - i,
    {
        let n = ns[i];
        let reg = if mapped {
            Reg::new_real(RegClass::I64, 1, n as u8)
        } else {
            Reg::new_virtual(RegClass::I64, n)
        };
        s.insert(reg);
        proof {
            let mv = ns@.map_values(f);
            assert(ns@.subrange(0, i + 1).map_values(f) =~= mv.subrange(0, i + 1));
            assert(ns@.subrange(0, i as int).map_values(f) =~= mv.subrange(0, i as int));
            crate::item_set::lemma_prefix_push_to_set(mv, i as int);
        }
        i = i + 1;
    }
    proof {
        assert(ns@.subrange(0, ns@.len() as int) =~= ns@);
    }
    s
}

impl Instruction {
    /// The blocks this instruction may jump to.
    pub fn get_targets(&self) -> (r: Vec<BlockIx>)
        ensures
            r@.len() == targets(*self).len(),
            forall|i: int| 0 <= i < r@.len() ==> r@[i]@ == targets(*self)[i],
    {
        let mut v: Vec<BlockIx> = Vec::new();
        match self {
            Instruction::Goto(x) | Instruction::GotoIfFalse(_, x) | Instruction::GotoIfTrue(_, x) => {
                v.push(BlockIx::new(*x as u32));
            },
            Instruction::ConditionalGoto(_, x, y) => {
                v.push(BlockIx::new(*x as u32));
                v.push(BlockIx::new(*y as u32));
            },
            _ => {},
        }
        v
    }

    /// The register numbers this instruction defines, modifies and uses.
    fn role_numbers(&self) -> (r: (Vec<u32>, Vec<u32>, Vec<u32>))
        ensures
            r.0@ == reg_roles(*self).0,
            r.1@ == reg_roles(*self).1,
            r.2@ == reg_roles(*self).2,
    {
        let mut d: Vec<u32> = Vec::new();
        let mut m: Vec<u32> = Vec::new();
        let mut u: Vec<u32> = Vec::new();
        match self {
            Instruction::Load(x, y, z) => {
                d.push(*x);
                u.push(*y);
                u.push(*z);
            },
            Instruction::Store(x, y, z) => {
                m.push(*x);
                u.push(*y);
                u.push(*z);
            },
            Instruction::LoadNum(r, _) | Instruction::LoadInt(r, _) | Instruction::LoadConst(r, _)
            | Instruction::LoadGlobal(r, _) | Instruction::LoadStatic(r, _) | Instruction::LoadU(r, _)
            | Instruction::StoreU(r, _) | Instruction::ConstructArray(r, _) | Instruction::LoadStack(r, _) => {
                d.push(*r);
            },
            Instruction::LoadNull(r) | Instruction::LoadThis(r) | Instruction::Pop(r) => {
                d.push(*r);
            },
            Instruction::LoadBool(r, _) => {
                d.push(*r);
            },
            Instruction::Construct(r0, r1, _) | Instruction::Call(r0, r1, _)
            | Instruction::TailCall(r0, r1, _) => {
                d.push(*r0);
                u.push(*r1);
            },
            Instruction::Move(r0, r1) | Instruction::Not(r0, r1) => {
                d.push(*r0);
                u.push(*r1);
            },
            Instruction::VirtCall(r0, r1, r2, _) => {
                d.push(*r0);
                u.push(*r1);
                u.push(*r2);
            },
            Instruction::Return(Some(r)) | Instruction::Push(r) => {
                u.push(*r);
            },
            Instruction::StoreStack(r, _) => {
                u.push(*r);
            },
            Instruction::MakeEnv(r0, _) => {
                m.push(*r0);
            },
            Instruction::Add(r0, r1, r2) | Instruction::Sub(r0, r1, r2) | Instruction::Div(r0, r1, r2)
            | Instruction::Mod(r0, r1, r2) | Instruction::Mul(r0, r1, r2) | Instruction::Shr(r0, r1, r2)
            | Instruction::Shl(r0, r1, r2) | Instruction::Greater(r0, r1, r2) | Instruction::Less(r0, r1, r2)
            | Instruction::GreaterEqual(r0, r1, r2) | Instruction::LessEqual(r0, r1, r2)
            | Instruction::Equal(r0, r1, r2) | Instruction::NotEqual(r0, r1, r2) | Instruction::And(r0, r1, r2)
            | Instruction::Or(r0, r1, r2) | Instruction::Xor(r0, r1, r2) | Instruction::BoolAnd(r0, r1, r2)
            | Instruction::BoolOr(r0, r1, r2) => {
                d.push(*r0);
                u.push(*r1);
                u.push(*r2);
            },
            Instruction::GotoIfFalse(r0, _) | Instruction::GotoIfTrue(r0, _) => {
                u.push(*r0);
            },
            Instruction::ConditionalGoto(r0, _, _) => {
                u.push(*r0);
            },
            _ => {},
        }
        (d, m, u)
    }

    /// The registers this instruction defines, modifies and uses: virtual
    /// registers, or the real registers they were replaced by once
    /// `is_maped` holds.
    pub fn get_reg_usage(&self, is_maped: bool) -> (r: (ItemSet<Reg>, ItemSet<Reg>, ItemSet<Reg>))
        requires
            !is_maped ==> regs_fit(*self),
        ensures
            r.0@ == reg_set(reg_roles(*self).0, is_maped),
            r.1@ == reg_set(reg_roles(*self).1, is_maped),
            r.2@ == reg_set(reg_roles(*self).2, is_maped),
    {
        let (d, m, u) = self.role_numbers();
        (regs_for(&d, is_maped), regs_for(&m, is_maped), regs_for(&u, is_maped))
    }

    /// Renames the registers to the real registers they were allocated:
    /// defined registers through `map_defs`, the others through `map_uses`.
    pub fn map_regs_d_u(&mut self, map_defs: &ItemMap<VirtualReg, RealReg>, map_uses: &ItemMap<VirtualReg, RealReg>)
        requires
            can_map(*old(self), map_defs@, map_uses@),
        ensures
            *final(self) == map_regs_spec(*old(self), map_defs@, map_uses@),
            targets(*final(self)) == targets(*old(self)),
    {
        let d = map_defs;
        let u = map_uses;
        let n: Option<Instruction> = match &*self {
            Instruction::LoadBool(r, b) => Some(Instruction::LoadBool(map_one(*r, d), *b)),
            Instruction::Load(r0, r1, r2) => Some(Instruction::Load(map_one(*r0, d), map_one(*r1, u), map_one(*r2, u))),
            Instruction::Add(r0, r1, r2) => Some(Instruction::Add(map_one(*r0, d), map_one(*r1, u), map_one(*r2, u))),
            Instruction::Sub(r0, r1, r2) => Some(Instruction::Sub(map_one(*r0, d), map_one(*r1, u), map_one(*r2, u))),
            Instruction::Div(r0, r1, r2) => Some(Instruction::Div(map_one(*r0, d), map_one(*r1, u), map_one(*r2, u))),
            Instruction::Mod(r0, r1, r2) => Some(Instruction::Mod(map_one(*r0, d), map_one(*r1, u), map_one(*r2, u))),
            Instruction::Mul(r0, r1, r2) => Some(Instruction::Mul(map_one(*r0, d), map_one(*r1, u), map_one(*r2, u))),
            Instruction::Shr(r0, r1, r2) => Some(Instruction::Shr(map_one(*r0, d), map_one(*r1, u), map_one(*r2, u))),
            Instruction::Shl(r0, r1, r2) => Some(Instruction::Shl(map_one(*r0, d), map_one(*r1, u), map_one(*r2, u))),
            Instruction::Greater(r0, r1, r2) => Some(Instruction::Greater(map_one(*r0, d), map_one(*r1, u), map_one(*r2, u))),
            Instruction::Less(r0, r1, r2) => Some(Instruction::Less(map_one(*r0, d), map_one(*r1, u), map_one(*r2, u))),
            Instruction::GreaterEqual(r0, r1, r2) => Some(Instruction::GreaterEqual(map_one(*r0, d), map_one(*r1, u), map_one(*r2, u))),
            Instruction::LessEqual(r0, r1, r2) => Some(Instruction::LessEqual(map_one(*r0, d), map_one(*r1, u), map_one(*r2, u))),
            Instruction::Equal(r0, r1, r2) => Some(Instruction::Equal(map_one(*r0, d), map_one(*r1, u), map_one(*r2, u))),
            Instruction::NotEqual(r0, r1, r2) => Some(Instruction::NotEqual(map_one(*r0, d), map_one(*r1, u), map_one(*r2, u))),
            Instruction::And(r0, r1, r2) => Some(Instruction::And(map_one(*r0, d), map_one(*r1, u), map_one(*r2, u))),
            Instruction::Or(r0, r1, r2) => Some(Instruction::Or(map_one(*r0, d), map_one(*r1, u), map_one(*r2, u))),
            Instruction::Xor(r0, r1, r2) => Some(Instruction::Xor(map_one(*r0, d), map_one(*r1, u), map_one(*r2, u))),
            Instruction::BoolAnd(r0, r1, r2) => Some(Instruction::BoolAnd(map_one(*r0, d), map_one(*r1, u), map_one(*r2, u))),
            Instruction::BoolOr(r0, r1, r2) => Some(Instruction::BoolOr(map_one(*r0, d), map_one(*r1, u), map_one(*r2, u))),
            Instruction::LoadNull(r) => Some(Instruction::LoadNull(map_one(*r, d))),
            Instruction::Store(r0, r1, r2) => Some(Instruction::Store(map_one(*r0, u), map_one(*r1, u), map_one(*r2, u))),
            Instruction::LoadNum(r, v) => Some(Instruction::LoadNum(map_one(*r, d), *v)),
            Instruction::LoadInt(r, v) => Some(Instruction::LoadInt(map_one(*r, d), *v)),
            Instruction::LoadConst(r, v) => Some(Instruction::LoadConst(map_one(*r, d), *v)),
            Instruction::LoadGlobal(r, v) => Some(Instruction::LoadGlobal(map_one(*r, d), *v)),
            Instruction::LoadThis(r) => Some(Instruction::LoadThis(map_one(*r, d))),
            Instruction::LoadStatic(r, v) => Some(Instruction::LoadStatic(map_one(*r, d), *v)),
            Instruction::LoadU(r, v) => Some(Instruction::LoadU(map_one(*r, d), *v)),
            Instruction::StoreU(r, v) => Some(Instruction::StoreU(map_one(*r, u), *v)),
            Instruction::Construct(r0, r1, v) => Some(Instruction::Construct(map_one(*r0, d), map_one(*r1, u), *v)),
            Instruction::ConstructArray(r, v) => Some(Instruction::ConstructArray(map_one(*r, d), *v)),
            Instruction::Call(r0, r1, v) => Some(Instruction::Call(map_one(*r0, d), map_one(*r1, u), *v)),
            Instruction::TailCall(r0, r1, v) => Some(Instruction::TailCall(map_one(*r0, d), map_one(*r1, u), *v)),
            Instruction::VirtCall(r0, r1, r2, v) => Some(Instruction::VirtCall(map_one(*r0, d), map_one(*r1, u), map_one(*r2, u), *v)),
            Instruction::Return(Some(r)) => Some(Instruction::Return(Some(map_one(*r, u)))),
            Instruction::MakeEnv(r, v) => Some(Instruction::MakeEnv(map_one(*r, u), *v)),
            Instruction::Push(r) => Some(Instruction::Push(map_one(*r, u))),
            Instruction::Pop(r) => Some(Instruction::Pop(map_one(*r, d))),
            Instruction::Move(r0, r1) => Some(Instruction::Move(map_one(*r0, d), map_one(*r1, u))),
            Instruction::StoreStack(r, v) => Some(Instruction::StoreStack(map_one(*r, u), *v)),
            Instruction::LoadStack(r, v) => Some(Instruction::LoadStack(map_one(*r, d), *v)),
            Instruction::Not(r0, r1) => Some(Instruction::Not(map_one(*r0, d), map_one(*r1, u))),
            Instruction::GotoIfFalse(r, t) => Some(Instruction::GotoIfFalse(map_one(*r, u), *t)),
            Instruction::GotoIfTrue(r, t) => Some(Instruction::GotoIfTrue(map_one(*r, u), *t)),
            Instruction::ConditionalGoto(r, t, f) => Some(Instruction::ConditionalGoto(map_one(*r, u), *t, *f)),
            _ => None,
        };
        if let Some(ins) = n {
            *self = ins;
        }
    }
}

} // verus!
