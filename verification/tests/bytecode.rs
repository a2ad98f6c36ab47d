use jlight::bytecode::block::BasicBlock;
use jlight::bytecode::instructions::Instruction;
use jlight::item_set::ItemMap;
use jlight::regs::{RealReg, Reg, RegClass, VirtualReg};

fn vreg(n: u32) -> Reg {
    Reg::new_virtual(RegClass::I64, n)
}

#[test]
fn jump_targets() {
    let t: Vec<u32> = Instruction::ConditionalGoto(1, 4, 9).get_targets().iter().map(|b| b.get()).collect();
    assert_eq!(t, vec![4, 9]);
    let t: Vec<u32> = Instruction::Goto(3).get_targets().iter().map(|b| b.get()).collect();
    assert_eq!(t, vec![3]);
    let t: Vec<u32> = Instruction::GotoIfTrue(0, 6).get_targets().iter().map(|b| b.get()).collect();
    assert_eq!(t, vec![6]);
    assert!(Instruction::Add(1, 2, 3).get_targets().is_empty());
}

#[test]
fn register_usage_of_arithmetic() {
    let (def, m0d, uce) = Instruction::Add(1, 2, 3).get_reg_usage(false);
    assert_eq!(def.card(), 1);
    assert!(def.contains(vreg(1)));
    assert!(m0d.is_empty());
    assert_eq!(uce.card(), 2);
    assert!(uce.contains(vreg(2)) && uce.contains(vreg(3)));
}

#[test]
fn register_usage_of_store_and_make_env() {
    let (def, m0d, uce) = Instruction::Store(4, 5, 5).get_reg_usage(false);
    assert!(def.is_empty());
    assert!(m0d.contains(vreg(4)) && m0d.card() == 1);
    assert!(uce.contains(vreg(5)) && uce.card() == 1);
    let (def, m0d, uce) = Instruction::MakeEnv(7, 0).get_reg_usage(false);
    assert!(def.is_empty() && uce.is_empty());
    assert!(m0d.contains(vreg(7)));
    let (def, _, _) = Instruction::StoreU(8, 1).get_reg_usage(false);
    assert!(def.contains(vreg(8)));
    let (def, m0d, uce) = Instruction::Safepoint.get_reg_usage(false);
    assert!(def.is_empty() && m0d.is_empty() && uce.is_empty());
}

#[test]
fn register_usage_after_allocation() {
    let (def, _, uce) = Instruction::Move(3, 300).get_reg_usage(true);
    assert!(def.contains(Reg::new_real(RegClass::I64, 1, 3)));
    // The index field of a real register holds 8 bits.
    assert!(uce.contains(Reg::new_real(RegClass::I64, 1, 44)));
}

fn rreg(index: u8) -> RealReg {
    Reg::new_real(RegClass::I64, 0, index).to_real_reg()
}

#[test]
fn mapping_registers() {
    let mut defs: ItemMap<VirtualReg, RealReg> = ItemMap::new();
    let mut uses: ItemMap<VirtualReg, RealReg> = ItemMap::new();
    defs.insert(vreg(1).to_virtual_reg(), rreg(10));
    uses.insert(vreg(2).to_virtual_reg(), rreg(20));
    uses.insert(vreg(3).to_virtual_reg(), rreg(30));
    let mut ins = Instruction::Add(1, 2, 3);
    ins.map_regs_d_u(&defs, &uses);
    assert!(matches!(ins, Instruction::Add(10, 20, 30)));
    let mut st = Instruction::Store(2, 3, 2);
    st.map_regs_d_u(&defs, &uses);
    assert!(matches!(st, Instruction::Store(20, 30, 20)));
    let mut br = Instruction::ConditionalGoto(2, 5, 6);
    br.map_regs_d_u(&defs, &uses);
    assert!(matches!(br, Instruction::ConditionalGoto(20, 5, 6)));
    let mut sp = Instruction::Safepoint;
    sp.map_regs_d_u(&defs, &uses);
    assert!(matches!(sp, Instruction::Safepoint));
}

#[test]
fn join_replaces_the_jump() {
    let mut a = BasicBlock { instructions: vec![Instruction::LoadInt(0, 1), Instruction::Goto(1)] };
    let b = BasicBlock { instructions: vec![Instruction::Push(0), Instruction::Return(None)] };
    a.join(b);
    assert_eq!(a.instructions.len(), 3);
    assert!(matches!(a.instructions[0], Instruction::LoadInt(0, 1)));
    assert!(matches!(a.instructions[1], Instruction::Push(0)));
    assert!(matches!(a.instructions[2], Instruction::Return(None)));
}

#[test]
fn retargeting_branches() {
    let mut b = BasicBlock { instructions: vec![Instruction::ConditionalGoto(0, 2, 3)] };
    assert!(b.try_replace_branch_targets(7, 3));
    assert!(matches!(b.instructions[0], Instruction::ConditionalGoto(0, 2, 7)));
    assert!(!b.try_replace_branch_targets(8, 5));
    assert!(matches!(b.instructions[0], Instruction::ConditionalGoto(0, 2, 7)));
    let mut g = BasicBlock { instructions: vec![Instruction::GotoIfFalse(1, 4)] };
    assert!(g.try_replace_branch_targets(9, 4));
    assert_eq!(g.branch_targets(), (Some(9), None));
    let mut e = BasicBlock { instructions: vec![] };
    assert!(!e.try_replace_branch_targets(1, 2));
    let mut r = BasicBlock { instructions: vec![Instruction::Return(Some(0))] };
    assert!(!r.try_replace_branch_targets(1, 2));
}

#[test]
fn branch_targets_of_terminators() {
    let c = BasicBlock { instructions: vec![Instruction::Move(0, 1), Instruction::ConditionalGoto(0, 1, 2)] };
    assert_eq!(c.branch_targets(), (Some(1), Some(2)));
    let g = BasicBlock { instructions: vec![Instruction::Goto(5)] };
    assert_eq!(g.branch_targets(), (Some(5), None));
    let r = BasicBlock { instructions: vec![Instruction::Return(None)] };
    assert_eq!(r.branch_targets(), (None, None));
    let e = BasicBlock { instructions: vec![] };
    assert_eq!(e.branch_targets(), (None, None));
}
