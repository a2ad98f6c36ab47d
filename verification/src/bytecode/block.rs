use vstd::prelude::*;

use super::instructions::{targets, Instruction};

verus! {

/// Whether an instruction ends a basic block.
pub open spec fn is_terminator(ins: Instruction) -> bool {
    ||| ins is ConditionalGoto
    ||| ins is Goto
    ||| ins is GotoIfFalse
    ||| ins is GotoIfTrue
    ||| ins is Return
}

/// Where a terminator jumps: both targets of a conditional jump, the one
/// target of another jump, none after a return.
pub open spec fn terminator_targets(ins: Instruction) -> (Option<u16>, Option<u16>) {
    match ins {
        Instruction::ConditionalGoto(_, t, f) => (Some(t), Some(f)),
        Instruction::Goto(t) => (Some(t), None),
        Instruction::GotoIfFalse(_, t) => (Some(t), None),
        Instruction::GotoIfTrue(_, t) => (Some(t), None),
        _ => (None, None),
    }
}

/// Whether a jump instruction targets block `from`.
pub open spec fn jumps_to(ins: Instruction, from: u16) -> bool {
    match ins {
        Instruction::ConditionalGoto(_, t, f) => t == from || f == from,
        Instruction::Goto(t) => t == from,
        Instruction::GotoIfFalse(_, t) => t == from,
        Instruction::GotoIfTrue(_, t) => t == from,
        _ => false,
    }
}

/// The jump instruction with every target `from` replaced by `to`.
pub open spec fn retarget(ins: Instruction, to: u16, from: u16) -> Instruction {
    let moved = |t: u16| if t == from { to } else { t };
    match ins {
        Instruction::ConditionalGoto(r, t, f) => Instruction::ConditionalGoto(r, moved(t), moved(f)),
        Instruction::Goto(t) => Instruction::Goto(moved(t)),
        Instruction::GotoIfFalse(r, t) => Instruction::GotoIfFalse(r, moved(t)),
        Instruction::GotoIfTrue(r, t) => Instruction::GotoIfTrue(r, moved(t)),
        _ => ins,
    }
}

/// A jump targets block `from` exactly when `from` is one of the blocks it
/// may jump to; retargeting replaces every such target by `to`, keeps the
/// other targets in place, and leaves the jump's register alone.
pub proof fn lemma_retarget_targets(ins: Instruction, to: u16, from: u16)
    ensures
        jumps_to(ins, from) <==> targets(ins).contains(from as u32),
        targets(retarget(ins, to, from)) == targets(ins).map_values(
            |t: u32| if t == from as u32 { to as u32 } else { t },
        ),
        jumps_to(ins, from) && to != from ==> !targets(retarget(ins, to, from)).contains(from as u32),
        !jumps_to(ins, from) ==> retarget(ins, to, from) == ins,
{
    let f = |t: u32| if t == from as u32 { to as u32 } else { t };
    assert(targets(retarget(ins, to, from)) =~= targets(ins).map_values(f));
    match ins {
        Instruction::ConditionalGoto(_, t, e) => {
            assert(targets(ins)[0] == t as u32 && targets(ins)[1] == e as u32);
            let rt = targets(retarget(ins, to, from));
            if jumps_to(ins, from) && to != from {
                if rt.contains(from as u32) {
                    let k = choose|k: int| 0 <= k < rt.len() && rt[k] == from as u32;
                    assert(k == 0 || k == 1);
                }
            }
            if targets(ins).contains(from as u32) {
                let k = choose|k: int| 0 <= k < targets(ins).len() && targets(ins)[k] == from as u32;
                assert(k == 0 || k == 1);
            }
        },
        Instruction::Goto(t) | Instruction::GotoIfFalse(_, t) | Instruction::GotoIfTrue(_, t) => {
            assert(targets(ins)[0] == t as u32);
            let rt = targets(retarget(ins, to, from));
            if jumps_to(ins, from) && to != from {
                if rt.contains(from as u32) {
                    let k = choose|k: int| 0 <= k < rt.len() && rt[k] == from as u32;
                    assert(k == 0);
                }
            }
            if targets(ins).contains(from as u32) {
                let k = choose|k: int| 0 <= k < targets(ins).len() && targets(ins)[k] == from as u32;
                assert(k == 0);
            }
        },
        _ => {},
    }
}

/// A straight-line run of instructions.
#[derive(Clone, Debug)]
pub struct BasicBlock {
    pub instructions: Vec<Instruction>,
}

impl BasicBlock {
    /// Appends `other` to this block in place of this block's last
    /// instruction (the jump into `other`).
    pub fn join(&mut self, other: BasicBlock)
        ensures
            final(self).instructions@ == (if old(self).instructions@.len() == 0 {
                old(self).instructions@
            } else {
                old(self).instructions@.drop_last()
            }) + other.instructions@,
    {
        let _ = self.instructions.pop();
        let ghost start = self.instructions@;
        for ins in it: other.instructions.into_iter()
            invariant
                self.instructions@ == start + it.seq().take(it.index() as int),
                it.seq() == other.instructions@,
        {
            proof {
                assert(it.seq().take(it.index() as int + 1) =~= it.seq().take(it.index() as int).push(ins));
            }
            self.instructions.push(ins);
        }
        proof {
            assert(other.instructions@.take(other.instructions@.len() as int) =~= other.instructions@);
        }
    }

    /// Replaces the jump target `from` of the block's terminator by `to`;
    /// returns whether the terminator jumped to `from`.
    pub fn try_replace_branch_targets(&mut self, to: u16, from: u16) -> (r: bool)
        ensures
            old(self).instructions@.len() == 0 ==> !r && *final(self) == *old(self),
            old(self).instructions@.len() > 0 ==> {
                let last = old(self).instructions@.last();
                let n = old(self).instructions@.len() - 1;
                &&& r == jumps_to(last, from)
                &&& r == targets(last).contains(from as u32)
                &&& r ==> final(self).instructions@ == old(self).instructions@.update(n, retarget(last, to, from))
                &&& r ==> targets(final(self).instructions@.last()) == targets(last).map_values(
                    |t: u32| if t == from as u32 { to as u32 } else { t },
                )
                &&& !r ==> *final(self) == *old(self)
            },
    {
        if self.instructions.len() == 0 {
            return false;
        }
        proof {
            lemma_retarget_targets(self.instructions@.last(), to, from);
        }
        let last = self.instructions.len() - 1;
        let new_ins: Option<Instruction> = match &self.instructions[last] {
            Instruction::ConditionalGoto(r, if_true, if_false) => {
                if *if_true == from || *if_false == from {
                    let t = if *if_true == from { to } else { *if_true };
                    let f = if *if_false == from { to } else { *if_false };
                    Some(Instruction::ConditionalGoto(*r, t, f))
                } else {
                    None
                }
            },
            Instruction::Goto(t) => {
                if *t == from {
                    Some(Instruction::Goto(to))
                } else {
                    None
                }
            },
            Instruction::GotoIfFalse(r, t) => {
                if *t == from {
                    Some(Instruction::GotoIfFalse(*r, to))
                } else {
                    None
                }
            },
            Instruction::GotoIfTrue(r, t) => {
                if *t == from {
                    Some(Instruction::GotoIfTrue(*r, to))
                } else {
                    None
                }
            },
            _ => None,
        };
        match new_ins {
            Some(ins) => {
                self.instructions.set(last, ins);
                true
            },
            None => false,
        }
    }

    /// The jump targets of the block's terminator.
    pub fn branch_targets(&self) -> (r: (Option<u16>, Option<u16>))
        requires
            self.instructions@.len() > 0 ==> is_terminator(self.instructions@.last()),
        ensures
            self.instructions@.len() == 0 ==> r == (None::<u16>, None::<u16>),
            self.instructions@.len() > 0 ==> r == terminator_targets(self.instructions@.last()),
    {
        if self.instructions.len() == 0 {
            return (None, None);
        }
        match &self.instructions[self.instructions.len() - 1] {
            Instruction::ConditionalGoto(_, if_true, if_false) => (Some(*if_true), Some(*if_false)),
            Instruction::Goto(t) | Instruction::GotoIfFalse(_, t) | Instruction::GotoIfTrue(_, t) => (Some(*t), None),
            _ => (None, None),
        }
    }
}

} // verus!
