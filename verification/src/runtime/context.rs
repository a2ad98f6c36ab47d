use vstd::prelude::*;

use std::sync::Arc;

use super::module::Module;
use super::value::{vtag_number, VTag, Value};
use crate::bytecode::block::BasicBlock;

verus! {

/// Where an exception raised in a block is caught: the register that
/// receives the thrown value and the block to jump to.
pub struct CatchEntry {
    pub register: u16,
    pub jump_to: u16,
}

/// The number of registers of a context.
pub const NUM_REGISTERS: usize = 48;

/// The execution state of one function call.
pub struct Context {
    pub ip: usize,
    pub bp: usize,
    pub registers: [Value; 48],
    /// Context stack, used for passing arguments and storing values if there
    /// are not enough registers.
    pub stack: Vec<Value>,
    pub upvalues: Vec<Value>,
    pub this: Value,
    pub return_register: Option<u32>,
    pub terminate_upon_return: bool,
    pub module: Arc<Module>,
    pub code: Option<Arc<Vec<BasicBlock>>>,
    pub parent: Option<Box<Context>>,
    pub function: Value,
}

impl Context {
    /// A fresh context: every register null, no stack, no upvalues, `this`
    /// and the function undefined, a module without globals, no code and
    /// no parent.
    pub fn new() -> (r: Self)
        ensures
            r.ip == 0,
            r.bp == 0,
            forall|i: int| 0 <= i < NUM_REGISTERS ==> r.registers@[i]@ == vtag_number(VTag::Null),
            r.stack@.len() == 0,
            r.upvalues@.len() == 0,
            r.this@ == vtag_number(VTag::Undefined),
            r.function@ == vtag_number(VTag::Undefined),
            r.return_register is None,
            !r.terminate_upon_return,
            r.module.globals is None,
            r.code is None,
            r.parent is None,
    {
        let null = Value::from_tag(VTag::Null);
        let undefined = Value::from_tag(VTag::Undefined);
        Context {
            ip: 0,
            bp: 0,
            registers: [
                null,
                null,
                null,
                null,
                null,
                null,
                null,
                null,
                null,
                null,
                null,
                null,
                null,
                null,
                null,
                null,
                null,
                null,
                null,
                null,
                null,
                null,
                null,
                null,
                null,
                null,
                null,
                null,
                null,
                null,
                null,
                null,
                null,
                null,
                null,
                null,
                null,
                null,
                null,
                null,
                null,
                null,
                null,
                null,
                null,
                null,
                null,
                null,
            ],
            stack: Vec::new(),
            upvalues: Vec::new(),
            this: undefined,
            return_register: None,
            terminate_upon_return: false,
            module: Arc::new(Module::new()),
            code: None,
            parent: None,
            function: undefined,
        }
    }

    pub fn set_register(&mut self, r: u32, value: Value)
        requires
            r < NUM_REGISTERS,
        ensures
            final(self).registers@ == old(self).registers@.update(r as int, value),
            *final(self) == (Context { registers: final(self).registers, ..*old(self) }),
    {
        self.registers.set(r as usize, value);
    }

    pub fn get_register(&self, r: u32) -> (v: Value)
        requires
            r < NUM_REGISTERS,
        ensures
            v == self.registers@[r as int],
    {
        self.registers[r as usize]
    }

    /// Copies register `from` into register `to`.
    pub fn move_(&mut self, to: u32, from: u32)
        requires
            to < NUM_REGISTERS,
            from < NUM_REGISTERS,
        ensures
            final(self).registers@ == old(self).registers@.update(to as int, old(self).registers@[from as int]),
            *final(self) == (Context { registers: final(self).registers, ..*old(self) }),
    {
        let v = self.registers[from as usize];
        self.registers.set(to as usize, v);
    }

    /// Writes register `from` and then the old value of `to` back into `to`:
    /// the context ends as it was.
    pub fn swap_registers(&mut self, to: u32, from: u32)
        requires
            to < NUM_REGISTERS,
            from < NUM_REGISTERS,
        ensures
            final(self).registers@ == old(self).registers@,
            *final(self) == *old(self),
    {
        let tmp = self.get_register(to);
        let from_v = self.get_register(from);
        self.set_register(to, from_v);
        self.set_register(to, tmp);
        proof {
            assert(self.registers@ =~= old(self).registers@);
            assert(self.registers =~= old(self).registers);
        }
    }
}

} // verus!
