use vstd::prelude::*;

use crate::item_set::{ItemMap, SetItem};

verus! {

/// Register classes: the architecture-independent kinds of values a
/// register can hold.
#[derive(PartialEq, Eq, Structural, Debug, Clone, Copy)]
pub enum RegClass {
    I32,
    F32,
    I64,
    F64,
    V128,
}

/// The number of register classes that exist.
/// N.B.: must be <= 7 (fit into 3 bits) for 32-bit VReg/RReg packed format!
pub const NUM_REG_CLASSES: usize = 5;

/// The number of a register class.
pub open spec fn rc_num(rc: RegClass) -> u32 {
    match rc {
        RegClass::I32 => 0,
        RegClass::F32 => 1,
        RegClass::I64 => 2,
        RegClass::F64 => 3,
        RegClass::V128 => 4,
    }
}

/// The register class with a given number.
pub open spec fn rc_of_num(n: u32) -> RegClass
    recommends
        n < 5,
{
    if n == 0 {
        RegClass::I32
    } else if n == 1 {
        RegClass::F32
    } else if n == 2 {
        RegClass::I64
    } else if n == 3 {
        RegClass::F64
    } else {
        RegClass::V128
    }
}

/// The one-letter name of a register class.
pub open spec fn rc_short_name(rc: RegClass) -> Seq<char> {
    match rc {
        RegClass::I32 => "I"@,
        RegClass::I64 => "J"@,
        RegClass::F32 => "F"@,
        RegClass::F64 => "D"@,
        RegClass::V128 => "V"@,
    }
}

impl RegClass {
    /// Convert a register class to a u32 index.
    pub fn rc_to_u32(self) -> (r: u32)
        ensures
            r == rc_num(self),
            r < 5,
    {
        match self {
            RegClass::I32 => 0,
            RegClass::F32 => 1,
            RegClass::I64 => 2,
            RegClass::F64 => 3,
            RegClass::V128 => 4,
        }
    }

    /// Convert a register class to a usize index.
    pub fn rc_to_usize(self) -> (r: usize)
        ensures
            r == rc_num(self),
            r < NUM_REG_CLASSES,
    {
        self.rc_to_u32() as usize
    }

    /// Construct a register class from a u32.
    pub fn rc_from_u32(rc: u32) -> (r: RegClass)
        requires
            rc < 5,
        ensures
            r == rc_of_num(rc),
            rc_num(r) == rc,
    {
        match rc {
            0 => RegClass::I32,
            1 => RegClass::F32,
            2 => RegClass::I64,
            3 => RegClass::F64,
            _ => RegClass::V128,
        }
    }

    pub fn short_name(self) -> (r: &'static str)
        ensures
            r@ == rc_short_name(self),
    {
        match self {
            RegClass::I32 => "I",
            RegClass::I64 => "J",
            RegClass::F32 => "F",
            RegClass::F64 => "D",
            RegClass::V128 => "V",
        }
    }
}

/// Converting a class to its number and back gives the class again.
pub proof fn lemma_rc_num_roundtrip(rc: RegClass)
    ensures
        rc_of_num(rc_num(rc)) == rc,
        rc_num(rc) < 5,
{
}

/// A real or virtual register, packed into 32 bits:
///
/// Virtual Reg:   1  rc:3                index:28
/// Real Reg:      0  rc:3  uu:12  enc:8  index:8
///
/// `rc` is the register class, `enc` the hardware encoding of a real
/// register, and `index` the virtual register number or the position of a
/// real register in its `RealRegUniverse`.
#[derive(PartialEq, Eq, Structural, Hash, PartialOrd, Ord)]
pub struct Reg {
    do_not_access_this_directly: u32,
}

impl Clone for Reg {
    fn clone(&self) -> (r: Self)
        ensures
            r == *self,
    {
        *self
    }
}

impl Copy for Reg {

}

impl Reg {
    #[verifier::type_invariant]
    spec fn inv(self) -> bool {
        (self.do_not_access_this_directly >> 28u32) & 7u32 < 5
    }

    /// The packed representation.
    pub closed spec fn bits(self) -> u32 {
        self.do_not_access_this_directly
    }

    pub open spec fn virt(self) -> bool {
        self.bits() & 0x8000_0000u32 != 0
    }

    pub open spec fn class_bits(self) -> u32 {
        (self.bits() >> 28u32) & 7u32
    }

    pub open spec fn class(self) -> RegClass {
        rc_of_num(self.class_bits())
    }

    pub open spec fn index(self) -> u32 {
        if self.virt() {
            self.bits() & 0x0fff_ffffu32
        } else {
            self.bits() & 0xffu32
        }
    }

    pub open spec fn enc(self) -> u32 {
        (self.bits() >> 8u32) & 0xffu32
    }


    /// The virtual register of class `rc` with number `index`.
    pub closed spec fn virtual_reg(rc: RegClass, index: u32) -> Reg {
        Reg { do_not_access_this_directly: (0x8000_0000 + rc_num(rc) * 0x1000_0000 + index) as u32 }
    }

    /// The real register of class `rc` with encoding `enc` and number `index`.
    pub closed spec fn real_reg(rc: RegClass, enc: u8, index: u8) -> Reg {
        Reg { do_not_access_this_directly: (rc_num(rc) * 0x1000_0000 + enc * 0x100 + index) as u32 }
    }

    /// Registers with the same packed representation are the same register.
    pub proof fn lemma_bits_injective(a: Reg, b: Reg)
        ensures
            a.bits() == b.bits() ==> a == b,
    {
    }

    pub fn is_virtual(self) -> (r: bool)
        ensures
            r == self.virt(),
    {
        (self.do_not_access_this_directly & 0x8000_0000) != 0
    }

    pub fn is_real(self) -> (r: bool)
        ensures
            r == !self.virt(),
    {
        !self.is_virtual()
    }

    pub fn new_real(rc: RegClass, enc: u8, index: u8) -> (r: Self)
        ensures
            !r.virt(),
            r.class() == rc,
            r.enc() == enc,
            r.index() == index,
            r.bits() == rc_num(rc) * 0x1000_0000 + enc * 0x100 + index,
            r == Reg::real_reg(rc, enc, index),
    {
        let c = rc.rc_to_u32();
        let e = enc as u32;
        let i = index as u32;
        let n = (0 << 31) | (c << 28) | (e << 8) | (i << 0);
        proof {
            assert(n == c * 0x1000_0000 + e * 0x100 + i && n & 0x8000_0000u32 == 0 && (n >> 28u32)
                & 7u32 == c && (n >> 8u32) & 0xffu32 == e && n & 0xffu32 == i) by (bit_vector)
                requires
                    c < 5,
                    e < 256,
                    i < 256,
                    n == (0u32 << 31u32) | (c << 28u32) | (e << 8u32) | (i << 0u32),
            ;
        }
        Reg { do_not_access_this_directly: n }
    }

    pub fn new_virtual(rc: RegClass, index: u32) -> (r: Self)
        requires
            index < 0x1000_0000,
        ensures
            r.virt(),
            r.class() == rc,
            r.index() == index,
            r.bits() == 0x8000_0000 + rc_num(rc) * 0x1000_0000 + index,
            r == Reg::virtual_reg(rc, index),
    {
        let c = rc.rc_to_u32();
        let n = (1 << 31) | (c << 28) | (index << 0);
        proof {
            assert(n == 0x8000_0000 + c * 0x1000_0000 + index && n & 0x8000_0000u32 != 0 && (n
                >> 28u32) & 7u32 == c && n & 0x0fff_ffffu32 == index) by (bit_vector)
                requires
                    c < 5,
                    index < 0x1000_0000,
                    n == (1u32 << 31u32) | (c << 28u32) | (index << 0u32),
            ;
        }
        Reg { do_not_access_this_directly: n }
    }

    pub fn get_class(self) -> (r: RegClass)
        ensures
            r == self.class(),
            rc_num(r) == self.class_bits(),
    {
        proof {
            use_type_invariant(self);
        }
        RegClass::rc_from_u32((self.do_not_access_this_directly >> 28) & 0x7)
    }

    pub fn get_index(self) -> (r: usize)
        ensures
            r == self.index(),
    {
        proof {
            assert((1u32 << 28u32) == 0x1000_0000u32 && (1u32 << 8u32) == 0x100u32) by (bit_vector);
        }
        if self.is_virtual() {
            (self.do_not_access_this_directly & ((1 << 28) - 1)) as usize
        } else {
            (self.do_not_access_this_directly & ((1 << 8) - 1)) as usize
        }
    }

    /// The hardware encoding of a real register.
    pub fn get_hw_encoding(self) -> (r: u8)
        requires
            !self.virt(),
        ensures
            r == self.enc(),
    {
        proof {
            assert((1u32 << 8u32) == 0x100u32) by (bit_vector);
        }
        let e = (self.do_not_access_this_directly >> 8) & ((1 << 8) - 1);
        proof {
            let b = self.do_not_access_this_directly;
            assert((b >> 8u32) & 0xffu32 < 256) by (bit_vector);
        }
        e as u8
    }

    pub fn as_virtual_reg(self) -> (r: Option<VirtualReg>)
        ensures
            self.virt() ==> r == Some(VirtualReg::of(self)),
            !self.virt() ==> r is None,
    {
        if self.is_virtual() {
            Some(VirtualReg { reg: self })
        } else {
            None
        }
    }

    pub fn to_real_reg(self) -> (r: RealReg)
        requires
            !self.virt(),
        ensures
            r@ == self,
            r == RealReg::of(self),
    {
        RealReg { reg: self }
    }

    pub fn to_virtual_reg(self) -> (r: VirtualReg)
        requires
            self.virt(),
        ensures
            r@ == self,
            r == VirtualReg::of(self),
    {
        VirtualReg { reg: self }
    }
}

/// A register known to be real.
#[derive(PartialEq, Eq, Structural, PartialOrd, Ord, Hash)]
pub struct RealReg {
    reg: Reg,
}

impl Clone for RealReg {
    fn clone(&self) -> (r: Self)
        ensures
            r == *self,
    {
        *self
    }
}

impl Copy for RealReg {

}

impl RealReg {
    #[verifier::type_invariant]
    spec fn inv(self) -> bool {
        !self.reg.virt()
    }

    /// The wrapped register.
    pub closed spec fn view(self) -> Reg {
        self.reg
    }


    /// The real register wrapping `reg`.
    pub closed spec fn of(reg: Reg) -> RealReg {
        RealReg { reg }
    }

    /// Wrapping a register and unwrapping it gives the register back.
    pub proof fn lemma_of_view(reg: Reg)
        ensures
            RealReg::of(reg)@ == reg,
    {
    }

    /// Real registers wrapping the same register are equal.
    pub proof fn lemma_view_injective(a: RealReg, b: RealReg)
        ensures
            a@ == b@ ==> a == b,
    {
    }

    pub fn get_class(self) -> (r: RegClass)
        ensures
            r == self@.class(),
    {
        self.reg.get_class()
    }

    pub fn get_index(self) -> (r: usize)
        ensures
            r == self@.index(),
    {
        self.reg.get_index()
    }

    pub fn get_hw_encoding(self) -> (r: usize)
        ensures
            r == self@.enc(),
    {
        proof {
            use_type_invariant(self);
        }
        self.reg.get_hw_encoding() as usize
    }

    pub fn to_reg(self) -> (r: Reg)
        ensures
            r == self@,
            !r.virt(),
    {
        proof {
            use_type_invariant(self);
        }
        self.reg
    }
}

/// A register known to be virtual.
#[derive(Hash, PartialEq, Eq, Structural, PartialOrd)]
pub struct VirtualReg {
    reg: Reg,
}

impl Clone for VirtualReg {
    fn clone(&self) -> (r: Self)
        ensures
            r == *self,
    {
        *self
    }
}

impl Copy for VirtualReg {

}

impl VirtualReg {
    #[verifier::type_invariant]
    spec fn inv(self) -> bool {
        self.reg.virt()
    }

    /// The wrapped register.
    pub closed spec fn view(self) -> Reg {
        self.reg
    }


    /// The virtual register wrapping `reg`.
    pub closed spec fn of(reg: Reg) -> VirtualReg {
        VirtualReg { reg }
    }

    /// Wrapping a register and unwrapping it gives the register back.
    pub proof fn lemma_of_view(reg: Reg)
        ensures
            VirtualReg::of(reg)@ == reg,
    {
    }

    /// Virtual registers wrapping the same register are equal.
    pub proof fn lemma_view_injective(a: VirtualReg, b: VirtualReg)
        ensures
            a@ == b@ ==> a == b,
    {
    }

    pub fn get_class(self) -> (r: RegClass)
        ensures
            r == self@.class(),
    {
        self.reg.get_class()
    }

    pub fn get_index(self) -> (r: usize)
        ensures
            r == self@.index(),
    {
        self.reg.get_index()
    }

    pub fn to_reg(self) -> (r: Reg)
        ensures
            r == self@,
            r.virt(),
    {
        proof {
            use_type_invariant(self);
        }
        self.reg
    }
}

impl Reg {
    /// Applies a vreg-to-rreg mapping to this register, for a register used
    /// in a read or a write role.  Real registers are left alone.
    pub fn apply_defs_or_uses(&mut self, map: &ItemMap<VirtualReg, RealReg>)
        requires
            old(self).virt() ==> map@.contains_key(VirtualReg::of(*old(self))),
        ensures
            old(self).virt() ==> *final(self) == map@[VirtualReg::of(*old(self))]@,
            !old(self).virt() ==> *final(self) == *old(self),
    {
        if let Some(vreg) = self.as_virtual_reg() {
            match map.get(&vreg) {
                Some(rreg) => {
                    *self = rreg.to_reg();
                },
                None => {
                    proof {
                        assert(false);
                    }
                },
            }
        }
    }

    /// Applies a pair of vreg-to-rreg mappings to this register, for a
    /// register used in a modify role.  The two mappings must agree on it.
    pub fn apply_mods(&mut self, map_defs: &ItemMap<VirtualReg, RealReg>, map_uses: &ItemMap<VirtualReg, RealReg>)
        requires
            old(self).virt() ==> {
                let v = VirtualReg::of(*old(self));
                &&& map_defs@.contains_key(v)
                &&& map_uses@.contains_key(v)
                &&& map_defs@[v] == map_uses@[v]
            },
        ensures
            old(self).virt() ==> *final(self) == map_defs@[VirtualReg::of(*old(self))]@,
            !old(self).virt() ==> *final(self) == *old(self),
    {
        if let Some(vreg) = self.as_virtual_reg() {
            let mb_result_def = map_defs.get(&vreg);
            let mb_result_use = map_uses.get(&vreg);
            let same = match (mb_result_def, mb_result_use) {
                (Some(d), Some(u)) => d.key_of() == u.key_of(),
                (None, None) => true,
                _ => false,
            };
            if !same {
                proof {
                    assert(false);
                }
            }
            match mb_result_def {
                Some(rreg) => {
                    *self = rreg.to_reg();
                },
                None => {
                    proof {
                        assert(false);
                    }
                },
            }
        }
    }
}

impl SetItem for Reg {
    open spec fn key(&self) -> u32 {
        self.bits()
    }

    proof fn lemma_key_injective(a: Self, b: Self) {
    }

    fn key_of(&self) -> (r: u32) {
        self.do_not_access_this_directly
    }
}

impl SetItem for RealReg {
    open spec fn key(&self) -> u32 {
        self@.bits()
    }

    proof fn lemma_key_injective(a: Self, b: Self) {
    }

    fn key_of(&self) -> (r: u32) {
        self.reg.do_not_access_this_directly
    }
}

impl SetItem for VirtualReg {
    open spec fn key(&self) -> u32 {
        self@.bits()
    }

    proof fn lemma_key_injective(a: Self, b: Self) {
    }

    fn key_of(&self) -> (r: u32) {
        self.reg.do_not_access_this_directly
    }
}

/// A stack slot used for spilling.
#[derive(Copy, Clone)]
pub enum SpillSlot {
    SpillSlot(u32),
}

impl SpillSlot {
    /// The slot number.
    pub open spec fn view(self) -> u32 {
        match self {
            SpillSlot::SpillSlot(n) => n,
        }
    }

    pub fn new(n: u32) -> (r: Self)
        ensures
            r@ == n,
    {
        SpillSlot::SpillSlot(n)
    }

    pub fn get(self) -> (r: u32)
        ensures
            r == self@,
    {
        match self {
            SpillSlot::SpillSlot(n) => n,
        }
    }

    pub fn get_usize(self) -> (r: usize)
        ensures
            r == self@,
    {
        self.get() as usize
    }

    /// The smallest multiple of `num_slots` that is at least this slot.
    pub fn round_up(self, num_slots: u32) -> (r: SpillSlot)
        requires
            num_slots > 0,
            self@ + num_slots <= u32::MAX,
        ensures
            r@ == (self@ + num_slots - 1) / (num_slots as int) * num_slots,
            r@ % num_slots == 0,
            self@ <= r@ < self@ + num_slots,
    {
        let s = self.get();
        let t = (s + num_slots - 1) / num_slots;
        proof {
            assert(t * num_slots <= s + num_slots - 1) by (nonlinear_arith)
                requires
                    t == (s + num_slots - 1) / (num_slots as int),
                    num_slots > 0,
                    s + num_slots - 1 >= 0,
            ;
            assert(t * num_slots > s - 1) by (nonlinear_arith)
                requires
                    t == (s + num_slots - 1) / (num_slots as int),
                    num_slots > 0,
                    s + num_slots - 1 >= 0,
            ;
            assert((t * num_slots) % (num_slots as int) == 0) by (nonlinear_arith)
                requires
                    num_slots > 0,
            ;
        }
        SpillSlot::new(t * num_slots)
    }

    /// The slot `num_slots` further on.
    pub fn inc(self, num_slots: u32) -> (r: SpillSlot)
        requires
            self@ + num_slots <= u32::MAX,
        ensures
            r@ == self@ + num_slots,
    {
        SpillSlot::new(self.get() + num_slots)
    }
}

} // verus!
