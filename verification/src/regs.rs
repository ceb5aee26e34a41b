//! Processor contexts of a stopped thread and the debug registers in them.
//!
//! A context holds the registers the debugger itself works with; the host keeps
//! the others. The wide context belongs to a native thread, the narrow one to
//! the 32-bit side of a thread that runs under emulation.
use vstd::prelude::*;

verus! {

/// Trap flag: the processor stops after one instruction.
pub const EFLAGS_TF: u32 = 0x100;

/// Resume flag: breakpoints in the debug registers are ignored once.
pub const EFLAGS_RF: u32 = 0x10000;

/// Bits of the debug control register that switch a slot on for this thread.
pub const L0: u32 = 0;

pub const L1: u32 = 2;

pub const L2: u32 = 4;

/// The last slot is switched by the bit next to that of the slot before it.
pub const L3: u32 = 5;

/// Bit of the debug control register that asks for exact local breakpoints.
pub const L_ENABLE: u32 = 8;

/// Lowest bit of the two-bit field that holds a slot's access kind.
pub const RW0: u32 = 16;

pub const RW1: u32 = 20;

pub const RW2: u32 = 24;

pub const RW3: u32 = 28;

/// Lowest bit of the two-bit field that holds a slot's length.
pub const LEN0: u32 = 18;

pub const LEN1: u32 = 22;

pub const LEN2: u32 = 26;

pub const LEN3: u32 = 30;

/// Bit of a slot's local switch; every index past two names the last slot.
pub open spec fn local_bit(idx: usize) -> u32 {
    if idx == 0 {
        L0
    } else if idx == 1 {
        L1
    } else if idx == 2 {
        L2
    } else {
        L3
    }
}

/// Lowest bit of a slot's access field.
pub open spec fn rw_bit(idx: usize) -> u32 {
    if idx == 0 {
        RW0
    } else if idx == 1 {
        RW1
    } else if idx == 2 {
        RW2
    } else {
        RW3
    }
}

/// Lowest bit of a slot's length field.
pub open spec fn len_bit(idx: usize) -> u32 {
    if idx == 0 {
        LEN0
    } else if idx == 1 {
        LEN1
    } else if idx == 2 {
        LEN2
    } else {
        LEN3
    }
}

fn local_bit_of(idx: usize) -> (x: u32)
    ensures
        x == local_bit(idx),
        x <= L3,
{
    match idx {
        0 => L0,
        1 => L1,
        2 => L2,
        _ => L3,
    }
}

fn rw_bit_of(idx: usize) -> (x: u32)
    ensures
        x == rw_bit(idx),
        x <= RW3,
{
    match idx {
        0 => RW0,
        1 => RW1,
        2 => RW2,
        _ => RW3,
    }
}

fn len_bit_of(idx: usize) -> (x: u32)
    ensures
        x == len_bit(idx),
        x <= LEN3,
{
    match idx {
        0 => LEN0,
        1 => LEN1,
        2 => LEN2,
        _ => LEN3,
    }
}

/// Whether bit `x` is set in a wide register.
pub open spec fn has_bit(n: u64, x: u32) -> bool {
    n & (1u64 << x) > 0
}

/// A wide register with bit `x` switched.
pub open spec fn put_bit(n: u64, x: u32, set: bool) -> u64 {
    if set {
        n | (1u64 << x)
    } else {
        n & !(1u64 << x)
    }
}

/// A wide register whose two bits from `x` up are cleared and `v` is laid over them.
pub open spec fn put_field(n: u64, x: u32, v: u64) -> u64 {
    (n & !(0b11u64 << x)) | (v << x)
}

/// The two bits from `x` up.
pub open spec fn field(n: u64, x: u32) -> u64 {
    (n >> x) & 0b11u64
}

/// Whether bit `x` is set in a narrow register.
pub open spec fn has_bit32(n: u32, x: u32) -> bool {
    n & (1u32 << x) > 0
}

/// A narrow register with bit `x` switched.
pub open spec fn put_bit32(n: u32, x: u32, set: bool) -> u32 {
    if set {
        n | (1u32 << x)
    } else {
        n & !(1u32 << x)
    }
}

/// A narrow register whose two bits from `x` up are cleared and `v` is laid over them.
pub open spec fn put_field32(n: u32, x: u32, v: u32) -> u32 {
    (n & !(0b11u32 << x)) | (v << x)
}

/// The two bits from `x` up.
pub open spec fn field32(n: u32, x: u32) -> u32 {
    (n >> x) & 0b11u32
}

/// Flags with the trap flag switched.
pub open spec fn step_flags(flags: u32, step: bool) -> u32 {
    if step {
        flags | EFLAGS_TF
    } else {
        flags & !EFLAGS_TF
    }
}

/// The context in which slot `idx` watches `address`.
pub open spec fn with_bp<C: HWBPRegs>(cx: C, address: usize, idx: usize, rw: u8, len: u8) -> C {
    cx.with_l_enable(true).with_local(idx, true).with_rw(idx, rw).with_len(idx, len).with_address(
        idx,
        address,
    )
}

/// The context in which slot `idx` watches nothing; exact breakpoints go off
/// with the last slot.
pub open spec fn without_bp<C: HWBPRegs>(cx: C, idx: usize) -> C {
    let cleared = cx.with_local(idx, false).with_rw(idx, 0).with_len(idx, 0).with_address(idx, 0);
    if cleared.no_slot() {
        cleared.with_l_enable(false)
    } else {
        cleared
    }
}

/// Marks a type that stands for a debug register.
pub trait DbgReg {

}

/// Registers through which a thread is stepped and its hardware breakpoints are set.
pub trait HWBPRegs: Sized {
    /// The flags register.
    spec fn flags(self) -> u32;

    /// The context with the trap flag switched.
    spec fn with_step(self, step: bool) -> Self;

    /// The context with the resume flag set.
    spec fn with_rf(self) -> Self;

    /// The context with exact local breakpoints switched.
    spec fn with_l_enable(self, enable: bool) -> Self;

    /// The context with a slot's local switch set or cleared.
    spec fn with_local(self, idx: usize, set: bool) -> Self;

    /// The context with a slot's access field written.
    spec fn with_rw(self, idx: usize, val: u8) -> Self;

    /// The context with a slot's length field written.
    spec fn with_len(self, idx: usize, val: u8) -> Self;

    /// The context with a slot's address written.
    spec fn with_address(self, idx: usize, address: usize) -> Self;

    /// Whether no slot is switched on.
    spec fn no_slot(self) -> bool;

    /// The debug status register.
    spec fn status(self) -> usize;

    /// The instruction pointer.
    spec fn pc(self) -> usize;

    /// The context with another instruction pointer.
    spec fn with_pc(self, pc: usize) -> Self;

    fn set_step(&mut self, step: bool)
        ensures
            *final(self) == old(self).with_step(step),
    ;

    fn set_rf(&mut self)
        ensures
            *final(self) == old(self).with_rf(),
    ;

    fn test_eflags(&self, flag: u32) -> (r: bool)
        ensures
            r == (self.flags() & flag > 0),
    ;

    fn l_enable(&mut self, enable: bool)
        ensures
            *final(self) == old(self).with_l_enable(enable),
    ;

    fn set_local(&mut self, idx: usize, set: bool)
        ensures
            *final(self) == old(self).with_local(idx, set),
    ;

    fn set_rw(&mut self, idx: usize, val: u8)
        ensures
            *final(self) == old(self).with_rw(idx, val),
    ;

    fn set_len(&mut self, idx: usize, val: u8)
        ensures
            *final(self) == old(self).with_len(idx, val),
    ;

    fn set_address(&mut self, idx: usize, address: usize)
        ensures
            *final(self) == old(self).with_address(idx, address),
    ;

    fn empty(&self) -> (r: bool)
        ensures
            r == self.no_slot(),
    ;

    fn dr6(&self) -> (r: usize)
        ensures
            r == self.status(),
    ;

    fn ip(&self) -> (r: usize)
        ensures
            r == self.pc(),
    ;

    fn set_ip(&mut self, pc: usize)
        ensures
            *final(self) == old(self).with_pc(pc),
    ;

    fn set_bp(&mut self, address: usize, idx: usize, rw: u8, len: u8)
        ensures
            *final(self) == old(self).with_l_enable(true).with_local(idx, true).with_rw(
                idx,
                rw,
            ).with_len(idx, len).with_address(idx, address),
    {
        self.l_enable(true);
        self.set_local(idx, true);
        self.set_rw(idx, rw);
        self.set_len(idx, len);
        self.set_address(idx, address);
    }

    fn unset_bp(&mut self, idx: usize)
        ensures
            *final(self) == ({
                let cleared = old(self).with_local(idx, false).with_rw(idx, 0).with_len(
                    idx,
                    0,
                ).with_address(idx, 0);
                if cleared.no_slot() {
                    cleared.with_l_enable(false)
                } else {
                    cleared
                }
            }),
    {
        self.set_local(idx, false);
        self.set_rw(idx, 0);
        self.set_len(idx, 0);
        self.set_address(idx, 0);
        if self.empty() {
            self.l_enable(false);
        }
    }
}

/// A context whose width is known.
pub trait DbgContext: HWBPRegs {
    /// The instruction pointer as a signed number of the context's width.
    spec fn signed_pc(self) -> isize;

    fn signed_ip(&self) -> (r: isize)
        ensures
            r == self.signed_pc(),
    ;
}

/// Registers of a native thread.
#[derive(Clone, Copy, Debug, PartialEq, Eq, Structural)]
pub struct Context64 {
    pub seg_cs: u16,
    pub eflags: u32,
    pub dr0: u64,
    pub dr1: u64,
    pub dr2: u64,
    pub dr3: u64,
    pub dr6: u64,
    pub dr7: u64,
    pub rip: u64,
}

/// Registers of the 32-bit side of a thread.
#[derive(Clone, Copy, Debug, PartialEq, Eq, Structural)]
pub struct Context32 {
    pub eflags: u32,
    pub dr0: u32,
    pub dr1: u32,
    pub dr2: u32,
    pub dr3: u32,
    pub dr6: u32,
    pub dr7: u32,
    pub eip: u32,
}

impl Context64 {
    /// A context with every register zero.
    pub fn zeroed() -> (cx: Context64)
        ensures
            cx == Self::zero(),
    {
        Context64 {
            seg_cs: 0,
            eflags: 0,
            dr0: 0,
            dr1: 0,
            dr2: 0,
            dr3: 0,
            dr6: 0,
            dr7: 0,
            rip: 0,
        }
    }

    /// The context with every register zero.
    pub open spec fn zero() -> Context64 {
        Context64 {
            seg_cs: 0,
            eflags: 0,
            dr0: 0,
            dr1: 0,
            dr2: 0,
            dr3: 0,
            dr6: 0,
            dr7: 0,
            rip: 0,
        }
    }

    /// Address that slot `idx` watches.
    pub open spec fn slot_address(self, idx: usize) -> u64 {
        if idx == 0 {
            self.dr0
        } else if idx == 1 {
            self.dr1
        } else if idx == 2 {
            self.dr2
        } else {
            self.dr3
        }
    }
}

impl Context32 {
    /// A context with every register zero.
    pub fn zeroed() -> (cx: Context32)
        ensures
            cx == Self::zero(),
    {
        Context32 { eflags: 0, dr0: 0, dr1: 0, dr2: 0, dr3: 0, dr6: 0, dr7: 0, eip: 0 }
    }

    /// The context with every register zero.
    pub open spec fn zero() -> Context32 {
        Context32 { eflags: 0, dr0: 0, dr1: 0, dr2: 0, dr3: 0, dr6: 0, dr7: 0, eip: 0 }
    }

    /// Address that slot `idx` watches.
    pub open spec fn slot_address(self, idx: usize) -> u32 {
        if idx == 0 {
            self.dr0
        } else if idx == 1 {
            self.dr1
        } else if idx == 2 {
            self.dr2
        } else {
            self.dr3
        }
    }
}

impl HWBPRegs for Context64 {
    open spec fn flags(self) -> u32 {
        self.eflags
    }

    open spec fn with_step(self, step: bool) -> Self {
        Context64 { eflags: step_flags(self.eflags, step), ..self }
    }

    open spec fn with_rf(self) -> Self {
        Context64 { eflags: self.eflags | EFLAGS_RF, ..self }
    }

    open spec fn with_l_enable(self, enable: bool) -> Self {
        Context64 { dr7: put_bit(self.dr7, L_ENABLE, enable), ..self }
    }

    open spec fn with_local(self, idx: usize, set: bool) -> Self {
        Context64 { dr7: put_bit(self.dr7, local_bit(idx), set), ..self }
    }

    open spec fn with_rw(self, idx: usize, val: u8) -> Self {
        Context64 { dr7: put_field(self.dr7, rw_bit(idx), val as u64), ..self }
    }

    open spec fn with_len(self, idx: usize, val: u8) -> Self {
        Context64 { dr7: put_field(self.dr7, len_bit(idx), val as u64), ..self }
    }

    open spec fn with_address(self, idx: usize, address: usize) -> Self {
        if idx == 0 {
            Context64 { dr0: address as u64, ..self }
        } else if idx == 1 {
            Context64 { dr1: address as u64, ..self }
        } else if idx == 2 {
            Context64 { dr2: address as u64, ..self }
        } else {
            Context64 { dr3: address as u64, ..self }
        }
    }

    open spec fn no_slot(self) -> bool {
        !has_bit(self.dr7, L0) && !has_bit(self.dr7, L1) && !has_bit(self.dr7, L2) && !has_bit(
            self.dr7,
            L3,
        )
    }

    open spec fn status(self) -> usize {
        self.dr6 as usize
    }

    open spec fn pc(self) -> usize {
        self.rip as usize
    }

    open spec fn with_pc(self, pc: usize) -> Self {
        Context64 { rip: pc as u64, ..self }
    }

    fn set_step(&mut self, step: bool) {
        let flags: u32 = self.eflags;
        self.eflags =
        if step {
            flags | EFLAGS_TF
        } else {
            flags & (!EFLAGS_TF)
        };
    }

    fn set_rf(&mut self) {
        self.eflags = self.eflags | EFLAGS_RF;
    }

    fn test_eflags(&self, flag: u32) -> (r: bool) {
        self.eflags & flag > 0
    }

    fn l_enable(&mut self, enable: bool) {
        if enable {
            self.dr7 = self.dr7 | (1u64 << L_ENABLE);
        } else {
            self.dr7 = self.dr7 & !(1u64 << L_ENABLE);
        }
    }

    fn set_local(&mut self, idx: usize, set: bool) {
        let x: u32 = local_bit_of(idx);
        if set {
            self.dr7 = self.dr7 | (1u64 << x);
        } else {
            self.dr7 = self.dr7 & !(1u64 << x);
        }
    }

    fn set_rw(&mut self, idx: usize, val: u8) {
        let x: u32 = rw_bit_of(idx);
        self.dr7 = (self.dr7 & !(0b11u64 << x)) | ((val as u64) << x);
    }

    fn set_len(&mut self, idx: usize, val: u8) {
        let x: u32 = len_bit_of(idx);
        self.dr7 = (self.dr7 & !(0b11u64 << x)) | ((val as u64) << x);
    }

    fn set_address(&mut self, idx: usize, address: usize) {
        let address: u64 = address as u64;
        match idx {
            0 => self.dr0 = address,
            1 => self.dr1 = address,
            2 => self.dr2 = address,
            _ => self.dr3 = address,
        }
    }

    fn empty(&self) -> (r: bool) {
        let n: u64 = self.dr7;
        !(n & (1u64 << L0) > 0) && !(n & (1u64 << L1) > 0) && !(n & (1u64 << L2) > 0) && !(n & (
        1u64 << L3) > 0)
    }

    fn dr6(&self) -> (r: usize) {
        self.dr6 as usize
    }

    fn ip(&self) -> (r: usize) {
        self.rip as usize
    }

    fn set_ip(&mut self, pc: usize) {
        self.rip = pc as u64;
    }
}

impl DbgContext for Context64 {
    open spec fn signed_pc(self) -> isize {
        (self.rip as usize) as isize
    }

    fn signed_ip(&self) -> (r: isize) {
        (self.rip as usize) as isize
    }
}

impl HWBPRegs for Context32 {
    open spec fn flags(self) -> u32 {
        self.eflags
    }

    open spec fn with_step(self, step: bool) -> Self {
        Context32 { eflags: step_flags(self.eflags, step), ..self }
    }

    open spec fn with_rf(self) -> Self {
        Context32 { eflags: self.eflags | EFLAGS_RF, ..self }
    }

    open spec fn with_l_enable(self, enable: bool) -> Self {
        Context32 { dr7: put_bit32(self.dr7, L_ENABLE, enable), ..self }
    }

    open spec fn with_local(self, idx: usize, set: bool) -> Self {
        Context32 { dr7: put_bit32(self.dr7, local_bit(idx), set), ..self }
    }

    open spec fn with_rw(self, idx: usize, val: u8) -> Self {
        Context32 { dr7: put_field32(self.dr7, rw_bit(idx), val as u32), ..self }
    }

    open spec fn with_len(self, idx: usize, val: u8) -> Self {
        Context32 { dr7: put_field32(self.dr7, len_bit(idx), val as u32), ..self }
    }

    open spec fn with_address(self, idx: usize, address: usize) -> Self {
        if idx == 0 {
            Context32 { dr0: address as u32, ..self }
        } else if idx == 1 {
            Context32 { dr1: address as u32, ..self }
        } else if idx == 2 {
            Context32 { dr2: address as u32, ..self }
        } else {
            Context32 { dr3: address as u32, ..self }
        }
    }

    open spec fn no_slot(self) -> bool {
        !has_bit32(self.dr7, L0) && !has_bit32(self.dr7, L1) && !has_bit32(self.dr7, L2)
            && !has_bit32(self.dr7, L3)
    }

    open spec fn status(self) -> usize {
        self.dr6 as usize
    }

    open spec fn pc(self) -> usize {
        self.eip as usize
    }

    open spec fn with_pc(self, pc: usize) -> Self {
        Context32 { eip: pc as u32, ..self }
    }

    fn set_step(&mut self, step: bool) {
        let flags: u32 = self.eflags;
        self.eflags =
        if step {
            flags | EFLAGS_TF
        } else {
            flags & (!EFLAGS_TF)
        };
    }

    fn set_rf(&mut self) {
        self.eflags = self.eflags | EFLAGS_RF;
    }

    fn test_eflags(&self, flag: u32) -> (r: bool) {
        self.eflags & flag > 0
    }

    fn l_enable(&mut self, enable: bool) {
        if enable {
            self.dr7 = self.dr7 | (1u32 << L_ENABLE);
        } else {
            self.dr7 = self.dr7 & !(1u32 << L_ENABLE);
        }
    }

    fn set_local(&mut self, idx: usize, set: bool) {
        let x: u32 = local_bit_of(idx);
        if set {
            self.dr7 = self.dr7 | (1u32 << x);
        } else {
            self.dr7 = self.dr7 & !(1u32 << x);
        }
    }

    fn set_rw(&mut self, idx: usize, val: u8) {
        let x: u32 = rw_bit_of(idx);
        self.dr7 = (self.dr7 & !(0b11u32 << x)) | ((val as u32) << x);
    }

    fn set_len(&mut self, idx: usize, val: u8) {
        let x: u32 = len_bit_of(idx);
        self.dr7 = (self.dr7 & !(0b11u32 << x)) | ((val as u32) << x);
    }

    fn set_address(&mut self, idx: usize, address: usize) {
        let address: u32 = address as u32;
        match idx {
            0 => self.dr0 = address,
            1 => self.dr1 = address,
            2 => self.dr2 = address,
            _ => self.dr3 = address,
        }
    }

    fn empty(&self) -> (r: bool) {
        let n: u32 = self.dr7;
        !(n & (1u32 << L0) > 0) && !(n & (1u32 << L1) > 0) && !(n & (1u32 << L2) > 0) && !(n & (
        1u32 << L3) > 0)
    }

    fn dr6(&self) -> (r: usize) {
        self.dr6 as usize
    }

    fn ip(&self) -> (r: usize) {
        self.eip as usize
    }

    fn set_ip(&mut self, pc: usize) {
        self.eip = pc as u32;
    }
}

impl DbgContext for Context32 {
    open spec fn signed_pc(self) -> isize {
        ((self.eip as usize) as i32) as isize
    }

    fn signed_ip(&self) -> (r: isize) {
        ((self.eip as usize) as i32) as isize
    }
}

} // verus!
