//! What the registers hold, bit by bit, once slots and flags are set.
use vstd::prelude::*;

use crate::adaptor::slot_id;
use crate::regs::{
    field, field32, has_bit, has_bit32, len_bit, local_bit, rw_bit, with_bp, without_bp, Context32,
    Context64, DbgContext, HWBPRegs, L_ENABLE,
};
use crate::slots::{
    lemma_set_bp, lemma_set_bp32, lemma_step_flags, lemma_unset_bp, lemma_unset_bp32, same_slot,
    same_slot32,
};
use crate::types::id_of;

verus! {

/// The bit of the control register that switches a slot on.
pub open spec fn slot_mask(idx: usize) -> int {
    if idx == 0 {
        0x01
    } else if idx == 1 {
        0x04
    } else if idx == 2 {
        0x10
    } else {
        0x20
    }
}

/// The address register of a slot.
pub open spec fn slot_register(cx: Context64, idx: usize) -> u64 {
    if idx == 0 {
        cx.dr0
    } else if idx == 1 {
        cx.dr1
    } else if idx == 2 {
        cx.dr2
    } else {
        cx.dr3
    }
}

/// The address register of a slot of the 32-bit side.
pub open spec fn slot_register32(cx: Context32, idx: usize) -> u32 {
    if idx == 0 {
        cx.dr0
    } else if idx == 1 {
        cx.dr1
    } else if idx == 2 {
        cx.dr2
    } else {
        cx.dr3
    }
}

/// Whether a slot is on and watches an address for a kind of access and a length:
/// each slot has four bits from bit 16 up, the kind in the low two of them and the
/// length in the high two.
pub open spec fn slot_says(cx: Context64, idx: usize, address: usize, rw: u8, len: u8) -> bool {
    &&& cx.dr7 & slot_mask(idx) as u64 != 0
    &&& cx.dr7 & 0x100 != 0
    &&& (cx.dr7 >> (16 + 4 * idx) as u32) & 3 == rw
    &&& (cx.dr7 >> (18 + 4 * idx) as u32) & 3 == len
    &&& slot_register(cx, idx) == address
}

/// The same on the 32-bit side, which holds the low half of the address.
pub open spec fn slot_says32(cx: Context32, idx: usize, address: usize, rw: u8, len: u8) -> bool {
    &&& cx.dr7 & slot_mask(idx) as u32 != 0
    &&& cx.dr7 & 0x100 != 0
    &&& (cx.dr7 >> (16 + 4 * idx) as u32) & 3 == rw
    &&& (cx.dr7 >> (18 + 4 * idx) as u32) & 3 == len
    &&& slot_register32(cx, idx) == address as u32
}

/// Whether a slot is off and watches nothing.
pub open spec fn slot_silent(cx: Context64, idx: usize) -> bool {
    &&& cx.dr7 & slot_mask(idx) as u64 == 0
    &&& (cx.dr7 >> (16 + 4 * idx) as u32) & 3 == 0
    &&& (cx.dr7 >> (18 + 4 * idx) as u32) & 3 == 0
    &&& slot_register(cx, idx) == 0
}

/// The same on the 32-bit side.
pub open spec fn slot_silent32(cx: Context32, idx: usize) -> bool {
    &&& cx.dr7 & slot_mask(idx) as u32 == 0
    &&& (cx.dr7 >> (16 + 4 * idx) as u32) & 3 == 0
    &&& (cx.dr7 >> (18 + 4 * idx) as u32) & 3 == 0
    &&& slot_register32(cx, idx) == 0
}

/// Whether a slot is the same in two contexts.
pub open spec fn slot_same(a: Context64, b: Context64, idx: usize) -> bool {
    &&& (a.dr7 & slot_mask(idx) as u64 != 0) == (b.dr7 & slot_mask(idx) as u64 != 0)
    &&& (a.dr7 >> (16 + 4 * idx) as u32) & 3 == (b.dr7 >> (16 + 4 * idx) as u32) & 3
    &&& (a.dr7 >> (18 + 4 * idx) as u32) & 3 == (b.dr7 >> (18 + 4 * idx) as u32) & 3
    &&& slot_register(a, idx) == slot_register(b, idx)
}

/// The same on the 32-bit side.
pub open spec fn slot_same32(a: Context32, b: Context32, idx: usize) -> bool {
    &&& (a.dr7 & slot_mask(idx) as u32 != 0) == (b.dr7 & slot_mask(idx) as u32 != 0)
    &&& (a.dr7 >> (16 + 4 * idx) as u32) & 3 == (b.dr7 >> (16 + 4 * idx) as u32) & 3
    &&& (a.dr7 >> (18 + 4 * idx) as u32) & 3 == (b.dr7 >> (18 + 4 * idx) as u32) & 3
    &&& slot_register32(a, idx) == slot_register32(b, idx)
}

proof fn lemma_masks()
    by (bit_vector)
    ensures
        1u64 << 0u32 == 0x01,
        1u64 << 2u32 == 0x04,
        1u64 << 4u32 == 0x10,
        1u64 << 5u32 == 0x20,
        1u64 << 8u32 == 0x100,
        1u32 << 0u32 == 0x01,
        1u32 << 2u32 == 0x04,
        1u32 << 4u32 == 0x10,
        1u32 << 5u32 == 0x20,
        1u32 << 8u32 == 0x100,
{
}

proof fn lemma_bits_of(dr7: u64, dr7_32: u32, idx: usize)
    requires
        idx < 4,
    ensures
        has_bit(dr7, local_bit(idx)) <==> dr7 & slot_mask(idx) as u64 != 0,
        has_bit(dr7, L_ENABLE) <==> dr7 & 0x100 != 0,
        field(dr7, rw_bit(idx)) == (dr7 >> (16 + 4 * idx) as u32) & 3,
        field(dr7, len_bit(idx)) == (dr7 >> (18 + 4 * idx) as u32) & 3,
        has_bit32(dr7_32, local_bit(idx)) <==> dr7_32 & slot_mask(idx) as u32 != 0,
        has_bit32(dr7_32, L_ENABLE) <==> dr7_32 & 0x100 != 0,
        field32(dr7_32, rw_bit(idx)) == (dr7_32 >> (16 + 4 * idx) as u32) & 3,
        field32(dr7_32, len_bit(idx)) == (dr7_32 >> (18 + 4 * idx) as u32) & 3,
{
    lemma_masks();
    assert(rw_bit(idx) == 16 + 4 * idx);
    assert(len_bit(idx) == 18 + 4 * idx);
}

/// A slot that was set says so bit by bit in the control register, and every other
/// slot is as before.
pub proof fn lemma_slot_set(cx: Context64, address: usize, idx: usize, rw: u8, len: u8)
    requires
        idx < 4,
        rw <= 3,
        len <= 3,
    ensures
        slot_says(with_bp(cx, address, idx, rw, len), idx, address, rw, len),
        forall|j: usize|
            j < 4 && j != idx ==> #[trigger] slot_same(with_bp(cx, address, idx, rw, len), cx, j),
{
    let r = with_bp(cx, address, idx, rw, len);
    lemma_set_bp(cx, address, idx, rw, len, idx);
    lemma_bits_of(r.dr7, 0, idx);
    assert forall|j: usize| j < 4 && j != idx implies #[trigger] slot_same(r, cx, j) by {
        lemma_set_bp(cx, address, idx, rw, len, j);
        lemma_bits_of(r.dr7, 0, j);
        lemma_bits_of(cx.dr7, 0, j);
        assert(same_slot(r, cx, j));
    }
}

/// The same on the 32-bit side.
pub proof fn lemma_slot_set32(cx: Context32, address: usize, idx: usize, rw: u8, len: u8)
    requires
        idx < 4,
        rw <= 3,
        len <= 3,
    ensures
        slot_says32(with_bp(cx, address, idx, rw, len), idx, address, rw, len),
        forall|j: usize|
            j < 4 && j != idx ==> #[trigger] slot_same32(with_bp(cx, address, idx, rw, len), cx, j),
{
    let r = with_bp(cx, address, idx, rw, len);
    lemma_set_bp32(cx, address, idx, rw, len, idx);
    lemma_bits_of(0, r.dr7, idx);
    assert forall|j: usize| j < 4 && j != idx implies #[trigger] slot_same32(r, cx, j) by {
        lemma_set_bp32(cx, address, idx, rw, len, j);
        lemma_bits_of(0, r.dr7, j);
        lemma_bits_of(0, cx.dr7, j);
        assert(same_slot32(r, cx, j));
    }
}

/// A slot that was cleared is silent, every other slot is as before, and exact
/// breakpoints are off once all four are silent.
pub proof fn lemma_slot_unset(cx: Context64, idx: usize)
    requires
        idx < 4,
    ensures
        ({
            let r = without_bp(cx, idx);
            &&& slot_silent(r, idx)
            &&& forall|j: usize| j < 4 && j != idx ==> #[trigger] slot_same(r, cx, j)
            &&& r.dr7 & 0x01 == 0 && r.dr7 & 0x04 == 0 && r.dr7 & 0x10 == 0 && r.dr7 & 0x20 == 0
                ==> r.dr7 & 0x100 == 0
            &&& r.dr7 & 0x01 != 0 || r.dr7 & 0x04 != 0 || r.dr7 & 0x10 != 0 || r.dr7 & 0x20 != 0
                ==> (r.dr7 & 0x100 != 0) == (cx.dr7 & 0x100 != 0)
        }),
{
    let r = without_bp(cx, idx);
    lemma_masks();
    lemma_unset_bp(cx, idx, idx);
    lemma_bits_of(r.dr7, 0, idx);
    lemma_bits_of(cx.dr7, 0, idx);
    assert forall|j: usize| j < 4 && j != idx implies #[trigger] slot_same(r, cx, j) by {
        lemma_unset_bp(cx, idx, j);
        lemma_bits_of(r.dr7, 0, j);
        lemma_bits_of(cx.dr7, 0, j);
        assert(same_slot(r, cx, j));
    }
}

/// The same on the 32-bit side.
pub proof fn lemma_slot_unset32(cx: Context32, idx: usize)
    requires
        idx < 4,
    ensures
        ({
            let r = without_bp(cx, idx);
            &&& slot_silent32(r, idx)
            &&& forall|j: usize| j < 4 && j != idx ==> #[trigger] slot_same32(r, cx, j)
            &&& r.dr7 & 0x01 == 0 && r.dr7 & 0x04 == 0 && r.dr7 & 0x10 == 0 && r.dr7 & 0x20 == 0
                ==> r.dr7 & 0x100 == 0
            &&& r.dr7 & 0x01 != 0 || r.dr7 & 0x04 != 0 || r.dr7 & 0x10 != 0 || r.dr7 & 0x20 != 0
                ==> (r.dr7 & 0x100 != 0) == (cx.dr7 & 0x100 != 0)
        }),
{
    let r = without_bp(cx, idx);
    lemma_masks();
    lemma_unset_bp32(cx, idx, idx);
    lemma_bits_of(0, r.dr7, idx);
    lemma_bits_of(0, cx.dr7, idx);
    assert forall|j: usize| j < 4 && j != idx implies #[trigger] slot_same32(r, cx, j) by {
        lemma_unset_bp32(cx, idx, j);
        lemma_bits_of(0, r.dr7, j);
        lemma_bits_of(0, cx.dr7, j);
        assert(same_slot32(r, cx, j));
    }
}

proof fn lemma_flag_bits(flags: u32)
    by (bit_vector)
    ensures
        (flags | 0x10000) & 0x10000 != 0,
        (flags | 0x10000) & !0x10000u32 == flags & !0x10000u32,
        !0x100u32 & 0x100 == 0,
{
}

/// The trap flag and the resume flag are switched alone: no other flag moves, and
/// no other register.
pub proof fn lemma_flags(cx: Context64, cx32: Context32, step: bool)
    ensures
        (cx.with_step(step).eflags & 0x100 != 0) == step,
        cx.with_step(step).eflags & !0x100u32 == cx.eflags & !0x100u32,
        cx.with_step(step) == (Context64 { eflags: cx.with_step(step).eflags, ..cx }),
        cx.with_rf().eflags & 0x10000 != 0,
        cx.with_rf().eflags & !0x10000u32 == cx.eflags & !0x10000u32,
        cx.with_rf() == (Context64 { eflags: cx.with_rf().eflags, ..cx }),
        (cx32.with_step(step).eflags & 0x100 != 0) == step,
        cx32.with_step(step).eflags & !0x100u32 == cx32.eflags & !0x100u32,
        cx32.with_step(step) == (Context32 { eflags: cx32.with_step(step).eflags, ..cx32 }),
        cx32.with_rf().eflags & 0x10000 != 0,
        cx32.with_rf().eflags & !0x10000u32 == cx32.eflags & !0x10000u32,
        cx32.with_rf() == (Context32 { eflags: cx32.with_rf().eflags, ..cx32 }),
{
    lemma_flag_bits(cx.eflags);
    lemma_flag_bits(cx32.eflags);
    lemma_step_flags(cx.eflags, step, !0x100u32);
    lemma_step_flags(cx32.eflags, step, !0x100u32);
}

/// A thread that is moved stands where it was moved to, and no other register of
/// it changes; the 32-bit side takes the low half of the address.
pub proof fn lemma_moved(cx: Context64, cx32: Context32, pc: usize)
    ensures
        cx.with_pc(pc) == (Context64 { rip: pc as u64, ..cx }),
        cx.with_pc(pc).pc() == pc,
        cx32.with_pc(pc) == (Context32 { eip: pc as u32, ..cx32 }),
        pc <= u32::MAX ==> cx32.with_pc(pc).pc() == pc,
        cx.status() == cx.dr6 as usize,
        cx32.status() == cx32.dr6,
        cx.flags() == cx.eflags,
        cx32.flags() == cx32.eflags,
{
}

proof fn lemma_signs(rip: u64, eip: u32, address: usize)
    by (bit_vector)
    ensures
        ((rip as usize) as isize) as usize == rip as usize,
        eip < 0x8000_0000 ==> ((eip as usize) as i32) as isize == eip,
        eip >= 0x8000_0000 ==> ((eip as usize) as i32) as isize == eip - 0x1_0000_0000,
        (address as isize) as usize == address,
{
}

/// The signed place of a thread is its place read as a number of its own width;
/// the number of a place leads back to it.
pub proof fn lemma_signed(cx: Context64, cx32: Context32, address: usize, index: usize)
    requires
        index < 4,
    ensures
        cx.signed_pc() as usize == cx.rip as usize,
        cx32.signed_pc() == (if cx32.eip < 0x8000_0000 {
            cx32.eip as int
        } else {
            cx32.eip - 0x1_0000_0000
        }),
        id_of(address) as usize == address,
        slot_id(index as int) == -(index + 1),
{
    lemma_signs(cx.rip, cx32.eip, address);
}

} // verus!
