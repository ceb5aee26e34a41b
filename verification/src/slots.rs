//! What the debug registers keep when slots are set and cleared.
use vstd::prelude::*;

use crate::regs::{
    field, field32, has_bit, has_bit32, len_bit, local_bit, put_bit, put_bit32, put_field,
    put_field32, rw_bit, step_flags, with_bp, without_bp, Context32, Context64, HWBPRegs,
    EFLAGS_TF, L0, L1, L2, L3, L_ENABLE,
};

verus! {

/// Whether slot `idx` of a wide context watches nothing.
pub open spec fn slot_clear(cx: Context64, idx: usize) -> bool {
    &&& !has_bit(cx.dr7, local_bit(idx))
    &&& field(cx.dr7, rw_bit(idx)) == 0
    &&& field(cx.dr7, len_bit(idx)) == 0
    &&& cx.slot_address(idx) == 0
}

/// Whether slot `idx` of a narrow context watches nothing.
pub open spec fn slot_clear32(cx: Context32, idx: usize) -> bool {
    &&& !has_bit32(cx.dr7, local_bit(idx))
    &&& field32(cx.dr7, rw_bit(idx)) == 0
    &&& field32(cx.dr7, len_bit(idx)) == 0
    &&& cx.slot_address(idx) == 0
}

/// Whether two wide contexts agree in everything about slot `idx`.
pub open spec fn same_slot(a: Context64, b: Context64, idx: usize) -> bool {
    &&& has_bit(a.dr7, local_bit(idx)) == has_bit(b.dr7, local_bit(idx))
    &&& field(a.dr7, rw_bit(idx)) == field(b.dr7, rw_bit(idx))
    &&& field(a.dr7, len_bit(idx)) == field(b.dr7, len_bit(idx))
    &&& a.slot_address(idx) == b.slot_address(idx)
}

/// Whether two narrow contexts agree in everything about slot `idx`.
pub open spec fn same_slot32(a: Context32, b: Context32, idx: usize) -> bool {
    &&& has_bit32(a.dr7, local_bit(idx)) == has_bit32(b.dr7, local_bit(idx))
    &&& field32(a.dr7, rw_bit(idx)) == field32(b.dr7, rw_bit(idx))
    &&& field32(a.dr7, len_bit(idx)) == field32(b.dr7, len_bit(idx))
    &&& a.slot_address(idx) == b.slot_address(idx)
}

proof fn lemma_bit(n: u64, x: u32, y: u32, set: bool)
    by (bit_vector)
    requires
        x < 32,
        y < 32,
    ensures
        has_bit(put_bit(n, x, set), y) == (if x == y {
            set
        } else {
            has_bit(n, y)
        }),
        x < y ==> field(put_bit(n, x, set), y) == field(n, y),
{
}

proof fn lemma_field(n: u64, x: u32, y: u32, v: u64)
    by (bit_vector)
    requires
        x <= 30,
        y <= 30,
        v <= 3,
    ensures
        field(put_field(n, x, v), x) == v,
        y < x ==> has_bit(put_field(n, x, v), y) == has_bit(n, y),
        x + 1 < y || y + 1 < x ==> field(put_field(n, x, v), y) == field(n, y),
{
}

proof fn lemma_bit32(n: u32, x: u32, y: u32, set: bool)
    by (bit_vector)
    requires
        x < 32,
        y < 32,
    ensures
        has_bit32(put_bit32(n, x, set), y) == (if x == y {
            set
        } else {
            has_bit32(n, y)
        }),
        x < y ==> field32(put_bit32(n, x, set), y) == field32(n, y),
{
}

proof fn lemma_field32(n: u32, x: u32, y: u32, v: u32)
    by (bit_vector)
    requires
        x <= 30,
        y <= 30,
        v <= 3,
    ensures
        field32(put_field32(n, x, v), x) == v,
        y < x ==> has_bit32(put_field32(n, x, v), y) == has_bit32(n, y),
        x + 1 < y || y + 1 < x ==> field32(put_field32(n, x, v), y) == field32(n, y),
{
}

/// What the control register of slot `j` shows after the two fields of slot
/// `idx` were written over `n`.
proof fn lemma_fields(n: u64, idx: usize, j: usize, rw: u64, len: u64)
    requires
        idx < 4,
        j < 4,
        rw <= 3,
        len <= 3,
    ensures
        ({
            let r = put_field(put_field(n, rw_bit(idx), rw), len_bit(idx), len);
            &&& field(r, rw_bit(j)) == if j == idx { rw } else { field(n, rw_bit(j)) }
            &&& field(r, len_bit(j)) == if j == idx { len } else { field(n, len_bit(j)) }
            &&& has_bit(r, local_bit(j)) == has_bit(n, local_bit(j))
            &&& has_bit(r, L_ENABLE) == has_bit(n, L_ENABLE)
        }),
{
    let m = put_field(n, rw_bit(idx), rw);
    lemma_field(n, rw_bit(idx), rw_bit(j), rw);
    lemma_field(n, rw_bit(idx), len_bit(j), rw);
    lemma_field(n, rw_bit(idx), local_bit(j), rw);
    lemma_field(n, rw_bit(idx), L_ENABLE, rw);
    lemma_field(m, len_bit(idx), rw_bit(j), len);
    lemma_field(m, len_bit(idx), len_bit(j), len);
    lemma_field(m, len_bit(idx), local_bit(j), len);
    lemma_field(m, len_bit(idx), L_ENABLE, len);
}

proof fn lemma_fields32(n: u32, idx: usize, j: usize, rw: u32, len: u32)
    requires
        idx < 4,
        j < 4,
        rw <= 3,
        len <= 3,
    ensures
        ({
            let r = put_field32(put_field32(n, rw_bit(idx), rw), len_bit(idx), len);
            &&& field32(r, rw_bit(j)) == if j == idx { rw } else { field32(n, rw_bit(j)) }
            &&& field32(r, len_bit(j)) == if j == idx { len } else { field32(n, len_bit(j)) }
            &&& has_bit32(r, local_bit(j)) == has_bit32(n, local_bit(j))
            &&& has_bit32(r, L_ENABLE) == has_bit32(n, L_ENABLE)
        }),
{
    let m = put_field32(n, rw_bit(idx), rw);
    lemma_field32(n, rw_bit(idx), rw_bit(j), rw);
    lemma_field32(n, rw_bit(idx), len_bit(j), rw);
    lemma_field32(n, rw_bit(idx), local_bit(j), rw);
    lemma_field32(n, rw_bit(idx), L_ENABLE, rw);
    lemma_field32(m, len_bit(idx), rw_bit(j), len);
    lemma_field32(m, len_bit(idx), len_bit(j), len);
    lemma_field32(m, len_bit(idx), local_bit(j), len);
    lemma_field32(m, len_bit(idx), L_ENABLE, len);
}

/// A slot that was set watches its address with its kind and length, exact
/// breakpoints are on, and every other slot is as before.
pub proof fn lemma_set_bp(cx: Context64, address: usize, idx: usize, rw: u8, len: u8, j: usize)
    requires
        idx < 4,
        j < 4,
        rw <= 3,
        len <= 3,
    ensures
        ({
            let r = with_bp(cx, address, idx, rw, len);
            &&& has_bit(r.dr7, L_ENABLE)
            &&& has_bit(r.dr7, local_bit(idx))
            &&& field(r.dr7, rw_bit(idx)) == rw
            &&& field(r.dr7, len_bit(idx)) == len
            &&& r.slot_address(idx) == address
            &&& j != idx ==> same_slot(r, cx, j)
            &&& r.eflags == cx.eflags && r.rip == cx.rip && r.dr6 == cx.dr6
            &&& r.seg_cs == cx.seg_cs
        }),
{
    let a = put_bit(cx.dr7, L_ENABLE, true);
    let b = put_bit(a, local_bit(idx), true);
    lemma_bit(cx.dr7, L_ENABLE, local_bit(j), true);
    lemma_bit(cx.dr7, L_ENABLE, L_ENABLE, true);
    lemma_bit(cx.dr7, L_ENABLE, rw_bit(j), true);
    lemma_bit(cx.dr7, L_ENABLE, len_bit(j), true);
    lemma_bit(a, local_bit(idx), local_bit(idx), true);
    lemma_bit(a, local_bit(idx), local_bit(j), true);
    lemma_bit(a, local_bit(idx), L_ENABLE, true);
    lemma_bit(a, local_bit(idx), rw_bit(j), true);
    lemma_bit(a, local_bit(idx), len_bit(j), true);
    lemma_fields(b, idx, j, rw as u64, len as u64);
    lemma_fields(b, idx, idx, rw as u64, len as u64);
}

/// The same for a narrow context, whose slot holds the low half of the address.
pub proof fn lemma_set_bp32(cx: Context32, address: usize, idx: usize, rw: u8, len: u8, j: usize)
    requires
        idx < 4,
        j < 4,
        rw <= 3,
        len <= 3,
    ensures
        ({
            let r = with_bp(cx, address, idx, rw, len);
            &&& has_bit32(r.dr7, L_ENABLE)
            &&& has_bit32(r.dr7, local_bit(idx))
            &&& field32(r.dr7, rw_bit(idx)) == rw
            &&& field32(r.dr7, len_bit(idx)) == len
            &&& r.slot_address(idx) == address as u32
            &&& j != idx ==> same_slot32(r, cx, j)
            &&& r.eflags == cx.eflags && r.eip == cx.eip && r.dr6 == cx.dr6
        }),
{
    let a = put_bit32(cx.dr7, L_ENABLE, true);
    let b = put_bit32(a, local_bit(idx), true);
    lemma_bit32(cx.dr7, L_ENABLE, local_bit(j), true);
    lemma_bit32(cx.dr7, L_ENABLE, L_ENABLE, true);
    lemma_bit32(cx.dr7, L_ENABLE, rw_bit(j), true);
    lemma_bit32(cx.dr7, L_ENABLE, len_bit(j), true);
    lemma_bit32(a, local_bit(idx), local_bit(idx), true);
    lemma_bit32(a, local_bit(idx), local_bit(j), true);
    lemma_bit32(a, local_bit(idx), L_ENABLE, true);
    lemma_bit32(a, local_bit(idx), rw_bit(j), true);
    lemma_bit32(a, local_bit(idx), len_bit(j), true);
    lemma_fields32(b, idx, j, rw as u32, len as u32);
    lemma_fields32(b, idx, idx, rw as u32, len as u32);
}

/// A slot that was cleared watches nothing, every other slot is as before, and
/// with no slot left exact breakpoints are off.
pub proof fn lemma_unset_bp(cx: Context64, idx: usize, j: usize)
    requires
        idx < 4,
        j < 4,
    ensures
        ({
            let r = without_bp(cx, idx);
            &&& slot_clear(r, idx)
            &&& j != idx ==> same_slot(r, cx, j)
            &&& r.no_slot() ==> !has_bit(r.dr7, L_ENABLE)
            &&& !r.no_slot() ==> has_bit(r.dr7, L_ENABLE) == has_bit(cx.dr7, L_ENABLE)
            &&& r.eflags == cx.eflags && r.rip == cx.rip && r.dr6 == cx.dr6
            &&& r.seg_cs == cx.seg_cs
        }),
{
    let a = put_bit(cx.dr7, local_bit(idx), false);
    lemma_bit(cx.dr7, local_bit(idx), local_bit(idx), false);
    lemma_bit(cx.dr7, local_bit(idx), local_bit(j), false);
    lemma_bit(cx.dr7, local_bit(idx), rw_bit(j), false);
    lemma_bit(cx.dr7, local_bit(idx), len_bit(j), false);
    lemma_bit(cx.dr7, local_bit(idx), L_ENABLE, false);
    lemma_fields(a, idx, j, 0, 0);
    lemma_fields(a, idx, idx, 0, 0);
    let b = put_field(put_field(a, rw_bit(idx), 0), len_bit(idx), 0);
    lemma_bit(b, L_ENABLE, L0, false);
    lemma_bit(b, L_ENABLE, L1, false);
    lemma_bit(b, L_ENABLE, L2, false);
    lemma_bit(b, L_ENABLE, L3, false);
    lemma_bit(b, L_ENABLE, L_ENABLE, false);
    lemma_bit(b, L_ENABLE, rw_bit(j), false);
    lemma_bit(b, L_ENABLE, len_bit(j), false);
    lemma_bit(b, L_ENABLE, rw_bit(idx), false);
    lemma_bit(b, L_ENABLE, len_bit(idx), false);
}

/// The same for a narrow context.
pub proof fn lemma_unset_bp32(cx: Context32, idx: usize, j: usize)
    requires
        idx < 4,
        j < 4,
    ensures
        ({
            let r = without_bp(cx, idx);
            &&& slot_clear32(r, idx)
            &&& j != idx ==> same_slot32(r, cx, j)
            &&& r.no_slot() ==> !has_bit32(r.dr7, L_ENABLE)
            &&& !r.no_slot() ==> has_bit32(r.dr7, L_ENABLE) == has_bit32(cx.dr7, L_ENABLE)
            &&& r.eflags == cx.eflags && r.eip == cx.eip && r.dr6 == cx.dr6
        }),
{
    let a = put_bit32(cx.dr7, local_bit(idx), false);
    lemma_bit32(cx.dr7, local_bit(idx), local_bit(idx), false);
    lemma_bit32(cx.dr7, local_bit(idx), local_bit(j), false);
    lemma_bit32(cx.dr7, local_bit(idx), rw_bit(j), false);
    lemma_bit32(cx.dr7, local_bit(idx), len_bit(j), false);
    lemma_bit32(cx.dr7, local_bit(idx), L_ENABLE, false);
    lemma_fields32(a, idx, j, 0, 0);
    lemma_fields32(a, idx, idx, 0, 0);
    let b = put_field32(put_field32(a, rw_bit(idx), 0), len_bit(idx), 0);
    lemma_bit32(b, L_ENABLE, L0, false);
    lemma_bit32(b, L_ENABLE, L1, false);
    lemma_bit32(b, L_ENABLE, L2, false);
    lemma_bit32(b, L_ENABLE, L3, false);
    lemma_bit32(b, L_ENABLE, L_ENABLE, false);
    lemma_bit32(b, L_ENABLE, rw_bit(j), false);
    lemma_bit32(b, L_ENABLE, len_bit(j), false);
    lemma_bit32(b, L_ENABLE, rw_bit(idx), false);
    lemma_bit32(b, L_ENABLE, len_bit(idx), false);
}

proof fn lemma_undo(n: u64, l: u32, x: u32, y: u32, rw: u64, len: u64)
    by (bit_vector)
    requires
        l < 6,
        16 <= x,
        x <= 28,
        y == x + 2,
        rw <= 3,
        len <= 3,
        !has_bit(n, l),
        field(n, x) == 0,
        field(n, y) == 0,
    ensures
        ({
            let set = put_field(
                put_field(put_bit(put_bit(n, 8, true), l, true), x, rw),
                y,
                len,
            );
            let cleared = put_field(put_field(put_bit(set, l, false), x, 0), y, 0);
            &&& cleared == put_bit(n, 8, true)
            &&& has_bit(n, 8) ==> cleared == n
            &&& !has_bit(n, 8) ==> put_bit(cleared, 8, false) == n
        }),
{
}

proof fn lemma_undo32(n: u32, l: u32, x: u32, y: u32, rw: u32, len: u32)
    by (bit_vector)
    requires
        l < 6,
        16 <= x,
        x <= 28,
        y == x + 2,
        rw <= 3,
        len <= 3,
        !has_bit32(n, l),
        field32(n, x) == 0,
        field32(n, y) == 0,
    ensures
        ({
            let set = put_field32(
                put_field32(put_bit32(put_bit32(n, 8, true), l, true), x, rw),
                y,
                len,
            );
            let cleared = put_field32(put_field32(put_bit32(set, l, false), x, 0), y, 0);
            &&& cleared == put_bit32(n, 8, true)
            &&& has_bit32(n, 8) ==> cleared == n
            &&& !has_bit32(n, 8) ==> put_bit32(cleared, 8, false) == n
        }),
{
}

/// Setting a free slot and clearing it again gives back the context, where
/// exact breakpoints were on just when some slot was.
pub proof fn lemma_set_unset(cx: Context64, address: usize, idx: usize, rw: u8, len: u8)
    requires
        idx < 4,
        rw <= 3,
        len <= 3,
        slot_clear(cx, idx),
        has_bit(cx.dr7, L_ENABLE) == !cx.no_slot(),
    ensures
        without_bp(with_bp(cx, address, idx, rw, len), idx) == cx,
{
    lemma_undo(cx.dr7, local_bit(idx), rw_bit(idx), len_bit(idx), rw as u64, len as u64);
    lemma_bit(cx.dr7, L_ENABLE, L0, true);
    lemma_bit(cx.dr7, L_ENABLE, L1, true);
    lemma_bit(cx.dr7, L_ENABLE, L2, true);
    lemma_bit(cx.dr7, L_ENABLE, L3, true);
}

/// The same for a narrow context.
pub proof fn lemma_set_unset32(cx: Context32, address: usize, idx: usize, rw: u8, len: u8)
    requires
        idx < 4,
        rw <= 3,
        len <= 3,
        slot_clear32(cx, idx),
        has_bit32(cx.dr7, L_ENABLE) == !cx.no_slot(),
    ensures
        without_bp(with_bp(cx, address, idx, rw, len), idx) == cx,
{
    lemma_undo32(cx.dr7, local_bit(idx), rw_bit(idx), len_bit(idx), rw as u32, len as u32);
    lemma_bit32(cx.dr7, L_ENABLE, L0, true);
    lemma_bit32(cx.dr7, L_ENABLE, L1, true);
    lemma_bit32(cx.dr7, L_ENABLE, L2, true);
    lemma_bit32(cx.dr7, L_ENABLE, L3, true);
}

/// The trap flag reads back as it was switched, and no other flag moves.
pub proof fn lemma_step_flags(flags: u32, step: bool, other: u32)
    requires
        other & EFLAGS_TF == 0,
    ensures
        (step_flags(flags, step) & EFLAGS_TF > 0) == step,
        step_flags(flags, step) & other == flags & other,
{
    assert((step_flags(flags, step) & EFLAGS_TF > 0) == step && step_flags(flags, step) & other
        == flags & other) by (bit_vector)
        requires
            other & EFLAGS_TF == 0,
    ;
}

} // verus!
