//! What users of the debugger can rely on when events come in.
use vstd::prelude::*;

use crate::adaptor::{lemma_grown, lemma_listed, lemma_slot, slot_id, AdaptorState, Width};
use crate::bp_laws::{lemma_remove_keeps, lemma_remove_starts};
use crate::breakpoints::{remove_next, RemoveOp};
use crate::enable::{enable_next, lemma_store_keeps, EnableOp};
use crate::event_loop::{loop_next, LoopOp};
use crate::handler::{
    bp_disabled, bp_fetched, handle_next, handle_start, hit_next, HandleOp, HandlePoll,
};
use crate::hit::{
    bp_after, bp_met, bp_removed, bp_start, int3_hit, step_hit, step_id, BpOp, HitOp, HitPoll,
};
use crate::io::{Action, Poll, Reply};
use crate::regs::EFLAGS_TF;
use crate::session::{fetched, HandlerState};
use crate::slots::lemma_step_flags;
use crate::types::{
    id_of, BpHandle, ExceptionRecord, HandleResult, HwbpType, InnerBpType, UDbgResult, UEvent,
    UserReply, BP_INSN,
};

verus! {

/// A trap instruction that is found for a trap stands at the very place of it.
pub proof fn lemma_trap_found(s: AdaptorState, record: ExceptionRecord)
    requires
        s.wf(),
    ensures
        s.get_bp(record.address as isize) matches Some(bp) ==> {
            &&& bp < s.bps.len()
            &&& s.bps[bp as int].bp_type is Soft ==> s.bps[bp as int].address
                == record.address as usize
        },
{
    lemma_listed(s, record.address as isize);
    if let Some(bp) = s.get_bp(record.address as isize) {
        let a = s.bps[bp as int].address;
        let r = record.address;
        if s.bps[bp as int].bp_type is Soft {
            assert(a as isize == r as isize ==> a == r as usize) by (bit_vector);
        }
    }
}

/// Whenever the user is told of a trap instruction, the thread stands where the
/// breakpoint is; a 32-bit thread by the low half of the address.
pub proof fn lemma_told_in_place(
    s: AdaptorState,
    first: bool,
    record: ExceptionRecord,
    width: Width,
)
    requires
        s.wf(),
    ensures
        ({
            let (s1, poll) = int3_hit(s, first, record, width);
            poll matches Poll::Pending(Action::Callback(event), HitOp::Bp(op)) ==> {
                let address = s.bps[op.bp as int].address;
                &&& event == UEvent::Breakpoint(op.bp)
                &&& s.get_bp(record.address as isize) == Some(op.bp)
                &&& s.bps[op.bp as int].bp_type is Soft ==> s1.pc(width) == (match width {
                    Width::Wide => address,
                    Width::Narrow => address as u32 as usize,
                })
            }
        }),
{
    reveal(int3_hit);
    reveal(bp_start);
    reveal(bp_met);
    reveal(bp_after);
    lemma_trap_found(s, record);
    if let Some(bp) = s.get_bp(record.address as isize) {
        lemma_store_keeps(s, bp, false);
    }
}

/// What is found for a slot that the status register shows is a breakpoint in
/// that slot, unless one stands at that very number at the top of memory.
pub proof fn lemma_slot_found(s: AdaptorState, index: int)
    requires
        s.wf(),
        0 <= index < 4,
    ensures
        s.get_bp(slot_id(index)) matches Some(bp) ==> {
            let b = s.bps[bp as int];
            ||| id_of(b.address) == slot_id(index)
            ||| b.bp_type matches InnerBpType::Hard(info) && info.index == index
            ||| b.bp_type matches InnerBpType::Table { index: i, .. } && i == slot_id(index)
        },
{
    lemma_listed(s, slot_id(index));
    if let Some(bp) = s.get_bp(slot_id(index)) {
        lemma_slot(s, bp);
    }
}

/// The same where the breakpoint stops only once and was removed first.
pub proof fn lemma_told_once_in_place(h: HandlerState, op: BpOp, r: RemoveOp, reply: Reply)
    requires
        h.wf(),
        r.wf(h.this.debug),
        r.bp == op.bp,
        h.this.debug.bps[op.bp as int].bp_type is Soft,
        h.this.debug.bps[op.bp as int].address == h.this.record.address as usize,
    ensures
        ({
            let address = h.this.debug.bps[op.bp as int].address;
            let (s1, poll) = remove_next(h.this.debug, r, reply);
            let (s2, met) = bp_removed(s1, h.this.record, op, poll);
            poll is Ready ==> {
                &&& s2.pc(op.width) == (match op.width {
                    Width::Wide => address,
                    Width::Narrow => address as u32 as usize,
                })
                &&& !s2.bp_map.dom().contains(id_of(address))
            }
        }),
{
    reveal(bp_met);
    lemma_remove_keeps(h.this.debug, r, reply);
    lemma_grown(
        h.this.debug,
        remove_next(h.this.debug, r, reply).0,
        op.bp as int,
    );
}

/// A slot that watches for execution is only taken as met at its own address,
/// and a native thread stands there when the user is told.
pub proof fn lemma_execute_slot_in_place(s: AdaptorState, record: ExceptionRecord, width: Width)
    requires
        s.wf(),
    ensures
        ({
            let (s1, poll) = step_hit(s, record, width);
            s.get_bp(step_id(s.dr6(width), record.address)) matches Some(bp) ==> {
                let b = s.bps[bp as int];
                b.bp_type matches InnerBpType::Hard(info) ==> (info.rw == HwbpType::Execute.bits()
                    ==> {
                    &&& b.address != record.address ==> s1 == s && poll == HitPoll::Ready(
                        HandleResult::NotHandled,
                    )
                    &&& poll matches Poll::Pending(Action::Callback(event), _) ==> event
                        == UEvent::Breakpoint(bp) && (width == Width::Wide ==> s1.pc(width)
                        == b.address)
                })
            }
        }),
{
    reveal(step_hit);
    reveal(bp_start);
    reveal(bp_met);
    reveal(bp_after);
    if let Some(bp) = s.get_bp(step_id(s.dr6(width), record.address)) {
        lemma_listed(s, step_id(s.dr6(width), record.address));
        lemma_store_keeps(s, bp, false);
    }
}

/// A met breakpoint has one hit more, and the user is told just when it is meant
/// for the thread that met it.
pub proof fn lemma_hit_counted(
    s: AdaptorState,
    record: ExceptionRecord,
    bp: BpHandle,
    width: Width,
)
    requires
        s.wf(),
        bp < s.bps.len(),
    ensures
        ({
            let (s1, poll) = bp_start(s, record, bp, width);
            let b = s.bps[bp as int];
            let meant = match b.hit_tid {
                Some(t) => t == s.base.event_tid,
                None => true,
            };
            &&& s1.bps[bp as int].hit_count == b.hit_count.wrapping_add(1)
            &&& b.temp ==> (poll matches Poll::Pending(_, o) && o.stage is Remove)
            &&& !b.temp ==> ((poll matches Poll::Pending(action, _) && action is Callback)
                <==> meant)
        }),
{
    reveal(bp_start);
    reveal(bp_met);
    reveal(bp_after);
    lemma_store_keeps(s, bp, false);
    lemma_remove_starts(s.count_hit(bp), bp);
}

/// A trap instruction that is still in force and on after the user had their say
/// is first switched off: its own byte is written back.
pub proof fn lemma_stepped_over(s: AdaptorState, op: BpOp, raw_byte: u8)
    requires
        s.wf(),
        op.bp < s.bps.len(),
        s.bps[op.bp as int].bp_type == InnerBpType::Soft(raw_byte),
    ensures
        ({
            let b = s.bps[op.bp as int];
            let in_force = s.get_bp(id_of(b.address)) is Some && b.enabled;
            match bp_after(s, op) {
                Poll::Pending(action, o) => {
                    &&& in_force
                    &&& action == (Action::WriteCode { address: b.address, byte: raw_byte })
                    &&& o.stage is Disable
                },
                Poll::Ready(r) => !in_force && r == HandleResult::Continue,
            }
        }),
{
    reveal(bp_after);
}

/// While it is off the thread runs with the trap flag set, so that it stops
/// again after one instruction.
pub proof fn lemma_steps_once(h: HandlerState, op: BpOp, r: UDbgResult<bool>)
    requires
        h.this.debug.has_cx,
        op.width == Width::Narrow <==> h.this.debug.has_cx32,
    ensures
        match bp_disabled(h, op, Poll::Ready(r)).1 {
            Poll::Pending(Action::SetContext { place, cx }, _) => {
                &&& op.width == Width::Wide
                &&& place == h.this.place(h.event.tid)
                &&& cx.eflags & EFLAGS_TF > 0
            },
            Poll::Pending(Action::SetContext32 { place, cx32 }, _) => {
                &&& op.width == Width::Narrow
                &&& place == h.this.place(h.event.tid)
                &&& cx32.eflags & EFLAGS_TF > 0
            },
            _ => false,
        },
{
    reveal(bp_disabled);
    assert(0u32 & EFLAGS_TF == 0) by (bit_vector);
    lemma_step_flags(h.this.debug.flags(op.width), true, 0);
}

/// Once the thread has done its step, the trap instruction is written again.
pub proof fn lemma_rearmed(h: HandlerState, op: BpOp, raw_byte: u8)
    requires
        h.wf(),
        op.bp < h.this.debug.bps.len(),
        h.this.debug.bps[op.bp as int].bp_type == InnerBpType::Soft(raw_byte),
        h.this.debug.base.event_tid == op.tid,
    ensures
        bp_fetched(h, op).1 matches Poll::Pending(action, o) && o.stage is Enable && action == (
        Action::WriteCode {
            address: h.this.debug.bps[op.bp as int].address,
            byte: BP_INSN,
        }),
{
}

/// An exception is left to the target unless the user says otherwise.
pub proof fn lemma_user_decides(h: HandlerState, reply: Reply)
    ensures
        hit_next(h, HitOp::User, reply).0 == h,
        hit_next(h, HitOp::User, reply).1 == HitPoll::Ready(
            if reply.user() == UserReply::Run(true) {
                HandleResult::Continue
            } else {
                HandleResult::NotHandled
            },
        ),
{
}

/// Handling an event ends without an answer for the system only where the
/// process has ended and the user was told so.
pub proof fn lemma_ends_with_process(h: HandlerState, op: HandleOp, reply: Reply)
    ensures
        handle_start(h).1 != HandlePoll::Ready(None),
        handle_next(h, op, reply).1 == HandlePoll::Ready(None) <==> op is ExitTold,
        handle_start(h).1 matches Poll::Pending(_, o) ==> (o is ExitContext
            <==> h.event.kind is ExitProcess) && !(o is ExitTold),
        handle_next(h, op, reply).1 matches Poll::Pending(action, o) ==> (o is ExitTold ==> (op
            matches HandleOp::ExitContext { code } && action == Action::Callback(
            UEvent::ProcessExit(code),
        ))),
{
    reveal(handle_start);
}

/// The loop over a debugged target ends only when its process has ended or the
/// system has no event to give.
pub proof fn lemma_loop_ends(h: HandlerState, op: LoopOp, reply: Reply)
    requires
        !(op is Exit),
    ensures
        loop_next(h, op, reply).1 is Ready ==> (op is Fetch && reply.event() is None) || op
            == LoopOp::Handle(HandleOp::ExitTold),
{
    match op {
        LoopOp::Handle(o) => lemma_ends_with_process(h, o, reply),
        LoopOp::Fetch => {
            if let Some(event) = reply.event() {
                lemma_ends_with_process(
                    fetched(h, event),
                    HandleOp::Last,
                    reply,
                );
            }
        },
        _ => {},
    }
}

/// The walk over the threads opens none that is protected, and none that the
/// breakpoint is not meant for.
pub proof fn lemma_threads_left_alone(s: AdaptorState, op: EnableOp, reply: Reply)
    ensures
        enable_next(s, op, reply).1 matches Poll::Pending(Action::OpenThread { tid }, _) ==> {
            &&& !s.protected.contains(tid)
            &&& s.bps[op.bp as int].hit_tid matches Some(t) ==> t == tid
        },
{
    reveal(enable_next);
}

/// A stop that the status register shows a slot for is taken as that slot's, the
/// lowest first: bit `i` with none below it stands for slot `i`, whose number is
/// the negative of `i + 1`. With no slot shown it is the place that counts.
pub proof fn lemma_step_id(dr6: usize, address: u64)
    ensures
        forall|i: usize|
            #![trigger 1usize << i]
            i < 4 && dr6 & (1usize << i) != 0 && (forall|j: usize|
                j < i ==> dr6 & #[trigger] (1usize << j) == 0) ==> step_id(dr6, address) == -(i
                + 1),
        dr6 & 0x0f == 0 ==> step_id(dr6, address) == address as isize,
        step_id(dr6, address) != address as isize ==> -4 <= step_id(dr6, address) <= -1,
{
    assert(dr6 & 0x0f == 0 ==> dr6 & 0x01 == 0 && dr6 & 0x02 == 0 && dr6 & 0x04 == 0 && dr6 & 0x08
        == 0) by (bit_vector);
    assert(1usize << 0usize == 0x01 && 1usize << 1usize == 0x02 && 1usize << 2usize == 0x04
        && 1usize << 3usize == 0x08) by (bit_vector);
    assert forall|i: usize|
        #![trigger 1usize << i]
        i < 4 && dr6 & (1usize << i) != 0 && (forall|j: usize|
            j < i ==> dr6 & #[trigger] (1usize << j) == 0) implies step_id(dr6, address) == -(i
        + 1) by {
        if i > 0 {
            assert(dr6 & (1usize << 0usize) == 0);
        }
        if i > 1 {
            assert(dr6 & (1usize << 1usize) == 0);
        }
        if i > 2 {
            assert(dr6 & (1usize << 2usize) == 0);
        }
    }
}

} // verus!
