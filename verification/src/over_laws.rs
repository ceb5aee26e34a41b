//! How a thread is led over a trap instruction while the rest of the target goes on.
use vstd::prelude::*;

use crate::adaptor::{AdaptorState, Width};
use crate::breakpoints::{remove_next, RemoveOp};
use crate::enable::{enable_next, EnableOp};
use crate::event_laws::{comes, goes_on, lemma_goes_on, reached};
use crate::event_loop::{loop_cont, loop_handled, loop_next, LoopOp, LoopPoll};
use crate::handler::{
    bp_disabled, bp_enabled, bp_fetched, bp_next, handle_next, handle_start, HandleOp,
};
use crate::hit::{bp_met, bp_removed, BpOp, BpPoll, BpStage};
use crate::io::{Action, DebugEvent, Doing, Poll, Reply, Report};
use crate::reg_laws::lemma_flags;
use crate::regs::{Context32, Context64, HWBPRegs, EFLAGS_TF};
use crate::session::{cont_start, fetched, ContOp, HandlerState};
use crate::types::{id_of, Breakpoint, HandleResult, InnerBpType, UDbgError, UDbgResult, UEvent};

verus! {

/// The flags of the stopped thread on one of its sides.
pub open spec fn side_flags(s: AdaptorState, width: Width) -> u32 {
    match width {
        Width::Wide => s.cx.eflags,
        Width::Narrow => s.cx32.eflags,
    }
}

/// Whether two sessions differ in the trap flag of one side alone, which is set in the
/// second, and in what is shown.
pub open spec fn flag_set(s: AdaptorState, s1: AdaptorState, width: Width) -> bool {
    &&& side_flags(s1, width) & 0x100 != 0
    &&& side_flags(s1, width) & !0x100u32 == side_flags(s, width) & !0x100u32
    &&& s1 == (match width {
        Width::Wide => AdaptorState {
            cx: Context64 { eflags: s1.cx.eflags, ..s.cx },
            reports: s1.reports,
            ..s
        },
        Width::Narrow => AdaptorState {
            cx32: Context32 { eflags: s1.cx32.eflags, ..s.cx32 },
            reports: s1.reports,
            ..s
        },
    })
}

proof fn lemma_flag_there(flags: u32)
    by (bit_vector)
    ensures
        flags & 0x100 > 0 <==> flags & 0x100 != 0,
{
}

/// Once the byte under a trap instruction is back, or could not be written back, which
/// is shown, the thread goes on with the trap flag set, and the system is told that the
/// exception was dealt with. It is remembered whether the flag was set before: then
/// the step is the user's own as well.
pub proof fn lemma_steps_off(h: HandlerState, op: BpOp, e: EnableOp, reply: Reply)
    requires
        op.stage == BpStage::Disable(e),
        e.stage is Soft,
        !e.enable,
        e.bp == op.bp,
        op.bp < h.this.debug.bps.len(),
    ensures
        ({
            let (h1, poll) = bp_next(h, op, reply);
            let s = h.this.debug;
            let written = reply is Word && reply->Word_0 > 0;
            let off = if written {
                AdaptorState {
                    bps: s.bps.update(
                        op.bp as int,
                        Breakpoint { enabled: false, ..s.bps[op.bp as int] },
                    ),
                    ..s
                }
            } else {
                AdaptorState {
                    reports: s.reports.push(
                        Report::Failure { doing: Doing::DisableBp, error: UDbgError::MemoryError },
                    ),
                    ..s
                }
            };
            exists|s2: AdaptorState, c: ContOp| #[trigger]
                goes_on(
                    h.with(s2),
                    (h1, Poll::Pending(poll->Pending_0, LoopOp::Cont(c))),
                    0x00010001,
                ) && flag_set(off, s2, op.width) && s2.reports == off.reports && poll
                    == BpPoll::Pending(
                    poll->Pending_0,
                    BpOp {
                        stage: BpStage::Cont(c),
                        user_step: side_flags(s, op.width) & 0x100 != 0,
                        ..op
                    },
                )
        }),
{
    let s = h.this.debug;
    let rest = BpOp { stage: BpStage::Callback, ..op };
    let (s0, done) = enable_next(s, e, reply);
    lemma_off_written(s, e, reply);
    lemma_off_step(h, op, e, reply);
    let (s2, c) = lemma_off_cont(h.with(s0), rest, done->Ready_0);
    assert(h.with(s0).with(s2) == h.with(s2));
}

proof fn lemma_off_written(s: AdaptorState, e: EnableOp, reply: Reply)
    requires
        e.stage is Soft,
        !e.enable,
    ensures
        ({
            let (s0, done) = enable_next(s, e, reply);
            let written = reply is Word && reply->Word_0 > 0;
            &&& done is Ready
            &&& side_flags(s0, Width::Wide) == side_flags(s, Width::Wide)
            &&& side_flags(s0, Width::Narrow) == side_flags(s, Width::Narrow)
            &&& s0.check_result(Doing::DisableBp, done->Ready_0) == (if written {
                AdaptorState {
                    bps: s.bps.update(
                        e.bp as int,
                        Breakpoint { enabled: false, ..s.bps[e.bp as int] },
                    ),
                    ..s
                }
            } else {
                AdaptorState {
                    reports: s.reports.push(
                        Report::Failure { doing: Doing::DisableBp, error: UDbgError::MemoryError },
                    ),
                    ..s
                }
            })
        }),
{
    reveal(enable_next);
}

proof fn lemma_off_step(h: HandlerState, op: BpOp, e: EnableOp, reply: Reply)
    requires
        op.stage == BpStage::Disable(e),
    ensures
        ({
            let (s0, done) = enable_next(h.this.debug, e, reply);
            let rest = BpOp { stage: BpStage::Callback, ..op };
            bp_next(h, op, reply) == bp_disabled(h.with(s0), rest, done)
        }),
{
}

proof fn lemma_off_cont(h: HandlerState, op: BpOp, r: UDbgResult<bool>) -> (w: (AdaptorState, ContOp))
    ensures
        ({
            let (h1, poll) = bp_disabled(h, op, Poll::Ready(r));
            let s = h.this.debug;
            let off = s.check_result(Doing::DisableBp, r);
            &&& goes_on(
                h.with(w.0),
                (h1, Poll::Pending(poll->Pending_0, LoopOp::Cont(w.1))),
                0x00010001,
            )
            &&& flag_set(off, w.0, op.width)
            &&& w.0.reports == off.reports
            &&& poll == BpPoll::Pending(
                poll->Pending_0,
                BpOp {
                    stage: BpStage::Cont(w.1),
                    user_step: side_flags(s, op.width) & 0x100 != 0,
                    ..op
                },
            )
        }),
{
    reveal(bp_disabled);
    let s = h.this.debug;
    lemma_flag_there(side_flags(s, op.width));
    lemma_flags(s.cx, s.cx32, true);
    let off = s.check_result(Doing::DisableBp, r);
    let s2 = if off.flags(op.width) & EFLAGS_TF > 0 {
        off
    } else {
        off.set_step(op.width, true)
    };
    lemma_goes_on(h.with(s2), HandleResult::Handled);
    let went = cont_start(h.with(s2), HandleResult::Handled);
    let (h1, poll) = bp_disabled(h, op, Poll::Ready(r));
    let c = went.1->Pending_1;
    assert(loop_cont(went) == (h1, LoopPoll::Pending(poll->Pending_0, LoopOp::Cont(c))));
    (s2, c)
}

/// While a trap instruction is off, going on from an event is the same as ever: the same
/// is asked of the host, and the session is the same.
pub proof fn lemma_goes_on_alike(h: HandlerState, op: BpOp, c: ContOp, reply: Reply)
    requires
        op.stage == BpStage::Cont(c),
    ensures
        ({
            let (h1, poll) = bp_next(h, op, reply);
            let at = loop_next(h, LoopOp::Cont(c), reply);
            &&& h1 == at.0
            &&& at.1 is Pending && poll is Pending
            &&& poll->Pending_0 == at.1->Pending_0
            &&& at.1->Pending_1 == LoopOp::Fetch <==> poll->Pending_1.stage is Fetch
            &&& at.1->Pending_1 matches LoopOp::Cont(c1) ==> poll->Pending_1.stage == BpStage::Cont(
                c1,
            )
            &&& poll->Pending_1.bp == op.bp && poll->Pending_1.tid == op.tid
                && poll->Pending_1.user_step == op.user_step && poll->Pending_1.width == op.width
        }),
{
}

/// An event of another thread that comes while a trap instruction is off is handled as
/// it would be at any other time; one of the thread itself is its step, and the trap
/// instruction is written again. Where no event comes, the exception counts as dealt
/// with.
pub proof fn lemma_other_event_alike(h: HandlerState, op: BpOp, event: DebugEvent)
    requires
        op.stage is Fetch,
        event.tid != op.tid,
    ensures
        ({
            let (h1, poll) = bp_next(h, op, Reply::Event(event));
            let at = comes(h, event);
            &&& h1 == at.0
            &&& at.1 is Pending ==> poll is Pending && poll->Pending_0 == at.1->Pending_0
                && poll->Pending_1.bp == op.bp && poll->Pending_1.tid == op.tid
            &&& at.1 is Ready ==> poll == BpPoll::Ready(HandleResult::Handled)
            &&& forall|r: Reply|
                r.event() is None ==> #[trigger] bp_next(h, op, r) == (
                    h,
                    BpPoll::Ready(HandleResult::Handled),
                )
        }),
{
    reveal(comes);
    let h0 = fetched(h, event);
    assert(h0.this.debug.base.event_tid == event.tid);
    let rest = BpOp { stage: BpStage::Callback, ..op };
    assert(bp_next(h, op, Reply::Event(event)) == bp_fetched(h0, rest));
    assert(comes(h, event) == loop_handled(handle_start(h0)));
}

/// The handling of such an event goes on as it would at any other time.
pub proof fn lemma_nested_alike(h: HandlerState, op: BpOp, o: HandleOp, reply: Reply)
    requires
        op.stage == BpStage::Nested(Box::new(o)),
    ensures
        ({
            let (h1, poll) = bp_next(h, op, reply);
            let at = loop_next(h, LoopOp::Handle(o), reply);
            &&& h1 == at.0
            &&& at.1 is Pending ==> poll is Pending && poll->Pending_0 == at.1->Pending_0
                && poll->Pending_1.bp == op.bp && poll->Pending_1.tid == op.tid
            &&& at.1 is Ready ==> poll == BpPoll::Ready(HandleResult::Handled)
        }),
{
    lemma_nested_step(h, op, o, reply);
    assert(loop_next(h, LoopOp::Handle(o), reply) == loop_handled(handle_next(h, o, reply)));
}

proof fn lemma_nested_step(h: HandlerState, op: BpOp, o: HandleOp, reply: Reply)
    requires
        op.stage == BpStage::Nested(Box::new(o)),
    ensures
        ({
            let (h1, poll) = handle_next(h, o, reply);
            let rest = BpOp { stage: BpStage::Callback, ..op };
            bp_next(h, op, reply) == crate::handler::bp_nested(h1, rest, poll)
        }),
{
}

/// The step of the thread itself: the trap instruction is written again.
pub proof fn lemma_trap_again(h: HandlerState, op: BpOp, event: DebugEvent, raw_byte: u8)
    requires
        op.stage is Fetch,
        event.tid == op.tid,
        h.this.debug.bps[op.bp as int].bp_type == InnerBpType::Soft(raw_byte),
    ensures
        ({
            let (h1, poll) = bp_next(h, op, Reply::Event(event));
            &&& h1 == fetched(h, event)
            &&& poll matches Poll::Pending(action, o) && action == (Action::WriteCode {
                address: h.this.debug.bps[op.bp as int].address,
                byte: 0xcc,
            }) && (o.stage matches BpStage::Enable(e) && e.stage is Soft && e.enable && e.bp
                == op.bp) && o.bp == op.bp && o.user_step == op.user_step && o.tid == op.tid
        }),
{
    let h0 = fetched(h, event);
    assert(h0.this.debug.base.event_tid == event.tid);
    assert(h0.this.debug.bps == h.this.debug.bps);
}

/// Once the trap instruction is there again, or could not be written, which is shown,
/// the thread goes on with no registers written back; but a step that was the user's
/// own is handled as an event: the registers are read, and so on.
pub proof fn lemma_steps_on(h: HandlerState, op: BpOp, e: EnableOp, reply: Reply)
    requires
        op.stage == BpStage::Enable(e),
        e.stage is Soft,
        e.enable,
        e.bp == op.bp,
        op.bp < h.this.debug.bps.len(),
        h.event.kind is Exception,
    ensures
        ({
            let (h1, poll) = bp_next(h, op, reply);
            let s = h.this.debug;
            let written = reply is Word && reply->Word_0 > 0;
            let on = if written {
                AdaptorState {
                    bps: s.bps.update(
                        op.bp as int,
                        Breakpoint { enabled: true, ..s.bps[op.bp as int] },
                    ),
                    ..s
                }
            } else {
                AdaptorState {
                    reports: s.reports.push(
                        Report::Failure { doing: Doing::EnableBp, error: UDbgError::MemoryError },
                    ),
                    ..s
                }
            };
            if op.user_step {
                &&& h1 == h.with(on)
                &&& poll matches Poll::Pending(action, o) && action == (Action::GetContext {
                    place: reached(h.this.threads, h.event.tid),
                }) && o.stage is Again
            } else {
                &&& h1 == h.with(AdaptorState { has_cx: false, has_cx32: false, ..on })
                &&& poll == BpPoll::Ready(HandleResult::Continue)
            }
        }),
{
    reveal(enable_next);
    reveal(handle_start);
    let rest = BpOp { stage: BpStage::Callback, ..op };
    let (s0, done) = enable_next(h.this.debug, e, reply);
    assert(bp_next(h, op, reply) == bp_enabled(h.with(s0), rest, done));
}

/// A step that was the user's own is handled to its end, and its answer is that of the
/// breakpoint.
pub proof fn lemma_again_alike(h: HandlerState, op: BpOp, o: HandleOp, reply: Reply)
    requires
        op.stage == BpStage::Again(Box::new(o)),
    ensures
        ({
            let (h1, poll) = bp_next(h, op, reply);
            let (h2, handled) = handle_next(h, o, reply);
            &&& h1 == h2
            &&& handled matches Poll::Pending(action, _) ==> poll is Pending && poll->Pending_0
                == action
            &&& handled matches Poll::Ready(Some(status)) ==> poll == BpPoll::Ready(status)
            &&& handled matches Poll::Ready(None) ==> poll == BpPoll::Ready(HandleResult::Handled)
        }),
{
    lemma_again_step(h, op, o, reply);
}

proof fn lemma_again_step(h: HandlerState, op: BpOp, o: HandleOp, reply: Reply)
    requires
        op.stage == BpStage::Again(Box::new(o)),
    ensures
        ({
            let (h1, poll) = handle_next(h, o, reply);
            let rest = BpOp { stage: BpStage::Callback, ..op };
            bp_next(h, op, reply) == (h1, crate::handler::bp_again(rest, poll))
        }),
{
}

/// A trap instruction or a redirected pointer that stops only once is out of force once
/// the memory was written, or could not be, which is shown; then the thread is put in
/// place, and the user is told if the breakpoint is meant for the thread.
pub proof fn lemma_removed_then_told(
    h: HandlerState,
    op: BpOp,
    r: RemoveOp,
    reply: Reply,
)
    requires
        op.stage == BpStage::Remove(r),
        r.bp == op.bp,
        r.op.bp == op.bp,
        !r.op.enable,
        r.op.stage is Soft,
        op.bp < h.this.debug.bps.len(),
        h.this.debug.bps[op.bp as int].bp_type is Soft,
    ensures
        ({
            let (h1, poll) = bp_next(h, op, reply);
            let s = h.this.debug;
            let s1 = h1.this.debug;
            let b = s.bps[op.bp as int];
            let written = reply is Word && reply->Word_0 > 0;
            let meant = b.hit_tid is None || b.hit_tid == Some(op.tid);
            &&& s1.bp_map == s.bp_map.remove(id_of(b.address))
            &&& s1.dbg_reg == s.dbg_reg
            &&& written ==> !s1.bps[op.bp as int].enabled && s1.reports == s.reports
            &&& !written ==> s1.bps == s.bps && s1.reports == s.reports.push(
                Report::Failure { doing: Doing::DisableRemoved, error: UDbgError::MemoryError },
            )
            &&& match op.width {
                Width::Wide => s1.cx.rip == h.this.record.address as usize && s1.cx32 == s.cx32,
                Width::Narrow => s1.cx32.eip == (h.this.record.address as usize) as u32 && s1.cx
                    == s.cx,
            }
            &&& meant ==> (poll matches Poll::Pending(action, o) && action == Action::Callback(
                UEvent::Breakpoint(op.bp),
            ) && o.stage is Callback)
            &&& !meant ==> poll == BpPoll::Ready(HandleResult::Continue)
        }),
{
    reveal(remove_next);
    reveal(enable_next);
    reveal(bp_met);
    reveal(crate::hit::bp_after);
    let s = h.this.debug;
    let rest = BpOp { stage: BpStage::Callback, ..op };
    let (s1, poll) = remove_next(s, r, reply);
    let (s2, met) = bp_removed(s1, h.this.record, rest, poll);
    assert(bp_next(h, op, reply) == (h.with(s2), met));
}

/// The removal of a breakpoint that stops only once is carried to its end, whatever kind
/// it is of; then the thread is put in place, at the old value of a redirected pointer or
/// where the exception was, and the user is told if the breakpoint is meant for the thread.
pub proof fn lemma_removal_goes_on(h: HandlerState, op: BpOp, r: RemoveOp, reply: Reply)
    requires
        op.stage == BpStage::Remove(r),
    ensures
        ({
            let (s1, removing) = remove_next(h.this.debug, r, reply);
            let (h1, poll) = bp_next(h, op, reply);
            let b = s1.bps[op.bp as int];
            let pc = match b.bp_type {
                InnerBpType::Table { origin, .. } => origin,
                _ => h.this.record.address as usize,
            };
            &&& removing matches Poll::Pending(action, r1) ==> {
                &&& h1 == h.with(s1)
                &&& poll is Pending && poll->Pending_0 == action
                &&& poll->Pending_1 == (BpOp { stage: BpStage::Remove(r1), ..op })
            }
            &&& removing is Ready ==> {
                &&& h1 == h.with(
                    match op.width {
                        Width::Wide => AdaptorState {
                            cx: Context64 { rip: pc as u64, ..s1.cx },
                            ..s1
                        },
                        Width::Narrow => AdaptorState {
                            cx32: Context32 { eip: pc as u32, ..s1.cx32 },
                            ..s1
                        },
                    },
                )
                &&& b.hit_tid is None || b.hit_tid == Some(op.tid) ==> poll is Pending
                    && poll->Pending_0 == Action::Callback(UEvent::Breakpoint(op.bp))
                    && poll->Pending_1.stage is Callback
                &&& b.hit_tid is Some && b.hit_tid != Some(op.tid) ==> !(poll is Pending
                    && poll->Pending_0 is Callback)
            }
        }),
{
    reveal(bp_met);
    reveal(crate::hit::bp_after);
    let rest = BpOp { stage: BpStage::Callback, ..op };
    let (s1, removing) = remove_next(h.this.debug, r, reply);
    let (s2, met) = bp_removed(s1, h.this.record, rest, removing);
    assert(bp_next(h, op, reply) == (h.with(s2), met));
}

} // verus!
