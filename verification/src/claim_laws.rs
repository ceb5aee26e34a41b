//! What the loop makes of an exception that a breakpoint, a step or the start of the
//! target claims, and of what the user then wants done.
use vstd::prelude::*;

use crate::adaptor::{lemma_listed, AdaptorState, Width};
use crate::event_laws::{asks, goes, goes_on, lemma_goes_on, tells, At};
use crate::event_loop::{loop_cont, loop_handled, LoopOp};
use crate::exception_laws::{
    at_exception, concerns_narrow, executes_elsewhere, fault_place, is_free, is_step_number,
    lemma_exception_read, lemma_step_number, looked, narrow_regs, native_regs, stands, step_status,
};
use crate::handler::{
    bp_next, exc_hit, exc_next, exc_start, handle_exc, handle_looked, handle_next, hit_next, After,
    ExcOp, ExcPoll, HandleOp,
};
use crate::hit::{
    bp_after, bp_met, bp_replied, bp_start, hit_bp, int3_hit, step_hit, step_id, table_hit, BpOp,
    BpStage, HitOp,
};
use crate::io::{Action, DebugEvent, EventKind, Poll, Reply};
use crate::reg_laws::{lemma_flags, lemma_signed};
use crate::regs::{Context32, Context64, DbgContext, HWBPRegs};
use crate::reply::{reply_start, ReplyPoll};
use crate::session::{cont_start, HandlerState};
use crate::types::{
    id_of, BpHandle, BpID, Breakpoint, ExceptionRecord, HandleResult, InnerBpType, Tid, UEvent,
    UserReply,
};

verus! {

/// Whether what claims an exception works on the registers of the 32-bit side.
pub open spec fn works_narrow(h: HandlerState, record: ExceptionRecord, a: Reply) -> bool {
    ||| record.code == 0x4000001f
    ||| record.code == 0x4000001e
    ||| record.code == 0xc0000005 && concerns_narrow(h, record, a)
}

/// Whether an exception is one of those that a breakpoint under a number can claim: a
/// trap at that place, once the first of its kind has come; a stop after a step that
/// stands for it; or a fault with the thread at that number, which is not positive.
pub open spec fn leads_to(
    h: HandlerState,
    record: ExceptionRecord,
    a: Reply,
    b: Reply,
    id: BpID,
) -> bool {
    let code = record.code;
    ||| code == 0x4000001f && h.first_bp32_hitted && id == record.address as isize
    ||| code == 0x80000003 && h.first_bp_hitted && id == record.address as isize
    ||| (code == 0x4000001e || code == 0x80000004) && is_step_number(
        step_status(h, record, a, b),
        record.address,
        id,
    ) && !executes_elsewhere(h.this.debug, record, id)
    ||| code == 0xc0000005 && fault_place(h, record, a) <= 0 && id == fault_place(h, record, a)
}

/// Whether an exception says that a step was done.
pub open spec fn steps(record: ExceptionRecord) -> bool {
    record.code == 0x4000001e || record.code == 0x80000004
}

/// A breakpoint that was met once more.
pub open spec fn hit_once_more(b: Breakpoint) -> Breakpoint {
    Breakpoint {
        hit_count: if b.hit_count == usize::MAX {
            0
        } else {
            (b.hit_count + 1) as usize
        },
        ..b
    }
}

/// Whether the thread stands where a breakpoint met it, and its other registers are
/// as they were: at the old value of a redirected pointer, else where the exception
/// was. A slot that stays in force is passed once by the resume flag.
pub open spec fn put_in_place(
    s: AdaptorState,
    s1: AdaptorState,
    b: Breakpoint,
    record: ExceptionRecord,
    narrow: bool,
) -> bool {
    let pc = match b.bp_type {
        InnerBpType::Table { origin, .. } => origin,
        _ => record.address as usize,
    };
    let passes = steps(record) && b.bp_type is Hard && !b.temp;
    if narrow {
        &&& s1.cx == s.cx
        &&& s1.cx32 == (Context32 { eip: pc as u32, eflags: s1.cx32.eflags, ..s.cx32 })
        &&& passes ==> s1.cx32.eflags & 0x10000 != 0
        &&& s1.cx32.eflags & !0x10000u32 == s.cx32.eflags & !0x10000u32
        &&& !passes ==> s1.cx32.eflags == s.cx32.eflags
    } else {
        &&& s1.cx32 == s.cx32
        &&& s1.cx == (Context64 { rip: pc as u64, eflags: s1.cx.eflags, ..s.cx })
        &&& passes ==> s1.cx.eflags & 0x10000 != 0
        &&& s1.cx.eflags & !0x10000u32 == s.cx.eflags & !0x10000u32
        &&& !passes ==> s1.cx.eflags == s.cx.eflags
    }
}

proof fn lemma_counted(b: Breakpoint)
    ensures
        (Breakpoint { hit_count: b.hit_count.wrapping_add(1), ..b }) == hit_once_more(b),
{
}

/// The look at an exception that a breakpoint claims.
proof fn lemma_claim_starts(
    h: HandlerState,
    h1: HandlerState,
    event: DebugEvent,
    first: bool,
    record: ExceptionRecord,
    a: Reply,
    b: Reply,
    id: BpID,
)
    requires
        stands(h, h1, event, record, a, b),
        leads_to(h, record, a, b, id),
        h.this.debug.bp_map.dom().contains(id),
    ensures
        ({
            let s = h1.this.debug;
            let bp = h.this.debug.bp_map[id];
            let narrow = works_narrow(h, record, a);
            let width = if narrow {
                Width::Narrow
            } else {
                Width::Wide
            };
            let s0 = if steps(record) && s.bps[bp as int].bp_type is Hard && !s.bps[bp as int].temp {
                s.set_rf(width)
            } else {
                s
            };
            let (s1, poll) = bp_start(s0, record, bp, width);
            let (h2, next) = exc_start(h1, first, concerns_narrow(h, record, a));
            &&& poll is Pending ==> {
                &&& h2 == h1.with(s1)
                &&& next is Pending
                &&& next->Pending_0 == poll->Pending_0
                &&& next->Pending_1 matches ExcOp::Hit { first: f, after, op } && f == first && op
                    == HitOp::Bp(poll->Pending_1)
            }
            &&& poll matches Poll::Ready(r) ==> h2 == h1.with(s1) && (r != HandleResult::NotHandled
                ==> next == crate::handler::ExcPoll::Ready(r))
        }),
{
    reveal(exc_start);
    let s = h1.this.debug;
    let code = record.code;
    let bp = h.this.debug.bp_map[id];
    assert(s.get_bp(id) == Some(bp));
    if code == 0x4000001f || code == 0x80000003 {
        reveal(int3_hit);
    } else if steps(record) {
        let width = if code == 0x80000004 {
            Width::Wide
        } else {
            Width::Narrow
        };
        assert(s.dr6(width) == step_status(h, record, a, b));
        lemma_step_number(s.dr6(width), record.address);
        assert(id == step_id(s.dr6(width), record.address));
        lemma_step_claims(s, record, width, id);
    } else {
        let width = if works_narrow(h, record, a) {
            Width::Narrow
        } else {
            Width::Wide
        };
        lemma_signed(s.cx, s.cx32, 0, 0);
        assert(s.signed_pc(width) == fault_place(h, record, a));
        reveal(table_hit);
    }
}

proof fn lemma_step_claims(s: AdaptorState, record: ExceptionRecord, width: Width, id: BpID)
    requires
        id == step_id(s.dr6(width), record.address),
        s.bp_map.dom().contains(id),
        !executes_elsewhere(s, record, id),
    ensures
        ({
            let bp = s.bp_map[id];
            let b = s.bps[bp as int];
            let s0 = if b.bp_type is Hard && !b.temp {
                s.set_rf(width)
            } else {
                s
            };
            let (s1, poll) = bp_start(s0, record, bp, width);
            step_hit(s, record, width) == (s1, crate::hit::hit_bp(poll))
        }),
{
    reveal(step_hit);
}

/// Meeting a breakpoint that stays in force: the hit is counted, the thread is put in
/// place, and the user is told if the breakpoint is meant for the thread.
proof fn lemma_met(s: AdaptorState, record: ExceptionRecord, bp: BpHandle, narrow: bool)
    requires
        bp < s.bps.len(),
        !s.bps[bp as int].temp,
    ensures
        ({
            let width = if narrow {
                Width::Narrow
            } else {
                Width::Wide
            };
            let b = s.bps[bp as int];
            let s0 = if steps(record) && b.bp_type is Hard && !b.temp {
                s.set_rf(width)
            } else {
                s
            };
            let (s1, poll) = bp_start(s0, record, bp, width);
            let op = BpOp {
                bp,
                width,
                tid: s.base.event_tid,
                user_step: false,
                stage: BpStage::Callback,
            };
            let meant = b.hit_tid is None || b.hit_tid == Some(s.base.event_tid);
            &&& s1 == (AdaptorState {
                bps: s.bps.update(bp as int, hit_once_more(b)),
                cx: s1.cx,
                cx32: s1.cx32,
                ..s
            })
            &&& put_in_place(s, s1, b, record, narrow)
            &&& meant ==> poll == Poll::<BpOp, HandleResult>::Pending(
                Action::Callback(UEvent::Breakpoint(bp)),
                op,
            )
            &&& !meant ==> poll == bp_after(s1, op)
        }),
{
    reveal(bp_start);
    reveal(bp_met);
    lemma_counted(s.bps[bp as int]);
    lemma_flags(s.cx, s.cx32, true);
}

/// Whether the loop waits for what the user says of a breakpoint.
pub open spec fn waits_for_user(at: At, bp: BpHandle, narrow: bool) -> bool {
    at.1 matches Poll::Pending(_, LoopOp::Handle(HandleOp::Exception(ExcOp::Hit { op, .. }))) && op
        matches HitOp::Bp(o) && o.stage is Callback && o.bp == bp && o.width == (if narrow {
        Width::Narrow
    } else {
        Width::Wide
    })
}

/// A breakpoint that an exception leads to and that stays in force: the hit is
/// counted, the thread is put where it met the breakpoint, and the user is told of it,
/// where the breakpoint is meant for the thread. The table of breakpoints does not
/// change.
pub proof fn lemma_breakpoint_told(
    h: HandlerState,
    event: DebugEvent,
    first: bool,
    record: ExceptionRecord,
    a: Reply,
    b: Reply,
    id: BpID,
)
    requires
        h.wf(),
        event.kind == (EventKind::Exception { first, record }),
        leads_to(h, record, a, b, id),
        h.this.debug.bp_map.dom().contains(id),
        !h.this.debug.bps[h.this.debug.bp_map[id] as int].temp,
        ({
            let tid = h.this.debug.bps[h.this.debug.bp_map[id] as int].hit_tid;
            tid is None || tid == Some(event.tid)
        }),
    ensures
        ({
            let at = looked(h, event, record, a, b);
            let bp = h.this.debug.bp_map[id];
            let met = h.this.debug.bps[bp as int];
            let narrow = works_narrow(h, record, a);
            let read = AdaptorState {
                cx: native_regs(h, a),
                cx32: narrow_regs(h, record, a, b),
                ..h.this.debug
            };
            &&& tells(at, UEvent::Breakpoint(bp))
            &&& waits_for_user(at, bp, narrow)
            &&& at.0.this.debug.bps == h.this.debug.bps.update(bp as int, hit_once_more(met))
            &&& at.0.this.debug.bp_map == h.this.debug.bp_map
            &&& at.0.this.debug.dbg_reg == h.this.debug.dbg_reg
            &&& at.0.this.debug.step_tid == h.this.debug.step_tid
            &&& put_in_place(read, at.0.this.debug, met, record, narrow)
            &&& at.0.this.record == record
            &&& at.0.event == event
        }),
{
    let h1 = at_exception(h, event, record, a, b);
    let bp = h.this.debug.bp_map[id];
    lemma_exception_read(h, event, first, record, a, b);
    lemma_listed(h.this.debug, id);
    lemma_claim_starts(h, h1, event, first, record, a, b, id);
    lemma_met(h1.this.debug, record, bp, works_narrow(h, record, a));
}

/// Whether a session met a breakpoint at an exception: the hit is counted, the thread is
/// put where it met the breakpoint, and the table of breakpoints is as it was.
pub open spec fn has_met(
    h: HandlerState,
    h2: HandlerState,
    record: ExceptionRecord,
    a: Reply,
    b: Reply,
    bp: BpHandle,
) -> bool {
    let s = h.this.debug;
    let met = s.bps[bp as int];
    let read = AdaptorState { cx: native_regs(h, a), cx32: narrow_regs(h, record, a, b), ..s };
    &&& h2.this.debug.bps == s.bps.update(bp as int, hit_once_more(met))
    &&& h2.this.debug.bp_map == s.bp_map
    &&& h2.this.debug.dbg_reg == s.dbg_reg
    &&& h2.this.debug.step_tid == s.step_tid
    &&& put_in_place(read, h2.this.debug, met, record, works_narrow(h, record, a))
    &&& h2.this.record == record
}

/// A breakpoint that stays in force and is meant for another thread than the one that met
/// it: the hit is counted, but the user is not told; the thread is led over it.
pub proof fn lemma_breakpoint_passed(
    h: HandlerState,
    event: DebugEvent,
    first: bool,
    record: ExceptionRecord,
    a: Reply,
    b: Reply,
    id: BpID,
)
    requires
        h.wf(),
        event.kind == (EventKind::Exception { first, record }),
        leads_to(h, record, a, b, id),
        h.this.debug.bp_map.dom().contains(id),
        !h.this.debug.bps[h.this.debug.bp_map[id] as int].temp,
        h.this.debug.bps[h.this.debug.bp_map[id] as int].hit_tid is Some,
        h.this.debug.bps[h.this.debug.bp_map[id] as int].hit_tid != Some(event.tid),
    ensures
        exists|h2: HandlerState|
            {
                &&& #[trigger] leads_over(
                    h2,
                    looked(h, event, record, a, b),
                    h.this.debug.bp_map[id],
                )
                &&& has_met(h, h2, record, a, b, h.this.debug.bp_map[id])
                &&& h2.event == event
            },
{
    let h1 = at_exception(h, event, record, a, b);
    let s = h1.this.debug;
    let bp = h.this.debug.bp_map[id];
    let narrow = works_narrow(h, record, a);
    let width = if narrow {
        Width::Narrow
    } else {
        Width::Wide
    };
    lemma_exception_read(h, event, first, record, a, b);
    lemma_listed(h.this.debug, id);
    lemma_claim_starts(h, h1, event, first, record, a, b, id);
    lemma_met(s, record, bp, narrow);
    let s0 = if steps(record) && s.bps[bp as int].bp_type is Hard && !s.bps[bp as int].temp {
        s.set_rf(width)
    } else {
        s
    };
    let (s1, poll) = bp_start(s0, record, bp, width);
    let h2 = h1.with(s1);
    let op = BpOp {
        bp,
        width,
        tid: s.base.event_tid,
        user_step: false,
        stage: BpStage::Callback,
    };
    lemma_led_over(h2, op);
    assert(poll == bp_after(s1, op));
    assert(leads_over(h2, looked(h, event, record, a, b), bp));
}

/// The session in which the stopped thread does one step and is remembered for it.
pub open spec fn stepping(s: AdaptorState, s1: AdaptorState, narrow: bool) -> bool {
    &&& s1 == (AdaptorState { step_tid: s.base.event_tid, cx: s1.cx, cx32: s1.cx32, ..s })
    &&& if narrow {
        &&& s1.cx == s.cx
        &&& s1.cx32 == (Context32 { eflags: s1.cx32.eflags, ..s.cx32 })
        &&& s1.cx32.eflags & 0x100 != 0
        &&& s1.cx32.eflags & !0x100u32 == s.cx32.eflags & !0x100u32
    } else {
        &&& s1.cx32 == s.cx32
        &&& s1.cx == (Context64 { eflags: s1.cx.eflags, ..s.cx })
        &&& s1.cx.eflags & 0x100 != 0
        &&& s1.cx.eflags & !0x100u32 == s.cx.eflags & !0x100u32
    }
}

/// Whether a breakpoint is a trap instruction that is on and in force: the thread has
/// to be led over it.
pub open spec fn is_in_the_way(s: AdaptorState, bp: BpHandle) -> bool {
    let b = s.bps[bp as int];
    b.bp_type is Soft && b.enabled && s.bp_map.dom().contains(id_of(b.address))
}

/// Whether the loop leads the thread over a breakpoint, or goes on from the event
/// where there is nothing to lead it over: first the byte under a trap instruction is
/// written back.
pub open spec fn leads_over(h: HandlerState, at: At, bp: BpHandle) -> bool {
    let b = h.this.debug.bps[bp as int];
    if is_in_the_way(h.this.debug, bp) {
        &&& at.0 == h
        &&& asks(at, Action::WriteCode { address: b.address, byte: b.bp_type->Soft_0 })
    } else {
        goes_on(h, at, 0x00010002)
    }
}

/// What the user wants done at a breakpoint: a thread that is to run is led over it; one
/// that is to step gets the trap flag first; to step out, the host is asked for a call
/// where the thread stopped; to go somewhere, the byte there is read.
pub proof fn lemma_wish_at_breakpoint(at: At, bp: BpHandle, narrow: bool, wish: UserReply)
    requires
        waits_for_user(at, bp, narrow),
        bp < at.0.this.debug.bps.len(),
    ensures
        ({
            let at1 = goes(at, Reply::User(wish));
            match wish {
                UserReply::Run(_) => leads_over(at.0, at1, bp),
                UserReply::StepIn => exists|s: AdaptorState| #[trigger]
                    stepping(at.0.this.debug, s, narrow) && leads_over(at.0.with(s), at1, bp),
                UserReply::StepOut => at1.0 == at.0 && asks(
                    at1,
                    Action::CheckCall { address: at.0.this.record.address as usize },
                ),
                UserReply::Goto(target) => at1.0 == at.0 && asks(
                    at1,
                    Action::ReadInsn { address: target },
                ),
            }
        }),
{
    match at.1 {
        Poll::Pending(_, LoopOp::Handle(HandleOp::Exception(ExcOp::Hit { first, after, op }))) => {
            if let HitOp::Bp(o) = op {
                lemma_wish_of(at, first, after, o, narrow, wish);
            }
        },
        _ => {},
    }
}

proof fn lemma_wish_of(
    at: At,
    first: bool,
    after: After,
    o: BpOp,
    narrow: bool,
    wish: UserReply,
)
    requires
        o.stage is Callback,
        o.width == (if narrow {
            Width::Narrow
        } else {
            Width::Wide
        }),
        o.bp < at.0.this.debug.bps.len(),
        at.1 is Pending,
        at.1->Pending_1 == LoopOp::Handle(
            HandleOp::Exception(ExcOp::Hit { first, after, op: HitOp::Bp(o) }),
        ),
    ensures
        ({
            let at1 = goes(at, Reply::User(wish));
            match wish {
                UserReply::Run(_) => leads_over(at.0, at1, o.bp),
                UserReply::StepIn => exists|s: AdaptorState| #[trigger]
                    stepping(at.0.this.debug, s, narrow) && leads_over(at.0.with(s), at1, o.bp),
                UserReply::StepOut => at1.0 == at.0 && asks(
                    at1,
                    Action::CheckCall { address: at.0.this.record.address as usize },
                ),
                UserReply::Goto(target) => at1.0 == at.0 && asks(
                    at1,
                    Action::ReadInsn { address: target },
                ),
            }
        }),
{
    let s = at.0.this.debug;
    let rest = BpOp { stage: BpStage::Callback, ..o };
    let address = at.0.this.record.address as usize;
    let (s1, poll) = reply_start(s, o.width, address, wish);
    assert(at.0.with(s) == at.0);
    lemma_wish(s, o.width, address, wish);
    lemma_flags(s.cx, s.cx32, true);
    lemma_wish_led(at, first, after, o, wish);
    if wish is StepIn {
        assert(stepping(s, s1, narrow));
    }
}

proof fn lemma_wish_led(at: At, first: bool, after: After, o: BpOp, wish: UserReply)
    requires
        o.stage is Callback,
        at.1 is Pending,
        at.1->Pending_1 == LoopOp::Handle(
            HandleOp::Exception(ExcOp::Hit { first, after, op: HitOp::Bp(o) }),
        ),
    ensures
        ({
            let (s1, poll) = reply_start(
                at.0.this.debug,
                o.width,
                at.0.this.record.address as usize,
                wish,
            );
            let at1 = goes(at, Reply::User(wish));
            let h1 = at.0.with(s1);
            o.bp < s1.bps.len() ==> {
                &&& poll matches Poll::Pending(action, _) ==> at1.0 == h1 && asks(at1, action)
                &&& poll is Ready ==> leads_over(h1, at1, o.bp)
            }
        }),
{
    let (s1, poll) = reply_start(
        at.0.this.debug,
        o.width,
        at.0.this.record.address as usize,
        wish,
    );
    lemma_wish_step(at, first, after, o, wish);
    if o.bp < s1.bps.len() {
        lemma_replied(
            at.0.with(s1),
            first,
            after,
            BpOp { stage: BpStage::Callback, ..o },
            poll,
        );
    }
}

/// The loop once the user's wish was started on: it waits for what the wish waits for,
/// or leads the thread over the breakpoint.
proof fn lemma_replied(h: HandlerState, first: bool, after: After, rest: BpOp, poll: ReplyPoll)
    requires
        rest.bp < h.this.debug.bps.len(),
    ensures
        ({
            let at = loop_handled(
                (
                    h,
                    handle_exc(
                        exc_hit(
                            h,
                            first,
                            after,
                            hit_bp(bp_replied(h.this.debug, rest, poll)),
                        ),
                    ),
                ),
            );
            &&& poll matches Poll::Pending(action, _) ==> at.0 == h && asks(at, action)
            &&& poll is Ready ==> leads_over(h, at, rest.bp)
        }),
{
    lemma_led_over(h, rest);
}

proof fn lemma_wish(s: AdaptorState, width: Width, address: usize, wish: UserReply)
    ensures
        ({
            let (s1, poll) = reply_start(s, width, address, wish);
            match wish {
                UserReply::Run(_) => s1 == s && poll is Ready,
                UserReply::StepIn => s1 == (AdaptorState {
                    step_tid: s.base.event_tid,
                    ..s.set_step(width, true)
                }) && poll is Ready,
                UserReply::StepOut => s1 == s && (poll matches Poll::Pending(action, _) && action
                    == (Action::CheckCall { address })),
                UserReply::Goto(target) => s1 == s && (poll matches Poll::Pending(action, _)
                    && action == (Action::ReadInsn { address: target })),
            }
        }),
{
    reveal(reply_start);
}

proof fn lemma_wish_starts(h: HandlerState, o: BpOp, wish: UserReply)
    requires
        o.stage is Callback,
    ensures
        ({
            let (s1, poll) = reply_start(
                h.this.debug,
                o.width,
                h.this.record.address as usize,
                wish,
            );
            let rest = BpOp { stage: BpStage::Callback, ..o };
            bp_next(h, o, Reply::User(wish)) == (h.with(s1), bp_replied(s1, rest, poll))
        }),
{
}

proof fn lemma_wish_step(at: At, first: bool, after: After, o: BpOp, wish: UserReply)
    requires
        o.stage is Callback,
        at.1 is Pending,
        at.1->Pending_1 == LoopOp::Handle(
            HandleOp::Exception(ExcOp::Hit { first, after, op: HitOp::Bp(o) }),
        ),
    ensures
        ({
            let (s1, poll) = reply_start(
                at.0.this.debug,
                o.width,
                at.0.this.record.address as usize,
                wish,
            );
            let rest = BpOp { stage: BpStage::Callback, ..o };
            let h1 = at.0.with(s1);
            goes(at, Reply::User(wish)) == loop_handled(
                (h1, handle_exc(exc_hit(h1, first, after, hit_bp(bp_replied(s1, rest, poll))))),
            )
        }),
{
    lemma_hit_step(at, first, after, o, Reply::User(wish));
    lemma_wish_starts(at.0, o, wish);
}

/// An answer that a breakpoint waits for, seen from the loop.
proof fn lemma_hit_step(at: At, first: bool, after: After, o: BpOp, reply: Reply)
    requires
        at.1 is Pending,
        at.1->Pending_1 == LoopOp::Handle(
            HandleOp::Exception(ExcOp::Hit { first, after, op: HitOp::Bp(o) }),
        ),
    ensures
        ({
            let (h1, poll) = bp_next(at.0, o, reply);
            goes(at, reply) == loop_handled(
                (h1, handle_exc(exc_hit(h1, first, after, hit_bp(poll)))),
            )
        }),
{
    reveal(goes);
    let e = ExcOp::Hit { first, after, op: HitOp::Bp(o) };
    assert(goes(at, reply) == loop_handled(handle_next(at.0, HandleOp::Exception(e), reply)));
    assert(handle_next(at.0, HandleOp::Exception(e), reply) == handle_looked(
        exc_next(at.0, e, reply),
    ));
    lemma_exc_step(at.0, first, after, o, reply);
}

proof fn lemma_exc_step(h: HandlerState, first: bool, after: After, o: BpOp, reply: Reply)
    ensures
        ({
            let (h1, poll) = bp_next(h, o, reply);
            exc_next(h, ExcOp::Hit { first, after, op: HitOp::Bp(o) }, reply) == (
                h1,
                exc_hit(h1, first, after, hit_bp(poll)),
            )
        }),
{
    assert(hit_next(h, HitOp::Bp(o), reply) == ({
        let (h1, poll) = bp_next(h, o, reply);
        (h1, hit_bp(poll))
    }));
}

/// The loop after what the user said led to nothing more than leading the thread over
/// the breakpoint.
proof fn lemma_led_over(h: HandlerState, op: BpOp)
    requires
        op.bp < h.this.debug.bps.len(),
    ensures
        match bp_after(h.this.debug, op) {
            Poll::Pending(action, _) => is_in_the_way(h.this.debug, op.bp) && action == (
            Action::WriteCode {
                address: h.this.debug.bps[op.bp as int].address,
                byte: h.this.debug.bps[op.bp as int].bp_type->Soft_0,
            }),
            Poll::Ready(r) => r == HandleResult::Continue && !is_in_the_way(h.this.debug, op.bp)
                && goes_on(h, loop_cont(cont_start(h, r)), 0x00010002),
        },
{
    reveal(bp_after);
    lemma_goes_on(h, HandleResult::Continue);
}

/// Whether the loop waits for what the user says of a step.
pub open spec fn waits_at_step(at: At, narrow: bool) -> bool {
    at.1 matches Poll::Pending(_, LoopOp::Handle(HandleOp::Exception(ExcOp::Hit { op, .. }))) && op
        matches HitOp::Step { width } && width == (if narrow {
        Width::Narrow
    } else {
        Width::Wide
    })
}

/// A stop after a step that no breakpoint claims, in the thread that was asked to step:
/// the user is told of a step, and the thread is no longer remembered for it.
pub proof fn lemma_step_told(
    h: HandlerState,
    event: DebugEvent,
    first: bool,
    record: ExceptionRecord,
    a: Reply,
    b: Reply,
)
    requires
        event.kind == (EventKind::Exception { first, record }),
        steps(record),
        h.this.debug.step_tid == event.tid,
        forall|id: BpID| #[trigger]
            is_step_number(step_status(h, record, a, b), record.address, id) ==> is_free(
                h.this.debug,
                id,
            ),
    ensures
        ({
            let at = looked(h, event, record, a, b);
            let done = h.with(AdaptorState { step_tid: 0, ..h.this.debug });
            &&& tells(at, UEvent::Step)
            &&& waits_at_step(at, record.code == 0x4000001e)
            &&& stands(done, at.0, event, record, a, b)
        }),
{
    let h1 = at_exception(h, event, record, a, b);
    let s = h1.this.debug;
    let width = if record.code == 0x80000004 {
        Width::Wide
    } else {
        Width::Narrow
    };
    lemma_exception_read(h, event, first, record, a, b);
    assert(s.dr6(width) == step_status(h, record, a, b));
    lemma_step_number(s.dr6(width), record.address);
    let id = step_id(s.dr6(width), record.address);
    assert(is_step_number(step_status(h, record, a, b), record.address, id));
    lemma_step_start(h1, first, concerns_narrow(h, record, a));
    lemma_stands_with(h, h1, event, record, a, b, 0, h.this.debug.bps);
}

/// The session at an exception is that of before in everything the exception does not
/// bring.
proof fn lemma_stands_with(
    h: HandlerState,
    h1: HandlerState,
    event: DebugEvent,
    record: ExceptionRecord,
    a: Reply,
    b: Reply,
    step_tid: Tid,
    bps: Seq<Breakpoint>,
)
    requires
        stands(h, h1, event, record, a, b),
    ensures
        stands(
            h.with(AdaptorState { step_tid, ..h.this.debug }),
            h1.with(AdaptorState { step_tid, ..h1.this.debug }),
            event,
            record,
            a,
            b,
        ),
        stands(
            h.with(AdaptorState { bps, ..h.this.debug }),
            h1.with(AdaptorState { bps, ..h1.this.debug }),
            event,
            record,
            a,
            b,
        ),
{
}

proof fn lemma_stands_marked(
    h: HandlerState,
    h1: HandlerState,
    event: DebugEvent,
    record: ExceptionRecord,
    a: Reply,
    b: Reply,
)
    requires
        stands(h, h1, event, record, a, b),
    ensures
        stands(
            HandlerState { first_bp_hitted: true, ..h },
            HandlerState { first_bp_hitted: true, ..h1 },
            event,
            record,
            a,
            b,
        ),
        stands(
            HandlerState { first_bp32_hitted: true, ..h },
            HandlerState { first_bp32_hitted: true, ..h1 },
            event,
            record,
            a,
            b,
        ),
{
}

proof fn lemma_step_start(h: HandlerState, first: bool, narrow: bool)
    requires
        steps(h.this.record),
        h.this.debug.step_tid == h.this.debug.base.event_tid,
        ({
            let width = if h.this.record.code == 0x80000004 {
                Width::Wide
            } else {
                Width::Narrow
            };
            is_free(h.this.debug, step_id(h.this.debug.dr6(width), h.this.record.address))
        }),
    ensures
        ({
            let (h1, poll) = exc_start(h, first, narrow);
            &&& h1 == h.with(AdaptorState { step_tid: 0, ..h.this.debug })
            &&& poll matches Poll::Pending(action, ExcOp::Hit { op, .. }) && action
                == Action::Callback(UEvent::Step) && op == (HitOp::Step {
                width: if h.this.record.code == 0x80000004 {
                    Width::Wide
                } else {
                    Width::Narrow
                },
            })
        }),
{
    reveal(exc_start);
    reveal(step_hit);
}

/// Whether the loop waits for what the user says of the start of the target, and with
/// which answer it then goes on.
pub open spec fn waits_at_start(at: At, narrow: bool, status: u32) -> bool {
    at.1 matches Poll::Pending(_, LoopOp::Handle(HandleOp::Exception(ExcOp::Init { width, result })))
        && width == (if narrow {
        Width::Narrow
    } else {
        Width::Wide
    }) && result.number() == status
}

/// The first trap of the native side tells the user that the target has started, but
/// in a 32-bit target that was started and not attached to: that goes on silently. The
/// first trap of the 32-bit side tells so always, and is left to the target after it.
pub proof fn lemma_start_told(
    h: HandlerState,
    event: DebugEvent,
    first: bool,
    record: ExceptionRecord,
    a: Reply,
    b: Reply,
)
    requires
        event.kind == (EventKind::Exception { first, record }),
    ensures
        record.code == 0x80000003 && !h.first_bp_hitted ==> {
            let at = looked(h, event, record, a, b);
            let marked = HandlerState { first_bp_hitted: true, ..h };
            if !h.this.debug.wow64 || h.this.attached {
                &&& tells(at, UEvent::InitBp)
                &&& waits_at_start(at, false, 0x00010002)
                &&& stands(marked, at.0, event, record, a, b)
            } else {
                exists|h1: HandlerState| #[trigger]
                    stands(marked, h1, event, record, a, b) && goes_on(h1, at, 0x00010002)
            }
        },
        record.code == 0x4000001f && !h.first_bp32_hitted ==> {
            let at = looked(h, event, record, a, b);
            let marked = HandlerState { first_bp32_hitted: true, ..h };
            &&& tells(at, UEvent::InitBp)
            &&& waits_at_start(at, true, 0x80010001)
            &&& stands(marked, at.0, event, record, a, b)
        },
{
    let h1 = at_exception(h, event, record, a, b);
    lemma_exception_read(h, event, first, record, a, b);
    lemma_start(h1, first, concerns_narrow(h, record, a));
    lemma_stands_marked(h, h1, event, record, a, b);
    let marked = HandlerState { first_bp_hitted: true, ..h1 };
    lemma_goes_on(marked, HandleResult::Continue);
}

proof fn lemma_start(h: HandlerState, first: bool, narrow: bool)
    ensures
        h.this.record.code == 0x80000003 && !h.first_bp_hitted ==> {
            let (h1, poll) = exc_start(h, first, narrow);
            &&& h1 == (HandlerState { first_bp_hitted: true, ..h })
            &&& if !h.this.debug.wow64 || h.this.attached {
                poll == ExcPoll::Pending(
                    Action::Callback(UEvent::InitBp),
                    ExcOp::Init { width: Width::Wide, result: HandleResult::Continue },
                )
            } else {
                poll == ExcPoll::Ready(HandleResult::Continue)
            }
        },
        h.this.record.code == 0x4000001f && !h.first_bp32_hitted ==> {
            let (h1, poll) = exc_start(h, first, narrow);
            &&& h1 == (HandlerState { first_bp32_hitted: true, ..h })
            &&& poll == ExcPoll::Pending(
                Action::Callback(UEvent::InitBp),
                ExcOp::Init { width: Width::Narrow, result: HandleResult::NotHandled },
            )
        },
{
    reveal(exc_start);
}

/// What the user wants done once told of a step or of the start of the target: a
/// thread that is to run goes on; one that is to step gets the trap flag and goes on;
/// to step out, the host is asked for a call where the thread stopped; to go somewhere,
/// the byte there is read.
pub open spec fn wish_done(
    at: At,
    at1: At,
    narrow: bool,
    status: u32,
    wish: UserReply,
) -> bool {
    match wish {
        UserReply::Run(_) => goes_on(at.0, at1, status),
        UserReply::StepIn => exists|s: AdaptorState| #[trigger]
            stepping(at.0.this.debug, s, narrow) && goes_on(at.0.with(s), at1, status),
        UserReply::StepOut => at1.0 == at.0 && asks(
            at1,
            Action::CheckCall { address: at.0.this.record.address as usize },
        ),
        UserReply::Goto(target) => at1.0 == at.0 && asks(at1, Action::ReadInsn { address: target }),
    }
}

/// What the user wants done after a step is done.
pub proof fn lemma_wish_at_step(at: At, narrow: bool, wish: UserReply)
    requires
        waits_at_step(at, narrow),
    ensures
        wish_done(at, goes(at, Reply::User(wish)), narrow, 0x00010002, wish),
{
    match at.1 {
        Poll::Pending(_, LoopOp::Handle(HandleOp::Exception(ExcOp::Hit { first, after, op }))) => {
            if let HitOp::Step { width } = op {
                let s = at.0.this.debug;
                let (s1, poll) = reply_start(s, width, at.0.this.record.address as usize, wish);
                lemma_step_answered(at, first, after, width, wish);
                lemma_wish(s, width, at.0.this.record.address as usize, wish);
                lemma_flags(s.cx, s.cx32, true);
                assert(at.0.with(s) == at.0);
                if wish is StepIn {
                    assert(stepping(s, s1, narrow));
                }
            }
        },
        _ => {},
    }
}

proof fn lemma_step_answered(at: At, first: bool, after: After, width: Width, wish: UserReply)
    requires
        at.1 is Pending,
        at.1->Pending_1 == LoopOp::Handle(
            HandleOp::Exception(ExcOp::Hit { first, after, op: HitOp::Step { width } }),
        ),
    ensures
        ({
            let (s1, poll) = reply_start(
                at.0.this.debug,
                width,
                at.0.this.record.address as usize,
                wish,
            );
            let at1 = goes(at, Reply::User(wish));
            let h1 = at.0.with(s1);
            &&& poll matches Poll::Pending(action, _) ==> at1.0 == h1 && asks(at1, action)
            &&& poll is Ready ==> goes_on(h1, at1, 0x00010002)
        }),
{
    reveal(goes);
    let (s1, poll) = reply_start(
        at.0.this.debug,
        width,
        at.0.this.record.address as usize,
        wish,
    );
    lemma_goes_on(at.0.with(s1), HandleResult::Continue);
}

/// What the user wants done at the start of the target is done.
pub proof fn lemma_wish_at_start(at: At, narrow: bool, status: u32, wish: UserReply)
    requires
        waits_at_start(at, narrow, status),
    ensures
        wish_done(at, goes(at, Reply::User(wish)), narrow, status, wish),
{
    match at.1 {
        Poll::Pending(_, LoopOp::Handle(HandleOp::Exception(ExcOp::Init { width, result }))) => {
            let s = at.0.this.debug;
            let (s1, poll) = reply_start(s, width, at.0.this.record.address as usize, wish);
            lemma_start_answered(at, width, result, wish);
            lemma_wish(s, width, at.0.this.record.address as usize, wish);
            lemma_flags(s.cx, s.cx32, true);
            assert(at.0.with(s) == at.0);
            if wish is StepIn {
                assert(stepping(s, s1, narrow));
            }
        },
        _ => {},
    }
}

proof fn lemma_start_answered(at: At, width: Width, result: HandleResult, wish: UserReply)
    requires
        at.1 is Pending,
        at.1->Pending_1 == LoopOp::Handle(HandleOp::Exception(ExcOp::Init { width, result })),
    ensures
        ({
            let (s1, poll) = reply_start(
                at.0.this.debug,
                width,
                at.0.this.record.address as usize,
                wish,
            );
            let at1 = goes(at, Reply::User(wish));
            let h1 = at.0.with(s1);
            &&& poll matches Poll::Pending(action, _) ==> at1.0 == h1 && asks(at1, action)
            &&& poll is Ready ==> goes_on(h1, at1, result.number())
        }),
{
    reveal(goes);
    let (s1, poll) = reply_start(
        at.0.this.debug,
        width,
        at.0.this.record.address as usize,
        wish,
    );
    lemma_goes_on(at.0.with(s1), result);
}

/// While the target is being left, the user is not told of a fault or another exception
/// that nothing claims: it is left to the target.
pub proof fn lemma_left_untold(
    h: HandlerState,
    event: DebugEvent,
    first: bool,
    record: ExceptionRecord,
    a: Reply,
    b: Reply,
)
    requires
        event.kind == (EventKind::Exception { first, record }),
        h.this.detaching,
        !steps(record),
        record.code != 0x4000001f,
        record.code != 0x80000003,
        record.code == 0xc0000005 ==> fault_place(h, record, a) > 0 || is_free(
            h.this.debug,
            fault_place(h, record, a) as isize,
        ),
    ensures
        exists|h1: HandlerState| #[trigger]
            stands(h, h1, event, record, a, b) && goes_on(
                h1,
                looked(h, event, record, a, b),
                0x80010001,
            ),
{
    let h1 = at_exception(h, event, record, a, b);
    let s = h1.this.debug;
    lemma_exception_read(h, event, first, record, a, b);
    lemma_signed(s.cx, s.cx32, 0, 0);
    let width = if concerns_narrow(h, record, a) {
        Width::Narrow
    } else {
        Width::Wide
    };
    assert(s.signed_pc(width) == fault_place(h, record, a));
    lemma_left(h1, first, concerns_narrow(h, record, a));
    lemma_goes_on(h1, HandleResult::NotHandled);
}

proof fn lemma_left(h: HandlerState, first: bool, narrow: bool)
    requires
        h.this.detaching,
        !steps(h.this.record),
        h.this.record.code != 0x4000001f,
        h.this.record.code != 0x80000003,
        ({
            let width = if narrow {
                Width::Narrow
            } else {
                Width::Wide
            };
            let pc = h.this.debug.signed_pc(width);
            h.this.record.code == 0xc0000005 ==> pc > 0 || is_free(h.this.debug, pc)
        }),
    ensures
        exc_start(h, first, narrow) == (h, ExcPoll::Ready(HandleResult::NotHandled)),
{
    reveal(exc_start);
    reveal(table_hit);
    assert(h.with(h.this.debug) == h);
}

/// What switching a breakpoint off asks for: the old byte, or the old pointer, is
/// written back; for a slot the threads are walked.
pub open spec fn off_action(b: Breakpoint) -> Action {
    match b.bp_type {
        InnerBpType::Soft(raw_byte) => Action::WriteCode { address: b.address, byte: raw_byte },
        InnerBpType::Table { origin, .. } => Action::WritePtr { address: b.address, value: origin },
        InnerBpType::Hard(_) => Action::FirstThread,
    }
}

/// Whether the loop removes a breakpoint before it tells of it.
pub open spec fn removes_first(at: At, bp: BpHandle, narrow: bool, tid: Tid) -> bool {
    at.1 matches Poll::Pending(_, LoopOp::Handle(HandleOp::Exception(ExcOp::Hit { op, .. }))) && op
        matches HitOp::Bp(o) && o.bp == bp && o.tid == tid && o.width == (if narrow {
        Width::Narrow
    } else {
        Width::Wide
    }) && (o.stage matches BpStage::Remove(r) && r.bp == bp && r.op.bp == bp && !r.op.enable)
}

/// A breakpoint that stops only once and that an exception leads to: the hit is
/// counted, and it is removed before anything else, which starts with switching it off.
pub proof fn lemma_temporary_removed(
    h: HandlerState,
    event: DebugEvent,
    first: bool,
    record: ExceptionRecord,
    a: Reply,
    b: Reply,
    id: BpID,
)
    requires
        h.wf(),
        event.kind == (EventKind::Exception { first, record }),
        leads_to(h, record, a, b, id),
        h.this.debug.bp_map.dom().contains(id),
        h.this.debug.bps[h.this.debug.bp_map[id] as int].temp,
    ensures
        ({
            let at = looked(h, event, record, a, b);
            let bp = h.this.debug.bp_map[id];
            let met = h.this.debug.bps[bp as int];
            let counted = h.with(
                AdaptorState {
                    bps: h.this.debug.bps.update(bp as int, hit_once_more(met)),
                    ..h.this.debug
                },
            );
            &&& asks(at, off_action(met))
            &&& removes_first(at, bp, works_narrow(h, record, a), event.tid)
            &&& stands(counted, at.0, event, record, a, b)
        }),
{
    let h1 = at_exception(h, event, record, a, b);
    let bp = h.this.debug.bp_map[id];
    lemma_exception_read(h, event, first, record, a, b);
    lemma_listed(h.this.debug, id);
    lemma_claim_starts(h, h1, event, first, record, a, b, id);
    lemma_met_once(h1.this.debug, record, bp, works_narrow(h, record, a));
    let met = h.this.debug.bps[bp as int];
    let bps = h.this.debug.bps.update(bp as int, hit_once_more(met));
    lemma_stands_with(h, h1, event, record, a, b, 0, bps);
}

proof fn lemma_met_once(s: AdaptorState, record: ExceptionRecord, bp: BpHandle, narrow: bool)
    requires
        bp < s.bps.len(),
        s.bps[bp as int].temp,
    ensures
        ({
            let width = if narrow {
                Width::Narrow
            } else {
                Width::Wide
            };
            let b = s.bps[bp as int];
            let (s1, poll) = bp_start(s, record, bp, width);
            &&& s1 == (AdaptorState { bps: s.bps.update(bp as int, hit_once_more(b)), ..s })
            &&& poll matches Poll::Pending(action, o) && action == off_action(b) && o.bp == bp
                && o.tid == s.base.event_tid && o.width == width && (o.stage matches BpStage::Remove(
                r,
            ) && r.bp == bp && r.op.bp == bp && !r.op.enable)
        }),
{
    reveal(bp_start);
    lemma_counted(s.bps[bp as int]);
}

} // verus!
