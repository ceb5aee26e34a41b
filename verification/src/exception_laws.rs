//! What the loop makes of an exception, told from the event and the registers.
use vstd::prelude::*;

use crate::adaptor::{AdaptorState, UDbgBase, Width};
use crate::event_laws::{
    asks, asks_registers, comes, goes, goes_on, lemma_goes_on, reached, tells, took_registers, At,
};
use crate::event_loop::{loop_cont, loop_handled, LoopOp};
use crate::handler::{
    context32_read, exc_start, handle_looked, handle_start, on_narrow_side, with_arch, After, ExcOp,
    HandleOp,
};
use crate::handler_laws::lemma_step_id;
use crate::hit::{int3_hit, step_hit, step_id, table_hit, HitOp, HitPoll};
use crate::io::{Action, DebugEvent, EventKind, Poll, Reply};
use crate::reg_laws::lemma_signed;
use crate::regs::{Context32, Context64, DbgContext, HWBPRegs};
use crate::session::{cont_start, context_read, fetched, HandlerState, StandardState};
use crate::types::{Arch, BpID, ExceptionRecord, HandleResult, InnerBpType, UEvent, UserReply};

verus! {

/// The registers that the host read, or those of before where it read none.
pub open spec fn native_regs(h: HandlerState, a: Reply) -> Context64 {
    match a {
        Reply::Context(cx) => cx,
        _ => h.this.debug.cx,
    }
}

/// Whether an exception concerns the 32-bit side of its thread: in a 32-bit target,
/// one of the codes of that side, or any in a thread that runs 32-bit code.
pub open spec fn concerns_narrow(h: HandlerState, record: ExceptionRecord, a: Reply) -> bool {
    h.wow64 && {
        ||| record.code == 0x4000001f
        ||| record.code == 0x4000001e
        ||| record.code == 0x4000001c
        ||| record.code == 0xc000026f
        ||| record.code == 0xc0000270
        ||| native_regs(h, a).seg_cs == 0x23
    }
}

/// The registers of the 32-bit side that an exception is looked at with: those the
/// host read, put where the exception was; those of before, where the exception does
/// not concern that side.
pub open spec fn narrow_regs(h: HandlerState, record: ExceptionRecord, a: Reply, b: Reply) ->
    Context32 {
    if concerns_narrow(h, record, a) {
        let cx32 = match b {
            Reply::Context32(cx32) => cx32,
            _ => h.this.debug.cx32,
        };
        Context32 { eip: (record.address as usize) as u32, ..cx32 }
    } else {
        h.this.debug.cx32
    }
}

/// The loop once an exception that came was looked at, with the answers that brought
/// the registers.
pub open spec fn looked(
    h: HandlerState,
    event: DebugEvent,
    record: ExceptionRecord,
    a: Reply,
    b: Reply,
) -> At {
    let at = goes(comes(h, event), a);
    if concerns_narrow(h, record, a) {
        goes(at, b)
    } else {
        at
    }
}

/// Whether the session is the one of before with the event, the registers and the
/// instruction set of it taken in.
pub open spec fn stands(
    h: HandlerState,
    h1: HandlerState,
    event: DebugEvent,
    record: ExceptionRecord,
    a: Reply,
    b: Reply,
) -> bool {
    let s = h.this.debug;
    let narrow = concerns_narrow(h, record, a);
    &&& h1.event == event
    &&& h1.this.record == record
    &&& h1 == (HandlerState {
        this: StandardState { debug: h1.this.debug, record, ..h.this },
        event,
        ..h
    })
    &&& h1.this.debug == (AdaptorState {
        base: UDbgBase {
            status: crate::types::UDbgStatus::Paused,
            event_tid: event.tid,
            event_pc: if a is Context {
                native_regs(h, a).rip as usize
            } else {
                record.address as usize
            },
            arch: if narrow {
                Arch::X86
            } else {
                Arch::X64
            },
            ..s.base
        },
        cx: native_regs(h, a),
        has_cx: s.has_cx || a is Context,
        cx32: narrow_regs(h, record, a, b),
        has_cx32: s.has_cx32 || narrow,
        ..s
    })
}

/// The session in which an exception is looked at.
#[verifier::opaque]
pub open spec fn at_exception(
    h: HandlerState,
    event: DebugEvent,
    record: ExceptionRecord,
    a: Reply,
    b: Reply,
) -> HandlerState {
    let h1 = context_read(fetched(h, event), a);
    if concerns_narrow(h, record, a) {
        context32_read(h1, b)
    } else {
        with_arch(h1, Arch::X64)
    }
}

proof fn lemma_stands(
    h: HandlerState,
    event: DebugEvent,
    first: bool,
    record: ExceptionRecord,
    a: Reply,
    b: Reply,
)
    requires
        event.kind == (EventKind::Exception { first, record }),
    ensures
        stands(h, at_exception(h, event, record, a, b), event, record, a, b),
{
    reveal(at_exception);
}

proof fn lemma_exception_comes(
    h: HandlerState,
    event: DebugEvent,
    first: bool,
    record: ExceptionRecord,
)
    requires
        event.kind == (EventKind::Exception { first, record }),
    ensures
        asks_registers(comes(h, event)),
        comes(h, event).0 == fetched(h, event),
        comes(h, event).1->Pending_1 == LoopOp::Handle(HandleOp::ExceptionContext { first }),
{
    reveal(goes);
    reveal(comes);
    reveal(handle_start);
}

proof fn lemma_exception_regs(at: At, first: bool, a: Reply)
    requires
        at.1 is Pending,
        at.1->Pending_1 == LoopOp::Handle(HandleOp::ExceptionContext { first }),
    ensures
        ({
            let h1 = context_read(at.0, a);
            let at1 = goes(at, a);
            if on_narrow_side(h1) {
                &&& at1.0 == h1
                &&& asks(
                    at1,
                    Action::GetContext32 { place: reached(at.0.this.threads, at.0.event.tid) },
                )
                &&& at1.1->Pending_1 == LoopOp::Handle(HandleOp::ExceptionContext32 { first })
            } else {
                at1 == loop_handled(
                    handle_looked(exc_start(with_arch(h1, Arch::X64), first, false)),
                )
            }
        }),
{
    reveal(goes);
    reveal(comes);
}

proof fn lemma_exception_regs32(at: At, first: bool, b: Reply)
    requires
        at.1 is Pending,
        at.1->Pending_1 == LoopOp::Handle(HandleOp::ExceptionContext32 { first }),
    ensures
        goes(at, b) == loop_handled(
            handle_looked(exc_start(context32_read(at.0, b), first, true)),
        ),
{
    reveal(goes);
    reveal(comes);
}

/// An exception is looked at with the registers of its thread: those of the native
/// side are always asked for, those of the 32-bit side where it concerns that side.
pub proof fn lemma_exception_read(
    h: HandlerState,
    event: DebugEvent,
    first: bool,
    record: ExceptionRecord,
    a: Reply,
    b: Reply,
)
    requires
        event.kind == (EventKind::Exception { first, record }),
    ensures
        asks_registers(comes(h, event)),
        concerns_narrow(h, record, a) ==> {
            let at = goes(comes(h, event), a);
            &&& took_registers(comes(h, event).0, at.0, a)
            &&& asks(at, Action::GetContext32 { place: reached(h.this.threads, event.tid) })
        },
        stands(h, at_exception(h, event, record, a, b), event, record, a, b),
        looked(h, event, record, a, b) == loop_handled(
            handle_looked(
                exc_start(
                    at_exception(h, event, record, a, b),
                    first,
                    concerns_narrow(h, record, a),
                ),
            ),
        ),
{
    reveal(at_exception);
    let at = comes(h, event);
    lemma_exception_comes(h, event, first, record);
    lemma_stands(h, event, first, record, a, b);
    lemma_exception_regs(at, first, a);
    let h1 = context_read(fetched(h, event), a);
    assert(h1.this.debug.cx == native_regs(h, a));
    assert(on_narrow_side(h1) == concerns_narrow(h, record, a));
    if concerns_narrow(h, record, a) {
        lemma_exception_regs32(goes(at, a), first, b);
    }
}

/// Whether a number is the one that a stop after a step stands for: that of the
/// lowest slot that the status register shows, or else the place of the stop.
pub open spec fn is_step_number(dr6: usize, address: u64, id: BpID) -> bool {
    ||| dr6 & 0x0f == 0 && id == address as isize
    ||| exists|i: usize|
        #![trigger 1usize << i]
        i < 4 && dr6 & (1usize << i) != 0 && (forall|j: usize|
            j < i ==> dr6 & #[trigger] (1usize << j) == 0) && id == -(i + 1)
}

/// Every stop after a step stands for just one number.
pub proof fn lemma_step_number(dr6: usize, address: u64)
    ensures
        is_step_number(dr6, address, step_id(dr6, address)),
        forall|id: BpID| #[trigger]
            is_step_number(dr6, address, id) ==> id == step_id(dr6, address),
{
    lemma_step_id(dr6, address);
    assert(1usize << 0usize == 0x01 && 1usize << 1usize == 0x02 && 1usize << 2usize == 0x04
        && 1usize << 3usize == 0x08) by (bit_vector);
    assert(dr6 & 0x01 == 0 && dr6 & 0x02 == 0 && dr6 & 0x04 == 0 && dr6 & 0x08 == 0 ==> dr6 & 0x0f
        == 0) by (bit_vector);
    if dr6 & 0x01 > 0 {
        assert(dr6 & (1usize << 0usize) != 0);
        assert(is_step_number(dr6, address, step_id(dr6, address)));
    } else if dr6 & 0x02 > 0 {
        assert forall|j: usize| j < 1 implies dr6 & #[trigger] (1usize << j) == 0 by {
            assert(j == 0);
        }
        assert(dr6 & (1usize << 1usize) != 0);
        assert(is_step_number(dr6, address, step_id(dr6, address)));
    } else if dr6 & 0x04 > 0 {
        assert forall|j: usize| j < 2 implies dr6 & #[trigger] (1usize << j) == 0 by {
            assert(j == 0 || j == 1);
        }
        assert(dr6 & (1usize << 2usize) != 0);
        assert(is_step_number(dr6, address, step_id(dr6, address)));
    } else if dr6 & 0x08 > 0 {
        assert forall|j: usize| j < 3 implies dr6 & #[trigger] (1usize << j) == 0 by {
            assert(j == 0 || j == 1 || j == 2);
        }
        assert(dr6 & (1usize << 3usize) != 0);
        assert(is_step_number(dr6, address, step_id(dr6, address)));
    }
    assert forall|id: BpID| #[trigger] is_step_number(dr6, address, id) implies id == step_id(
        dr6,
        address,
    ) by {}
}

/// Whether a breakpoint that stands under a number is a slot that watches for
/// execution somewhere else.
pub open spec fn executes_elsewhere(s: AdaptorState, record: ExceptionRecord, id: BpID) -> bool {
    let b = s.bps[s.bp_map[id] as int];
    b.bp_type matches InnerBpType::Hard(info) && info.rw == 0 && b.address != record.address
}

/// Whether no breakpoint stands under a number.
pub open spec fn is_free(s: AdaptorState, id: BpID) -> bool {
    !s.bp_map.dom().contains(id)
}

/// The status register that a stop after a step is looked at with.
pub open spec fn step_status(h: HandlerState, record: ExceptionRecord, a: Reply, b: Reply) -> usize {
    if record.code == 0x80000004 {
        native_regs(h, a).dr6 as usize
    } else {
        narrow_regs(h, record, a, b).dr6 as usize
    }
}

/// Where the thread of a fault stands, as a signed number of its width.
pub open spec fn fault_place(h: HandlerState, record: ExceptionRecord, a: Reply) -> int {
    let eip = (record.address as usize) as u32;
    if !concerns_narrow(h, record, a) {
        ((native_regs(h, a).rip as usize) as isize) as int
    } else if eip < 0x8000_0000 {
        eip as int
    } else {
        eip - 0x1_0000_0000
    }
}

/// Whether neither a breakpoint nor a step that the user asked for claims an
/// exception, and the target is not being left where that counts: the user is to be
/// told of the exception itself.
pub open spec fn unclaimed(
    h: HandlerState,
    event: DebugEvent,
    record: ExceptionRecord,
    a: Reply,
    b: Reply,
) -> bool {
    let s = h.this.debug;
    let code = record.code;
    if code == 0x4000001f {
        h.first_bp32_hitted && is_free(s, record.address as isize)
    } else if code == 0x80000003 {
        h.first_bp_hitted && is_free(s, record.address as isize)
    } else if code == 0x4000001e || code == 0x80000004 {
        forall|id: BpID| #[trigger]
            is_step_number(step_status(h, record, a, b), record.address, id) ==> (if is_free(
                s,
                id,
            ) {
                s.step_tid != event.tid
            } else {
                executes_elsewhere(s, record, id)
            })
    } else if code == 0xc0000005 {
        !h.this.detaching && (fault_place(h, record, a) > 0 || is_free(
            s,
            fault_place(h, record, a) as isize,
        ))
    } else {
        !h.this.detaching
    }
}

/// Of every exception that no breakpoint and no step claims the user is told, with
/// whether it comes for the first time and with its code, as the event has them; and
/// the target goes on with the exception dealt with just where the user says that it
/// is, and left to the target otherwise. Nothing else of the session changes.
pub proof fn lemma_unclaimed_told(
    h: HandlerState,
    event: DebugEvent,
    first: bool,
    record: ExceptionRecord,
    a: Reply,
    b: Reply,
    c: Reply,
)
    requires
        event.kind == (EventKind::Exception { first, record }),
        unclaimed(h, event, record, a, b),
    ensures
        ({
            let at = looked(h, event, record, a, b);
            &&& tells(at, UEvent::Exception { first, code: record.code })
            &&& stands(h, at.0, event, record, a, b)
            &&& goes_on(
                at.0,
                goes(at, c),
                if c == Reply::User(UserReply::Run(true)) {
                    0x00010002
                } else {
                    0x80010001
                },
            )
        }),
{
    let h1 = at_exception(h, event, record, a, b);
    let narrow = concerns_narrow(h, record, a);
    let s = h1.this.debug;
    lemma_exception_read(h, event, first, record, a, b);
    lemma_unclaimed_start(h, event, first, record, a, b);
    let at = looked(h, event, record, a, b);
    lemma_user_answered(at, first, c);
}

proof fn lemma_unclaimed_start(
    h: HandlerState,
    event: DebugEvent,
    first: bool,
    record: ExceptionRecord,
    a: Reply,
    b: Reply,
)
    requires
        event.kind == (EventKind::Exception { first, record }),
        unclaimed(h, event, record, a, b),
        stands(h, at_exception(h, event, record, a, b), event, record, a, b),
    ensures
        ({
            let h1 = at_exception(h, event, record, a, b);
            let (h2, poll) = exc_start(h1, first, concerns_narrow(h, record, a));
            &&& h2 == h1
            &&& poll matches Poll::Pending(action, op) && action == Action::Callback(
                UEvent::Exception { first, code: record.code },
            ) && op == (ExcOp::Hit { first, after: After::Done, op: HitOp::User })
        }),
{
    let h1 = at_exception(h, event, record, a, b);
    let narrow = concerns_narrow(h, record, a);
    let s = h1.this.debug;
    reveal(exc_start);
    assert(h1.with(s) == h1);
    if record.code == 0x4000001f || record.code == 0x80000003 {
        lemma_trap_free(s, first, record, Width::Wide);
        lemma_trap_free(s, first, record, Width::Narrow);
    } else if record.code == 0x4000001e || record.code == 0x80000004 {
        let width = if record.code == 0x80000004 {
            Width::Wide
        } else {
            Width::Narrow
        };
        assert(s.dr6(width) == step_status(h, record, a, b));
        lemma_step_number(s.dr6(width), record.address);
        let id = step_id(s.dr6(width), record.address);
        assert(is_step_number(step_status(h, record, a, b), record.address, id));
        lemma_step_free(s, record, width);
    } else if record.code == 0xc0000005 {
        lemma_signed(s.cx, s.cx32, 0, 0);
        let width = if narrow {
            Width::Narrow
        } else {
            Width::Wide
        };
        assert(s.signed_pc(width) == fault_place(h, record, a));
        lemma_fault_free(s, record, width);
    }
}

proof fn lemma_trap_free(s: AdaptorState, first: bool, record: ExceptionRecord, width: Width)
    requires
        is_free(s, record.address as isize),
    ensures
        int3_hit(s, first, record, width) == (
            s,
            HitPoll::Pending(
                Action::Callback(UEvent::Exception { first, code: record.code }),
                HitOp::User,
            ),
        ),
{
    reveal(int3_hit);
}

proof fn lemma_step_free(s: AdaptorState, record: ExceptionRecord, width: Width)
    requires
        ({
            let id = step_id(s.dr6(width), record.address);
            if is_free(s, id) {
                s.step_tid != s.base.event_tid
            } else {
                executes_elsewhere(s, record, id)
            }
        }),
    ensures
        step_hit(s, record, width) == (s, HitPoll::Ready(HandleResult::NotHandled)),
{
    reveal(step_hit);
}

proof fn lemma_fault_free(s: AdaptorState, record: ExceptionRecord, width: Width)
    requires
        s.signed_pc(width) > 0 || is_free(s, s.signed_pc(width)),
    ensures
        table_hit(s, record, width) == (s, HitPoll::Ready(HandleResult::NotHandled)),
{
    reveal(table_hit);
}

proof fn lemma_user_answered(at: At, first: bool, c: Reply)
    requires
        at.1 is Pending,
        at.1->Pending_1 == LoopOp::Handle(
            HandleOp::Exception(ExcOp::Hit { first, after: After::Done, op: HitOp::User }),
        ),
    ensures
        goes_on(
            at.0,
            goes(at, c),
            if c == Reply::User(UserReply::Run(true)) {
                0x00010002
            } else {
                0x80010001
            },
        ),
{
    reveal(goes);
    reveal(comes);
    let r = if c == Reply::User(UserReply::Run(true)) {
        HandleResult::Continue
    } else {
        HandleResult::NotHandled
    };
    lemma_goes_on(at.0, r);
    assert(goes(at, c) == loop_cont(cont_start(at.0, r)));
}

} // verus!
