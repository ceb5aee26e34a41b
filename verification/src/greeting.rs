//! When the user is told that the target has started.
use vstd::prelude::*;

use crate::adaptor::{AdaptorState, Width};
use crate::breakpoints::{int3_next, remove_next, remove_start, Int3Op, RemoveOp};
use crate::enable::{
    all_from, all_next, enable_next, enable_start, thread_next, AllOp, EnableOp, EnablePoll,
};
use crate::event_loop::{loop_next, loop_start, LoopOp, LoopPoll};
use crate::handler::{
    bp_disabled, bp_enabled, bp_fetched, bp_next, context32_read, exc_next, exc_start, handle_next,
    handle_start, hit_next, on_narrow_side, with_arch, ExcOp, HandleOp, EXCEPTION_BREAKPOINT,
    EXCEPTION_WX86_BREAKPOINT,
};
use crate::hit::{
    bp_after, bp_met, bp_start, int3_hit, step_hit, step_id, table_hit, BpOp, BpStage, HitOp,
};
use crate::io::{Action, DebugEvent, Doing, EventKind, Poll, Reply};
use crate::reply::{reply_next, reply_start, ReplyOp, ReplyStage};
use crate::session::{context_read, fetched, HandlerState, StandardState};
use crate::types::{Arch, BpHandle, ExceptionRecord, UEvent, UserReply};

verus! {

/// Whether the next action is to tell the user that the target has started.
pub open spec fn tells<O, T>(poll: Poll<O, T>) -> bool {
    poll matches Poll::Pending(action, _) && action == Action::Callback(UEvent::InitBp)
}

/// Whether a session is still of a target of the same width.
pub open spec fn same_kind(s: AdaptorState, s1: AdaptorState) -> bool {
    s1.wow64 == s.wow64
}

/// Whether an answer lets a met breakpoint look at an exception: one of another
/// thread, or the user's own step.
pub open spec fn bp_looks(h: HandlerState, op: BpOp, reply: Reply) -> bool
    decreases op,
{
    match op.stage {
        BpStage::Nested(o) => handle_looks(h, *o, reply),
        BpStage::Again(o) => handle_looks(h, *o, reply),
        _ => false,
    }
}

/// The same of the look at an exception, in which another can be looked at.
pub open spec fn hit_looks(h: HandlerState, op: HitOp, reply: Reply) -> bool
    decreases op,
{
    match op {
        HitOp::Bp(b) => bp_looks(h, b, reply),
        _ => false,
    }
}

/// The same of an exception.
pub open spec fn exc_looks(h: HandlerState, op: ExcOp, reply: Reply) -> bool
    decreases op,
{
    match op {
        ExcOp::Hit { first, after, op } => hit_looks(h, op, reply),
        _ => false,
    }
}

/// Whether an answer brings the last of the registers that an exception is looked
/// at with.
pub open spec fn handle_looks(h: HandlerState, op: HandleOp, reply: Reply) -> bool
    decreases op,
{
    match op {
        HandleOp::ExceptionContext { first } => !on_narrow_side(context_read(h, reply)),
        HandleOp::ExceptionContext32 { first } => true,
        HandleOp::Exception(e) => exc_looks(h, e, reply),
        _ => false,
    }
}

/// The same of the loop.
pub open spec fn loop_looks(h: HandlerState, op: LoopOp, reply: Reply) -> bool {
    op matches LoopOp::Handle(o) && handle_looks(h, o, reply)
}

/// Whether the exception at hand is the trap by which the user learns that the
/// target has started.
pub open spec fn greets(h: HandlerState) -> bool {
    let code = h.this.record.code;
    ||| code == EXCEPTION_BREAKPOINT && !h.first_bp_hitted && (!h.this.debug.wow64
        || h.this.attached)
    ||| code == EXCEPTION_WX86_BREAKPOINT && !h.first_bp32_hitted
}

/// Whether a step set the marks for the traps that it looked at, and no others;
/// and left alone what kind of target it is.
pub open spec fn marked(h: HandlerState, h1: HandlerState, looks: bool) -> bool {
    let code = h.this.record.code;
    &&& h1.first_bp_hitted == (h.first_bp_hitted || looks && code == EXCEPTION_BREAKPOINT)
    &&& h1.first_bp32_hitted == (h.first_bp32_hitted || looks && code == EXCEPTION_WX86_BREAKPOINT)
    &&& same_kind(h.this.debug, h1.this.debug)
    &&& h1.this.attached == h.this.attached
}

/// Whether a step set the marks as it should, and told the user of the start just
/// when it looked at the trap for that.
pub open spec fn greeted(h: HandlerState, h1: HandlerState, tells: bool, looks: bool) -> bool {
    &&& marked(h, h1, looks)
    &&& tells == (looks && greets(h))
}

proof fn lemma_enable_quiet(s: AdaptorState, bp: BpHandle, enable: bool, op: EnableOp, reply: Reply)
    ensures
        !tells(enable_start(s, bp, enable)),
        !tells(enable_next(s, op, reply).1),
        same_kind(s, enable_next(s, op, reply).0),
{
    reveal(enable_next);
}

proof fn lemma_all_quiet(s: AdaptorState, handle: usize, enable: bool, i: int)
    ensures
        !tells(all_from(s, handle, enable, i)),
    decreases 4 - i,
{
    if i < 4 {
        lemma_all_quiet(s, handle, enable, i + 1);
    }
}

proof fn lemma_all_next_quiet(s: AdaptorState, op: AllOp, reply: Reply)
    ensures
        !tells(all_next(s, op, reply).1),
        same_kind(s, all_next(s, op, reply).0),
{
    reveal(all_next);
    let s1 = thread_next(s, op.op, reply).0;
    lemma_all_quiet(s1, op.handle, op.enable, op.next as int);
}

proof fn lemma_int3_quiet(s: AdaptorState, op: Int3Op, reply: Reply)
    ensures
        !tells(int3_next(s, op, reply).1),
        same_kind(s, int3_next(s, op, reply).0),
{
    reveal(int3_next);
    reveal(enable_next);
}

proof fn lemma_remove_quiet(s: AdaptorState, bp: BpHandle, op: RemoveOp, reply: Reply)
    ensures
        !tells(remove_start(s, bp).1),
        same_kind(s, remove_start(s, bp).0),
        !tells(remove_next(s, op, reply).1),
        same_kind(s, remove_next(s, op, reply).0),
{
    reveal(remove_next);
    reveal(enable_next);
}

proof fn lemma_reply_start_quiet(s: AdaptorState, width: Width, address: usize, user: UserReply)
    ensures
        !tells(reply_start(s, width, address, user).1),
        same_kind(s, reply_start(s, width, address, user).0),
{
    reveal(reply_start);
}

proof fn lemma_reply_quiet(s: AdaptorState, op: ReplyOp, reply: Reply)
    ensures
        !tells(reply_next(s, op, reply).1),
        same_kind(s, reply_next(s, op, reply).0),
{
    reveal(reply_next);
    if let ReplyStage::Add(o) = op.stage {
        lemma_int3_quiet(s, o, reply);
    }
}

proof fn lemma_after_quiet(s: AdaptorState, op: BpOp)
    ensures
        !tells(bp_after(s, op)),
{
    reveal(bp_after);
}

proof fn lemma_met_quiet(s: AdaptorState, record: ExceptionRecord, op: BpOp)
    ensures
        !tells(bp_met(s, record, op).1),
        same_kind(s, bp_met(s, record, op).0),
{
    reveal(bp_met);
    reveal(bp_after);
}

proof fn lemma_bp_start_quiet(
    s: AdaptorState,
    record: ExceptionRecord,
    bp: BpHandle,
    width: Width,
)
    ensures
        !tells(bp_start(s, record, bp, width).1),
        same_kind(s, bp_start(s, record, bp, width).0),
{
    reveal(bp_start);
    reveal(bp_met);
    reveal(bp_after);
}

proof fn lemma_hit_quiet(s: AdaptorState, first: bool, record: ExceptionRecord, width: Width)
    ensures
        !tells(int3_hit(s, first, record, width).1),
        same_kind(s, int3_hit(s, first, record, width).0),
        !tells(step_hit(s, record, width).1),
        same_kind(s, step_hit(s, record, width).0),
        !tells(table_hit(s, record, width).1),
        same_kind(s, table_hit(s, record, width).0),
{
    reveal(int3_hit);
    reveal(step_hit);
    reveal(table_hit);
    if let Some(bp) = s.get_bp(record.address as isize) {
        lemma_bp_start_quiet(s, record, bp, width);
    }
    if let Some(bp) = s.get_bp(step_id(s.dr6(width), record.address)) {
        lemma_bp_start_quiet(s, record, bp, width);
        lemma_bp_start_quiet(s.set_rf(width), record, bp, width);
    }
    if let Some(bp) = s.get_bp(s.signed_pc(width)) {
        lemma_bp_start_quiet(s, record, bp, width);
    }
}

/// Looking at an exception tells the user of the start at the trap for that, and
/// marks a trap as met.
pub proof fn lemma_exception_greets(h: HandlerState, first: bool, narrow: bool)
    ensures
        ({
            let (h1, poll) = exc_start(h, first, narrow);
            greeted(h, h1, tells(poll), true)
        }),
{
    reveal(exc_start);
    lemma_hit_quiet(h.this.debug, first, h.this.record, Width::Wide);
    lemma_hit_quiet(h.this.debug, first, h.this.record, Width::Narrow);
}

proof fn lemma_start_quiet(h: HandlerState)
    ensures
        greeted(h, handle_start(h).0, tells(handle_start(h).1), false),
{
    reveal(handle_start);
}

proof fn lemma_disabled_quiet(h: HandlerState, op: BpOp, poll: EnablePoll)
    requires
        !tells(poll),
    ensures
        ({
            let (h1, next) = bp_disabled(h, op, poll);
            greeted(h, h1, tells(next), false)
        }),
{
    reveal(bp_disabled);
}

proof fn lemma_enabled_quiet(h: HandlerState, op: BpOp, poll: EnablePoll)
    requires
        !tells(poll),
    ensures
        ({
            let (h1, next) = bp_enabled(h, op, poll);
            greeted(h, h1, tells(next), false)
        }),
{
    if let Poll::Ready(r) = poll {
        lemma_start_quiet(h.with(h.this.debug.check_result(Doing::EnableBp, r)));
    }
}

proof fn lemma_fetched_quiet(h: HandlerState, op: BpOp, event: DebugEvent)
    ensures
        ({
            let (h1, next) = bp_fetched(fetched(h, event), op);
            &&& h1.first_bp_hitted == h.first_bp_hitted
            &&& h1.first_bp32_hitted == h.first_bp32_hitted
            &&& same_kind(h.this.debug, h1.this.debug)
            &&& h1.this.attached == h.this.attached
            &&& !tells(next)
        }),
{
    let h1 = fetched(h, event);
    lemma_start_quiet(h1);
    lemma_enabled_quiet(h1, op, enable_start(h1.this.debug, op.bp, true));
}

proof fn lemma_bp_step_quiet(h: HandlerState, op: BpOp, reply: Reply)
    requires
        !(op.stage is Nested),
        !(op.stage is Again),
    ensures
        ({
            let (h1, poll) = bp_next(h, op, reply);
            greeted(h, h1, tells(poll), false)
        }),
{
    let s = h.this.debug;
    let record = h.this.record;
    let rest = BpOp { stage: BpStage::Callback, ..op };
    match op.stage {
        BpStage::Remove(r) => {
            lemma_remove_quiet(s, r.bp, r, reply);
            let s1 = remove_next(s, r, reply).0;
            lemma_met_quiet(s1, record, rest);
        },
        BpStage::Callback => {
            let address = record.address as usize;
            lemma_reply_start_quiet(s, op.width, address, reply.user());
            lemma_after_quiet(reply_start(s, op.width, address, reply.user()).0, rest);
        },
        BpStage::Reply(r) => {
            lemma_reply_quiet(s, r, reply);
            lemma_after_quiet(reply_next(s, r, reply).0, rest);
        },
        BpStage::Disable(e) => {
            lemma_enable_quiet(s, op.bp, false, e, reply);
            let (s1, poll) = enable_next(s, e, reply);
            lemma_disabled_quiet(h.with(s1), rest, poll);
        },
        BpStage::Fetch => {
            if let Some(event) = reply.event() {
                lemma_fetched_quiet(h, rest, event);
            }
        },
        BpStage::Enable(e) => {
            lemma_enable_quiet(s, op.bp, true, e, reply);
            let (s1, poll) = enable_next(s, e, reply);
            lemma_enabled_quiet(h.with(s1), rest, poll);
        },
        _ => {},
    }
}

/// Going on with a met breakpoint tells the user of the start just where it lets
/// another exception be looked at that is the trap for that.
pub proof fn lemma_bp_greets(h: HandlerState, op: BpOp, reply: Reply)
    ensures
        ({
            let (h1, poll) = bp_next(h, op, reply);
            greeted(h, h1, tells(poll), bp_looks(h, op, reply))
        }),
    decreases op,
{
    match op.stage {
        BpStage::Nested(o) => lemma_handle_greets(h, *o, reply),
        BpStage::Again(o) => lemma_handle_greets(h, *o, reply),
        _ => lemma_bp_step_quiet(h, op, reply),
    }
}

/// The same of the look at an exception.
pub proof fn lemma_hit_greets(h: HandlerState, op: HitOp, reply: Reply)
    ensures
        ({
            let (h1, poll) = hit_next(h, op, reply);
            greeted(h, h1, tells(poll), hit_looks(h, op, reply))
        }),
    decreases op,
{
    match op {
        HitOp::Bp(b) => lemma_bp_greets(h, b, reply),
        HitOp::Step { width } => lemma_reply_start_quiet(
            h.this.debug,
            width,
            h.this.record.address as usize,
            reply.user(),
        ),
        HitOp::Stepped(r) => lemma_reply_quiet(h.this.debug, r, reply),
        HitOp::User => {},
    }
}

/// The same of an exception.
pub proof fn lemma_exc_greets(h: HandlerState, op: ExcOp, reply: Reply)
    ensures
        ({
            let (h1, poll) = exc_next(h, op, reply);
            greeted(h, h1, tells(poll), exc_looks(h, op, reply))
        }),
    decreases op,
{
    match op {
        ExcOp::Hit { first, after, op } => lemma_hit_greets(h, op, reply),
        ExcOp::Init { width, result } => lemma_reply_start_quiet(
            h.this.debug,
            width,
            h.this.record.address as usize,
            reply.user(),
        ),
        ExcOp::Greeted { result, reply: r } => lemma_reply_quiet(h.this.debug, r, reply),
    }
}

/// The same of an event.
pub proof fn lemma_handle_greets(h: HandlerState, op: HandleOp, reply: Reply)
    ensures
        ({
            let (h1, poll) = handle_next(h, op, reply);
            greeted(h, h1, tells(poll), handle_looks(h, op, reply))
        }),
    decreases op,
{
    match op {
        HandleOp::ThreadAsk { info } => lemma_all_quiet(h.this.debug, info.handle, true, 0),
        HandleOp::ThreadArm { info, op } => lemma_all_next_quiet(h.this.debug, op, reply),
        HandleOp::ExceptionContext { first } => {
            lemma_exception_greets(with_arch(context_read(h, reply), Arch::X64), first, false);
        },
        HandleOp::ExceptionContext32 { first } => {
            lemma_exception_greets(context32_read(h, reply), first, true);
        },
        HandleOp::Exception(e) => lemma_exc_greets(h, e, reply),
        _ => {},
    }
}

/// A step of the loop tells the user of the start just when it looks at the trap
/// for that; a mark that is set stays set, and is set only by its trap.
pub proof fn lemma_loop_greets(h: HandlerState, op: LoopOp, reply: Reply)
    ensures
        ({
            let (h1, poll) = loop_next(h, op, reply);
            greeted(h, h1, tells(poll), loop_looks(h, op, reply))
        }),
{
    match op {
        LoopOp::Fetch => {
            if let Some(event) = reply.event() {
                lemma_start_quiet(fetched(h, event));
            }
        },
        LoopOp::Handle(o) => lemma_handle_greets(h, o, reply),
        _ => {},
    }
}

/// Every exception that the loop is given is looked at, with the record it came
/// with, after one answer or two.
pub proof fn lemma_every_exception_looked_at(
    h: HandlerState,
    event: DebugEvent,
    first: bool,
    record: ExceptionRecord,
    reply: Reply,
    reply32: Reply,
)
    requires
        event.kind == (EventKind::Exception { first, record }),
    ensures
        ({
            let (h1, poll) = loop_next(h, LoopOp::Fetch, Reply::Event(event));
            let op = LoopOp::Handle(HandleOp::ExceptionContext { first });
            let (h2, poll2) = loop_next(h1, op, reply);
            let op32 = LoopOp::Handle(HandleOp::ExceptionContext32 { first });
            &&& h1.this.record == record
            &&& poll matches Poll::Pending(_, o) && o == op
            &&& loop_looks(h1, op, reply) || {
                &&& h2.this.record == record
                &&& poll2 matches Poll::Pending(_, o) && o == op32
                &&& loop_looks(h2, op32, reply32)
            }
        }),
{
    reveal(handle_start);
}

/// What the loop is given while it waits: an answer, and the session as the host
/// and the user left it.
pub struct Turn {
    pub this: StandardState,
    pub reply: Reply,
}

/// The handler at a turn.
pub open spec fn at_turn(h: HandlerState, turn: Turn) -> HandlerState {
    HandlerState { this: turn.this, ..h }
}

/// The loop after a turn.
#[verifier::opaque]
pub open spec fn turned(h: HandlerState, op: LoopOp, turn: Turn) -> (HandlerState, LoopPoll) {
    loop_next(at_turn(h, turn), op, turn.reply)
}

/// Whether an exception is looked at in a turn.
#[verifier::opaque]
pub open spec fn turn_looks(h: HandlerState, op: LoopOp, turn: Turn) -> bool {
    loop_looks(at_turn(h, turn), op, turn.reply)
}

proof fn lemma_turn_greets(h: HandlerState, op: LoopOp, turn: Turn)
    ensures
        ({
            let (h1, poll) = turned(h, op, turn);
            greeted(at_turn(h, turn), h1, tells(poll), turn_looks(h, op, turn))
        }),
{
    reveal(turned);
    reveal(turn_looks);
    lemma_loop_greets(at_turn(h, turn), op, turn.reply);
}

/// The loop after some turns.
pub open spec fn loop_at(h: HandlerState, turns: Seq<Turn>, n: nat) -> (HandlerState, LoopPoll)
    decreases n,
{
    if n == 0 {
        loop_start(h)
    } else {
        let (before, poll) = loop_at(h, turns, (n - 1) as nat);
        let turn = turns[n - 1];
        match poll {
            Poll::Pending(_, op) => turned(before, op, turn),
            Poll::Ready(_) => (before, poll),
        }
    }
}

/// Whether an exception with a code is looked at in a turn.
pub open spec fn looks_at(h: HandlerState, turns: Seq<Turn>, n: int, code: u32) -> bool {
    let (before, poll) = loop_at(h, turns, n as nat);
    &&& poll matches Poll::Pending(_, op) && turn_looks(before, op, turns[n])
    &&& turns[n].this.record.code == code
}

/// Whether the user is told of the start after a turn.
pub open spec fn told_at(h: HandlerState, turns: Seq<Turn>, n: int) -> bool {
    &&& loop_at(h, turns, n as nat).1 is Pending
    &&& tells(loop_at(h, turns, (n + 1) as nat).1)
}

/// Whether an exception with a code is looked at in a turn for the first time.
pub open spec fn first_look(h: HandlerState, turns: Seq<Turn>, n: int, code: u32) -> bool {
    &&& looks_at(h, turns, n, code)
    &&& forall|i: int| 0 <= i < n ==> !#[trigger] looks_at(h, turns, i, code)
}

/// A mark is set just when it was at the start, or its trap was looked at since.
pub proof fn lemma_marks(h: HandlerState, turns: Seq<Turn>, n: nat)
    requires
        n <= turns.len(),
    ensures
        loop_at(h, turns, n).0.first_bp_hitted == (h.first_bp_hitted || exists|i: int|
            0 <= i < n && #[trigger] looks_at(h, turns, i, EXCEPTION_BREAKPOINT)),
        loop_at(h, turns, n).0.first_bp32_hitted == (h.first_bp32_hitted || exists|i: int|
            0 <= i < n && #[trigger] looks_at(h, turns, i, EXCEPTION_WX86_BREAKPOINT)),
    decreases n,
{
    if n > 0 {
        let last = n - 1;
        lemma_marks(h, turns, last as nat);
        let (before, poll) = loop_at(h, turns, last as nat);
        if let Poll::Pending(_, op) = poll {
            lemma_turn_greets(before, op, turns[last]);
        }
        if before.first_bp_hitted != loop_at(h, turns, n).0.first_bp_hitted {
            assert(looks_at(h, turns, last, EXCEPTION_BREAKPOINT));
        }
        if before.first_bp32_hitted != loop_at(h, turns, n).0.first_bp32_hitted {
            assert(looks_at(h, turns, last, EXCEPTION_WX86_BREAKPOINT));
        }
    }
}

/// The user is told of the start just at the first native trap, where that is the
/// one for it, and at the first trap of the 32-bit side, where that is not passed
/// over.
pub proof fn lemma_told_at_first(h: HandlerState, turns: Seq<Turn>, n: int)
    requires
        0 <= n < turns.len(),
    ensures
        told_at(h, turns, n) <==> {
            ||| !h.first_bp_hitted && first_look(h, turns, n, EXCEPTION_BREAKPOINT) && (
            !turns[n].this.debug.wow64 || turns[n].this.attached)
            ||| !h.first_bp32_hitted && first_look(h, turns, n, EXCEPTION_WX86_BREAKPOINT)
        },
{
    lemma_marks(h, turns, n as nat);
    let (before, poll) = loop_at(h, turns, n as nat);
    if let Poll::Pending(_, op) = poll {
        lemma_turn_greets(before, op, turns[n]);
    }
}

/// Over the whole loop the user is told of the start at most once: of a native
/// target, and of one that was taken over, at its first native trap; of a 32-bit
/// target that was started, at its first trap of the 32-bit side.
pub proof fn lemma_told_once(h: HandlerState, turns: Seq<Turn>, m: int, n: int)
    requires
        !h.first_bp_hitted,
        h.first_bp32_hitted == h.this.attached,
        0 <= m < turns.len(),
        0 <= n < turns.len(),
        forall|i: int|
            0 <= i < turns.len() ==> {
                let this = (#[trigger] turns[i]).this;
                &&& this.debug.wow64 == h.this.debug.wow64
                &&& this.attached == h.this.attached
                &&& this.record.code == EXCEPTION_WX86_BREAKPOINT ==> h.this.debug.wow64
            },
    ensures
        told_at(h, turns, n) <==> first_look(
            h,
            turns,
            n,
            if h.this.debug.wow64 && !h.this.attached {
                EXCEPTION_WX86_BREAKPOINT
            } else {
                EXCEPTION_BREAKPOINT
            },
        ),
        told_at(h, turns, m) && told_at(h, turns, n) ==> m == n,
{
    lemma_told_at_first(h, turns, m);
    lemma_told_at_first(h, turns, n);
}

} // verus!
