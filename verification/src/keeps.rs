//! What handling events keeps.
use vstd::prelude::*;

use crate::adaptor::{lemma_grown, lemma_grows, lemma_listed, AdaptorState, Width};
use crate::bp_laws::{lemma_remove_keeps, lemma_remove_starts, lemma_remove_stays};
use crate::breakpoints::{remove_next, RemoveOp};
use crate::enable::{
    enable_next, enable_start, lemma_all_from, lemma_all_keeps, lemma_enable_keeps,
    lemma_enable_starts, lemma_enable_stays, lemma_store_keeps, EnablePoll,
};
use crate::handler::{
    bp_cont, bp_disabled, bp_enabled, bp_fetched, bp_nested, bp_next, context32_read, exc_next,
    exc_start, handle_next, handle_start, hit_next, is_step, ExcOp, HandleOp, HandlePoll,
};
use crate::hit::{
    bp_after, bp_met, bp_replied, bp_start, int3_hit, step_hit, step_id, table_hit, BpOp, BpPoll,
    BpStage, HitOp,
};
use crate::io::{DebugEvent, Poll, Reply};
use crate::reply::{
    lemma_reply_keeps, lemma_reply_starts, lemma_reply_stays, reply_next, reply_start, ReplyPoll,
};
use crate::session::{
    cont_next, context_read, fetched, lemma_cont_keeps, lemma_fetch_keeps, ContPoll, HandlerState,
};
use crate::types::{BpHandle, ExceptionRecord, HandleResult};

verus! {

/// Whether what a met breakpoint waits for is meaningful in a session.
pub open spec fn bp_wf(s: AdaptorState, op: BpOp) -> bool
    decreases op,
{
    &&& op.bp < s.bps.len()
    &&& match op.stage {
        BpStage::Remove(r) => r.wf(s) && r.bp == op.bp,
        BpStage::Callback => true,
        BpStage::Reply(r) => r.wf(s),
        BpStage::Disable(e) => e.wf(s) && e.bp == op.bp,
        BpStage::Cont(_) => true,
        BpStage::Fetch => true,
        BpStage::Nested(o) => handle_wf(s, *o),
        BpStage::Enable(e) => e.wf(s) && e.bp == op.bp,
        BpStage::Again(o) => handle_wf(s, *o),
    }
}

/// The same for the look at an exception.
pub open spec fn hit_wf(s: AdaptorState, op: HitOp) -> bool
    decreases op,
{
    match op {
        HitOp::Bp(b) => bp_wf(s, b),
        HitOp::Stepped(r) => r.wf(s),
        _ => true,
    }
}

/// The same for an exception.
pub open spec fn exc_wf(s: AdaptorState, op: ExcOp) -> bool
    decreases op,
{
    match op {
        ExcOp::Hit { first, after, op } => hit_wf(s, op),
        ExcOp::Init { .. } => true,
        ExcOp::Greeted { result, reply } => reply.wf(s),
    }
}

/// The same for an event.
pub open spec fn handle_wf(s: AdaptorState, op: HandleOp) -> bool
    decreases op,
{
    match op {
        HandleOp::ThreadArm { info, op } => op.wf(),
        HandleOp::Exception(e) => exc_wf(s, e),
        _ => true,
    }
}

/// What a met breakpoint waits for stays meaningful while the session grows, as
/// it does when the user adds and removes breakpoints in between.
pub proof fn lemma_bp_stays(s: AdaptorState, s1: AdaptorState, op: BpOp)
    requires
        bp_wf(s, op),
        s.grows_to(s1),
    ensures
        bp_wf(s1, op),
    decreases op,
{
    lemma_grown(s, s1, op.bp as int);
    match op.stage {
        BpStage::Remove(r) => lemma_remove_stays(s, s1, r),
        BpStage::Reply(r) => lemma_reply_stays(s, s1, r),
        BpStage::Disable(e) => lemma_enable_stays(s, s1, e),
        BpStage::Enable(e) => lemma_enable_stays(s, s1, e),
        BpStage::Nested(o) => lemma_handle_stays(s, s1, *o),
        BpStage::Again(o) => lemma_handle_stays(s, s1, *o),
        _ => {},
    }
}

/// The same for the look at an exception.
pub proof fn lemma_hit_stays(s: AdaptorState, s1: AdaptorState, op: HitOp)
    requires
        hit_wf(s, op),
        s.grows_to(s1),
    ensures
        hit_wf(s1, op),
    decreases op,
{
    match op {
        HitOp::Bp(b) => lemma_bp_stays(s, s1, b),
        HitOp::Stepped(r) => lemma_reply_stays(s, s1, r),
        _ => {},
    }
}

/// The same for an exception.
pub proof fn lemma_exc_stays(s: AdaptorState, s1: AdaptorState, op: ExcOp)
    requires
        exc_wf(s, op),
        s.grows_to(s1),
    ensures
        exc_wf(s1, op),
    decreases op,
{
    match op {
        ExcOp::Hit { first, after, op } => lemma_hit_stays(s, s1, op),
        ExcOp::Init { .. } => {},
        ExcOp::Greeted { result, reply } => lemma_reply_stays(s, s1, reply),
    }
}

/// The same for an event.
pub proof fn lemma_handle_stays(s: AdaptorState, s1: AdaptorState, op: HandleOp)
    requires
        handle_wf(s, op),
        s.grows_to(s1),
    ensures
        handle_wf(s1, op),
    decreases op,
{
    if let HandleOp::Exception(e) = op {
        lemma_exc_stays(s, s1, e);
    }
}

/// Whether an event can follow while a trap instruction is off: one of the same
/// thread has to say that its step was done.
pub open spec fn step_expected(h: HandlerState, op: BpOp, event: DebugEvent) -> bool {
    event.tid == op.tid ==> is_step(fetched(h, event).this.record.code)
}

/// Whether a met breakpoint can go on with an answer.
pub open spec fn bp_expects(h: HandlerState, op: BpOp, reply: Reply) -> bool
    decreases op,
{
    match op.stage {
        BpStage::Fetch => reply.event() matches Some(event) ==> step_expected(h, op, event),
        BpStage::Nested(o) => handle_expects(h, *o, reply),
        BpStage::Again(o) => handle_expects(h, *o, reply),
        _ => true,
    }
}

/// Whether the look at an exception can go on with an answer.
pub open spec fn hit_expects(h: HandlerState, op: HitOp, reply: Reply) -> bool
    decreases op,
{
    match op {
        HitOp::Bp(b) => bp_expects(h, b, reply),
        _ => true,
    }
}

/// Whether an exception can go on with an answer.
pub open spec fn exc_expects(h: HandlerState, op: ExcOp, reply: Reply) -> bool
    decreases op,
{
    match op {
        ExcOp::Hit { first, after, op } => hit_expects(h, op, reply),
        _ => true,
    }
}

/// Whether an event can go on with an answer: every answer will do but an event
/// of a thread that is stepping over a trap instruction and did something else.
pub open spec fn handle_expects(h: HandlerState, op: HandleOp, reply: Reply) -> bool
    decreases op,
{
    match op {
        HandleOp::Exception(e) => exc_expects(h, e, reply),
        _ => true,
    }
}

/// Starting on a met breakpoint keeps the session in order.
pub proof fn lemma_bp_starts(
    s: AdaptorState,
    record: ExceptionRecord,
    bp: BpHandle,
    width: Width,
)
    requires
        s.wf(),
        bp < s.bps.len(),
    ensures
        ({
            let (s1, poll) = bp_start(s, record, bp, width);
            &&& s1.wf()
            &&& s.grows_to(s1)
            &&& poll matches Poll::Pending(_, o) ==> bp_wf(s1, o)
        }),
{
    reveal(bp_start);
    reveal(bp_met);
    reveal(bp_after);
    let s0 = s.count_hit(bp);
    lemma_store_keeps(s, bp, false);
    if s0.bps[bp as int].temp {
        lemma_remove_starts(s0, bp);
    }
}

/// Looking at a trap, a step or a fault keeps the session in order.
pub proof fn lemma_hit_starts(
    s: AdaptorState,
    first: bool,
    record: ExceptionRecord,
    width: Width,
)
    requires
        s.wf(),
    ensures
        ({
            let (s1, poll) = int3_hit(s, first, record, width);
            &&& s1.wf()
            &&& s.grows_to(s1)
            &&& poll matches Poll::Pending(_, o) ==> hit_wf(s1, o)
        }),
        ({
            let (s1, poll) = step_hit(s, record, width);
            &&& s1.wf()
            &&& s.grows_to(s1)
            &&& poll matches Poll::Pending(_, o) ==> hit_wf(s1, o)
        }),
        ({
            let (s1, poll) = table_hit(s, record, width);
            &&& s1.wf()
            &&& s.grows_to(s1)
            &&& poll matches Poll::Pending(_, o) ==> hit_wf(s1, o)
        }),
{
    reveal(int3_hit);
    reveal(step_hit);
    reveal(table_hit);
    lemma_listed(s, record.address as isize);
    lemma_listed(s, step_id(s.dr6(width), record.address));
    lemma_listed(s, s.signed_pc(width));
    if let Some(bp) = s.get_bp(record.address as isize) {
        lemma_bp_starts(s, record, bp, width);
    }
    if let Some(bp) = s.get_bp(step_id(s.dr6(width), record.address)) {
        lemma_bp_starts(s, record, bp, width);
        lemma_bp_starts(s.set_rf(width), record, bp, width);
    }
    if let Some(bp) = s.get_bp(s.signed_pc(width)) {
        lemma_bp_starts(s, record, bp, width);
    }
}

/// Starting on an exception keeps the session in order.
pub proof fn lemma_exc_starts(h: HandlerState, first: bool, narrow: bool)
    requires
        h.wf(),
    ensures
        ({
            let (h1, poll) = exc_start(h, first, narrow);
            &&& h1.wf()
            &&& h.grows_to(h1)
            &&& poll matches Poll::Pending(_, o) ==> exc_wf(h1.this.debug, o)
        }),
{
    reveal(exc_start);
    lemma_hit_starts(h.this.debug, first, h.this.record, Width::Wide);
    lemma_hit_starts(h.this.debug, first, h.this.record, Width::Narrow);
}

/// Starting on an event keeps the session in order.
pub proof fn lemma_handle_starts(h: HandlerState)
    requires
        h.wf(),
    ensures
        ({
            let (h1, poll) = handle_start(h);
            &&& h1.wf()
            &&& h.grows_to(h1)
            &&& h1.this.debug.bps == h.this.debug.bps
            &&& poll matches Poll::Pending(_, o) ==> handle_wf(h1.this.debug, o)
        }),
{
    reveal(handle_start);
}

/// Whether a step of a met breakpoint kept the session in order.
pub open spec fn bp_kept(h: HandlerState, went: (HandlerState, BpPoll)) -> bool {
    &&& went.0.wf()
    &&& h.grows_to(went.0)
    &&& went.1 matches Poll::Pending(_, o) ==> bp_wf(went.0.this.debug, o)
}

/// The same for an event.
pub open spec fn handle_kept(h: HandlerState, went: (HandlerState, HandlePoll)) -> bool {
    &&& went.0.wf()
    &&& h.grows_to(went.0)
    &&& went.1 matches Poll::Pending(_, o) ==> handle_wf(went.0.this.debug, o)
}

proof fn lemma_after_keeps(s: AdaptorState, op: BpOp)
    requires
        s.wf(),
        op.bp < s.bps.len(),
    ensures
        bp_after(s, op) matches Poll::Pending(_, o) ==> bp_wf(s, o),
{
    reveal(bp_after);
}

proof fn lemma_met_keeps(s: AdaptorState, record: ExceptionRecord, op: BpOp)
    requires
        s.wf(),
        op.bp < s.bps.len(),
    ensures
        ({
            let (s1, poll) = bp_met(s, record, op);
            &&& s1.wf()
            &&& s.grows_to(s1)
            &&& s1.bps == s.bps
            &&& poll matches Poll::Pending(_, o) ==> bp_wf(s1, o)
        }),
{
    reveal(bp_met);
    reveal(bp_after);
}

proof fn lemma_bp_remove(h: HandlerState, op: BpOp, r: RemoveOp, reply: Reply)
    requires
        h.wf(),
        op.stage == BpStage::Remove(r),
        bp_wf(h.this.debug, op),
    ensures
        bp_kept(h, bp_next(h, op, reply)),
{
    let s = h.this.debug;
    let (s1, poll) = remove_next(s, r, reply);
    lemma_remove_keeps(s, r, reply);
    let rest = BpOp { stage: BpStage::Callback, ..op };
    lemma_grown(s, s1, op.bp as int);
    if poll is Ready {
        lemma_met_keeps(s1, h.this.record, rest);
        lemma_grows(s, s1, bp_met(s1, h.this.record, rest).0);
    }
}

proof fn lemma_bp_reply(
    h: HandlerState,
    op: BpOp,
    s1: AdaptorState,
    poll: ReplyPoll,
)
    requires
        s1.wf(),
        op.bp < h.this.debug.bps.len(),
        h.this.debug.grows_to(s1),
        poll matches Poll::Pending(_, o) ==> o.wf(s1),
    ensures
        bp_kept(h, (h.with(s1), bp_replied(s1, op, poll))),
{
    lemma_grown(h.this.debug, s1, op.bp as int);
    lemma_after_keeps(s1, op);
}

proof fn lemma_cont_kept(h: HandlerState, op: BpOp, h1: HandlerState, poll: ContPoll)
    requires
        h1.wf(),
        op.bp < h1.this.debug.bps.len(),
        h.grows_to(h1),
    ensures
        bp_kept(h, bp_cont(op, (h1, poll))),
{
}

proof fn lemma_disabled_kept(h: HandlerState, op: BpOp, h1: HandlerState, poll: EnablePoll)
    requires
        h1.wf(),
        op.bp < h1.this.debug.bps.len(),
        h.grows_to(h1),
        poll matches Poll::Pending(_, e) ==> e.wf(h1.this.debug) && e.bp == op.bp,
    ensures
        bp_kept(h, bp_disabled(h1, op, poll)),
{
    reveal(bp_disabled);
}

proof fn lemma_nested_kept(h: HandlerState, op: BpOp, h1: HandlerState, poll: HandlePoll)
    requires
        op.bp < h1.this.debug.bps.len(),
        handle_kept(h, (h1, poll)),
    ensures
        bp_kept(h, bp_nested(h1, op, poll)),
{
}

proof fn lemma_enabled_kept(h: HandlerState, op: BpOp, h1: HandlerState, poll: EnablePoll)
    requires
        h1.wf(),
        op.bp < h1.this.debug.bps.len(),
        h.grows_to(h1),
        poll matches Poll::Pending(_, e) ==> e.wf(h1.this.debug) && e.bp == op.bp,
    ensures
        bp_kept(h, bp_enabled(h1, op, poll)),
{
    if let Poll::Ready(r) = poll {
        let h2 = h1.with(h1.this.debug.check_result(crate::io::Doing::EnableBp, r));
        lemma_handle_starts(h2);
    }
}

proof fn lemma_fetched_kept(h: HandlerState, op: BpOp, event: DebugEvent)
    requires
        h.wf(),
        op.bp < h.this.debug.bps.len(),
    ensures
        bp_kept(h, bp_fetched(fetched(h, event), op)),
{
    let h1 = fetched(h, event);
    lemma_fetch_keeps(h, event, Reply::Done);
    if h1.this.debug.base.event_tid == op.tid {
        lemma_enable_starts(h1.this.debug, op.bp, true);
        lemma_enabled_kept(h, op, h1, enable_start(h1.this.debug, op.bp, true));
    } else {
        lemma_handle_starts(h1);
        let (h2, poll) = handle_start(h1);
        lemma_grows(h.this.debug, h1.this.debug, h2.this.debug);
        lemma_nested_kept(h, op, h2, poll);
    }
}

/// Going on with a met breakpoint keeps the session in order.
pub proof fn lemma_bp_keeps(h: HandlerState, op: BpOp, reply: Reply)
    requires
        h.wf(),
        bp_wf(h.this.debug, op),
        bp_next(h, op, reply).0.fits(),
    ensures
        bp_kept(h, bp_next(h, op, reply)),
    decreases op,
{
    let s = h.this.debug;
    let rest = BpOp { stage: BpStage::Callback, ..op };
    match op.stage {
        BpStage::Remove(r) => lemma_bp_remove(h, op, r, reply),
        BpStage::Callback => {
            lemma_reply_starts(s, op.width, h.this.record.address as usize, reply.user());
            let (s1, poll) = reply_start(
                s,
                op.width,
                h.this.record.address as usize,
                reply.user(),
            );
            lemma_bp_reply(h, rest, s1, poll);
        },
        BpStage::Reply(r) => {
            let (s1, poll) = reply_next(s, r, reply);
            lemma_reply_keeps(s, r, reply);
            lemma_bp_reply(h, rest, s1, poll);
        },
        BpStage::Disable(e) => {
            let (s1, poll) = enable_next(s, e, reply);
            lemma_enable_keeps(s, e, reply);
            lemma_disabled_kept(h, rest, h.with(s1), poll);
        },
        BpStage::Cont(c) => {
            lemma_cont_keeps(h, HandleResult::Handled, c, reply);
            let (h1, poll) = cont_next(h, c, reply);
            lemma_cont_kept(h, rest, h1, poll);
        },
        BpStage::Fetch => {
            if let Some(event) = reply.event() {
                lemma_fetched_kept(h, rest, event);
            }
        },
        BpStage::Nested(o) => {
            let (h1, poll) = handle_next(h, *o, reply);
            assert(h1.fits());
            lemma_handle_keeps(h, *o, reply);
            lemma_grown(s, h1.this.debug, op.bp as int);
            lemma_nested_kept(h, rest, h1, poll);
        },
        BpStage::Enable(e) => {
            let (s1, poll) = enable_next(s, e, reply);
            lemma_enable_keeps(s, e, reply);
            lemma_enabled_kept(h, rest, h.with(s1), poll);
        },
        BpStage::Again(o) => {
            lemma_handle_keeps(h, *o, reply);
            lemma_grown(s, handle_next(h, *o, reply).0.this.debug, op.bp as int);
        },
    }
}

/// Going on with the look at an exception keeps the session in order.
pub proof fn lemma_hit_keeps(h: HandlerState, op: HitOp, reply: Reply)
    requires
        h.wf(),
        hit_wf(h.this.debug, op),
        hit_next(h, op, reply).0.fits(),
    ensures
        ({
            let (h1, poll) = hit_next(h, op, reply);
            &&& h1.wf()
            &&& h.grows_to(h1)
            &&& poll matches Poll::Pending(_, o) ==> hit_wf(h1.this.debug, o)
        }),
    decreases op,
{
    match op {
        HitOp::Bp(b) => lemma_bp_keeps(h, b, reply),
        HitOp::Step { width } => lemma_reply_starts(
            h.this.debug,
            width,
            h.this.record.address as usize,
            reply.user(),
        ),
        HitOp::Stepped(r) => lemma_reply_keeps(h.this.debug, r, reply),
        HitOp::User => {},
    }
}

/// Going on with an exception keeps the session in order.
pub proof fn lemma_exc_keeps(h: HandlerState, op: ExcOp, reply: Reply)
    requires
        h.wf(),
        exc_wf(h.this.debug, op),
        exc_next(h, op, reply).0.fits(),
    ensures
        ({
            let (h1, poll) = exc_next(h, op, reply);
            &&& h1.wf()
            &&& h.grows_to(h1)
            &&& poll matches Poll::Pending(_, o) ==> exc_wf(h1.this.debug, o)
        }),
    decreases op,
{
    match op {
        ExcOp::Hit { first, after, op } => lemma_hit_keeps(h, op, reply),
        ExcOp::Init { width, result } => lemma_reply_starts(
            h.this.debug,
            width,
            h.this.record.address as usize,
            reply.user(),
        ),
        ExcOp::Greeted { result, reply: r } => lemma_reply_keeps(h.this.debug, r, reply),
    }
}

proof fn lemma_exception_kept(h: HandlerState, h1: HandlerState, first: bool, narrow: bool)
    requires
        h1.wf(),
        h.grows_to(h1),
    ensures
        handle_kept(h, crate::handler::handle_looked(exc_start(h1, first, narrow))),
{
    lemma_exc_starts(h1, first, narrow);
    lemma_grows(h.this.debug, h1.this.debug, exc_start(h1, first, narrow).0.this.debug);
}

/// Going on with an event keeps the session in order: breakpoints stay where
/// and what they are, whatever the host answers.
pub proof fn lemma_handle_keeps(h: HandlerState, op: HandleOp, reply: Reply)
    requires
        h.wf(),
        handle_wf(h.this.debug, op),
        handle_next(h, op, reply).0.fits(),
    ensures
        handle_kept(h, handle_next(h, op, reply)),
    decreases op,
{
    match op {
        HandleOp::ThreadAsk { info } => {
            lemma_all_from(h.this.debug, info.handle, true, 0);
        },
        HandleOp::ThreadArm { info, op } => {
            lemma_all_keeps(h.this.debug, op, reply);
        },
        HandleOp::ExceptionContext { first } => {
            lemma_fetch_keeps(h, h.event, reply);
            let h1 = crate::handler::with_arch(context_read(h, reply), crate::types::Arch::X64);
            lemma_exception_kept(h, h1, first, false);
        },
        HandleOp::ExceptionContext32 { first } => {
            lemma_exception_kept(h, context32_read(h, reply), first, true);
        },
        HandleOp::Exception(e) => {
            lemma_exc_keeps(h, e, reply);
        },
        _ => {},
    }
}

} // verus!
