//! Handling debug events.
use vstd::prelude::*;

use crate::adaptor::{AdaptorState, UDbgBase, Width};
use crate::breakpoints::remove_next;
use crate::enable::{all_from, all_next, enable_next, enable_start, AllOp, AllPoll, EnablePoll};
use crate::hit::{
    bp_removed, bp_replied, hit_bp, int3_hit, step_hit, table_hit, user_start, BpOp, BpPoll,
    BpStage, HitOp, HitPoll,
};
use crate::io::{Action, EventKind, ImageInfo, Poll, Reply, Report, ThreadInfo};
use crate::modules::{module_covering, modules_without};
use crate::regs::{HWBPRegs, EFLAGS_TF};
use crate::reply::{reply_next, reply_start, ReplyOp, ReplyPoll};
use crate::session::{
    cont_next, cont_start, context_read, fetch_start, fetched, with_thread, without_thread,
    ContPoll, HandlerState,
};
use crate::types::{Arch, HandleResult, UEvent, UserReply};

verus! {

broadcast use vstd::std_specs::hash::group_hash_axioms;

/// A trap.
pub const EXCEPTION_BREAKPOINT: u32 = 0x80000003;

/// One step was done, or a slot of the debug registers was met.
pub const EXCEPTION_SINGLE_STEP: u32 = 0x80000004;

/// Memory was used against its protection.
pub const EXCEPTION_ACCESS_VIOLATION: u32 = 0xC0000005;

/// The same as the first two, on the 32-bit side of a thread.
pub const EXCEPTION_WX86_BREAKPOINT: u32 = 0x4000001F;

pub const EXCEPTION_WX86_SINGLE_STEP: u32 = 0x4000001E;

/// Further exceptions of the 32-bit side.
pub const STATUS_WX86_UNSIMULATE: u32 = 0x4000001C;

pub const STATUS_WX86_INTERNAL_ERROR: u32 = 0xC000026F;

pub const STATUS_WX86_FLOAT_STACK_CHECK: u32 = 0xC0000270;

/// Code segment of 32-bit code on a 64-bit system.
pub const WOW64_CODE_SEGMENT: u16 = 0x23;

/// What follows once an exception was looked at.
#[derive(Clone, Copy, Debug, PartialEq, Eq, Structural)]
pub enum After {
    /// Nothing.
    Done,
    /// The user is told, if it meant nothing.
    UserIfNot,
    /// The same, unless the target is being left.
    UserIfStaying,
}

/// Handling an exception.
pub enum ExcOp {
    Hit { first: bool, after: After, op: HitOp },
    /// The user is told that the target has started.
    Init { width: Width, result: HandleResult },
    Greeted { result: HandleResult, reply: ReplyOp },
}

/// Handling an event: what is waited for.
pub enum HandleOp {
    /// A new process's module is noted.
    ProcessLoad,
    ProcessContext,
    ProcessTold,
    ExitContext { code: u32 },
    ExitTold,
    ThreadAsk { info: ThreadInfo },
    ThreadArm { info: ThreadInfo, op: AllOp },
    ThreadContext,
    ThreadExit { code: u32 },
    DllContext { image: ImageInfo },
    DllLoad { base: usize },
    DllUnload { base: usize },
    DllUnloadTold { base: usize },
    ExceptionContext { first: bool },
    ExceptionContext32 { first: bool },
    Exception(ExcOp),
    /// Nothing more is to be done.
    Last,
}

pub type HandlePoll = Poll<HandleOp, Option<HandleResult>>;

pub type ExcPoll = Poll<ExcOp, HandleResult>;

/// Whether an exception says that one step was done.
pub open spec fn is_step(code: u32) -> bool {
    code == EXCEPTION_SINGLE_STEP || code == EXCEPTION_WX86_SINGLE_STEP
}

/// Whether an exception can only come from the 32-bit side of a thread.
pub open spec fn is_wx86(code: u32) -> bool {
    ||| code == EXCEPTION_WX86_BREAKPOINT
    ||| code == EXCEPTION_WX86_SINGLE_STEP
    ||| code == STATUS_WX86_UNSIMULATE
    ||| code == STATUS_WX86_INTERNAL_ERROR
    ||| code == STATUS_WX86_FLOAT_STACK_CHECK
}

/// Whether the exception at hand concerns the 32-bit side of its thread.
pub open spec fn on_narrow_side(h: HandlerState) -> bool {
    h.wow64 && (is_wx86(h.this.record.code) || h.this.debug.cx.seg_cs == WOW64_CODE_SEGMENT)
}

/// Reads the registers of the thread of the event at hand.
pub open spec fn read_context(h: HandlerState, op: HandleOp) -> HandlePoll {
    Poll::Pending(Action::GetContext { place: h.this.place(h.event.tid) }, op)
}

/// Tells the user of something, and is done with the event.
pub open spec fn tell_last(event: UEvent) -> HandlePoll {
    Poll::Pending(Action::Callback(event), HandleOp::Last)
}

/// The handler without a module.
pub open spec fn without_module(h: HandlerState, base: usize) -> HandlerState {
    h.with(
        AdaptorState {
            modules: modules_without(h.this.debug.modules, base),
            ..h.this.debug
        },
    )
}

/// The handler that knows the instruction set of the stopped thread.
pub open spec fn with_arch(h: HandlerState, arch: Arch) -> HandlerState {
    h.with(AdaptorState { base: UDbgBase { arch, ..h.this.debug.base }, ..h.this.debug })
}

/// The handler with the registers of the 32-bit side read, if they could be,
/// and the thread put where the exception was.
pub open spec fn context32_read(h: HandlerState, reply: Reply) -> HandlerState {
    let debug = h.this.debug;
    let cx32 = match reply.context32() {
        Some(cx32) => cx32,
        None => debug.cx32,
    };
    h.with(
        AdaptorState {
            cx32: cx32.with_pc(h.this.record.address as usize),
            has_cx32: true,
            base: UDbgBase { arch: Arch::X86, ..debug.base },
            ..debug
        },
    )
}

/// Starts on the event at hand.
#[verifier::opaque]
pub open spec fn handle_start(h: HandlerState) -> (HandlerState, HandlePoll) {
    let tid = h.event.tid;
    match h.event.kind {
        EventKind::CreateProcess { thread, image } => (
            with_thread(
                if thread.handle == 0 {
                    h.report(Report::NoProcessHandle(tid))
                } else {
                    h
                },
                thread,
            ),
            Poll::Pending(
                Action::LoadModule {
                    name: image.name,
                    base: image.base,
                    file: image.file,
                    unicode: image.unicode,
                },
                HandleOp::ProcessLoad,
            ),
        ),
        EventKind::ExitProcess(code) => (h, read_context(h, HandleOp::ExitContext { code })),
        EventKind::CreateThread(info) => (
            if info.handle == 0 {
                h.report(Report::NoThreadHandle(tid))
            } else {
                h
            },
            Poll::Pending(Action::AskHwbp, HandleOp::ThreadAsk { info }),
        ),
        EventKind::ExitThread(code) => (h, read_context(h, HandleOp::ThreadExit { code })),
        EventKind::LoadDll(image) => (h, read_context(h, HandleOp::DllContext { image })),
        EventKind::UnloadDll { base } => (h, read_context(h, HandleOp::DllUnload { base })),
        EventKind::OutputString { address, count, unicode } => (
            h,
            if !h.this.debug.show_debug_string {
                Poll::Ready(Some(HandleResult::NotHandled))
            } else if h.this.debug.base.show_output {
                Poll::Pending(
                    Action::ShowString { address, count, wide: unicode },
                    HandleOp::Last,
                )
            } else {
                Poll::Ready(Some(HandleResult::Continue))
            },
        ),
        EventKind::Rip { code, kind } => (
            h.report(Report::Rip { code, kind }),
            Poll::Ready(Some(HandleResult::Continue)),
        ),
        EventKind::Exception { first, record } => (
            h,
            read_context(h, HandleOp::ExceptionContext { first }),
        ),
    }
}

/// Goes on with a new thread once its debug registers are set.
pub open spec fn thread_armed(h: HandlerState, info: ThreadInfo, poll: AllPoll) -> (
    HandlerState,
    HandlePoll,
) {
    match poll {
        Poll::Pending(action, op) => (
            h,
            Poll::Pending(action, HandleOp::ThreadArm { info, op }),
        ),
        Poll::Ready(_) => (
            with_thread(h, info),
            read_context(with_thread(h, info), HandleOp::ThreadContext),
        ),
    }
}

/// Goes on once an exception was looked at.
pub open spec fn exc_after(h: HandlerState, first: bool, after: After, r: HandleResult) -> ExcPoll {
    let tell = match after {
        After::Done => false,
        After::UserIfNot => true,
        After::UserIfStaying => !h.this.detaching,
    };
    if r == HandleResult::NotHandled && tell {
        match user_start(first, h.this.record) {
            Poll::Pending(action, op) => Poll::Pending(
                action,
                ExcOp::Hit { first, after: After::Done, op },
            ),
            Poll::Ready(r) => Poll::Ready(r),
        }
    } else {
        Poll::Ready(r)
    }
}

/// Goes on as the look at an exception does.
pub open spec fn exc_hit(h: HandlerState, first: bool, after: After, poll: HitPoll) -> ExcPoll {
    match poll {
        Poll::Pending(action, op) => Poll::Pending(action, ExcOp::Hit { first, after, op }),
        Poll::Ready(r) => exc_after(h, first, after, r),
    }
}

/// The same, with the session that the look left.
pub open spec fn exc_looked(
    h: HandlerState,
    first: bool,
    after: After,
    looked: (AdaptorState, HitPoll),
) -> (HandlerState, ExcPoll) {
    (h.with(looked.0), exc_hit(h.with(looked.0), first, after, looked.1))
}

/// Goes on as the user's wish at the start of the target does.
pub open spec fn exc_greeted(poll: ReplyPoll, result: HandleResult) -> ExcPoll {
    match poll {
        Poll::Pending(action, reply) => Poll::Pending(action, ExcOp::Greeted { result, reply }),
        Poll::Ready(_) => Poll::Ready(result),
    }
}

/// Starts on an exception.
#[verifier::opaque]
pub open spec fn exc_start(h: HandlerState, first: bool, narrow: bool) -> (HandlerState, ExcPoll) {
    let debug = h.this.debug;
    let record = h.this.record;
    let code = record.code;
    if code == EXCEPTION_WX86_BREAKPOINT {
        if h.first_bp32_hitted {
            exc_looked(h, first, After::Done, int3_hit(debug, first, record, Width::Narrow))
        } else {
            (
                HandlerState { first_bp32_hitted: true, ..h },
                Poll::Pending(
                    Action::Callback(UEvent::InitBp),
                    ExcOp::Init { width: Width::Narrow, result: HandleResult::NotHandled },
                ),
            )
        }
    } else if code == EXCEPTION_BREAKPOINT {
        if h.first_bp_hitted {
            exc_looked(h, first, After::Done, int3_hit(debug, first, record, Width::Wide))
        } else {
            (
                HandlerState { first_bp_hitted: true, ..h },
                if !debug.wow64 || h.this.attached {
                    Poll::Pending(
                        Action::Callback(UEvent::InitBp),
                        ExcOp::Init { width: Width::Wide, result: HandleResult::Continue },
                    )
                } else {
                    Poll::Ready(HandleResult::Continue)
                },
            )
        }
    } else if code == EXCEPTION_WX86_SINGLE_STEP {
        exc_looked(h, first, After::UserIfNot, step_hit(debug, record, Width::Narrow))
    } else if code == EXCEPTION_SINGLE_STEP {
        exc_looked(h, first, After::UserIfNot, step_hit(debug, record, Width::Wide))
    } else if code == EXCEPTION_ACCESS_VIOLATION {
        let width = if narrow {
            Width::Narrow
        } else {
            Width::Wide
        };
        exc_looked(h, first, After::UserIfStaying, table_hit(debug, record, width))
    } else {
        (h, exc_after(h, first, After::UserIfStaying, HandleResult::NotHandled))
    }
}

/// The result of an exception as that of an event.
pub open spec fn handle_exc(poll: ExcPoll) -> HandlePoll {
    match poll {
        Poll::Pending(action, op) => Poll::Pending(action, HandleOp::Exception(op)),
        Poll::Ready(r) => Poll::Ready(Some(r)),
    }
}

/// Goes on with an exception once the registers are there.
pub open spec fn handle_looked(looked: (HandlerState, ExcPoll)) -> (HandlerState, HandlePoll) {
    (looked.0, handle_exc(looked.1))
}

/// Goes on as the user's wish after a step does.
pub open spec fn hit_stepped(poll: ReplyPoll) -> HitPoll {
    match poll {
        Poll::Pending(action, reply) => Poll::Pending(action, HitOp::Stepped(reply)),
        Poll::Ready(_) => Poll::Ready(HandleResult::Continue),
    }
}

/// Waits for the next event while a trap instruction is off.
pub open spec fn bp_cont(op: BpOp, went: (HandlerState, ContPoll)) -> (HandlerState, BpPoll) {
    match went.1 {
        Poll::Pending(action, c) => (
            went.0,
            Poll::Pending(action, BpOp { stage: BpStage::Cont(c), ..op }),
        ),
        Poll::Ready(_) => (
            fetch_start(went.0),
            Poll::Pending(Action::WaitEvent, BpOp { stage: BpStage::Fetch, ..op }),
        ),
    }
}

/// Goes on once the trap instruction is off: the thread does one step.
#[verifier::opaque]
pub open spec fn bp_disabled(h: HandlerState, op: BpOp, poll: EnablePoll) -> (
    HandlerState,
    BpPoll,
) {
    match poll {
        Poll::Pending(action, e) => (
            h,
            Poll::Pending(action, BpOp { stage: BpStage::Disable(e), ..op }),
        ),
        Poll::Ready(r) => {
            let s = h.this.debug.check_result(crate::io::Doing::DisableBp, r);
            let user_step = s.flags(op.width) & EFLAGS_TF > 0;
            let s1 = if user_step {
                s
            } else {
                s.set_step(op.width, true)
            };
            bp_cont(BpOp { user_step, ..op }, cont_start(h.with(s1), HandleResult::Handled))
        },
    }
}

/// Goes on as the handling of another thread's event does.
pub open spec fn bp_nested(h: HandlerState, op: BpOp, poll: HandlePoll) -> (HandlerState, BpPoll) {
    match poll {
        Poll::Pending(action, o) => (
            h,
            Poll::Pending(action, BpOp { stage: BpStage::Nested(Box::new(o)), ..op }),
        ),
        Poll::Ready(Some(status)) => bp_cont(op, cont_start(h, status)),
        Poll::Ready(None) => (h, Poll::Ready(HandleResult::Handled)),
    }
}

/// Goes on as the handling of the user's own step does.
pub open spec fn bp_again(op: BpOp, poll: HandlePoll) -> BpPoll {
    match poll {
        Poll::Pending(action, o) => Poll::Pending(
            action,
            BpOp { stage: BpStage::Again(Box::new(o)), ..op },
        ),
        Poll::Ready(Some(status)) => Poll::Ready(status),
        Poll::Ready(None) => Poll::Ready(HandleResult::Handled),
    }
}

/// Goes on once the trap instruction is on again.
pub open spec fn bp_enabled(h: HandlerState, op: BpOp, poll: EnablePoll) -> (HandlerState, BpPoll) {
    match poll {
        Poll::Pending(action, e) => (
            h,
            Poll::Pending(action, BpOp { stage: BpStage::Enable(e), ..op }),
        ),
        Poll::Ready(r) => {
            let h1 = h.with(h.this.debug.check_result(crate::io::Doing::EnableBp, r));
            if op.user_step {
                let (h2, again) = handle_start(h1);
                (h2, bp_again(op, again))
            } else {
                (h1.drop_contexts(), Poll::Ready(HandleResult::Continue))
            }
        },
    }
}

/// Goes on with an event that came while the trap instruction is off.
pub open spec fn bp_fetched(h: HandlerState, op: BpOp) -> (HandlerState, BpPoll) {
    if h.this.debug.base.event_tid == op.tid {
        bp_enabled(h, op, enable_start(h.this.debug, op.bp, true))
    } else {
        let (h1, poll) = handle_start(h);
        bp_nested(h1, op, poll)
    }
}

/// Goes on with a breakpoint that was met.
pub open spec fn bp_next(h: HandlerState, op: BpOp, reply: Reply) -> (HandlerState, BpPoll)
    decreases op,
{
    let debug = h.this.debug;
    let record = h.this.record;
    let rest = BpOp { stage: BpStage::Callback, ..op };
    match op.stage {
        BpStage::Remove(r) => {
            let (s1, poll) = remove_next(debug, r, reply);
            let (s2, met) = bp_removed(s1, record, rest, poll);
            (h.with(s2), met)
        },
        BpStage::Callback => {
            let (s1, poll) = reply_start(debug, op.width, record.address as usize, reply.user());
            (h.with(s1), bp_replied(s1, rest, poll))
        },
        BpStage::Reply(r) => {
            let (s1, poll) = reply_next(debug, r, reply);
            (h.with(s1), bp_replied(s1, rest, poll))
        },
        BpStage::Disable(e) => {
            let (s1, poll) = enable_next(debug, e, reply);
            bp_disabled(h.with(s1), rest, poll)
        },
        BpStage::Cont(c) => bp_cont(rest, cont_next(h, c, reply)),
        BpStage::Fetch => match reply.event() {
            Some(event) => bp_fetched(fetched(h, event), rest),
            None => (h, Poll::Ready(HandleResult::Handled)),
        },
        BpStage::Nested(o) => {
            let (h1, poll) = handle_next(h, *o, reply);
            bp_nested(h1, rest, poll)
        },
        BpStage::Enable(e) => {
            let (s1, poll) = enable_next(debug, e, reply);
            bp_enabled(h.with(s1), rest, poll)
        },
        BpStage::Again(o) => {
            let (h1, poll) = handle_next(h, *o, reply);
            (h1, bp_again(rest, poll))
        },
    }
}

/// Goes on with the look at an exception.
pub open spec fn hit_next(h: HandlerState, op: HitOp, reply: Reply) -> (HandlerState, HitPoll)
    decreases op,
{
    match op {
        HitOp::Bp(b) => {
            let (h1, poll) = bp_next(h, b, reply);
            (h1, hit_bp(poll))
        },
        HitOp::Step { width } => {
            let (s1, poll) = reply_start(
                h.this.debug,
                width,
                h.this.record.address as usize,
                reply.user(),
            );
            (h.with(s1), hit_stepped(poll))
        },
        HitOp::Stepped(r) => {
            let (s1, poll) = reply_next(h.this.debug, r, reply);
            (h.with(s1), hit_stepped(poll))
        },
        HitOp::User => (
            h,
            Poll::Ready(
                if reply.user() == UserReply::Run(true) {
                    HandleResult::Continue
                } else {
                    HandleResult::NotHandled
                },
            ),
        ),
    }
}

/// Goes on with an exception.
pub open spec fn exc_next(h: HandlerState, op: ExcOp, reply: Reply) -> (HandlerState, ExcPoll)
    decreases op,
{
    match op {
        ExcOp::Hit { first, after, op } => {
            let (h1, poll) = hit_next(h, op, reply);
            (h1, exc_hit(h1, first, after, poll))
        },
        ExcOp::Init { width, result } => {
            let (s1, poll) = reply_start(
                h.this.debug,
                width,
                h.this.record.address as usize,
                reply.user(),
            );
            (h.with(s1), exc_greeted(poll, result))
        },
        ExcOp::Greeted { result, reply: r } => {
            let (s1, poll) = reply_next(h.this.debug, r, reply);
            (h.with(s1), exc_greeted(poll, result))
        },
    }
}

/// Goes on with an event.
pub open spec fn handle_next(h: HandlerState, op: HandleOp, reply: Reply) -> (
    HandlerState,
    HandlePoll,
)
    decreases op,
{
    let tid = h.event.tid;
    match op {
        HandleOp::ProcessLoad => (h, read_context(h, HandleOp::ProcessContext)),
        HandleOp::ProcessContext => (
            context_read(h, reply),
            Poll::Pending(Action::Callback(UEvent::ProcessCreate), HandleOp::ProcessTold),
        ),
        HandleOp::ProcessTold => (h, tell_last(UEvent::ThreadCreate(tid))),
        HandleOp::ExitContext { code } => (
            context_read(h, reply),
            Poll::Pending(Action::Callback(UEvent::ProcessExit(code)), HandleOp::ExitTold),
        ),
        HandleOp::ExitTold => (h, Poll::Ready(None)),
        HandleOp::ThreadAsk { info } => thread_armed(
            h,
            info,
            if reply.flag() {
                Poll::Ready(())
            } else {
                all_from(h.this.debug, info.handle, true, 0)
            },
        ),
        HandleOp::ThreadArm { info, op } => {
            let (s1, poll) = all_next(h.this.debug, op, reply);
            thread_armed(h.with(s1), info, poll)
        },
        HandleOp::ThreadContext => (
            context_read(h, reply),
            tell_last(UEvent::ThreadCreate(tid)),
        ),
        HandleOp::ThreadExit { code } => (
            without_thread(context_read(h, reply)),
            tell_last(UEvent::ThreadExit(code)),
        ),
        HandleOp::DllContext { image } => (
            context_read(h, reply),
            Poll::Pending(
                Action::LoadModule {
                    name: image.name,
                    base: image.base,
                    file: image.file,
                    unicode: image.unicode,
                },
                HandleOp::DllLoad { base: image.base },
            ),
        ),
        HandleOp::DllLoad { base } => (
            h,
            match module_covering(h.this.debug.modules, base) {
                Some(i) => tell_last(UEvent::ModuleLoad(h.this.debug.modules[i].data.base)),
                None => Poll::Ready(Some(HandleResult::Continue)),
            },
        ),
        HandleOp::DllUnload { base } => {
            let h1 = context_read(h, reply);
            match module_covering(h1.this.debug.modules, base) {
                Some(i) => (
                    h1,
                    Poll::Pending(
                        Action::Callback(
                            UEvent::ModuleUnload(h1.this.debug.modules[i].data.base),
                        ),
                        HandleOp::DllUnloadTold { base },
                    ),
                ),
                None => (without_module(h1, base), Poll::Ready(Some(HandleResult::Continue))),
            }
        },
        HandleOp::DllUnloadTold { base } => (
            without_module(h, base),
            Poll::Ready(Some(HandleResult::Continue)),
        ),
        HandleOp::ExceptionContext { first } => {
            let h1 = context_read(h, reply);
            if on_narrow_side(h1) {
                (
                    h1,
                    Poll::Pending(
                        Action::GetContext32 { place: h1.this.place(tid) },
                        HandleOp::ExceptionContext32 { first },
                    ),
                )
            } else {
                handle_looked(exc_start(with_arch(h1, Arch::X64), first, false))
            }
        },
        HandleOp::ExceptionContext32 { first } => handle_looked(
            exc_start(context32_read(h, reply), first, true),
        ),
        HandleOp::Exception(e) => handle_looked(exc_next(h, e, reply)),
        HandleOp::Last => (h, Poll::Ready(Some(HandleResult::Continue))),
    }
}

} // verus!
