//! A debugged target, the event at hand, and letting the target go on.
use std::collections::HashMap;
use vstd::prelude::*;

use crate::adaptor::{AdaptorState, CommonAdaptor, UDbgBase};
use crate::io::{Action, DebugEvent, EventKind, Place, Poll, Reply, Report, ThreadInfo};
use crate::regs::HWBPRegs;
use crate::types::{ExceptionRecord, HandleResult, Tid, UDbgStatus};

verus! {

broadcast use vstd::std_specs::hash::group_hash_axioms;

/// A thread of the target, as the debugger was told of it.
#[derive(Clone, Copy, Debug, PartialEq, Eq, Structural)]
pub struct DbgThread {
    pub tid: Tid,
    pub handle: usize,
    pub local_base: usize,
    pub start_address: usize,
}

impl DbgThread {
    /// A thread with the number the system gives for its handle.
    pub fn new(tid: Tid, handle: usize, local_base: usize, start_address: usize) -> (r: DbgThread)
        ensures
            r == (DbgThread { tid, handle, local_base, start_address }),
    {
        DbgThread { tid, handle, local_base, start_address }
    }

    /// The thread an event introduces.
    pub open spec fn of(info: ThreadInfo) -> DbgThread {
        DbgThread {
            tid: info.tid,
            handle: info.handle,
            local_base: info.local_base,
            start_address: info.start_address,
        }
    }
}

impl From<ThreadInfo> for DbgThread {
    fn from(info: ThreadInfo) -> (r: DbgThread) {
        DbgThread::new(info.tid, info.handle, info.local_base, info.start_address)
    }
}

impl vstd::std_specs::convert::FromSpecImpl<ThreadInfo> for DbgThread {
    open spec fn obeys_from_spec() -> bool {
        true
    }

    open spec fn from_spec(info: ThreadInfo) -> DbgThread {
        DbgThread::of(info)
    }
}

/// A target under the system's debugging interface.
pub struct StandardAdaptor {
    pub debug: CommonAdaptor,
    /// The last exception.
    pub record: ExceptionRecord,
    pub threads: HashMap<Tid, DbgThread>,
    /// Whether the target ran before it was debugged.
    pub attached: bool,
    pub detaching: bool,
}

/// The target in terms of mathematics.
pub struct StandardState {
    pub debug: AdaptorState,
    pub record: ExceptionRecord,
    pub threads: Map<Tid, DbgThread>,
    pub attached: bool,
    pub detaching: bool,
}

impl View for StandardAdaptor {
    type V = StandardState;

    open spec fn view(&self) -> StandardState {
        StandardState {
            debug: self.debug@,
            record: self.record,
            threads: self.threads@,
            attached: self.attached,
            detaching: self.detaching,
        }
    }
}

/// What handles the events of a target.
pub struct Win32Handler {
    pub this: StandardAdaptor,
    /// The event at hand.
    pub event: DebugEvent,
    pub wow64: bool,
    pub first_bp_hitted: bool,
    pub first_bp32_hitted: bool,
}

/// The handler in terms of mathematics.
pub struct HandlerState {
    pub this: StandardState,
    pub event: DebugEvent,
    pub wow64: bool,
    pub first_bp_hitted: bool,
    pub first_bp32_hitted: bool,
}

impl View for Win32Handler {
    type V = HandlerState;

    open spec fn view(&self) -> HandlerState {
        HandlerState {
            this: self.this@,
            event: self.event,
            wow64: self.wow64,
            first_bp_hitted: self.first_bp_hitted,
            first_bp32_hitted: self.first_bp32_hitted,
        }
    }
}

impl StandardState {
    /// How the registers of a thread are reached.
    pub open spec fn place(self, tid: Tid) -> Place {
        if self.threads.dom().contains(tid) {
            Place::Handle(self.threads[tid].handle)
        } else {
            Place::Tid(tid)
        }
    }
}

impl HandlerState {
    pub open spec fn wf(self) -> bool {
        self.this.debug.wf()
    }

    pub open spec fn fits(self) -> bool {
        self.this.debug.fits()
    }

    /// Whether breakpoints stay where and what they are.
    pub open spec fn grows_to(self, next: HandlerState) -> bool {
        self.this.debug.grows_to(next.this.debug)
    }

    /// The handler with another session.
    pub open spec fn with(self, debug: AdaptorState) -> HandlerState {
        HandlerState { this: StandardState { debug, ..self.this }, ..self }
    }

    /// The handler with another thing to show.
    pub open spec fn report(self, report: Report) -> HandlerState {
        self.with(self.this.debug.report(report))
    }

    /// The handler in which no registers are to be written back.
    pub open spec fn drop_contexts(self) -> HandlerState {
        self.with(AdaptorState { has_cx: false, has_cx32: false, ..self.this.debug })
    }
}

/// The action whose answer the going on waits for.
#[derive(Clone, Copy, Debug, PartialEq, Eq, Structural)]
pub enum ContStage {
    Context,
    Continue,
    Stop,
}

/// Letting the target go on from the event at hand.
#[derive(Clone, Copy, Debug)]
pub struct ContOp {
    pub status: HandleResult,
    pub stage: ContStage,
}

pub type ContPoll = Poll<ContOp, ()>;

/// Answers the system for the event at hand.
pub open spec fn cont_event(h: HandlerState, status: HandleResult) -> ContPoll {
    Poll::Pending(
        Action::ContinueEvent { pid: h.event.pid, tid: h.event.tid, status: status.number() },
        ContOp { status, stage: ContStage::Continue },
    )
}

/// Starts to let the target go on: the registers of the stopped thread are
/// written back, those of its 32-bit side before the others.
pub open spec fn cont_start(h: HandlerState, status: HandleResult) -> (HandlerState, ContPoll) {
    let debug = h.this.debug;
    let place = h.this.place(h.event.tid);
    let op = ContOp { status, stage: ContStage::Context };
    (
        h.drop_contexts(),
        if debug.has_cx32 {
            Poll::Pending(Action::SetContext32 { place, cx32: debug.cx32 }, op)
        } else if debug.has_cx {
            Poll::Pending(Action::SetContext { place, cx: debug.cx }, op)
        } else {
            cont_event(h, status)
        },
    )
}

/// Goes on with that: the system is answered, and left where the user asked to.
pub open spec fn cont_next(h: HandlerState, op: ContOp, reply: Reply) -> (HandlerState, ContPoll) {
    match op.stage {
        ContStage::Context => (h, cont_event(h, op.status)),
        ContStage::Continue => (
            h,
            if h.this.detaching {
                Poll::Pending(
                    Action::StopDebugging { pid: h.event.pid },
                    ContOp { stage: ContStage::Stop, ..op },
                )
            } else {
                Poll::Ready(())
            },
        ),
        ContStage::Stop => (h.report(Report::Detached(reply.flag())), Poll::Ready(())),
    }
}

/// Letting the target go on keeps the session in order.
pub proof fn lemma_cont_keeps(h: HandlerState, status: HandleResult, op: ContOp, reply: Reply)
    requires
        h.wf(),
    ensures
        cont_start(h, status).0.wf(),
        h.grows_to(cont_start(h, status).0),
        cont_start(h, status).0.this.debug.bps == h.this.debug.bps,
        cont_next(h, op, reply).0.wf(),
        h.grows_to(cont_next(h, op, reply).0),
        cont_next(h, op, reply).0.this.debug.bps == h.this.debug.bps,
{
}

/// How many answers the going on can still take.
pub open spec fn cont_rank(op: ContOp) -> nat {
    match op.stage {
        ContStage::Context => 2,
        ContStage::Continue => 1,
        ContStage::Stop => 0,
    }
}

/// Every event the target goes on from is answered, once, with the answer
/// given, and no registers are left to be written back after it.
pub proof fn lemma_cont_answers(h: HandlerState, status: HandleResult, op: ContOp, reply: Reply)
    ensures
        ({
            let (h1, poll) = cont_start(h, status);
            &&& !h1.this.debug.has_cx && !h1.this.debug.has_cx32
            &&& poll matches Poll::Pending(action, o) && o.status == status && (o.stage
                == ContStage::Continue <==> action is ContinueEvent) && o.stage != ContStage::Stop
        }),
        ({
            let (h1, poll) = cont_next(h, op, reply);
            match poll {
                Poll::Pending(action, o) => {
                    &&& cont_rank(o) < cont_rank(op)
                    &&& o.status == op.status
                    &&& op.stage == ContStage::Context ==> o.stage == ContStage::Continue && action
                        == (Action::ContinueEvent {
                        pid: h.event.pid,
                        tid: h.event.tid,
                        status: op.status.number(),
                    })
                    &&& op.stage != ContStage::Context ==> !(action is ContinueEvent)
                },
                Poll::Ready(_) => op.stage != ContStage::Context,
            }
        }),
{
}

/// The handler while it waits for an event.
pub open spec fn fetch_start(h: HandlerState) -> HandlerState {
    let debug = h.this.debug;
    h.with(
        AdaptorState { base: UDbgBase { status: UDbgStatus::Running, ..debug.base }, ..debug },
    )
}

/// The handler at a new event.
pub open spec fn fetched(h: HandlerState, event: DebugEvent) -> HandlerState {
    let debug = h.this.debug;
    let base = UDbgBase { status: UDbgStatus::Paused, event_tid: event.tid, ..debug.base };
    match event.kind {
        EventKind::Exception { first, record } => HandlerState {
            this: StandardState {
                debug: AdaptorState {
                    base: UDbgBase { event_pc: record.address as usize, ..base },
                    ..debug
                },
                record,
                ..h.this
            },
            event,
            ..h
        },
        _ => HandlerState {
            this: StandardState { debug: AdaptorState { base, ..debug }, ..h.this },
            event,
            ..h
        },
    }
}

/// The handler with the registers of the stopped thread read; where that
/// failed, it is as it was.
pub open spec fn context_read(h: HandlerState, reply: Reply) -> HandlerState {
    let debug = h.this.debug;
    match reply.context() {
        Ok(cx) => h.with(
            AdaptorState {
                cx,
                has_cx: true,
                base: UDbgBase { event_pc: cx.pc(), ..debug.base },
                ..debug
            },
        ),
        Err(_) => h,
    }
}

/// The handler that knows one thread more.
pub open spec fn with_thread(h: HandlerState, info: ThreadInfo) -> HandlerState {
    HandlerState {
        this: StandardState {
            threads: h.this.threads.insert(h.event.tid, DbgThread::of(info)),
            ..h.this
        },
        ..h
    }
}

/// The handler that knows nothing of the thread of the event at hand.
pub open spec fn without_thread(h: HandlerState) -> HandlerState {
    HandlerState {
        this: StandardState {
            threads: h.this.threads.remove(h.event.tid),
            debug: AdaptorState { has_cx: false, ..h.this.debug },
            ..h.this
        },
        ..h
    }
}

impl StandardAdaptor {
    /// How the registers of a thread are reached: directly where the debugger
    /// knows the thread, else by opening and suspending it.
    pub fn place(&self, tid: Tid) -> (r: Place)
        ensures
            r == self@.place(tid),
    {
        match self.threads.get(&tid) {
            Some(t) => Place::Handle(t.handle),
            None => Place::Tid(tid),
        }
    }

    /// Reads the registers of a thread.
    pub fn get_context(&self, tid: Tid) -> (r: Action)
        ensures
            r == (Action::GetContext { place: self@.place(tid) }),
    {
        Action::GetContext { place: self.place(tid) }
    }

    /// Reads the registers of the 32-bit side of a thread.
    pub fn get_context32(&self, tid: Tid) -> (r: Action)
        ensures
            r == (Action::GetContext32 { place: self@.place(tid) }),
    {
        Action::GetContext32 { place: self.place(tid) }
    }

    /// Writes the registers of the stopped thread back to a thread.
    pub fn set_context(&self, tid: Tid) -> (r: Action)
        ensures
            r == (Action::SetContext { place: self@.place(tid), cx: self@.debug.cx }),
    {
        Action::SetContext { place: self.place(tid), cx: self.debug.cx }
    }

    /// Writes the registers of the 32-bit side back to a thread.
    pub fn set_context32(&self, tid: Tid) -> (r: Action)
        ensures
            r == (Action::SetContext32 { place: self@.place(tid), cx32: self@.debug.cx32 }),
    {
        Action::SetContext32 { place: self.place(tid), cx32: self.debug.cx32 }
    }
}

impl Win32Handler {
    fn answer(&self, status: HandleResult) -> (r: ContPoll)
        ensures
            r == cont_event(self@, status),
    {
        Poll::Pending(
            Action::ContinueEvent {
                pid: self.event.pid,
                tid: self.event.tid,
                status: status.code(),
            },
            ContOp { status, stage: ContStage::Continue },
        )
    }

    /// Starts to let the target go on from the event at hand.
    pub fn cont(&mut self, status: HandleResult) -> (r: ContPoll)
        ensures
            final(self)@ == cont_start(old(self)@, status).0,
            r == cont_start(old(self)@, status).1,
    {
        let op = ContOp { status, stage: ContStage::Context };
        let poll = if self.this.debug.has_cx32 {
            Poll::Pending(self.this.set_context32(self.event.tid), op)
        } else if self.this.debug.has_cx {
            Poll::Pending(self.this.set_context(self.event.tid), op)
        } else {
            self.answer(status)
        };
        self.this.debug.has_cx32 = false;
        self.this.debug.has_cx = false;
        poll
    }

    /// Goes on with that.
    pub fn resume_cont(&mut self, op: ContOp, reply: Reply) -> (r: ContPoll)
        ensures
            final(self)@ == cont_next(old(self)@, op, reply).0,
            r == cont_next(old(self)@, op, reply).1,
    {
        match op.stage {
            ContStage::Context => self.answer(op.status),
            ContStage::Continue => {
                if self.this.detaching {
                    Poll::Pending(
                        Action::StopDebugging { pid: self.event.pid },
                        ContOp { stage: ContStage::Stop, ..op },
                    )
                } else {
                    Poll::Ready(())
                }
            },
            ContStage::Stop => {
                self.this.debug.report(Report::Detached(reply.flag()));
                Poll::Ready(())
            },
        }
    }

    /// Waits for the next event.
    pub fn fetch(&mut self) -> (r: Action)
        ensures
            final(self)@ == fetch_start(old(self)@),
            r == Action::WaitEvent,
    {
        self.this.debug.base.status = UDbgStatus::Running;
        Action::WaitEvent
    }

    /// Takes in the event that came, and says whether there was one.
    pub fn resume_fetch(&mut self, reply: Reply) -> (r: Option<()>)
        ensures
            match reply.event() {
                Some(event) => final(self)@ == fetched(old(self)@, event) && r == Some(()),
                None => final(self)@ == old(self)@ && r is None,
            },
    {
        match reply.event() {
            Some(event) => {
                self.event = event;
                self.this.debug.base.status = UDbgStatus::Paused;
                self.this.debug.base.event_tid = event.tid;
                if let EventKind::Exception { first, record } = event.kind {
                    self.this.record = record;
                    self.this.debug.base.event_pc = record.address as usize;
                }
                Some(())
            },
            None => None,
        }
    }

    /// Notes the thread of the event at hand.
    pub fn add_thread(&mut self, info: ThreadInfo)
        ensures
            final(self)@ == with_thread(old(self)@, info),
    {
        self.this.threads.insert(self.event.tid, DbgThread::from(info));
    }

    /// Forgets the thread of the event at hand, and with it the registers.
    pub fn remove_thread(&mut self)
        ensures
            final(self)@ == without_thread(old(self)@),
    {
        self.this.threads.remove(&self.event.tid);
        self.this.debug.has_cx = false;
    }

    /// Reads the registers of the thread of the event at hand.
    pub fn update_context(&self) -> (r: Action)
        ensures
            r == (Action::GetContext { place: self@.this.place(self@.event.tid) }),
    {
        self.this.get_context(self.event.tid)
    }

    /// Takes in those registers, where they could be read.
    pub fn resume_context(&mut self, reply: Reply)
        ensures
            final(self)@ == context_read(old(self)@, reply),
    {
        if let Ok(cx) = reply.context() {
            self.this.debug.base.event_pc = cx.ip();
            self.this.debug.cx = cx;
            self.this.debug.has_cx = true;
        }
    }
}

/// Waiting for an event, and taking it in, keeps the session in order.
pub proof fn lemma_fetch_keeps(h: HandlerState, event: DebugEvent, reply: Reply)
    requires
        h.wf(),
    ensures
        fetch_start(h).wf(),
        h.grows_to(fetch_start(h)),
        fetch_start(h).this.debug.bps == h.this.debug.bps,
        fetched(h, event).wf(),
        h.grows_to(fetched(h, event)),
        fetched(h, event).this.debug.bps == h.this.debug.bps,
        context_read(h, reply).wf(),
        h.grows_to(context_read(h, reply)),
        context_read(h, reply).this.debug.bps == h.this.debug.bps,
{
}

} // verus!
