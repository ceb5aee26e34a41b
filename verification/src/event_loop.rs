//! The loop that runs a target from event to event.
use vstd::prelude::*;

use crate::adaptor::{lemma_fits, AdaptorState, CommonAdaptor};
use crate::handler::{handle_next, handle_start, with_arch, HandleOp, HandlePoll};
use crate::io::{Action, DebugEvent, EventKind, Poll, Reply, Report};
use crate::keeps::{
    handle_expects, handle_wf, lemma_handle_keeps, lemma_handle_starts, lemma_handle_stays,
};
use crate::session::{
    cont_next, cont_start, fetch_start, fetched, lemma_fetch_keeps, ContOp, ContPoll, HandlerState,
    StandardAdaptor, Win32Handler,
};
use crate::types::{Arch, UDbgStatus};

verus! {

/// What the system says when the wait for the target's end ran out.
pub const WAIT_TIMEOUT: usize = 258;

/// Milliseconds to wait for the target's end at a time.
pub const EXIT_POLL: u32 = 10;

/// What the loop waits for.
pub enum LoopOp {
    Exit,
    Fetch,
    Handle(HandleOp),
    Cont(ContOp),
}

pub type LoopPoll = Poll<LoopOp, ()>;

/// Whether the target has ended, by what the system says of the wait.
pub open spec fn has_exited(reply: Reply) -> bool {
    reply.word() != Some(WAIT_TIMEOUT)
}

/// Whether what the loop waits for is meaningful.
pub open spec fn loop_wf(s: AdaptorState, op: LoopOp) -> bool {
    op matches LoopOp::Handle(o) ==> handle_wf(s, o)
}

/// Whether the loop can go on with an answer.
pub open spec fn loop_expects(h: HandlerState, op: LoopOp, reply: Reply) -> bool {
    op matches LoopOp::Handle(o) ==> handle_expects(h, o, reply)
}

/// Waits for the next event.
pub open spec fn loop_fetch(h: HandlerState) -> (HandlerState, LoopPoll) {
    (fetch_start(h), Poll::Pending(Action::WaitEvent, LoopOp::Fetch))
}

/// Goes on as the target's going on does.
pub open spec fn loop_cont(went: (HandlerState, ContPoll)) -> (HandlerState, LoopPoll) {
    match went.1 {
        Poll::Pending(action, op) => (went.0, Poll::Pending(action, LoopOp::Cont(op))),
        Poll::Ready(_) => loop_fetch(went.0),
    }
}

/// Goes on as the handling of the event does; the loop ends with the target.
pub open spec fn loop_handled(went: (HandlerState, HandlePoll)) -> (HandlerState, LoopPoll) {
    match went.1 {
        Poll::Pending(action, op) => (went.0, Poll::Pending(action, LoopOp::Handle(op))),
        Poll::Ready(Some(status)) => loop_cont(cont_start(went.0, status)),
        Poll::Ready(None) => (went.0, Poll::Ready(())),
    }
}

/// Starts the loop. A target that is only open is waited for; one under
/// debugging is run from event to event.
pub open spec fn loop_start(h: HandlerState) -> (HandlerState, LoopPoll) {
    let wow64 = h.this.debug.wow64;
    let h1 = h.report(Report::Wow64(wow64));
    if h.this.debug.base.status == UDbgStatus::Opened {
        (
            if wow64 {
                with_arch(h1, Arch::X86)
            } else {
                h1
            },
            Poll::Pending(Action::WaitExit { timeout: EXIT_POLL }, LoopOp::Exit),
        )
    } else {
        loop_fetch(h1)
    }
}

/// Goes on with the loop.
pub open spec fn loop_next(h: HandlerState, op: LoopOp, reply: Reply) -> (HandlerState, LoopPoll) {
    match op {
        LoopOp::Exit => (
            h,
            if has_exited(reply) || h.this.debug.base.status != UDbgStatus::Opened {
                Poll::Ready(())
            } else {
                Poll::Pending(Action::WaitExit { timeout: EXIT_POLL }, LoopOp::Exit)
            },
        ),
        LoopOp::Fetch => match reply.event() {
            Some(event) => loop_handled(handle_start(fetched(h, event))),
            None => (h, Poll::Ready(())),
        },
        LoopOp::Handle(o) => loop_handled(handle_next(h, o, reply)),
        LoopOp::Cont(c) => loop_cont(cont_next(h, c, reply)),
    }
}

/// Whether a step of the loop kept the session in order.
pub open spec fn loop_kept(h: HandlerState, went: (HandlerState, LoopPoll)) -> bool {
    &&& went.0.wf()
    &&& h.grows_to(went.0)
    &&& went.1 matches Poll::Pending(_, o) ==> loop_wf(went.0.this.debug, o)
}

/// Starting the loop keeps the session in order.
pub proof fn lemma_loop_starts(h: HandlerState)
    requires
        h.wf(),
    ensures
        loop_kept(h, loop_start(h)),
{
}

/// What the loop waits for stays meaningful while the session grows.
pub proof fn lemma_loop_stays(s: AdaptorState, s1: AdaptorState, op: LoopOp)
    requires
        loop_wf(s, op),
        s.grows_to(s1),
    ensures
        loop_wf(s1, op),
{
    if let LoopOp::Handle(o) = op {
        lemma_handle_stays(s, s1, o);
    }
}

/// The loop keeps the session in order, whatever the host answers.
pub proof fn lemma_loop_keeps(h: HandlerState, op: LoopOp, reply: Reply)
    requires
        h.wf(),
        loop_wf(h.this.debug, op),
        loop_next(h, op, reply).0.fits(),
    ensures
        loop_kept(h, loop_next(h, op, reply)),
{
    match op {
        LoopOp::Exit => {},
        LoopOp::Fetch => {
            if let Some(event) = reply.event() {
                lemma_fetch_keeps(h, event, reply);
                lemma_handle_starts(fetched(h, event));
            }
        },
        LoopOp::Handle(o) => {
            assert(handle_next(h, o, reply).0.fits());
            lemma_handle_keeps(h, o, reply);
        },
        LoopOp::Cont(c) => {},
    }
}

impl CommonAdaptor {
    /// Waits some milliseconds for the target's end.
    pub fn is_process_exited(timeout: u32) -> (r: Action)
        ensures
            r == (Action::WaitExit { timeout }),
    {
        Action::WaitExit { timeout }
    }

    /// Goes on waiting for the end of a target: until it ended, or is no longer open.
    pub fn wait_process_exit(&self, reply: Reply) -> (r: bool)
        ensures
            r == (has_exited(reply) || self@.base.status != UDbgStatus::Opened),
    {
        let exited: bool = match reply.word() {
            Some(n) => n != WAIT_TIMEOUT,
            None => true,
        };
        exited || !self.base.is_opened()
    }
}

impl Win32Handler {
    /// A handler for a target, at no event yet.
    pub fn new(this: StandardAdaptor) -> (r: Win32Handler)
        ensures
            r@.this == this@,
            r@.wow64 == this@.debug.wow64,
            !r@.first_bp_hitted,
            r@.first_bp32_hitted == this@.attached,
    {
        let wow64: bool = this.debug.symgr.is_wow64;
        let first_bp32_hitted: bool = this.attached;
        Win32Handler {
            this,
            event: DebugEvent { pid: 0, tid: 0, kind: EventKind::Rip { code: 0, kind: 0 } },
            wow64,
            first_bp_hitted: false,
            first_bp32_hitted,
        }
    }

    fn loop_fetch(&mut self) -> (r: LoopPoll)
        ensures
            final(self)@ == loop_fetch(old(self)@).0,
            r == loop_fetch(old(self)@).1,
    {
        let action = self.fetch();
        Poll::Pending(action, LoopOp::Fetch)
    }

    fn loop_cont(&mut self, poll: ContPoll) -> (r: LoopPoll)
        ensures
            final(self)@ == loop_cont((old(self)@, poll)).0,
            r == loop_cont((old(self)@, poll)).1,
    {
        match poll {
            Poll::Pending(action, op) => Poll::Pending(action, LoopOp::Cont(op)),
            Poll::Ready(_) => self.loop_fetch(),
        }
    }

    fn loop_handled(&mut self, poll: HandlePoll) -> (r: LoopPoll)
        ensures
            final(self)@ == loop_handled((old(self)@, poll)).0,
            r == loop_handled((old(self)@, poll)).1,
    {
        match poll {
            Poll::Pending(action, op) => Poll::Pending(action, LoopOp::Handle(op)),
            Poll::Ready(Some(status)) => {
                let poll = self.cont(status);
                self.loop_cont(poll)
            },
            Poll::Ready(None) => Poll::Ready(()),
        }
    }

    fn loop_opened(&mut self) -> (r: LoopPoll)
        ensures
            final(self)@ == (if old(self)@.this.debug.wow64 {
                with_arch(old(self)@, Arch::X86)
            } else {
                old(self)@
            }),
            r == LoopPoll::Pending(Action::WaitExit { timeout: EXIT_POLL }, LoopOp::Exit),
    {
        if self.this.debug.symgr.is_wow64 {
            self.this.debug.base.update_arch(Arch::X86);
        }
        Poll::Pending(CommonAdaptor::is_process_exited(EXIT_POLL), LoopOp::Exit)
    }

    /// Starts the loop.
    pub fn event_loop(&mut self) -> (r: LoopPoll)
        requires
            old(self)@.wf(),
        ensures
            final(self)@ == loop_start(old(self)@).0,
            r == loop_start(old(self)@).1,
            final(self)@.wf(),
            old(self)@.grows_to(final(self)@),
            r matches Poll::Pending(_, o) ==> loop_wf(final(self)@.this.debug, o),
    {
        proof {
            lemma_loop_starts(self@);
        }
        let wow64: bool = self.this.debug.symgr.is_wow64;
        self.this.debug.report(Report::Wow64(wow64));
        if self.this.debug.base.is_opened() {
            self.loop_opened()
        } else {
            self.loop_fetch()
        }
    }

    /// Whether the loop can go on with an answer.
    pub fn loop_expects(&self, op: &LoopOp, reply: Reply) -> (r: bool)
        ensures
            r == loop_expects(self@, *op, reply),
    {
        match op {
            LoopOp::Handle(o) => self.expects(o, reply),
            _ => true,
        }
    }

    /// Goes on with the loop.
    pub fn resume_loop(&mut self, op: LoopOp, reply: Reply) -> (r: LoopPoll)
        requires
            old(self)@.wf(),
            loop_wf(old(self)@.this.debug, op),
            loop_expects(old(self)@, op, reply),
        ensures
            final(self)@ == loop_next(old(self)@, op, reply).0,
            r == loop_next(old(self)@, op, reply).1,
            final(self)@.wf(),
            old(self)@.grows_to(final(self)@),
            r matches Poll::Pending(_, o) ==> loop_wf(final(self)@.this.debug, o),
    {
        let ghost h0 = self@;
        let ghost op0 = op;
        let r = match op {
            LoopOp::Exit => {
                if self.this.debug.wait_process_exit(reply) {
                    Poll::Ready(())
                } else {
                    Poll::Pending(CommonAdaptor::is_process_exited(EXIT_POLL), LoopOp::Exit)
                }
            },
            LoopOp::Fetch => {
                proof {
                    if let Some(event) = reply.event() {
                        lemma_fetch_keeps(h0, event, reply);
                    }
                }
                if self.resume_fetch(reply).is_some() {
                    let poll = self.handle();
                    self.loop_handled(poll)
                } else {
                    Poll::Ready(())
                }
            },
            LoopOp::Handle(o) => {
                let poll = self.resume_handle(o, reply);
                self.loop_handled(poll)
            },
            LoopOp::Cont(c) => {
                let poll = self.resume_cont(c, reply);
                self.loop_cont(poll)
            },
        };
        proof {
            lemma_fits(&self.this.debug);
            lemma_loop_keeps(h0, op0, reply);
        }
        r
    }
}

} // verus!
