//! Carrying out what the user wants done after an event.
use vstd::prelude::*;

use crate::adaptor::{lemma_fits, AdaptorState, CommonAdaptor, Width};
use crate::bp_laws::lemma_int3_stays;
use crate::breakpoints::{int3_next, int3_start, lemma_int3_keeps, Int3Op, Int3Poll};
use crate::io::{Action, Doing, Poll, Reply};
use crate::regs::EFLAGS_TF;
use crate::slots::lemma_step_flags;
use crate::types::{BpOpt, ExceptionRecord, Tid, UserReply};

verus! {

/// The action whose answer the user's wish waits for.
#[derive(Clone, Copy, Debug)]
pub enum ReplyStage {
    Call,
    Add(Int3Op),
}

/// Carrying out the user's wish on the stopped thread.
#[derive(Clone, Copy, Debug)]
pub struct ReplyOp {
    pub width: Width,
    pub stage: ReplyStage,
}

pub type ReplyPoll = Poll<ReplyOp, ()>;

impl ReplyOp {
    pub open spec fn wf(self, s: AdaptorState) -> bool {
        self.stage matches ReplyStage::Add(op) ==> op.wf(s)
    }
}

/// The session in which the stopped thread does one step.
pub open spec fn step_once(s: AdaptorState, width: Width) -> AdaptorState {
    AdaptorState { step_tid: s.base.event_tid, ..s.set_step(width, true) }
}

/// A trap instruction that stops once, in one thread or in any.
pub open spec fn stop_once(address: usize, tid: Option<Tid>) -> BpOpt {
    BpOpt { temp: true, tid, ..BpOpt::trap(address) }
}

/// Goes on as the adding of the trap instruction does; a failure of it is only shown.
pub open spec fn reply_added(s: AdaptorState, width: Width, poll: Int3Poll) -> (
    AdaptorState,
    ReplyPoll,
) {
    match poll {
        Poll::Pending(action, op) => (
            s,
            Poll::Pending(action, ReplyOp { width, stage: ReplyStage::Add(op) }),
        ),
        Poll::Ready(r) => (s.check_result(Doing::AddBp, r), Poll::Ready(())),
    }
}

/// Starts on the user's wish for a thread stopped at `address`.
#[verifier::opaque]
pub open spec fn reply_start(s: AdaptorState, width: Width, address: usize, reply: UserReply) -> (
    AdaptorState,
    ReplyPoll,
) {
    match reply {
        UserReply::Run(_) => (s, Poll::Ready(())),
        UserReply::StepIn => (step_once(s, width), Poll::Ready(())),
        UserReply::StepOut => (
            s,
            Poll::Pending(
                Action::CheckCall { address },
                ReplyOp { width, stage: ReplyStage::Call },
            ),
        ),
        UserReply::Goto(target) => reply_added(s, width, int3_start(stop_once(target, None))),
    }
}

/// Goes on with the user's wish: a call is run over, anything else is stepped.
#[verifier::opaque]
pub open spec fn reply_next(s: AdaptorState, op: ReplyOp, reply: Reply) -> (
    AdaptorState,
    ReplyPoll,
) {
    match op.stage {
        ReplyStage::Call => match reply.word() {
            Some(after) => reply_added(
                s.set_step(op.width, false),
                op.width,
                int3_start(stop_once(after, Some(s.base.event_tid))),
            ),
            None => (step_once(s, op.width), Poll::Ready(())),
        },
        ReplyStage::Add(o) => {
            let (s1, poll) = int3_next(s, o, reply);
            reply_added(s1, op.width, poll)
        },
    }
}

/// Starting on the user's wish keeps the session in order.
pub proof fn lemma_reply_starts(s: AdaptorState, width: Width, address: usize, reply: UserReply)
    requires
        s.wf(),
    ensures
        ({
            let (s1, poll) = reply_start(s, width, address, reply);
            &&& s1.wf()
            &&& s.grows_to(s1)
            &&& s1.bps == s.bps
            &&& poll matches Poll::Pending(_, o) ==> o.wf(s1)
        }),
{
    reveal(reply_start);
}

/// Going on with the user's wish keeps the session in order.
pub proof fn lemma_reply_keeps(s: AdaptorState, op: ReplyOp, reply: Reply)
    requires
        s.wf(),
        op.wf(s),
        reply_next(s, op, reply).0.fits(),
    ensures
        ({
            let (s1, poll) = reply_next(s, op, reply);
            &&& s1.wf()
            &&& s.grows_to(s1)
            &&& poll matches Poll::Pending(_, o) ==> o.wf(s1)
        }),
{
    reveal(reply_next);
    if let ReplyStage::Add(o) = op.stage {
        assert(int3_next(s, o, reply).0.fits());
        lemma_int3_keeps(s, o, reply);
    }
}

/// What the user's wish waits for stays meaningful while the session grows.
pub proof fn lemma_reply_stays(s: AdaptorState, s1: AdaptorState, op: ReplyOp)
    requires
        op.wf(s),
        s.grows_to(s1),
    ensures
        op.wf(s1),
{
    if let ReplyStage::Add(o) = op.stage {
        lemma_int3_stays(s, s1, o);
    }
}

/// Stepping in asks the processor for one step of the thread of the event, and
/// remembers that thread.
pub proof fn lemma_step_in(s: AdaptorState, width: Width, address: usize)
    ensures
        ({
            let (s1, poll) = reply_start(s, width, address, UserReply::StepIn);
            &&& poll is Ready
            &&& s1.step_tid == s.base.event_tid
            &&& s1.flags(width) & EFLAGS_TF > 0
            &&& s1.bp_map == s.bp_map && s1.bps == s.bps
        }),
{
    reveal(reply_start);
    assert(0u32 & EFLAGS_TF == 0) by (bit_vector);
    lemma_step_flags(s.flags(width), true, 0);
}

impl CommonAdaptor {
    fn step_once(&mut self, width: Width)
        ensures
            final(self)@ == step_once(old(self)@, width),
    {
        self.set_step(width, true);
        self.step_tid = self.base.event_tid;
    }

    fn reply_added(&mut self, width: Width, poll: Int3Poll) -> (r: ReplyPoll)
        ensures
            final(self)@ == reply_added(old(self)@, width, poll).0,
            r == reply_added(old(self)@, width, poll).1,
    {
        match poll {
            Poll::Pending(action, op) => Poll::Pending(
                action,
                ReplyOp { width, stage: ReplyStage::Add(op) },
            ),
            Poll::Ready(r) => {
                self.check_result(Doing::AddBp, r);
                Poll::Ready(())
            },
        }
    }

    /// Starts on what the user wants done with the thread that raised `exception`.
    pub fn handle_reply(
        &mut self,
        reply: UserReply,
        exception: &ExceptionRecord,
        width: Width,
    ) -> (r: ReplyPoll)
        ensures
            final(self)@ == reply_start(
                old(self)@,
                width,
                exception.address as usize,
                reply,
            ).0,
            r == reply_start(
                old(self)@,
                width,
                exception.address as usize,
                reply,
            ).1,
    {
        proof {
            reveal(reply_start);
        }
        match reply {
            UserReply::Run(_) => Poll::Ready(()),
            UserReply::StepIn => {
                self.step_once(width);
                Poll::Ready(())
            },
            UserReply::StepOut => Poll::Pending(
                Action::CheckCall { address: exception.address as usize },
                ReplyOp { width, stage: ReplyStage::Call },
            ),
            UserReply::Goto(target) => {
                let opt = BpOpt::int3(target).temp(true).enable(true);
                self.reply_added(width, Self::add_int3_bp(opt))
            },
        }
    }

    /// Goes on with what the user wants done.
    pub fn resume_reply(&mut self, op: ReplyOp, reply: Reply) -> (r: ReplyPoll)
        requires
            old(self)@.wf(),
            op.wf(old(self)@),
        ensures
            final(self)@ == reply_next(old(self)@, op, reply).0,
            r == reply_next(old(self)@, op, reply).1,
            final(self)@.wf(),
            old(self)@.grows_to(final(self)@),
            r matches Poll::Pending(_, o) ==> o.wf(final(self)@),
    {
        proof {
            reveal(reply_next);
        }
        let ghost s = self@;
        let r = match op.stage {
            ReplyStage::Call => match reply.word() {
                Some(after) => {
                    self.set_step(op.width, false);
                    let opt = BpOpt::int3(after).temp(true).enable(true).thread(
                        self.base.event_tid,
                    );
                    self.reply_added(op.width, Self::add_int3_bp(opt))
                },
                None => {
                    self.step_once(op.width);
                    Poll::Ready(())
                },
            },
            ReplyStage::Add(o) => {
                let poll = self.resume_int3_bp(o, reply);
                self.reply_added(op.width, poll)
            },
        };
        proof {
            lemma_fits(self);
            lemma_reply_keeps(s, op, reply);
        }
        r
    }
}

} // verus!
