//! The handler at work: from an answer of the host to the next action.
use vstd::prelude::*;

use crate::adaptor::{lemma_fits, lemma_grown, CommonAdaptor, Width};
use crate::breakpoints::{remove_next, RemoveOp, RemovePoll};
use crate::enable::{
    all_next, enable_next, lemma_enable_keeps, AllOp, AllPoll, EnableOp, EnablePoll,
};
use crate::handler::{
    bp_again, bp_cont, bp_disabled, bp_enabled, bp_fetched, bp_nested, bp_next, context32_read,
    exc_after, exc_greeted, exc_hit, exc_next, exc_start, handle_exc, handle_next, handle_start,
    hit_next, hit_stepped, on_narrow_side, read_context, tell_last, thread_armed, with_arch,
    without_module, After, ExcOp, ExcPoll, HandleOp, HandlePoll, EXCEPTION_ACCESS_VIOLATION,
    EXCEPTION_BREAKPOINT, EXCEPTION_SINGLE_STEP, EXCEPTION_WX86_BREAKPOINT,
    EXCEPTION_WX86_SINGLE_STEP, STATUS_WX86_FLOAT_STACK_CHECK, STATUS_WX86_INTERNAL_ERROR,
    STATUS_WX86_UNSIMULATE, WOW64_CODE_SEGMENT,
};
use crate::hit::{
    bp_removed, bp_replied, int3_hit, step_hit, table_hit, BpOp, BpPoll, BpStage, HitOp, HitPoll,
};
use crate::io::{Action, Doing, EventKind, Poll, Reply, Report, ThreadInfo};
use crate::keeps::{
    bp_expects, bp_wf, exc_expects, exc_wf, handle_expects, handle_wf, hit_expects, hit_wf,
    lemma_bp_keeps, lemma_exc_keeps, lemma_exc_starts, lemma_handle_keeps, lemma_handle_starts,
    lemma_hit_keeps,
};
use crate::regs::{HWBPRegs, EFLAGS_TF};
use crate::reply::{lemma_reply_starts, reply_next, reply_start, ReplyOp, ReplyPoll};
use crate::session::{cont_start, fetch_start, fetched, ContPoll, HandlerState, Win32Handler};
use crate::types::{Arch, HandleResult, UDbgResult, UEvent, UserReply};

verus! {

/// What the handler does to its session, one thing at a time.
impl Win32Handler {
    fn report(&mut self, report: Report)
        ensures
            final(self)@ == old(self)@.report(report),
    {
        self.this.debug.report(report);
    }

    fn check_result<T>(&mut self, doing: Doing, r: UDbgResult<T>)
        ensures
            final(self)@ == old(self)@.with(old(self)@.this.debug.check_result(doing, r)),
    {
        self.this.debug.check_result(doing, r);
    }

    fn drop_contexts(&mut self)
        ensures
            final(self)@ == old(self)@.drop_contexts(),
    {
        self.this.debug.has_cx32 = false;
        self.this.debug.has_cx = false;
    }

    fn update_arch(&mut self, arch: Arch)
        ensures
            final(self)@ == with_arch(old(self)@, arch),
    {
        self.this.debug.base.update_arch(arch);
    }

    fn remove_module(&mut self, base: usize)
        ensures
            final(self)@ == without_module(old(self)@, base),
    {
        self.this.debug.symgr.remove(base);
    }

    fn set_step(&mut self, width: Width)
        ensures
            final(self)@ == old(self)@.with(old(self)@.this.debug.set_step(width, true)),
    {
        self.this.debug.set_step(width, true);
    }

    fn read_context32(&mut self, reply: Reply)
        ensures
            final(self)@ == context32_read(old(self)@, reply),
    {
        if let Some(cx32) = reply.context32() {
            self.this.debug.cx32 = cx32;
        }
        self.this.debug.cx32.set_ip(self.this.record.address as usize);
        self.this.debug.has_cx32 = true;
        self.this.debug.base.update_arch(Arch::X86);
    }

    fn on_trap(&mut self, first: bool, width: Width) -> (r: HitPoll)
        requires
            old(self)@.wf(),
        ensures
            ({
                let h = old(self)@;
                let looked = int3_hit(h.this.debug, first, h.this.record, width);
                final(self)@ == h.with(looked.0) && r == looked.1
            }),
    {
        let record = self.this.record;
        self.this.debug.handle_int3_breakpoint(first, &record, width)
    }

    fn on_step(&mut self, width: Width) -> (r: HitPoll)
        requires
            old(self)@.wf(),
        ensures
            ({
                let h = old(self)@;
                let looked = step_hit(h.this.debug, h.this.record, width);
                final(self)@ == h.with(looked.0) && r == looked.1
            }),
    {
        let record = self.this.record;
        self.this.debug.handle_step(&record, width)
    }

    fn on_fault(&mut self, width: Width) -> (r: HitPoll)
        requires
            old(self)@.wf(),
        ensures
            ({
                let h = old(self)@;
                let looked = table_hit(h.this.debug, h.this.record, width);
                final(self)@ == h.with(looked.0) && r == looked.1
            }),
    {
        let record = self.this.record;
        self.this.debug.handle_possible_table_bp(&record, width)
    }

    fn wish(&mut self, width: Width, reply: UserReply) -> (r: ReplyPoll)
        requires
            old(self)@.wf(),
        ensures
            ({
                let h = old(self)@;
                let went = reply_start(
                    h.this.debug,
                    width,
                    h.this.record.address as usize,
                    reply,
                );
                final(self)@ == h.with(went.0) && r == went.1
            }),
            final(self)@.wf(),
            final(self)@.this.debug.bps == old(self)@.this.debug.bps,
    {
        let record = self.this.record;
        proof {
            lemma_reply_starts(self@.this.debug, width, record.address as usize, reply);
        }
        self.this.debug.handle_reply(reply, &record, width)
    }

    fn resume_wish(&mut self, op: ReplyOp, reply: Reply) -> (r: ReplyPoll)
        requires
            old(self)@.wf(),
            op.wf(old(self)@.this.debug),
        ensures
            ({
                let h = old(self)@;
                let went = reply_next(h.this.debug, op, reply);
                final(self)@ == h.with(went.0) && r == went.1
            }),
            final(self)@.wf(),
            old(self)@.grows_to(final(self)@),
    {
        self.this.debug.resume_reply(op, reply)
    }

    fn resume_switch(&mut self, op: EnableOp, reply: Reply) -> (r: EnablePoll)
        requires
            old(self)@.wf(),
            op.wf(old(self)@.this.debug),
        ensures
            ({
                let h = old(self)@;
                let went = enable_next(h.this.debug, op, reply);
                final(self)@ == h.with(went.0) && r == went.1
            }),
            final(self)@.wf(),
            final(self)@.this.debug.bps.len() == old(self)@.this.debug.bps.len(),
            r matches Poll::Pending(_, o) ==> o.wf(final(self)@.this.debug) && o.bp == op.bp,
    {
        proof {
            lemma_enable_keeps(self@.this.debug, op, reply);
        }
        self.this.debug.resume_breadpoint(op, reply)
    }

    fn resume_removal(&mut self, op: RemoveOp, reply: Reply) -> (r: RemovePoll)
        requires
            old(self)@.wf(),
            op.wf(old(self)@.this.debug),
        ensures
            ({
                let h = old(self)@;
                let went = remove_next(h.this.debug, op, reply);
                final(self)@ == h.with(went.0) && r == went.1
            }),
            final(self)@.wf(),
            old(self)@.grows_to(final(self)@),
    {
        self.this.debug.resume_remove(op, reply)
    }

    fn removed(&mut self, op: BpOp, poll: RemovePoll) -> (r: BpPoll)
        requires
            old(self)@.wf(),
            op.bp < old(self)@.this.debug.bps.len(),
        ensures
            ({
                let h = old(self)@;
                let went = bp_removed(h.this.debug, h.this.record, op, poll);
                final(self)@ == h.with(went.0) && r == went.1
            }),
    {
        let record = self.this.record;
        self.this.debug.bp_removed(&record, op, poll)
    }

    fn resume_arming(&mut self, op: AllOp, reply: Reply) -> (r: AllPoll)
        requires
            old(self)@.wf(),
            op.wf(),
        ensures
            ({
                let h = old(self)@;
                let went = all_next(h.this.debug, op, reply);
                final(self)@ == h.with(went.0) && r == went.1
            }),
    {
        self.this.debug.resume_all_hwbp(op, reply)
    }
}

/// What the handler can go on with.
impl Win32Handler {
    fn bp_expects(&self, op: &BpOp, reply: Reply) -> (r: bool)
        ensures
            r == bp_expects(self@, *op, reply),
        decreases op,
    {
        match &op.stage {
            BpStage::Fetch => match reply.event() {
                Some(event) => {
                    let code: u32 = match event.kind {
                        EventKind::Exception { first, record } => record.code,
                        _ => self.this.record.code,
                    };
                    event.tid != op.tid || code == EXCEPTION_SINGLE_STEP || code
                        == EXCEPTION_WX86_SINGLE_STEP
                },
                None => true,
            },
            BpStage::Nested(o) => self.expects(&**o, reply),
            BpStage::Again(o) => self.expects(&**o, reply),
            _ => true,
        }
    }

    /// Whether an event can go on with an answer. It cannot where a thread that is
    /// to step over a trap instruction did something else.
    pub fn expects(&self, op: &HandleOp, reply: Reply) -> (r: bool)
        ensures
            r == handle_expects(self@, *op, reply),
        decreases op,
    {
        match op {
            HandleOp::Exception(ExcOp::Hit { first, after, op: HitOp::Bp(b) }) => self.bp_expects(
                b,
                reply,
            ),
            _ => true,
        }
    }
}

/// Handling events.
impl Win32Handler {
    fn look(&self, op: HandleOp) -> (r: HandlePoll)
        ensures
            r == read_context(self@, op),
    {
        Poll::Pending(self.update_context(), op)
    }

    fn tell(event: UEvent) -> (r: HandlePoll)
        ensures
            r == tell_last(event),
    {
        Poll::Pending(Action::Callback(event), HandleOp::Last)
    }

    /// Starts on the event at hand.
    pub fn handle(&mut self) -> (r: HandlePoll)
        requires
            old(self)@.wf(),
        ensures
            final(self)@ == handle_start(old(self)@).0,
            r == handle_start(old(self)@).1,
            final(self)@.wf(),
            old(self)@.grows_to(final(self)@),
            r matches Poll::Pending(_, o) ==> handle_wf(final(self)@.this.debug, o),
    {
        proof {
            reveal(handle_start);
            lemma_handle_starts(self@);
        }
        let event = self.event;
        match event.kind {
            EventKind::CreateProcess { thread, image } => {
                if thread.handle == 0 {
                    self.report(Report::NoProcessHandle(event.tid));
                }
                self.add_thread(thread);
                Poll::Pending(
                    Action::LoadModule {
                        name: image.name,
                        base: image.base,
                        file: image.file,
                        unicode: image.unicode,
                    },
                    HandleOp::ProcessLoad,
                )
            },
            EventKind::ExitProcess(code) => self.look(HandleOp::ExitContext { code }),
            EventKind::CreateThread(info) => {
                if info.handle == 0 {
                    self.report(Report::NoThreadHandle(event.tid));
                }
                Poll::Pending(Action::AskHwbp, HandleOp::ThreadAsk { info })
            },
            EventKind::ExitThread(code) => self.look(HandleOp::ThreadExit { code }),
            EventKind::LoadDll(image) => self.look(HandleOp::DllContext { image }),
            EventKind::UnloadDll { base } => self.look(HandleOp::DllUnload { base }),
            EventKind::OutputString { address, count, unicode } => {
                if !self.this.debug.show_debug_string {
                    Poll::Ready(Some(HandleResult::NotHandled))
                } else if self.this.debug.base.show_output {
                    Poll::Pending(
                        Action::ShowString { address, count, wide: unicode },
                        HandleOp::Last,
                    )
                } else {
                    Poll::Ready(Some(HandleResult::Continue))
                }
            },
            EventKind::Rip { code, kind } => {
                self.report(Report::Rip { code, kind });
                Poll::Ready(Some(HandleResult::Continue))
            },
            EventKind::Exception { first, record } => self.look(
                HandleOp::ExceptionContext { first },
            ),
        }
    }

    fn thread_armed(&mut self, info: ThreadInfo, poll: AllPoll) -> (r: HandlePoll)
        ensures
            final(self)@ == thread_armed(old(self)@, info, poll).0,
            r == thread_armed(old(self)@, info, poll).1,
    {
        match poll {
            Poll::Pending(action, op) => Poll::Pending(action, HandleOp::ThreadArm { info, op }),
            Poll::Ready(_) => {
                self.add_thread(info);
                self.look(HandleOp::ThreadContext)
            },
        }
    }

    fn exc_after(&self, first: bool, after: After, r: HandleResult) -> (poll: ExcPoll)
        ensures
            poll == exc_after(self@, first, after, r),
    {
        let tell: bool = match after {
            After::Done => false,
            After::UserIfNot => true,
            After::UserIfStaying => !self.this.detaching,
        };
        if r == HandleResult::NotHandled && tell {
            match CommonAdaptor::user_handle_exception(first, &self.this.record) {
                Poll::Pending(action, op) => Poll::Pending(
                    action,
                    ExcOp::Hit { first, after: After::Done, op },
                ),
                Poll::Ready(r) => Poll::Ready(r),
            }
        } else {
            Poll::Ready(r)
        }
    }

    fn exc_hit(&self, first: bool, after: After, poll: HitPoll) -> (r: ExcPoll)
        ensures
            r == exc_hit(self@, first, after, poll),
    {
        match poll {
            Poll::Pending(action, op) => Poll::Pending(action, ExcOp::Hit { first, after, op }),
            Poll::Ready(r) => self.exc_after(first, after, r),
        }
    }

    fn exc_greeted(poll: ReplyPoll, result: HandleResult) -> (r: ExcPoll)
        ensures
            r == exc_greeted(poll, result),
    {
        match poll {
            Poll::Pending(action, reply) => Poll::Pending(
                action,
                ExcOp::Greeted { result, reply },
            ),
            Poll::Ready(_) => Poll::Ready(result),
        }
    }

    /// Starts on an exception, once the registers of its thread are at hand.
    pub fn exception(&mut self, first: bool, narrow: bool) -> (r: ExcPoll)
        requires
            old(self)@.wf(),
        ensures
            final(self)@ == exc_start(old(self)@, first, narrow).0,
            r == exc_start(old(self)@, first, narrow).1,
            final(self)@.wf(),
            old(self)@.grows_to(final(self)@),
            r matches Poll::Pending(_, o) ==> exc_wf(final(self)@.this.debug, o),
    {
        proof {
            reveal(exc_start);
            lemma_exc_starts(self@, first, narrow);
        }
        let code: u32 = self.this.record.code;
        if code == EXCEPTION_WX86_BREAKPOINT {
            if self.first_bp32_hitted {
                let poll = self.on_trap(first, Width::Narrow);
                self.exc_hit(first, After::Done, poll)
            } else {
                self.first_bp32_hitted = true;
                Poll::Pending(
                    Action::Callback(UEvent::InitBp),
                    ExcOp::Init { width: Width::Narrow, result: HandleResult::NotHandled },
                )
            }
        } else if code == EXCEPTION_BREAKPOINT {
            if self.first_bp_hitted {
                let poll = self.on_trap(first, Width::Wide);
                self.exc_hit(first, After::Done, poll)
            } else {
                self.first_bp_hitted = true;
                if !self.this.debug.symgr.is_wow64 || self.this.attached {
                    Poll::Pending(
                        Action::Callback(UEvent::InitBp),
                        ExcOp::Init { width: Width::Wide, result: HandleResult::Continue },
                    )
                } else {
                    Poll::Ready(HandleResult::Continue)
                }
            }
        } else if code == EXCEPTION_WX86_SINGLE_STEP {
            let poll = self.on_step(Width::Narrow);
            self.exc_hit(first, After::UserIfNot, poll)
        } else if code == EXCEPTION_SINGLE_STEP {
            let poll = self.on_step(Width::Wide);
            self.exc_hit(first, After::UserIfNot, poll)
        } else if code == EXCEPTION_ACCESS_VIOLATION {
            let width = if narrow {
                Width::Narrow
            } else {
                Width::Wide
            };
            let poll = self.on_fault(width);
            self.exc_hit(first, After::UserIfStaying, poll)
        } else {
            self.exc_after(first, After::UserIfStaying, HandleResult::NotHandled)
        }
    }

    fn exc_as_event(poll: ExcPoll) -> (r: HandlePoll)
        ensures
            r == handle_exc(poll),
    {
        match poll {
            Poll::Pending(action, op) => Poll::Pending(action, HandleOp::Exception(op)),
            Poll::Ready(r) => Poll::Ready(Some(r)),
        }
    }

    fn hit_stepped(poll: ReplyPoll) -> (r: HitPoll)
        ensures
            r == hit_stepped(poll),
    {
        match poll {
            Poll::Pending(action, reply) => Poll::Pending(action, HitOp::Stepped(reply)),
            Poll::Ready(_) => Poll::Ready(HandleResult::Continue),
        }
    }

    fn bp_cont(&mut self, op: BpOp, poll: ContPoll) -> (r: BpPoll)
        ensures
            final(self)@ == bp_cont(op, (old(self)@, poll)).0,
            r == bp_cont(op, (old(self)@, poll)).1,
    {
        match poll {
            Poll::Pending(action, c) => Poll::Pending(
                action,
                BpOp { stage: BpStage::Cont(c), ..op },
            ),
            Poll::Ready(_) => {
                let action = self.fetch();
                Poll::Pending(action, BpOp { stage: BpStage::Fetch, ..op })
            },
        }
    }

    fn bp_disabled(&mut self, op: BpOp, poll: EnablePoll) -> (r: BpPoll)
        ensures
            final(self)@ == bp_disabled(old(self)@, op, poll).0,
            r == bp_disabled(old(self)@, op, poll).1,
    {
        proof {
            reveal(bp_disabled);
        }
        match poll {
            Poll::Pending(action, e) => Poll::Pending(
                action,
                BpOp { stage: BpStage::Disable(e), ..op },
            ),
            Poll::Ready(r) => {
                self.check_result(Doing::DisableBp, r);
                let user_step: bool = self.this.debug.test_eflags(op.width, EFLAGS_TF);
                if !user_step {
                    self.set_step(op.width);
                }
                let poll = self.cont(HandleResult::Handled);
                self.bp_cont(BpOp { user_step, ..op }, poll)
            },
        }
    }

    fn bp_nested(&mut self, op: BpOp, poll: HandlePoll) -> (r: BpPoll)
        ensures
            final(self)@ == bp_nested(old(self)@, op, poll).0,
            r == bp_nested(old(self)@, op, poll).1,
    {
        match poll {
            Poll::Pending(action, o) => Poll::Pending(
                action,
                BpOp { stage: BpStage::Nested(Box::new(o)), ..op },
            ),
            Poll::Ready(Some(status)) => {
                let poll = self.cont(status);
                self.bp_cont(op, poll)
            },
            Poll::Ready(None) => Poll::Ready(HandleResult::Handled),
        }
    }

    fn bp_again(op: BpOp, poll: HandlePoll) -> (r: BpPoll)
        ensures
            r == bp_again(op, poll),
    {
        match poll {
            Poll::Pending(action, o) => Poll::Pending(
                action,
                BpOp { stage: BpStage::Again(Box::new(o)), ..op },
            ),
            Poll::Ready(Some(status)) => Poll::Ready(status),
            Poll::Ready(None) => Poll::Ready(HandleResult::Handled),
        }
    }

    fn bp_enabled(&mut self, op: BpOp, poll: EnablePoll) -> (r: BpPoll)
        requires
            old(self)@.wf(),
        ensures
            final(self)@ == bp_enabled(old(self)@, op, poll).0,
            r == bp_enabled(old(self)@, op, poll).1,
    {
        match poll {
            Poll::Pending(action, e) => Poll::Pending(
                action,
                BpOp { stage: BpStage::Enable(e), ..op },
            ),
            Poll::Ready(r) => {
                self.check_result(Doing::EnableBp, r);
                if op.user_step {
                    let poll = self.handle();
                    Self::bp_again(op, poll)
                } else {
                    self.drop_contexts();
                    Poll::Ready(HandleResult::Continue)
                }
            },
        }
    }

    fn bp_fetched(&mut self, op: BpOp) -> (r: BpPoll)
        requires
            old(self)@.wf(),
            op.bp < old(self)@.this.debug.bps.len(),
        ensures
            final(self)@ == bp_fetched(old(self)@, op).0,
            r == bp_fetched(old(self)@, op).1,
    {
        if self.this.debug.base.event_tid == op.tid {
            let poll = self.this.debug.enable_breadpoint(op.bp, true);
            self.bp_enabled(op, poll)
        } else {
            let poll = self.handle();
            self.bp_nested(op, poll)
        }
    }

    fn bp_remove(&mut self, rest: BpOp, op: RemoveOp, reply: Reply) -> (r: BpPoll)
        requires
            old(self)@.wf(),
            op.wf(old(self)@.this.debug),
            rest.bp < old(self)@.this.debug.bps.len(),
        ensures
            ({
                let h = old(self)@;
                let went = remove_next(h.this.debug, op, reply);
                let met = bp_removed(went.0, h.this.record, rest, went.1);
                final(self)@ == h.with(met.0) && r == met.1
            }),
    {
        let ghost h0 = self@;
        let poll = self.resume_removal(op, reply);
        proof {
            lemma_grown(h0.this.debug, self@.this.debug, rest.bp as int);
        }
        self.removed(rest, poll)
    }

    fn bp_wish(&mut self, rest: BpOp, reply: UserReply) -> (r: BpPoll)
        requires
            old(self)@.wf(),
            rest.bp < old(self)@.this.debug.bps.len(),
        ensures
            ({
                let h = old(self)@;
                let went = reply_start(
                    h.this.debug,
                    rest.width,
                    h.this.record.address as usize,
                    reply,
                );
                final(self)@ == h.with(went.0) && r == bp_replied(went.0, rest, went.1)
            }),
    {
        let poll = self.wish(rest.width, reply);
        self.this.debug.bp_replied(rest, poll)
    }

    fn bp_resume_wish(&mut self, rest: BpOp, op: ReplyOp, reply: Reply) -> (r: BpPoll)
        requires
            old(self)@.wf(),
            op.wf(old(self)@.this.debug),
            rest.bp < old(self)@.this.debug.bps.len(),
        ensures
            ({
                let h = old(self)@;
                let went = reply_next(h.this.debug, op, reply);
                final(self)@ == h.with(went.0) && r == bp_replied(went.0, rest, went.1)
            }),
    {
        let ghost h0 = self@;
        let poll = self.resume_wish(op, reply);
        proof {
            lemma_grown(h0.this.debug, self@.this.debug, rest.bp as int);
        }
        self.this.debug.bp_replied(rest, poll)
    }

    fn bp_fetch(&mut self, rest: BpOp, reply: Reply) -> (r: BpPoll)
        requires
            old(self)@.wf(),
            rest.bp < old(self)@.this.debug.bps.len(),
        ensures
            match reply.event() {
                Some(event) => {
                    &&& final(self)@ == bp_fetched(fetched(old(self)@, event), rest).0
                    &&& r == bp_fetched(fetched(old(self)@, event), rest).1
                },
                None => final(self)@ == old(self)@ && r == BpPoll::Ready(HandleResult::Handled),
            },
    {
        if self.resume_fetch(reply).is_some() {
            self.bp_fetched(rest)
        } else {
            Poll::Ready(HandleResult::Handled)
        }
    }

    /// Goes on with a breakpoint that was met.
    pub fn resume_bp(&mut self, op: BpOp, reply: Reply) -> (r: BpPoll)
        requires
            old(self)@.wf(),
            bp_wf(old(self)@.this.debug, op),
            bp_expects(old(self)@, op, reply),
        ensures
            final(self)@ == bp_next(old(self)@, op, reply).0,
            r == bp_next(old(self)@, op, reply).1,
            final(self)@.wf(),
            old(self)@.grows_to(final(self)@),
            r matches Poll::Pending(_, o) ==> bp_wf(final(self)@.this.debug, o),
        decreases op, 1nat,
    {
        let ghost h0 = self@;
        let ghost op0 = op;
        let r = self.go_on_bp(op, reply);
        proof {
            lemma_fits(&self.this.debug);
            lemma_bp_keeps(h0, op0, reply);
        }
        r
    }

    fn go_on_bp(&mut self, op: BpOp, reply: Reply) -> (r: BpPoll)
        requires
            old(self)@.wf(),
            bp_wf(old(self)@.this.debug, op),
            bp_expects(old(self)@, op, reply),
        ensures
            final(self)@ == bp_next(old(self)@, op, reply).0,
            r == bp_next(old(self)@, op, reply).1,
        decreases op, 0nat,
    {
        let BpOp { bp, width, tid, user_step, stage } = op;
        let rest = BpOp { bp, width, tid, user_step, stage: BpStage::Callback };
        match stage {
            BpStage::Remove(o) => self.bp_remove(rest, o, reply),
            BpStage::Callback => self.bp_wish(rest, reply.user()),
            BpStage::Reply(o) => self.bp_resume_wish(rest, o, reply),
            BpStage::Disable(e) => {
                let poll = self.resume_switch(e, reply);
                self.bp_disabled(rest, poll)
            },
            BpStage::Cont(c) => {
                let poll = self.resume_cont(c, reply);
                self.bp_cont(rest, poll)
            },
            BpStage::Fetch => self.bp_fetch(rest, reply),
            BpStage::Nested(o) => {
                let poll = self.resume_handle(*o, reply);
                self.bp_nested(rest, poll)
            },
            BpStage::Enable(e) => {
                let poll = self.resume_switch(e, reply);
                self.bp_enabled(rest, poll)
            },
            BpStage::Again(o) => {
                let poll = self.resume_handle(*o, reply);
                Self::bp_again(rest, poll)
            },
        }
    }

    /// Goes on with the look at an exception.
    pub fn resume_hit(&mut self, op: HitOp, reply: Reply) -> (r: HitPoll)
        requires
            old(self)@.wf(),
            hit_wf(old(self)@.this.debug, op),
            hit_expects(old(self)@, op, reply),
        ensures
            final(self)@ == hit_next(old(self)@, op, reply).0,
            r == hit_next(old(self)@, op, reply).1,
            final(self)@.wf(),
            old(self)@.grows_to(final(self)@),
            r matches Poll::Pending(_, o) ==> hit_wf(final(self)@.this.debug, o),
        decreases op, 1nat,
    {
        let ghost h0 = self@;
        let ghost op0 = op;
        let r = match op {
            HitOp::Bp(b) => match self.resume_bp(b, reply) {
                Poll::Pending(action, b1) => Poll::Pending(action, HitOp::Bp(b1)),
                Poll::Ready(r) => Poll::Ready(r),
            },
            HitOp::Step { width } => {
                let poll = self.wish(width, reply.user());
                Self::hit_stepped(poll)
            },
            HitOp::Stepped(r) => {
                let poll = self.resume_wish(r, reply);
                Self::hit_stepped(poll)
            },
            HitOp::User => Poll::Ready(
                if reply.user() == UserReply::Run(true) {
                    HandleResult::Continue
                } else {
                    HandleResult::NotHandled
                },
            ),
        };
        proof {
            lemma_fits(&self.this.debug);
            lemma_hit_keeps(h0, op0, reply);
        }
        r
    }

    /// Goes on with an exception.
    pub fn resume_exception(&mut self, op: ExcOp, reply: Reply) -> (r: ExcPoll)
        requires
            old(self)@.wf(),
            exc_wf(old(self)@.this.debug, op),
            exc_expects(old(self)@, op, reply),
        ensures
            final(self)@ == exc_next(old(self)@, op, reply).0,
            r == exc_next(old(self)@, op, reply).1,
            final(self)@.wf(),
            old(self)@.grows_to(final(self)@),
            r matches Poll::Pending(_, o) ==> exc_wf(final(self)@.this.debug, o),
        decreases op, 1nat,
    {
        let ghost h0 = self@;
        let ghost op0 = op;
        let r = match op {
            ExcOp::Hit { first, after, op } => {
                let poll = self.resume_hit(op, reply);
                self.exc_hit(first, after, poll)
            },
            ExcOp::Init { width, result } => {
                let poll = self.wish(width, reply.user());
                Self::exc_greeted(poll, result)
            },
            ExcOp::Greeted { result, reply: r } => {
                let poll = self.resume_wish(r, reply);
                Self::exc_greeted(poll, result)
            },
        };
        proof {
            lemma_fits(&self.this.debug);
            lemma_exc_keeps(h0, op0, reply);
        }
        r
    }

    fn narrow_side(&self) -> (r: bool)
        ensures
            r == on_narrow_side(self@),
    {
        let code: u32 = self.this.record.code;
        self.wow64 && (code == EXCEPTION_WX86_BREAKPOINT || code == EXCEPTION_WX86_SINGLE_STEP
            || code == STATUS_WX86_UNSIMULATE || code == STATUS_WX86_INTERNAL_ERROR || code
            == STATUS_WX86_FLOAT_STACK_CHECK || self.this.debug.cx.seg_cs == WOW64_CODE_SEGMENT)
    }

    /// Goes on with an event; the result is what the system is answered, or
    /// nothing once the target has ended.
    pub fn resume_handle(&mut self, op: HandleOp, reply: Reply) -> (r: HandlePoll)
        requires
            old(self)@.wf(),
            handle_wf(old(self)@.this.debug, op),
            handle_expects(old(self)@, op, reply),
        ensures
            final(self)@ == handle_next(old(self)@, op, reply).0,
            r == handle_next(old(self)@, op, reply).1,
            final(self)@.wf(),
            old(self)@.grows_to(final(self)@),
            r matches Poll::Pending(_, o) ==> handle_wf(final(self)@.this.debug, o),
        decreases op, 1nat,
    {
        let tid: u32 = self.event.tid;
        let ghost h0 = self@;
        let ghost op0 = op;
        let r = match op {
            HandleOp::ProcessLoad => self.look(HandleOp::ProcessContext),
            HandleOp::ProcessContext => {
                self.resume_context(reply);
                Poll::Pending(Action::Callback(UEvent::ProcessCreate), HandleOp::ProcessTold)
            },
            HandleOp::ProcessTold => Self::tell(UEvent::ThreadCreate(tid)),
            HandleOp::ExitContext { code } => {
                self.resume_context(reply);
                Poll::Pending(Action::Callback(UEvent::ProcessExit(code)), HandleOp::ExitTold)
            },
            HandleOp::ExitTold => Poll::Ready(None),
            HandleOp::ThreadAsk { info } => {
                let poll = if reply.flag() {
                    Poll::Ready(())
                } else {
                    self.this.debug.enable_all_hwbp_for_thread(info.handle, true)
                };
                self.thread_armed(info, poll)
            },
            HandleOp::ThreadArm { info, op } => {
                let poll = self.resume_arming(op, reply);
                self.thread_armed(info, poll)
            },
            HandleOp::ThreadContext => {
                self.resume_context(reply);
                Self::tell(UEvent::ThreadCreate(tid))
            },
            HandleOp::ThreadExit { code } => {
                self.resume_context(reply);
                self.remove_thread();
                Self::tell(UEvent::ThreadExit(code))
            },
            HandleOp::DllContext { image } => {
                self.resume_context(reply);
                Poll::Pending(
                    Action::LoadModule {
                        name: image.name,
                        base: image.base,
                        file: image.file,
                        unicode: image.unicode,
                    },
                    HandleOp::DllLoad { base: image.base },
                )
            },
            HandleOp::DllLoad { base } => match self.this.debug.symgr.find_module(base) {
                Some(i) => Self::tell(
                    UEvent::ModuleLoad(self.this.debug.symgr.list[i].data.base),
                ),
                None => Poll::Ready(Some(HandleResult::Continue)),
            },
            HandleOp::DllUnload { base } => {
                self.resume_context(reply);
                match self.this.debug.symgr.find_module(base) {
                    Some(i) => Poll::Pending(
                        Action::Callback(
                            UEvent::ModuleUnload(self.this.debug.symgr.list[i].data.base),
                        ),
                        HandleOp::DllUnloadTold { base },
                    ),
                    None => {
                        self.remove_module(base);
                        Poll::Ready(Some(HandleResult::Continue))
                    },
                }
            },
            HandleOp::DllUnloadTold { base } => {
                self.remove_module(base);
                Poll::Ready(Some(HandleResult::Continue))
            },
            HandleOp::ExceptionContext { first } => {
                self.resume_context(reply);
                if self.narrow_side() {
                    Poll::Pending(
                        self.this.get_context32(tid),
                        HandleOp::ExceptionContext32 { first },
                    )
                } else {
                    self.update_arch(Arch::X64);
                    let poll = self.exception(first, false);
                    Self::exc_as_event(poll)
                }
            },
            HandleOp::ExceptionContext32 { first } => {
                self.read_context32(reply);
                let poll = self.exception(first, true);
                Self::exc_as_event(poll)
            },
            HandleOp::Exception(e) => {
                let poll = self.resume_exception(e, reply);
                Self::exc_as_event(poll)
            },
            HandleOp::Last => Poll::Ready(Some(HandleResult::Continue)),
        };
        proof {
            lemma_fits(&self.this.debug);
            lemma_handle_keeps(h0, op0, reply);
        }
        r
    }
}

/// What takes a target from event to event.
pub trait EventHandler {
    /// The handler in terms of mathematics.
    spec fn state(&self) -> HandlerState;

    /// Waits for the next event.
    fn fetch(&mut self) -> (r: Action)
        ensures
            final(self).state() == fetch_start(old(self).state()),
            r == Action::WaitEvent,
    ;

    /// Starts on the event at hand.
    fn handle(&mut self) -> (r: HandlePoll)
        requires
            old(self).state().wf(),
        ensures
            final(self).state() == handle_start(old(self).state()).0,
            r == handle_start(old(self).state()).1,
    ;

    /// Starts to let the target go on.
    fn cont(&mut self, status: HandleResult) -> (r: ContPoll)
        ensures
            final(self).state() == cont_start(old(self).state(), status).0,
            r == cont_start(old(self).state(), status).1,
    ;
}

impl EventHandler for Win32Handler {
    open spec fn state(&self) -> HandlerState {
        self@
    }

    fn fetch(&mut self) -> (r: Action) {
        Win32Handler::fetch(self)
    }

    fn handle(&mut self) -> (r: HandlePoll) {
        Win32Handler::handle(self)
    }

    fn cont(&mut self, status: HandleResult) -> (r: ContPoll) {
        Win32Handler::cont(self, status)
    }
}

} // verus!
