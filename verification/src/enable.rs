//! Switching breakpoints on and off.
use vstd::prelude::*;

use crate::adaptor::{hwbp_context, AdaptorState, CommonAdaptor, store_grows, table_wf};
use crate::io::{Action, Poll, Reply, Report};
use crate::types::{
    BpHandle, BpID, HwbpInfo, InnerBpType, Tid, UDbgError, UDbgResult, BP_INSN,
};

verus! {

broadcast use vstd::std_specs::hash::group_hash_axioms;

/// The action whose answer a thread's registers wait for.
#[derive(Clone, Copy, Debug, PartialEq, Eq, Structural)]
pub enum ThreadStage {
    Suspend,
    Read,
    Write,
    Read32,
    Write32,
    Resume,
}

/// Switching a slot in the registers of one thread.
#[derive(Clone, Copy, Debug)]
pub struct ThreadOp {
    pub handle: usize,
    pub info: HwbpInfo,
    pub enable: bool,
    pub result: UDbgResult<bool>,
    pub stage: ThreadStage,
}

/// The action whose answer the walk over the threads waits for.
#[derive(Clone, Copy, Debug)]
pub enum HardStage {
    Next,
    Open { tid: Tid },
    Thread { tid: Tid, op: ThreadOp },
}

/// The action whose answer the switching of a breakpoint waits for.
#[derive(Clone, Copy, Debug)]
pub enum EnableStage {
    Soft,
    Table,
    Hard { info: HwbpInfo, at: HardStage },
}

/// Switching a breakpoint.
#[derive(Clone, Copy, Debug)]
pub struct EnableOp {
    pub bp: BpHandle,
    pub enable: bool,
    /// How the last thread fared.
    pub result: UDbgResult<bool>,
    pub stage: EnableStage,
}

/// Switching every slot in the registers of one thread.
#[derive(Clone, Copy, Debug)]
pub struct AllOp {
    pub handle: usize,
    pub enable: bool,
    /// The slot looked at after this one.
    pub next: usize,
    pub op: ThreadOp,
}

pub type ThreadPoll = Poll<ThreadOp, UDbgResult<bool>>;

pub type EnablePoll = Poll<EnableOp, UDbgResult<bool>>;

pub type AllPoll = Poll<AllOp, ()>;

impl ThreadOp {
    pub open spec fn wf(self) -> bool {
        self.info.index < 4
    }
}

impl EnableOp {
    pub open spec fn wf(self, s: AdaptorState) -> bool {
        &&& self.bp < s.bps.len()
        &&& match self.stage {
            EnableStage::Hard { info, at } => {
                &&& info.index < 4
                &&& s.bps[self.bp as int].bp_type == InnerBpType::Hard(info)
                &&& at matches HardStage::Thread { tid, op } ==> op.info == info
            },
            _ => true,
        }
    }
}

impl AllOp {
    pub open spec fn wf(self) -> bool {
        self.op.wf() && self.next <= 4
    }
}

/// Starts on one thread by suspending it.
pub open spec fn thread_start(handle: usize, info: HwbpInfo, enable: bool) -> ThreadPoll {
    Poll::Pending(
        Action::Suspend { handle },
        ThreadOp { handle, info, enable, result: Ok(enable), stage: ThreadStage::Suspend },
    )
}

/// Lets the thread run again, whatever became of it.
pub open spec fn thread_resumed(op: ThreadOp, result: UDbgResult<bool>) -> ThreadPoll {
    Poll::Pending(
        Action::Resume { handle: op.handle },
        ThreadOp { result, stage: ThreadStage::Resume, ..op },
    )
}

/// Goes on with one thread.
pub open spec fn thread_next(s: AdaptorState, op: ThreadOp, reply: Reply) -> (
    AdaptorState,
    ThreadPoll,
) {
    let handle = op.handle;
    match op.stage {
        ThreadStage::Suspend => (
            match reply.failed() {
                Some(code) => s.report(Report::Suspend { handle, code }),
                None => s,
            },
            Poll::Pending(
                Action::GetDebugRegs { handle },
                ThreadOp { stage: ThreadStage::Read, ..op },
            ),
        ),
        ThreadStage::Read => (
            s,
            match reply.context() {
                Ok(cx) => Poll::Pending(
                    Action::SetDebugRegs {
                        handle,
                        cx: hwbp_context(cx, s.dbg_reg, op.info, op.enable),
                    },
                    ThreadOp { stage: ThreadStage::Write, ..op },
                ),
                Err(code) => thread_resumed(op, Err(UDbgError::GetContext(code))),
            },
        ),
        ThreadStage::Write => (
            s,
            match reply.failed() {
                Some(code) => thread_resumed(op, Err(UDbgError::SetContext(code))),
                None => Poll::Pending(
                    Action::GetDebugRegs32 { handle },
                    ThreadOp { stage: ThreadStage::Read32, ..op },
                ),
            },
        ),
        ThreadStage::Read32 => (
            s,
            match reply.context32() {
                Some(cx32) => Poll::Pending(
                    Action::SetDebugRegs32 {
                        handle,
                        cx32: hwbp_context(cx32, s.dbg_reg, op.info, op.enable),
                    },
                    ThreadOp { stage: ThreadStage::Write32, ..op },
                ),
                None => thread_resumed(op, op.result),
            },
        ),
        ThreadStage::Write32 => (s, thread_resumed(op, op.result)),
        ThreadStage::Resume => (s, Poll::Ready(op.result)),
    }
}

/// Starts to switch a breakpoint.
pub open spec fn enable_start(s: AdaptorState, bp: BpHandle, enable: bool) -> EnablePoll {
    let b = s.bps[bp as int];
    match b.bp_type {
        InnerBpType::Soft(raw_byte) => Poll::Pending(
            Action::WriteCode {
                address: b.address,
                byte: if enable {
                    BP_INSN
                } else {
                    raw_byte
                },
            },
            EnableOp { bp, enable, result: Ok(enable), stage: EnableStage::Soft },
        ),
        InnerBpType::Table { index, origin } => Poll::Pending(
            Action::WritePtr {
                address: b.address,
                value: if enable {
                    index as usize
                } else {
                    origin
                },
            },
            EnableOp { bp, enable, result: Ok(enable), stage: EnableStage::Table },
        ),
        InnerBpType::Hard(info) => Poll::Pending(
            Action::FirstThread,
            EnableOp {
                bp,
                enable,
                result: Ok(enable),
                stage: EnableStage::Hard { info, at: HardStage::Next },
            },
        ),
    }
}

/// Ends a write to the target's memory.
pub open spec fn enable_written(s: AdaptorState, op: EnableOp, written: bool) -> (
    AdaptorState,
    EnablePoll,
) {
    if written {
        (s.set_enabled(op.bp, op.enable), Poll::Ready(Ok(op.enable)))
    } else {
        (s, Poll::Ready(Err(UDbgError::MemoryError)))
    }
}

/// Ends the walk over the threads with the registers at hand; the last thread
/// decides the outcome.
pub open spec fn enable_walked(s: AdaptorState, op: EnableOp, info: HwbpInfo) -> (
    AdaptorState,
    EnablePoll,
) {
    let hit_tid = s.bps[op.bp as int].hit_tid;
    let s1 = if hit_tid matches Some(t) && t != s.base.event_tid {
        s
    } else {
        s.switch_current(info, op.enable)
    };
    (
        if op.result is Ok {
            s1.set_enabled(op.bp, op.enable)
        } else {
            s1
        },
        Poll::Ready(op.result),
    )
}

/// The same operation at another point of the walk.
pub open spec fn enable_at(op: EnableOp, info: HwbpInfo, at: HardStage) -> EnableOp {
    EnableOp { stage: EnableStage::Hard { info, at }, ..op }
}

/// Goes on switching a breakpoint.
#[verifier::opaque]
pub open spec fn enable_next(s: AdaptorState, op: EnableOp, reply: Reply) -> (
    AdaptorState,
    EnablePoll,
) {
    match op.stage {
        EnableStage::Soft => enable_written(s, op, reply.word() matches Some(n) && n > 0),
        EnableStage::Table => enable_written(s, op, reply.done()),
        EnableStage::Hard { info, at } => match at {
            HardStage::Next => match reply.thread() {
                None => enable_walked(s, op, info),
                Some(tid) => (
                    s,
                    if s.protected.contains(tid) || (s.bps[op.bp as int].hit_tid matches Some(t)
                        && t != tid) {
                        Poll::Pending(Action::NextThread, op)
                    } else {
                        Poll::Pending(
                            Action::OpenThread { tid },
                            enable_at(op, info, HardStage::Open { tid }),
                        )
                    },
                ),
            },
            HardStage::Open { tid } => match reply.handle() {
                Err(error) => (
                    s.report(Report::OpenThread { tid, error }),
                    Poll::Pending(Action::NextThread, enable_at(op, info, HardStage::Next)),
                ),
                Ok(handle) => (
                    s,
                    match thread_start(handle, info, op.enable) {
                        Poll::Pending(action, t) => Poll::Pending(
                            action,
                            enable_at(op, info, HardStage::Thread { tid, op: t }),
                        ),
                        Poll::Ready(r) => Poll::Ready(r),
                    },
                ),
            },
            HardStage::Thread { tid, op: t } => {
                let (s1, poll) = thread_next(s, t, reply);
                match poll {
                    Poll::Pending(action, t1) => (
                        s1,
                        Poll::Pending(action, enable_at(op, info, HardStage::Thread { tid, op: t1 })),
                    ),
                    Poll::Ready(result) => (
                        match result {
                            Err(error) => s1.report(Report::EnableThread { tid, error }),
                            Ok(_) => s1,
                        },
                        Poll::Pending(
                            Action::NextThread,
                            EnableOp { result, ..enable_at(op, info, HardStage::Next) },
                        ),
                    ),
                }
            },
        },
    }
}

/// Looks for a slot in use from number `i` on, and starts on it.
pub open spec fn all_from(s: AdaptorState, handle: usize, enable: bool, i: int) -> AllPoll
    decreases 4 - i,
{
    if i >= 4 {
        Poll::Ready(())
    } else {
        match s.get_bp((-i) as isize) {
            Some(bp) => match s.bps[bp as int].bp_type {
                InnerBpType::Hard(info) => match thread_start(handle, info, enable) {
                    Poll::Pending(action, op) => Poll::Pending(
                        action,
                        AllOp { handle, enable, next: (i + 1) as usize, op },
                    ),
                    Poll::Ready(_) => Poll::Ready(()),
                },
                _ => all_from(s, handle, enable, i + 1),
            },
            None => all_from(s, handle, enable, i + 1),
        }
    }
}

/// Goes on with the slots of a thread.
#[verifier::opaque]
pub open spec fn all_next(s: AdaptorState, op: AllOp, reply: Reply) -> (AdaptorState, AllPoll) {
    let (s1, poll) = thread_next(s, op.op, reply);
    match poll {
        Poll::Pending(action, t) => (s1, Poll::Pending(action, AllOp { op: t, ..op })),
        Poll::Ready(_) => (s1, all_from(s1, op.handle, op.enable, op.next as int)),
    }
}

/// How many answers a thread's operation can still take.
pub open spec fn thread_rank(stage: ThreadStage) -> nat {
    match stage {
        ThreadStage::Suspend => 5,
        ThreadStage::Read => 4,
        ThreadStage::Write => 3,
        ThreadStage::Read32 => 2,
        ThreadStage::Write32 => 1,
        ThreadStage::Resume => 0,
    }
}

/// A thread that was suspended is let go before the operation on it ends,
/// whatever the host answers: the last action is always to resume it, and each
/// answer brings that closer. Nothing of the session changes but what is shown.
pub proof fn lemma_thread_let_go(s: AdaptorState, op: ThreadOp, reply: Reply)
    ensures
        ({
            let (s1, poll) = thread_next(s, op, reply);
            &&& match poll {
                Poll::Pending(action, o) => {
                    &&& o.handle == op.handle && o.info == op.info && o.enable == op.enable
                    &&& thread_rank(o.stage) < thread_rank(op.stage)
                    &&& o.stage == ThreadStage::Resume ==> action == (Action::Resume {
                        handle: op.handle,
                    })
                },
                Poll::Ready(r) => op.stage == ThreadStage::Resume && r == op.result,
            }
            &&& s1 == (AdaptorState { reports: s1.reports, ..s })
            &&& s1.reports.len() <= s.reports.len() + 1
        }),
{
}

/// What an operation waits for stays meaningful while the session grows.
pub proof fn lemma_enable_stays(s: AdaptorState, s1: AdaptorState, op: EnableOp)
    requires
        op.wf(s),
        s.grows_to(s1),
    ensures
        op.wf(s1),
{
    reveal(table_wf);
    reveal(store_grows);
}

/// What the switching of a breakpoint first waits for is meaningful.
pub proof fn lemma_enable_starts(s: AdaptorState, bp: BpHandle, enable: bool)
    requires
        s.wf(),
        bp < s.bps.len(),
    ensures
        enable_start(s, bp, enable) matches Poll::Pending(_, o) && o.wf(s) && o.bp == bp,
{
    reveal(table_wf);
}

/// Switching a breakpoint keeps the session in order, and touches nothing but
/// that breakpoint, the registers at hand and what is shown. It ends with the
/// breakpoint switched where it succeeded, and as it was where it failed.
pub proof fn lemma_enable_keeps(s: AdaptorState, op: EnableOp, reply: Reply)
    requires
        s.wf(),
        op.wf(s),
    ensures
        ({
            let (s1, poll) = enable_next(s, op, reply);
            &&& s1.wf()
            &&& s.grows_to(s1)
            &&& s1 == (AdaptorState {
                bps: s1.bps,
                cx: s1.cx,
                cx32: s1.cx32,
                reports: s1.reports,
                ..s
            })
            &&& s1.bps.len() == s.bps.len()
            &&& forall|h: int| 0 <= h < s.bps.len() && h != op.bp ==> #[trigger] s1.bps[h] == s.bps[h]
            &&& match poll {
                Poll::Pending(_, o) => {
                    &&& o.wf(s1)
                    &&& o.bp == op.bp && o.enable == op.enable
                    &&& s1.bps == s.bps
                },
                Poll::Ready(r) => {
                    &&& r is Ok ==> s1.bps[op.bp as int].enabled == op.enable
                    &&& r is Err ==> s1.bps == s.bps
                },
            }
        }),
{
    reveal(table_wf);
    reveal(store_grows);
    reveal(enable_next);
}

/// The store after one more hit, or with a breakpoint switched, is in order.
pub proof fn lemma_store_keeps(s: AdaptorState, bp: BpHandle, enabled: bool)
    requires
        s.wf(),
        bp < s.bps.len(),
    ensures
        s.count_hit(bp).wf(),
        s.grows_to(s.count_hit(bp)),
        s.set_enabled(bp, enabled).wf(),
        s.grows_to(s.set_enabled(bp, enabled)),
{
    reveal(table_wf);
    reveal(store_grows);
}

/// What the search for the next slot gives is meaningful.
pub proof fn lemma_all_from(s: AdaptorState, handle: usize, enable: bool, i: int)
    requires
        s.wf(),
        0 <= i,
    ensures
        all_from(s, handle, enable, i) matches Poll::Pending(_, o) ==> o.wf(),
    decreases 4 - i,
{
    reveal(table_wf);
    reveal(store_grows);
    if i < 4 {
        lemma_all_from(s, handle, enable, i + 1);
    }
}

/// Switching all slots of a thread leaves the session as it is but for what is shown.
pub proof fn lemma_all_keeps(s: AdaptorState, op: AllOp, reply: Reply)
    requires
        s.wf(),
        op.wf(),
    ensures
        ({
            let (s1, poll) = all_next(s, op, reply);
            &&& s1 == (AdaptorState { reports: s1.reports, ..s })
            &&& s1.wf()
            &&& s.grows_to(s1)
            &&& poll matches Poll::Pending(_, o) ==> o.wf()
        }),
{
    reveal(table_wf);
    reveal(store_grows);
    reveal(all_next);
    lemma_thread_let_go(s, op.op, reply);
    lemma_all_from(thread_next(s, op.op, reply).0, op.handle, op.enable, op.next as int);
}

/// Whether a list holds a number.
pub fn holds(list: &Vec<Tid>, tid: Tid) -> (r: bool)
    ensures
        r == list@.contains(tid),
{
    let mut i: usize = 0;
    while i < list.len()
        invariant
            i <= list.len(),
            forall|j: int| 0 <= j < i ==> list@[j] != tid,
        decreases list.len() - i,
    {
        if list[i] == tid {
            assert(list@[i as int] == tid);
            return true;
        }
        i += 1;
    }
    false
}

/// Lets the thread run again, whatever became of it.
fn resume_thread(op: ThreadOp, result: UDbgResult<bool>) -> (r: ThreadPoll)
    ensures
        r == thread_resumed(op, result),
{
    Poll::Pending(
        Action::Resume { handle: op.handle },
        ThreadOp { result, stage: ThreadStage::Resume, ..op },
    )
}

impl CommonAdaptor {
    /// Sets a breakpoint's slot in the registers of a thread, or clears it. The
    /// thread is suspended meanwhile.
    pub fn enable_hwbp_for_thread(handle: usize, info: HwbpInfo, enable: bool) -> (r: ThreadPoll)
        ensures
            r == thread_start(handle, info, enable),
    {
        Poll::Pending(
            Action::Suspend { handle },
            ThreadOp { handle, info, enable, result: Ok(enable), stage: ThreadStage::Suspend },
        )
    }

    /// Goes on with one thread.
    pub fn resume_hwbp_for_thread(&mut self, op: ThreadOp, reply: Reply) -> (r: ThreadPoll)
        requires
            op.wf(),
        ensures
            final(self)@ == thread_next(old(self)@, op, reply).0,
            r == thread_next(old(self)@, op, reply).1,
            r matches Poll::Pending(_, o) ==> o.info == op.info,
    {
        let handle: usize = op.handle;
        match op.stage {
            ThreadStage::Suspend => {
                if let Some(code) = reply.failed() {
                    self.report(Report::Suspend { handle, code });
                }
                Poll::Pending(
                    Action::GetDebugRegs { handle },
                    ThreadOp { stage: ThreadStage::Read, ..op },
                )
            },
            ThreadStage::Read => match reply.context() {
                Ok(context) => {
                    let mut cx = context;
                    self.enable_hwbp_for_context(&mut cx, op.info, op.enable);
                    Poll::Pending(
                        Action::SetDebugRegs { handle, cx },
                        ThreadOp { stage: ThreadStage::Write, ..op },
                    )
                },
                Err(code) => resume_thread(op, Err(UDbgError::GetContext(code))),
            },
            ThreadStage::Write => match reply.failed() {
                Some(code) => resume_thread(op, Err(UDbgError::SetContext(code))),
                None => Poll::Pending(
                    Action::GetDebugRegs32 { handle },
                    ThreadOp { stage: ThreadStage::Read32, ..op },
                ),
            },
            ThreadStage::Read32 => match reply.context32() {
                Some(context) => {
                    let mut cx32 = context;
                    self.enable_hwbp_for_context(&mut cx32, op.info, op.enable);
                    Poll::Pending(
                        Action::SetDebugRegs32 { handle, cx32 },
                        ThreadOp { stage: ThreadStage::Write32, ..op },
                    )
                },
                None => resume_thread(op, op.result),
            },
            ThreadStage::Write32 => resume_thread(op, op.result),
            ThreadStage::Resume => Poll::Ready(op.result),
        }
    }

    /// Starts to switch a breakpoint: a byte of code, a pointer, or a slot in
    /// the registers of every thread it is meant for.
    pub fn enable_breadpoint(&self, bp: BpHandle, enable: bool) -> (r: EnablePoll)
        requires
            self@.wf(),
            bp < self@.bps.len(),
        ensures
            r == enable_start(self@, bp, enable),
            r matches Poll::Pending(_, o) && o.wf(self@),
    {
        proof {
            reveal(table_wf);
        }
        let b = self.bps[bp];
        match b.bp_type {
            InnerBpType::Soft(raw_byte) => Poll::Pending(
                Action::WriteCode {
                    address: b.address,
                    byte: if enable {
                        BP_INSN
                    } else {
                        raw_byte
                    },
                },
                EnableOp { bp, enable, result: Ok(enable), stage: EnableStage::Soft },
            ),
            InnerBpType::Table { index, origin } => Poll::Pending(
                Action::WritePtr {
                    address: b.address,
                    value: if enable {
                        index as usize
                    } else {
                        origin
                    },
                },
                EnableOp { bp, enable, result: Ok(enable), stage: EnableStage::Table },
            ),
            InnerBpType::Hard(info) => Poll::Pending(
                Action::FirstThread,
                EnableOp {
                    bp,
                    enable,
                    result: Ok(enable),
                    stage: EnableStage::Hard { info, at: HardStage::Next },
                },
            ),
        }
    }

    fn end_write(&mut self, op: EnableOp, written: bool) -> (r: EnablePoll)
        requires
            op.bp < old(self)@.bps.len(),
        ensures
            final(self)@ == enable_written(old(self)@, op, written).0,
            r == enable_written(old(self)@, op, written).1,
    {
        if written {
            self.set_enabled(op.bp, op.enable);
            Poll::Ready(Ok(op.enable))
        } else {
            Poll::Ready(Err(UDbgError::MemoryError))
        }
    }

    fn end_walk(&mut self, op: EnableOp, info: HwbpInfo) -> (r: EnablePoll)
        requires
            op.bp < old(self)@.bps.len(),
            info.index < 4,
        ensures
            final(self)@ == enable_walked(old(self)@, op, info).0,
            r == enable_walked(old(self)@, op, info).1,
    {
        let other: bool = match self.bps[op.bp].hit_tid {
            Some(t) => t != self.base.event_tid,
            None => false,
        };
        if !other {
            self.switch_current(info, op.enable);
        }
        if op.result.is_ok() {
            self.set_enabled(op.bp, op.enable);
        }
        Poll::Ready(op.result)
    }

    /// Goes on switching a breakpoint.
    pub fn resume_breadpoint(&mut self, op: EnableOp, reply: Reply) -> (r: EnablePoll)
        requires
            old(self)@.wf(),
            op.wf(old(self)@),
        ensures
            final(self)@ == enable_next(old(self)@, op, reply).0,
            r == enable_next(old(self)@, op, reply).1,
            final(self)@.wf(),
            old(self)@.grows_to(final(self)@),
            r matches Poll::Pending(_, o) ==> o.wf(final(self)@),
    {
        proof {
            reveal(table_wf);
            reveal(enable_next);
            lemma_enable_keeps(self@, op, reply);
        }
        match op.stage {
            EnableStage::Soft => {
                let written: bool = match reply.word() {
                    Some(n) => n > 0,
                    None => false,
                };
                self.end_write(op, written)
            },
            EnableStage::Table => self.end_write(op, reply.done()),
            EnableStage::Hard { info, at } => match at {
                HardStage::Next => match reply.thread() {
                    None => self.end_walk(op, info),
                    Some(tid) => {
                        let other: bool = match self.bps[op.bp].hit_tid {
                            Some(t) => t != tid,
                            None => false,
                        };
                        if holds(&self.protected_thread, tid) || other {
                            Poll::Pending(Action::NextThread, op)
                        } else {
                            let at = HardStage::Open { tid };
                            Poll::Pending(
                                Action::OpenThread { tid },
                                EnableOp { stage: EnableStage::Hard { info, at }, ..op },
                            )
                        }
                    },
                },
                HardStage::Open { tid } => match reply.handle() {
                    Err(error) => {
                        self.report(Report::OpenThread { tid, error });
                        let at = HardStage::Next;
                        Poll::Pending(
                            Action::NextThread,
                            EnableOp { stage: EnableStage::Hard { info, at }, ..op },
                        )
                    },
                    Ok(handle) => match Self::enable_hwbp_for_thread(handle, info, op.enable) {
                        Poll::Pending(action, t) => {
                            let at = HardStage::Thread { tid, op: t };
                            Poll::Pending(
                                action,
                                EnableOp { stage: EnableStage::Hard { info, at }, ..op },
                            )
                        },
                        Poll::Ready(r) => Poll::Ready(r),
                    },
                },
                HardStage::Thread { tid, op: t } => match self.resume_hwbp_for_thread(t, reply) {
                    Poll::Pending(action, t1) => {
                        let at = HardStage::Thread { tid, op: t1 };
                        Poll::Pending(
                            action,
                            EnableOp { stage: EnableStage::Hard { info, at }, ..op },
                        )
                    },
                    Poll::Ready(result) => {
                        if let Err(error) = result {
                            self.report(Report::EnableThread { tid, error });
                        }
                        let at = HardStage::Next;
                        Poll::Pending(
                            Action::NextThread,
                            EnableOp { result, stage: EnableStage::Hard { info, at }, ..op },
                        )
                    },
                },
            },
        }
    }

    /// Switches the breakpoint a number stands for.
    pub fn enable_bp(&self, id: BpID, enable: bool) -> (r: EnablePoll)
        requires
            self@.wf(),
        ensures
            r == (match self@.get_bp(id) {
                Some(bp) => enable_start(self@, bp, enable),
                None => Poll::Ready(Err(UDbgError::NotFound)),
            }),
    {
        proof {
            reveal(table_wf);
        }
        match self.get_bp(id) {
            Some(bp) => self.enable_breadpoint(bp, enable),
            None => Poll::Ready(Err(UDbgError::NotFound)),
        }
    }

    fn all_hwbp_from(&self, handle: usize, enable: bool, i: usize) -> (r: AllPoll)
        requires
            self@.wf(),
            i <= 4,
        ensures
            r == all_from(self@, handle, enable, i as int),
            r matches Poll::Pending(_, o) ==> o.wf(),
        decreases 4 - i,
    {
        proof {
            reveal(table_wf);
        }
        if i >= 4 {
            return Poll::Ready(());
        }
        if let Some(bp) = self.get_bp(-(i as isize)) {
            if let InnerBpType::Hard(info) = self.bps[bp].bp_type {
                return match Self::enable_hwbp_for_thread(handle, info, enable) {
                    Poll::Pending(action, op) => Poll::Pending(
                        action,
                        AllOp { handle, enable, next: i + 1, op },
                    ),
                    Poll::Ready(_) => Poll::Ready(()),
                };
            }
        }
        self.all_hwbp_from(handle, enable, i + 1)
    }

    /// Switches the slots of the debug registers in one thread: those whose
    /// breakpoints stand under the numbers from zero down to minus three.
    pub fn enable_all_hwbp_for_thread(&self, handle: usize, enable: bool) -> (r: AllPoll)
        requires
            self@.wf(),
        ensures
            r == all_from(self@, handle, enable, 0),
            r matches Poll::Pending(_, o) ==> o.wf(),
    {
        self.all_hwbp_from(handle, enable, 0)
    }

    /// Goes on with the slots of a thread.
    pub fn resume_all_hwbp(&mut self, op: AllOp, reply: Reply) -> (r: AllPoll)
        requires
            old(self)@.wf(),
            op.wf(),
        ensures
            final(self)@ == all_next(old(self)@, op, reply).0,
            r == all_next(old(self)@, op, reply).1,
            r matches Poll::Pending(_, o) ==> o.wf(),
    {
        proof {
            reveal(table_wf);
            reveal(all_next);
        }
        match self.resume_hwbp_for_thread(op.op, reply) {
            Poll::Pending(action, t) => Poll::Pending(action, AllOp { op: t, ..op }),
            Poll::Ready(_) => self.all_hwbp_from(op.handle, op.enable, op.next),
        }
    }
}

} // verus!
