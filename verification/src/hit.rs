//! Meeting a breakpoint.
//!
//! A trap instruction that stays in force has to be stepped over: it is switched
//! off, the thread does one step while the events of other threads are handled
//! as they come, and it is switched on again.
use vstd::prelude::*;

use crate::adaptor::{slot_id, table_wf, AdaptorState, CommonAdaptor, Width};
use crate::breakpoints::{remove_start, RemoveOp, RemovePoll};
use crate::enable::{enable_start, lemma_store_keeps, EnableOp};
use crate::handler::HandleOp;
use crate::io::{Action, Poll};
use crate::reply::{ReplyOp, ReplyPoll};
use crate::session::ContOp;
use crate::types::{
    id_of, BpHandle, BpID, ExceptionRecord, HandleResult, HwbpType, InnerBpType, Tid, UEvent,
};

verus! {

broadcast use vstd::std_specs::hash::group_hash_axioms;

/// The action whose answer a breakpoint that was met waits for.
pub enum BpStage {
    Remove(RemoveOp),
    Callback,
    Reply(ReplyOp),
    Disable(EnableOp),
    Cont(ContOp),
    Fetch,
    /// An event of another thread is handled.
    Nested(Box<HandleOp>),
    Enable(EnableOp),
    /// The step is handled as one the user asked for.
    Again(Box<HandleOp>),
}

/// Dealing with a breakpoint that was met.
pub struct BpOp {
    pub bp: BpHandle,
    pub width: Width,
    /// The thread that met it.
    pub tid: Tid,
    /// Whether the user wants the thread to step anyway.
    pub user_step: bool,
    pub stage: BpStage,
}

/// Looking for what an exception means.
pub enum HitOp {
    Bp(BpOp),
    /// The user is told of a step they asked for.
    Step { width: Width },
    Stepped(ReplyOp),
    /// The user is told of an exception.
    User,
}

pub type BpPoll = Poll<BpOp, HandleResult>;

pub type HitPoll = Poll<HitOp, HandleResult>;

/// Where the thread that met a breakpoint stands: at the pointer's old value,
/// or where the exception was.
pub open spec fn corrected_pc(bp_type: InnerBpType, record: ExceptionRecord) -> usize {
    match bp_type {
        InnerBpType::Table { origin, .. } => origin,
        _ => record.address as usize,
    }
}

/// Goes on after the user had their say: a trap instruction that is still in
/// force and on is switched off for a moment.
#[verifier::opaque]
pub open spec fn bp_after(s: AdaptorState, op: BpOp) -> BpPoll {
    let b = s.bps[op.bp as int];
    if b.bp_type is Soft && s.get_bp(id_of(b.address)) is Some && b.enabled {
        match enable_start(s, op.bp, false) {
            Poll::Pending(action, e) => Poll::Pending(
                action,
                BpOp { stage: BpStage::Disable(e), ..op },
            ),
            Poll::Ready(_) => Poll::Ready(HandleResult::Continue),
        }
    } else {
        Poll::Ready(HandleResult::Continue)
    }
}

/// Goes on with the thread put where the breakpoint is: the user is told, if
/// the breakpoint is meant for that thread.
#[verifier::opaque]
pub open spec fn bp_met(s: AdaptorState, record: ExceptionRecord, op: BpOp) -> (
    AdaptorState,
    BpPoll,
) {
    let b = s.bps[op.bp as int];
    let s1 = s.set_ip(op.width, corrected_pc(b.bp_type, record));
    if b.hit_tid matches Some(t) && t != op.tid {
        (s1, bp_after(s1, op))
    } else {
        (
            s1,
            Poll::Pending(
                Action::Callback(UEvent::Breakpoint(op.bp)),
                BpOp { stage: BpStage::Callback, ..op },
            ),
        )
    }
}

/// Goes on as the removing of a breakpoint that stops only once does.
pub open spec fn bp_removed(
    s: AdaptorState,
    record: ExceptionRecord,
    op: BpOp,
    poll: RemovePoll,
) -> (AdaptorState, BpPoll) {
    match poll {
        Poll::Pending(action, r) => (
            s,
            Poll::Pending(action, BpOp { stage: BpStage::Remove(r), ..op }),
        ),
        Poll::Ready(_) => bp_met(s, record, op),
    }
}

/// Goes on as the user's wish does.
pub open spec fn bp_replied(s: AdaptorState, op: BpOp, poll: ReplyPoll) -> BpPoll {
    match poll {
        Poll::Pending(action, r) => Poll::Pending(
            action,
            BpOp { stage: BpStage::Reply(r), ..op },
        ),
        Poll::Ready(_) => bp_after(s, op),
    }
}

/// Starts on a breakpoint that was met: the hit is counted, and a breakpoint
/// that stops only once is removed.
#[verifier::opaque]
pub open spec fn bp_start(
    s: AdaptorState,
    record: ExceptionRecord,
    bp: BpHandle,
    width: Width,
) -> (AdaptorState, BpPoll) {
    let s1 = s.count_hit(bp);
    let op = BpOp {
        bp,
        width,
        tid: s.base.event_tid,
        user_step: false,
        stage: BpStage::Callback,
    };
    if s1.bps[bp as int].temp {
        let (s2, poll) = remove_start(s1, bp);
        bp_removed(s2, record, op, poll)
    } else {
        bp_met(s1, record, op)
    }
}

/// Tells the user of an exception.
pub open spec fn user_start(first: bool, record: ExceptionRecord) -> HitPoll {
    Poll::Pending(
        Action::Callback(UEvent::Exception { first, code: record.code }),
        HitOp::User,
    )
}

/// The result of a breakpoint as that of an exception.
pub open spec fn hit_bp(poll: BpPoll) -> HitPoll {
    match poll {
        Poll::Pending(action, op) => Poll::Pending(action, HitOp::Bp(op)),
        Poll::Ready(r) => Poll::Ready(r),
    }
}

/// Starts on a trap: the breakpoint there, or else the user.
#[verifier::opaque]
pub open spec fn int3_hit(
    s: AdaptorState,
    first: bool,
    record: ExceptionRecord,
    width: Width,
) -> (AdaptorState, HitPoll) {
    match s.get_bp(record.address as isize) {
        Some(bp) => {
            let (s1, poll) = bp_start(s, record, bp, width);
            (s1, hit_bp(poll))
        },
        None => (s, user_start(first, record)),
    }
}

/// The number a stop after one step stands for: the first slot that the status
/// register shows, or else the place.
pub open spec fn step_id(dr6: usize, address: u64) -> BpID {
    if dr6 & 0x01 > 0 {
        slot_id(0)
    } else if dr6 & 0x02 > 0 {
        slot_id(1)
    } else if dr6 & 0x04 > 0 {
        slot_id(2)
    } else if dr6 & 0x08 > 0 {
        slot_id(3)
    } else {
        address as isize
    }
}

/// Starts on a step: a breakpoint met there, a step the user asked for, or neither.
#[verifier::opaque]
pub open spec fn step_hit(s: AdaptorState, record: ExceptionRecord, width: Width) -> (
    AdaptorState,
    HitPoll,
) {
    match s.get_bp(step_id(s.dr6(width), record.address)) {
        Some(bp) => {
            let b = s.bps[bp as int];
            if b.bp_type matches InnerBpType::Hard(info) && info.rw == HwbpType::Execute.bits()
                && b.address != record.address {
                (s, Poll::Ready(HandleResult::NotHandled))
            } else {
                let s1 = if b.bp_type is Hard && !b.temp {
                    s.set_rf(width)
                } else {
                    s
                };
                let (s2, poll) = bp_start(s1, record, bp, width);
                (s2, hit_bp(poll))
            }
        },
        None => if s.step_tid == s.base.event_tid {
            (
                AdaptorState { step_tid: 0, ..s },
                Poll::Pending(Action::Callback(UEvent::Step), HitOp::Step { width }),
            )
        } else {
            (s, Poll::Ready(HandleResult::NotHandled))
        },
    }
}

/// Starts on a fault: one at a negative address can be a redirected pointer.
#[verifier::opaque]
pub open spec fn table_hit(s: AdaptorState, record: ExceptionRecord, width: Width) -> (
    AdaptorState,
    HitPoll,
) {
    let pc = s.signed_pc(width);
    if pc > 0 {
        (s, Poll::Ready(HandleResult::NotHandled))
    } else {
        match s.get_bp(pc) {
            Some(bp) => {
                let (s1, poll) = bp_start(s, record, bp, width);
                (s1, hit_bp(poll))
            },
            None => (s, Poll::Ready(HandleResult::NotHandled)),
        }
    }
}

impl CommonAdaptor {
    /// Tells the user of an exception.
    pub fn user_handle_exception(first: bool, record: &ExceptionRecord) -> (r: HitPoll)
        ensures
            r == user_start(first, *record),
    {
        Poll::Pending(
            Action::Callback(UEvent::Exception { first, code: record.code }),
            HitOp::User,
        )
    }

    /// Goes on after the user had their say.
    pub fn bp_after(&self, op: BpOp) -> (r: BpPoll)
        requires
            self@.wf(),
            op.bp < self@.bps.len(),
        ensures
            r == bp_after(self@, op),
    {
        proof {
            reveal(bp_after);
        }
        let b = self.bps[op.bp];
        if b.is_soft() && self.get_bp(b.get_id()).is_some() && b.enabled {
            match self.enable_breadpoint(op.bp, false) {
                Poll::Pending(action, e) => Poll::Pending(
                    action,
                    BpOp { stage: BpStage::Disable(e), ..op },
                ),
                Poll::Ready(_) => Poll::Ready(HandleResult::Continue),
            }
        } else {
            Poll::Ready(HandleResult::Continue)
        }
    }

    /// Goes on with the thread put where the breakpoint is.
    pub fn bp_met(&mut self, record: &ExceptionRecord, op: BpOp) -> (r: BpPoll)
        requires
            old(self)@.wf(),
            op.bp < old(self)@.bps.len(),
        ensures
            final(self)@ == bp_met(old(self)@, *record, op).0,
            r == bp_met(old(self)@, *record, op).1,
    {
        proof {
            reveal(bp_met);
        }
        let b = self.bps[op.bp];
        let pc: usize = match b.bp_type {
            InnerBpType::Table { origin, .. } => origin,
            _ => record.address as usize,
        };
        self.set_ip(op.width, pc);
        let hitted: bool = match b.hit_tid {
            Some(t) => t == op.tid,
            None => true,
        };
        if hitted {
            Poll::Pending(
                Action::Callback(UEvent::Breakpoint(op.bp)),
                BpOp { stage: BpStage::Callback, ..op },
            )
        } else {
            self.bp_after(op)
        }
    }

    /// Goes on as the removing of the breakpoint does.
    pub fn bp_removed(&mut self, record: &ExceptionRecord, op: BpOp, poll: RemovePoll) -> (r: BpPoll)
        requires
            old(self)@.wf(),
            op.bp < old(self)@.bps.len(),
        ensures
            final(self)@ == bp_removed(old(self)@, *record, op, poll).0,
            r == bp_removed(old(self)@, *record, op, poll).1,
    {
        match poll {
            Poll::Pending(action, r) => Poll::Pending(
                action,
                BpOp { stage: BpStage::Remove(r), ..op },
            ),
            Poll::Ready(_) => self.bp_met(record, op),
        }
    }

    /// Goes on as the user's wish does.
    pub fn bp_replied(&self, op: BpOp, poll: ReplyPoll) -> (r: BpPoll)
        requires
            self@.wf(),
            op.bp < self@.bps.len(),
        ensures
            r == bp_replied(self@, op, poll),
    {
        match poll {
            Poll::Pending(action, r) => Poll::Pending(
                action,
                BpOp { stage: BpStage::Reply(r), ..op },
            ),
            Poll::Ready(_) => self.bp_after(op),
        }
    }

    /// Starts on a breakpoint that was met.
    pub fn handle_bp_has_data(
        &mut self,
        bp: BpHandle,
        record: &ExceptionRecord,
        width: Width,
    ) -> (r: BpPoll)
        requires
            old(self)@.wf(),
            bp < old(self)@.bps.len(),
        ensures
            final(self)@ == bp_start(old(self)@, *record, bp, width).0,
            r == bp_start(old(self)@, *record, bp, width).1,
    {
        proof {
            reveal(bp_start);
            lemma_store_keeps(self@, bp, false);
        }
        self.count_hit(bp);
        let op = BpOp {
            bp,
            width,
            tid: self.base.event_tid,
            user_step: false,
            stage: BpStage::Callback,
        };
        if self.bps[bp].temp {
            let poll = self.remove_breakpoint(bp);
            self.bp_removed(record, op, poll)
        } else {
            self.bp_met(record, op)
        }
    }

    fn bp_as_hit(poll: BpPoll) -> (r: HitPoll)
        ensures
            r == hit_bp(poll),
    {
        match poll {
            Poll::Pending(action, op) => Poll::Pending(action, HitOp::Bp(op)),
            Poll::Ready(r) => Poll::Ready(r),
        }
    }

    /// Starts on a trap.
    pub fn handle_int3_breakpoint(
        &mut self,
        first: bool,
        record: &ExceptionRecord,
        width: Width,
    ) -> (r: HitPoll)
        requires
            old(self)@.wf(),
        ensures
            final(self)@ == int3_hit(old(self)@, first, *record, width).0,
            r == int3_hit(old(self)@, first, *record, width).1,
    {
        proof {
            reveal(table_wf);
            reveal(int3_hit);
        }
        match self.get_bp(record.address as isize) {
            Some(bp) => Self::bp_as_hit(self.handle_bp_has_data(bp, record, width)),
            None => Self::user_handle_exception(first, record),
        }
    }

    /// Starts on a step.
    pub fn handle_step(&mut self, record: &ExceptionRecord, width: Width) -> (r: HitPoll)
        requires
            old(self)@.wf(),
        ensures
            final(self)@ == step_hit(old(self)@, *record, width).0,
            r == step_hit(old(self)@, *record, width).1,
    {
        proof {
            reveal(table_wf);
            reveal(step_hit);
        }
        let address: u64 = record.address;
        let dr6: usize = self.dr6(width);
        let id: BpID = if dr6 & 0x01 > 0 {
            -1
        } else if dr6 & 0x02 > 0 {
            -2
        } else if dr6 & 0x04 > 0 {
            -3
        } else if dr6 & 0x08 > 0 {
            -4
        } else {
            address as isize
        };
        match self.get_bp(id) {
            Some(bp) => {
                let b = self.bps[bp];
                if let InnerBpType::Hard(info) = b.bp_type {
                    if info.rw == HwbpType::Execute.code() && b.address as u64 != address {
                        return Poll::Ready(HandleResult::NotHandled);
                    }
                }
                if b.hard_index().is_some() && !b.temp {
                    self.set_rf(width);
                }
                Self::bp_as_hit(self.handle_bp_has_data(bp, record, width))
            },
            None => {
                if self.step_tid == self.base.event_tid {
                    self.step_tid = 0;
                    Poll::Pending(Action::Callback(UEvent::Step), HitOp::Step { width })
                } else {
                    Poll::Ready(HandleResult::NotHandled)
                }
            },
        }
    }

    /// Starts on a fault.
    pub fn handle_possible_table_bp(&mut self, record: &ExceptionRecord, width: Width) -> (r:
        HitPoll)
        requires
            old(self)@.wf(),
        ensures
            final(self)@ == table_hit(old(self)@, *record, width).0,
            r == table_hit(old(self)@, *record, width).1,
    {
        proof {
            reveal(table_wf);
            reveal(table_hit);
        }
        let pc: isize = self.signed_ip(width);
        if pc > 0 {
            return Poll::Ready(HandleResult::NotHandled);
        }
        match self.get_bp(pc) {
            Some(bp) => Self::bp_as_hit(self.handle_bp_has_data(bp, record, width)),
            None => Poll::Ready(HandleResult::NotHandled),
        }
    }
}

} // verus!
