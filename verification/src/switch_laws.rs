//! What switching, adding and removing breakpoints asks of the host, and what comes of
//! each of its answers; and what becomes of the user's wish to stop somewhere.
use vstd::prelude::*;

use crate::adaptor::{AdaptorState, Width};
use crate::breakpoints::{
    add_next, add_start, int3_next, int3_start, remove_next, remove_start, unlist, AddOp, AddPoll,
    AddStage, Int3Op, Int3Poll, Int3Stage,
};
use crate::claim_laws::{off_action, stepping};
use crate::enable::{
    enable_next, enable_start, thread_next, thread_start, EnableOp, EnablePoll, EnableStage,
    HardStage, ThreadPoll, ThreadStage,
};
use crate::handler::{bp_next, exc_next, hit_next, ExcOp, ExcPoll};
use crate::hit::{bp_after, BpOp, BpStage, HitOp, HitPoll};
use crate::io::{Action, Doing, Poll, Reply, Report};
use crate::reg_laws::lemma_flags;
use crate::regs::HWBPRegs;
use crate::reply::{reply_next, reply_start, ReplyOp, ReplyPoll, ReplyStage};
use crate::session::HandlerState;
use crate::types::{
    id_of, BpHandle, BpID, BpOpt, Breakpoint, HandleResult, HwbpInfo, InnerBpType, Reason, Tid,
    UDbgError, UDbgStatus, UserReply,
};

verus! {

/// What switching a breakpoint on asks for: the trap instruction, or the number that
/// stands for the redirected pointer, is written; for a slot the threads are walked.
pub open spec fn on_action(b: Breakpoint) -> Action {
    match b.bp_type {
        InnerBpType::Soft(_) => Action::WriteCode { address: b.address, byte: 0xcc },
        InnerBpType::Table { index, .. } => Action::WritePtr {
            address: b.address,
            value: index as usize,
        },
        InnerBpType::Hard(_) => Action::FirstThread,
    }
}

/// Whether the host wrote what it was asked to write for a breakpoint: at least one byte
/// of code, or the pointer.
pub open spec fn wrote(b: Breakpoint, reply: Reply) -> bool {
    match b.bp_type {
        InnerBpType::Soft(_) => reply is Word && reply->Word_0 > 0,
        _ => reply is Done,
    }
}

/// Switching a breakpoint in the memory: it is on or off as asked just where the host
/// wrote, and nothing else changes; else it is as it was, and the memory is to blame.
pub proof fn lemma_switched_in_memory(s: AdaptorState, bp: BpHandle, enable: bool, reply: Reply)
    requires
        bp < s.bps.len(),
    ensures
        ({
            let b = s.bps[bp as int];
            let poll = enable_start(s, bp, enable);
            &&& poll is Pending
            &&& poll->Pending_0 == (if enable {
                on_action(b)
            } else {
                off_action(b)
            })
            &&& !(b.bp_type is Hard) ==> enable_next(s, poll->Pending_1, reply) == (if wrote(
                b,
                reply,
            ) {
                (
                    AdaptorState {
                        bps: s.bps.update(bp as int, Breakpoint { enabled: enable, ..b }),
                        ..s
                    },
                    EnablePoll::Ready(Ok(enable)),
                )
            } else {
                (s, EnablePoll::Ready(Err(UDbgError::MemoryError)))
            })
        }),
{
    reveal(enable_next);
}

/// One thread, whose registers cannot be read or written: it is suspended, which may
/// fail and is then shown, and let go, and the system's error comes out.
pub proof fn lemma_thread_fails(
    s: AdaptorState,
    handle: usize,
    info: HwbpInfo,
    enable: bool,
    a: Reply,
    b: Reply,
    c: Reply,
    d: Reply,
)
    ensures
        ({
            let start = thread_start(handle, info, enable);
            let (s1, p1) = thread_next(s, start->Pending_1, a);
            let (s2, p2) = thread_next(s1, p1->Pending_1, b);
            let (s3, p3) = thread_next(s2, p2->Pending_1, c);
            let (s4, p4) = thread_next(s3, p3->Pending_1, d);
            &&& start is Pending && start->Pending_0 == (Action::Suspend { handle })
            &&& s1 == (match a {
                Reply::Failed(code) => AdaptorState {
                    reports: s.reports.push(Report::Suspend { handle, code }),
                    ..s
                },
                _ => s,
            })
            &&& p1 is Pending && p1->Pending_0 == (Action::GetDebugRegs { handle })
            &&& s2 == s1 && s3 == s1
            &&& !(b is Context) ==> {
                let code = match b {
                    Reply::Failed(code) => code,
                    _ => 0,
                };
                &&& p2 is Pending && p2->Pending_0 == (Action::Resume { handle })
                &&& p3 == ThreadPoll::Ready(Err(UDbgError::GetContext(code)))
            }
            &&& b is Context ==> {
                &&& p2 is Pending && p2->Pending_0 is SetDebugRegs
                &&& s4 == s1
                &&& c matches Reply::Failed(code) ==> {
                    &&& p3 is Pending && p3->Pending_0 == (Action::Resume { handle })
                    &&& p4 == ThreadPoll::Ready(Err(UDbgError::SetContext(code)))
                }
                &&& !(c is Failed) ==> {
                    &&& p3 is Pending && p3->Pending_0 == (Action::GetDebugRegs32 { handle })
                    &&& !(d is Context32) ==> p4 is Pending && p4->Pending_0 == (Action::Resume {
                        handle,
                    }) && (forall|e: Reply| #[trigger]
                        thread_next(s4, p4->Pending_1, e).1 == ThreadPoll::Ready(Ok(enable)))
                }
            }
        }),
{
}

/// The walk over the threads: a thread that cannot be opened is shown and passed over;
/// one that is done with decides the outcome so far, and its failure is shown; when
/// there is none left, the outcome is that of the last thread, and the breakpoint is
/// switched just where that is no failure.
pub proof fn lemma_walk_goes_on(s: AdaptorState, op: EnableOp, info: HwbpInfo, reply: Reply)
    requires
        op.bp < s.bps.len(),
        op.stage matches EnableStage::Hard { info: i, .. } && i == info,
    ensures
        ({
            let (s1, poll) = enable_next(s, op, reply);
            match op.stage->at {
                HardStage::Next => !(reply is Thread) ==> {
                    &&& poll == EnablePoll::Ready(op.result)
                    &&& s1.bps == (if op.result is Ok {
                        s.bps.update(
                            op.bp as int,
                            Breakpoint { enabled: op.enable, ..s.bps[op.bp as int] },
                        )
                    } else {
                        s.bps
                    })
                    &&& s1.bp_map == s.bp_map
                    &&& s1.reports == s.reports
                },
                HardStage::Open { tid } => {
                    &&& reply matches Reply::Handle(handle) ==> {
                        &&& s1 == s
                        &&& poll is Pending && poll->Pending_0 == (Action::Suspend { handle })
                    }
                    &&& reply matches Reply::Refused(error) ==> {
                        &&& s1 == (AdaptorState {
                            reports: s.reports.push(Report::OpenThread { tid, error }),
                            ..s
                        })
                        &&& poll is Pending && poll->Pending_0 == Action::NextThread
                        &&& poll->Pending_1.result == op.result
                    }
                },
                HardStage::Thread { tid, op: t } => t.stage == ThreadStage::Resume ==> {
                    &&& poll is Pending && poll->Pending_0 == Action::NextThread
                    &&& poll->Pending_1.result == t.result
                    &&& s1 == (match t.result {
                        Err(error) => AdaptorState {
                            reports: s.reports.push(Report::EnableThread { tid, error }),
                            ..s
                        },
                        Ok(_) => s,
                    })
                },
            }
        }),
{
    reveal(enable_next);
}

/// A breakpoint as a trap instruction over a byte.
pub open spec fn trap_over(opt: BpOpt, byte: u8, enabled: bool) -> Breakpoint {
    Breakpoint {
        address: opt.address,
        enabled,
        temp: opt.temp,
        hit_tid: opt.tid,
        hit_count: 0,
        bp_type: InnerBpType::Soft(byte),
    }
}

/// Adding a trap instruction: the byte there is read, the trap instruction is written
/// over it, and only then it is in force. Where the byte cannot be read, the address is
/// to blame and nothing changes; where it cannot be written, the memory is, and nothing
/// is in force.
pub proof fn lemma_trap_added(s: AdaptorState, opt: BpOpt, a: Reply, b: Reply)
    requires
        s.bps.len() < usize::MAX,
    ensures
        ({
            let start = int3_start(opt);
            let (s1, p1) = int3_next(s, start->Pending_1, a);
            let (s2, p2) = int3_next(s1, p1->Pending_1, b);
            let bp = s.bps.len() as usize;
            &&& start is Pending && start->Pending_0 == (Action::ReadInsn { address: opt.address })
            &&& !(a is Byte) ==> s1 == s && p1 == Int3Poll::Ready(Err(UDbgError::InvalidAddress))
            &&& a matches Reply::Byte(byte) ==> if opt.enable {
                &&& p1 is Pending && p1->Pending_0 == (Action::WriteCode {
                    address: opt.address,
                    byte: 0xcc,
                })
                &&& s1.bp_map == s.bp_map
                &&& if b is Word && b->Word_0 > 0 {
                    &&& p2 == Int3Poll::Ready(Ok(bp))
                    &&& s2 == (AdaptorState {
                        bps: s.bps.push(trap_over(opt, byte, true)),
                        bp_map: s.bp_map.insert(opt.address as isize, bp),
                        ..s
                    })
                } else {
                    &&& p2 == Int3Poll::Ready(Err(UDbgError::MemoryError))
                    &&& s2.bp_map == s.bp_map && s2.dbg_reg == s.dbg_reg
                }
            } else {
                &&& p1 == Int3Poll::Ready(Ok(bp))
                &&& s1 == (AdaptorState {
                    bps: s.bps.push(trap_over(opt, byte, false)),
                    bp_map: s.bp_map.insert(opt.address as isize, bp),
                    ..s
                })
            }
        }),
{
    reveal(int3_next);
    reveal(enable_next);
    let start = int3_start(opt);
    let (s1, p1) = int3_next(s, start->Pending_1, a);
    let (s2, p2) = int3_next(s1, p1->Pending_1, b);
    if let Reply::Byte(byte) = a {
        let bp = s.bps.len() as usize;
        assert(s1.bps == s.bps.push(trap_over(opt, byte, false)));
        if opt.enable && b is Word && b->Word_0 > 0 {
            assert(s2.bps =~= s.bps.push(trap_over(opt, byte, true)));
        }
    }
}

/// Whether a number is the least of those for redirected pointers that is not taken.
pub open spec fn is_next_number(s: AdaptorState, index: BpID) -> bool {
    &&& -10000 <= index < -10
    &&& !s.bp_map.dom().contains(index)
    &&& forall|j: BpID| -10000 <= j < index ==> s.bp_map.dom().contains(j)
}

/// Redirecting a pointer: it is read, and the least number that is free is written in
/// its place; the breakpoint is in force under its address and under that number. Where
/// the pointer cannot be read, or no number is left, nothing changes.
pub proof fn lemma_pointer_added(s: AdaptorState, opt: BpOpt, a: Reply, index: BpID)
    requires
        s.bps.len() < usize::MAX,
        s.base.status != UDbgStatus::Opened,
        !s.bp_map.dom().contains(id_of(opt.address)),
        opt.rw is None,
        opt.table,
    ensures
        ({
            let (s0, start) = add_start(s, opt);
            let (s1, p1) = add_next(s0, start->Pending_1, a);
            let bp = s.bps.len() as usize;
            &&& s0 == s
            &&& start is Pending && start->Pending_0 == (Action::ReadPtr { address: opt.address })
            &&& !(a is Word) ==> s1 == s && p1 == AddPoll::Ready(
                Err(UDbgError::Text(Reason::ReadOrigin)),
            )
            &&& a is Word && (forall|j: BpID| -10000 <= j < -10 ==> s.bp_map.dom().contains(j))
                ==> s1 == s && p1 == AddPoll::Ready(Err(UDbgError::Text(Reason::NoTableIndex)))
            &&& a is Word && is_next_number(s, index) ==> {
                &&& s1.bps == s.bps.push(
                    Breakpoint {
                        address: opt.address,
                        enabled: false,
                        temp: opt.temp,
                        hit_tid: opt.tid,
                        hit_count: 0,
                        bp_type: InnerBpType::Table { index, origin: a->Word_0 },
                    },
                )
                &&& s1.bp_map == s.bp_map.insert(index, bp).insert(opt.address as isize, bp)
                &&& s1.dbg_reg == s.dbg_reg
                &&& if opt.enable {
                    p1 is Pending && p1->Pending_0 == (Action::WritePtr {
                        address: opt.address,
                        value: index as usize,
                    })
                } else {
                    p1 == AddPoll::Ready(Ok(bp))
                }
            }
        }),
{
    if is_next_number(s, index) {
        assert(crate::adaptor::is_table_index(s.bp_map, index));
        let i = choose|id: BpID| crate::adaptor::is_table_index(s.bp_map, id);
        assert(crate::adaptor::is_table_index(s.bp_map, i));
        assert(i == index);
    }
    if forall|j: BpID| -10000 <= j < -10 ==> s.bp_map.dom().contains(j) {
        assert forall|id: BpID| !crate::adaptor::is_table_index(s.bp_map, id) by {
            if crate::adaptor::is_table_index(s.bp_map, id) {
                assert(s.bp_map.dom().contains(id));
            }
        }
    }
}

/// A new breakpoint that cannot be switched on is in force all the same: only the
/// failure is shown. One that can be is not mentioned.
pub proof fn lemma_added_anyway(
    s: AdaptorState,
    opt: BpOpt,
    bp: BpHandle,
    e: EnableOp,
    reply: Reply,
)
    ensures
        ({
            let (s1, p1) = add_next(s, AddOp { opt, stage: AddStage::Enable { bp, op: e } }, reply);
            let (s2, p2) = enable_next(s, e, reply);
            &&& p2 matches Poll::Ready(Ok(_)) ==> s1 == s2 && p1 == AddPoll::Ready(Ok(bp))
            &&& p2 matches Poll::Ready(Err(error)) ==> p1 == AddPoll::Ready(Ok(bp)) && s1 == (
            AdaptorState {
                reports: s2.reports.push(Report::Failure { doing: Doing::EnableAdded, error }),
                ..s2
            })
            &&& p2 matches Poll::Pending(action, _) ==> s1 == s2 && p1 is Pending && p1->Pending_0
                == action
        }),
{
}

/// Removing a breakpoint that is no longer in force frees nothing: the slots and the
/// table are as they were.
pub proof fn lemma_removed_before(s: AdaptorState, bp: BpHandle)
    requires
        bp < s.bps.len(),
        !s.bp_map.dom().contains(id_of(s.bps[bp as int].address)),
    ensures
        unlist(s, bp).bp_map == s.bp_map,
        unlist(s, bp).dbg_reg == s.dbg_reg,
{
    assert(unlist(s, bp).bp_map =~= s.bp_map);
}

/// Removing a breakpoint from the memory: it is switched off, its failure to be is only
/// shown, and it is out of force under its address and, for a redirected pointer, under
/// its number; every other number stands for what it did.
pub proof fn lemma_removed_from_memory(s: AdaptorState, bp: BpHandle, reply: Reply)
    requires
        bp < s.bps.len(),
        !(s.bps[bp as int].bp_type is Hard),
        s.bp_map.dom().contains(id_of(s.bps[bp as int].address)),
    ensures
        ({
            let b = s.bps[bp as int];
            let (s0, start) = remove_start(s, bp);
            let (s1, p1) = remove_next(s0, start->Pending_1, reply);
            &&& s0 == s
            &&& start is Pending && start->Pending_0 == off_action(b)
            &&& p1 is Ready
            &&& s1.dbg_reg == s.dbg_reg
            &&& s1.bp_map == (match b.bp_type {
                InnerBpType::Table { index, .. } => s.bp_map.remove(id_of(b.address)).remove(index),
                _ => s.bp_map.remove(id_of(b.address)),
            })
            &&& s1.bps == (if wrote(b, reply) {
                s.bps.update(bp as int, Breakpoint { enabled: false, ..b })
            } else {
                s.bps
            })
            &&& s1.reports == (if wrote(b, reply) {
                s.reports
            } else {
                s.reports.push(
                    Report::Failure { doing: Doing::DisableRemoved, error: UDbgError::MemoryError },
                )
            })
        }),
{
    reveal(remove_next);
    reveal(enable_next);
}

/// The options of a trap instruction that stops once.
pub open spec fn once_at(address: usize, tid: Option<Tid>) -> BpOpt {
    BpOpt { address, rw: None, len: None, table: false, temp: true, enable: true, tid }
}

/// Whether the wish to stop somewhere is carried out: the byte there is read, and the
/// wish goes on with adding a trap instruction that stops once.
pub open spec fn stops_at(poll: ReplyPoll, address: usize, tid: Option<Tid>) -> bool {
    poll matches Poll::Pending(action, op) && action == (Action::ReadInsn { address }) && op.stage
        == ReplyStage::Add(Int3Op { opt: once_at(address, tid), stage: Int3Stage::Read })
}

/// To step out of a call the thread runs on to where the call returns to, in its own
/// thread, without the trap flag; what is no call is stepped. To go somewhere is to stop
/// there once, in any thread.
pub proof fn lemma_wish_to_stop(
    s: AdaptorState,
    width: Width,
    address: usize,
    target: usize,
    reply: Reply,
)
    ensures
        ({
            let (s0, p0) = reply_start(s, width, address, UserReply::Goto(target));
            s0 == s && stops_at(p0, target, None)
        }),
        ({
            let (s0, p0) = reply_start(s, width, address, UserReply::StepOut);
            let (s1, p1) = reply_next(s0, p0->Pending_1, reply);
            &&& s0 == s
            &&& p0 is Pending && p0->Pending_0 == (Action::CheckCall { address })
            &&& reply matches Reply::Word(after) ==> {
                &&& stops_at(p1, after, Some(s.base.event_tid))
                &&& match width {
                    Width::Wide => s1.cx.eflags & 0x100 == 0 && s1.cx.eflags & !0x100u32
                        == s.cx.eflags & !0x100u32 && s1 == (AdaptorState {
                        cx: crate::regs::Context64 { eflags: s1.cx.eflags, ..s.cx },
                        ..s
                    }),
                    Width::Narrow => s1.cx32.eflags & 0x100 == 0 && s1.cx32.eflags & !0x100u32
                        == s.cx32.eflags & !0x100u32 && s1 == (AdaptorState {
                        cx32: crate::regs::Context32 { eflags: s1.cx32.eflags, ..s.cx32 },
                        ..s
                    }),
                }
            }
            &&& !(reply is Word) ==> p1 is Ready && stepping(s, s1, width == Width::Narrow)
        }),
{
    reveal(reply_start);
    reveal(reply_next);
    lemma_flags(s.cx, s.cx32, true);
    lemma_flags(s.cx, s.cx32, false);
}

/// The wish to stop somewhere goes on as the adding of a trap instruction does; a
/// failure of it is shown, and the thread goes on all the same.
pub proof fn lemma_wish_to_stop_goes_on(s: AdaptorState, op: ReplyOp, o: Int3Op, reply: Reply)
    requires
        op.stage == ReplyStage::Add(o),
    ensures
        ({
            let (s1, p1) = reply_next(s, op, reply);
            let (s2, p2) = int3_next(s, o, reply);
            &&& p2 matches Poll::Pending(action, o2) ==> s1 == s2 && p1 is Pending && p1->Pending_0
                == action && p1->Pending_1.stage == ReplyStage::Add(o2)
            &&& p2 matches Poll::Ready(Ok(_)) ==> s1 == s2 && p1 is Ready
            &&& p2 matches Poll::Ready(Err(error)) ==> p1 is Ready && s1 == (AdaptorState {
                reports: s2.reports.push(Report::Failure { doing: Doing::AddBp, error }),
                ..s2
            })
        }),
{
    reveal(reply_next);
}

/// A wish goes on the same way wherever it was uttered: at a breakpoint, after a step,
/// or at the start of the target.
pub proof fn lemma_wish_alike(h: HandlerState, op: BpOp, r: ReplyOp, result: HandleResult, reply: Reply)
    requires
        op.stage == BpStage::Reply(r),
    ensures
        ({
            let (s1, p1) = reply_next(h.this.debug, r, reply);
            let (h2, p2) = bp_next(h, op, reply);
            let (h3, p3) = hit_next(h, HitOp::Stepped(r), reply);
            let (h4, p4) = exc_next(h, ExcOp::Greeted { result, reply: r }, reply);
            &&& h2 == h.with(s1) && h3 == h.with(s1) && h4 == h.with(s1)
            &&& p1 matches Poll::Pending(action, r1) ==> {
                &&& p2 is Pending && p2->Pending_0 == action && p2->Pending_1.stage
                    == BpStage::Reply(r1)
                &&& p3 == HitPoll::Pending(action, HitOp::Stepped(r1))
                &&& p4 == ExcPoll::Pending(action, ExcOp::Greeted { result, reply: r1 })
            }
            &&& p1 is Ready ==> {
                &&& p2 == bp_after(s1, BpOp { stage: BpStage::Callback, ..op })
                &&& p3 == HitPoll::Ready(HandleResult::Continue)
                &&& p4 == ExcPoll::Ready(result)
            }
        }),
{
}

} // verus!
