//! What a breakpoint in the debug registers makes of the threads of a target.
use vstd::prelude::*;

use crate::adaptor::{free_slot, hwbp_context, lemma_slot, AdaptorState};
use crate::bp_laws::{in_force, lemma_add_starts, lemma_free_slot};
use crate::breakpoints::{
    add_next, add_start, hwbp_info, remove_next, remove_start, AddOp, AddPoll, AddStage,
    RemoveOp, RemovePoll,
};
use crate::enable::{
    all_from, all_next, enable_start, thread_start, AllOp, AllPoll, EnablePoll, ThreadOp,
};
use crate::honest::{
    answer_regs, answer_threads, enable_run, lemma_switched_everywhere, switched, Regs, Threads,
};
use crate::io::{Action, Doing, Poll};
use crate::reg_laws::{
    lemma_slot_set, lemma_slot_set32, lemma_slot_unset, lemma_slot_unset32, slot_same, slot_same32,
    slot_says, slot_says32, slot_silent, slot_silent32,
};
use crate::types::{
    id_of, BpHandle, BpOpt, Breakpoint, HwbpInfo, HwbpLen, HwbpType, InnerBpType, UDbgError, UDbgResult,
    UDbgStatus,
};

verus! {

/// Adding a breakpoint to the threads of a target whose host does as it is asked.
pub open spec fn add_threads(s: AdaptorState, poll: AddPoll, threads: Threads, fuel: nat) -> (
    AdaptorState,
    Threads,
    Option<UDbgResult<BpHandle>>,
)
    decreases fuel,
{
    match poll {
        Poll::Ready(r) => (s, threads, Some(r)),
        Poll::Pending(action, op) => if fuel == 0 {
            (s, threads, None)
        } else {
            let (threads1, reply) = answer_threads(threads, action);
            let (s1, poll1) = add_next(s, op, reply);
            add_threads(s1, poll1, threads1, (fuel - 1) as nat)
        },
    }
}

/// Removing a breakpoint from the threads of such a target.
pub open spec fn remove_threads(s: AdaptorState, poll: RemovePoll, threads: Threads, fuel: nat) -> (
    AdaptorState,
    Threads,
    bool,
)
    decreases fuel,
{
    match poll {
        Poll::Ready(_) => (s, threads, true),
        Poll::Pending(action, op) => if fuel == 0 {
            (s, threads, false)
        } else {
            let (threads1, reply) = answer_threads(threads, action);
            let (s1, poll1) = remove_next(s, op, reply);
            remove_threads(s1, poll1, threads1, (fuel - 1) as nat)
        },
    }
}

proof fn lemma_add_follows(
    s: AdaptorState,
    opt: BpOpt,
    bp: BpHandle,
    poll: EnablePoll,
    threads: Threads,
    fuel: nat,
)
    requires
        poll is Pending,
    ensures
        ({
            let (s1, after, r) = enable_run(s, poll, threads, fuel);
            let adding = AddOp { opt, stage: AddStage::Enable { bp, op: poll->Pending_1 } };
            r matches Some(r) ==> add_threads(
                s,
                Poll::Pending(poll->Pending_0, adding),
                threads,
                fuel,
            ) == (
                s1.check_result(Doing::EnableAdded, r),
                after,
                Some(Ok::<BpHandle, UDbgError>(bp)),
            )
        }),
    decreases fuel,
{
    reveal_with_fuel(enable_run, 2);
    reveal_with_fuel(add_threads, 2);
    if fuel > 0 {
        let (threads1, reply) = answer_threads(threads, poll->Pending_0);
        let (s1, poll1) = crate::enable::enable_next(s, poll->Pending_1, reply);
        let rest = (fuel - 1) as nat;
        if poll1 is Pending {
            lemma_add_follows(s1, opt, bp, poll1, threads1, rest);
        }
    }
}

proof fn lemma_remove_follows(
    s: AdaptorState,
    bp: BpHandle,
    poll: EnablePoll,
    threads: Threads,
    fuel: nat,
)
    requires
        poll is Pending,
    ensures
        ({
            let (s1, after, r) = enable_run(s, poll, threads, fuel);
            let removing = RemoveOp { bp, op: poll->Pending_1 };
            r matches Some(r) ==> remove_threads(
                s,
                Poll::Pending(poll->Pending_0, removing),
                threads,
                fuel,
            ) == (
                crate::breakpoints::unlist(s1.check_result(Doing::DisableRemoved, r), bp),
                after,
                true,
            )
        }),
    decreases fuel,
{
    reveal(remove_next);
    reveal_with_fuel(enable_run, 2);
    reveal_with_fuel(remove_threads, 2);
    if fuel > 0 {
        let (threads1, reply) = answer_threads(threads, poll->Pending_0);
        let (s1, poll1) = crate::enable::enable_next(s, poll->Pending_1, reply);
        let rest = (fuel - 1) as nat;
        if poll1 is Pending {
            lemma_remove_follows(s1, bp, poll1, threads1, rest);
        }
    }
}

/// The code of the control register for a kind of access.
pub open spec fn access_code(rw: HwbpType) -> u8 {
    match rw {
        HwbpType::Execute => 0,
        HwbpType::Write => 1,
        HwbpType::Access => 3,
    }
}

/// The code of the control register for a length in bytes; one byte where none is
/// asked for.
pub open spec fn length_code(len: Option<HwbpLen>) -> u8 {
    match len {
        None => 0,
        Some(HwbpLen::L1) => 0,
        Some(HwbpLen::L2) => 1,
        Some(HwbpLen::L4) => 3,
        Some(HwbpLen::L8) => 2,
    }
}

/// Whether a slot watches what was asked for on both sides of a thread, and the
/// other slots are as they were.
pub open spec fn thread_says(
    before: Regs,
    after: Regs,
    idx: usize,
    address: usize,
    rw: u8,
    len: u8,
) -> bool {
    &&& slot_says(after.cx, idx, address, rw, len)
    &&& forall|j: usize| j < 4 && j != idx ==> #[trigger] slot_same(after.cx, before.cx, j)
    &&& match before.cx32 {
        Some(cx32) => {
            &&& after.cx32 is Some
            &&& slot_says32(after.cx32->0, idx, address, rw, len)
            &&& forall|j: usize|
                j < 4 && j != idx ==> #[trigger] slot_same32(after.cx32->0, cx32, j)
        },
        None => after.cx32 is None,
    }
}

/// Whether a slot watches nothing on both sides of a thread, and the other slots
/// are as they were.
pub open spec fn thread_silent(before: Regs, after: Regs, idx: usize) -> bool {
    &&& slot_silent(after.cx, idx)
    &&& forall|j: usize| j < 4 && j != idx ==> #[trigger] slot_same(after.cx, before.cx, j)
    &&& match before.cx32 {
        Some(cx32) => {
            &&& after.cx32 is Some
            &&& slot_silent32(after.cx32->0, idx)
            &&& forall|j: usize|
                j < 4 && j != idx ==> #[trigger] slot_same32(after.cx32->0, cx32, j)
        },
        None => after.cx32 is None,
    }
}

proof fn lemma_switched_says(regs: Regs, dbg_reg: Seq<usize>, info: HwbpInfo)
    requires
        info.index < 4,
        info.rw <= 3,
        info.len <= 3,
    ensures
        thread_says(
            regs,
            switched(regs, dbg_reg, info, true),
            info.index as usize,
            dbg_reg[info.index as int],
            info.rw,
            info.len,
        ),
        thread_silent(regs, switched(regs, dbg_reg, info, false), info.index as usize),
{
    let address = dbg_reg[info.index as int];
    let idx = info.index as usize;
    lemma_slot_set(regs.cx, address, idx, info.rw, info.len);
    lemma_slot_unset(regs.cx, idx);
    if let Some(cx32) = regs.cx32 {
        lemma_slot_set32(cx32, address, idx, info.rw, info.len);
        lemma_slot_unset32(cx32, idx);
    }
}

/// A breakpoint added to the debug registers is in force in the first free slot.
/// In every thread it is meant for, on both sides of the thread, the slot is on and
/// watches the address for the access and the length that were asked for; the other
/// threads are left alone. The registers at hand say so too, where it is meant for
/// their thread.
pub proof fn lemma_hard_added(
    s: AdaptorState,
    opt: BpOpt,
    rw: HwbpType,
    slot: usize,
    threads: Threads,
    fuel: nat,
)
    requires
        s.wf(),
        s.bps.len() < usize::MAX,
        s.base.status != UDbgStatus::Opened,
        !s.bp_map.dom().contains(id_of(opt.address)),
        opt.rw == Some(rw),
        opt.enable,
        slot < 4,
        s.dbg_reg[slot as int] == 0,
        forall|j: int| 0 <= j < slot ==> #[trigger] s.dbg_reg[j] != 0,
        threads.left.no_duplicates(),
        forall|i: int|
            0 <= i < threads.left.len() ==> threads.regs.dom().contains(
                (#[trigger] threads.left[i]) as usize,
            ),
        fuel > 8 * threads.left.len(),
    ensures
        ({
            let (s0, poll) = add_start(s, opt);
            let (s1, after, r) = add_threads(s0, poll, threads, fuel);
            let bp = s.bps.len() as usize;
            let info = HwbpInfo {
                index: slot as u8,
                rw: access_code(rw),
                len: length_code(opt.len),
            };
            &&& r == Some(Ok::<BpHandle, UDbgError>(bp))
            &&& in_force(s1, opt, bp)
            &&& s1.bps == s.bps.push(
                Breakpoint {
                    address: opt.address,
                    enabled: true,
                    temp: opt.temp,
                    hit_tid: opt.tid,
                    hit_count: 0,
                    bp_type: InnerBpType::Hard(info),
                },
            )
            &&& s1.dbg_reg == s.dbg_reg.update(slot as int, opt.address)
            &&& after.regs.dom() == threads.regs.dom()
            &&& forall|i: int|
                0 <= i < threads.left.len() ==> {
                    let tid = #[trigger] threads.left[i];
                    let before = threads.regs[tid as usize];
                    if !s.protected.contains(tid) && (opt.tid is None || opt.tid == Some(tid)) {
                        thread_says(
                            before,
                            after.regs[tid as usize],
                            slot,
                            opt.address,
                            access_code(rw),
                            length_code(opt.len),
                        )
                    } else {
                        after.regs[tid as usize] == before
                    }
                }
            &&& s.has_cx && (opt.tid is None || opt.tid == Some(s.base.event_tid)) ==> slot_says(
                s1.cx,
                slot,
                opt.address,
                access_code(rw),
                length_code(opt.len),
            )
            &&& s.has_cx32 && (opt.tid is None || opt.tid == Some(s.base.event_tid))
                ==> slot_says32(
                s1.cx32,
                slot,
                opt.address,
                access_code(rw),
                length_code(opt.len),
            )
        }),
{
    lemma_slot_free(s, slot);
    let bp = s.bps.len() as usize;
    let info = hwbp_info(rw, opt.len, slot);
    let (s0, poll) = add_start(s, opt);
    lemma_add_starts(s, opt);
    lemma_slot(s0, bp);
    assert(s0.bps[bp as int].bp_type == InnerBpType::Hard(info));
    let enabling = enable_start(s0, bp, true);
    lemma_switched_everywhere(s0, bp, info, true, threads, fuel);
    lemma_add_follows(s0, opt, bp, enabling, threads, fuel);
    let (s1, after, r) = add_threads(s0, poll, threads, fuel);
    assert(s1.bps =~= s.bps.push(Breakpoint { enabled: true, ..s0.bps[bp as int] }));
    assert forall|i: int| 0 <= i < threads.left.len() implies {
        let tid = #[trigger] threads.left[i];
        let before = threads.regs[tid as usize];
        if !s.protected.contains(tid) && (opt.tid is None || opt.tid == Some(tid)) {
            thread_says(
                before,
                after.regs[tid as usize],
                slot,
                opt.address,
                access_code(rw),
                length_code(opt.len),
            )
        } else {
            after.regs[tid as usize] == before
        }
    } by {
        let tid = threads.left[i];
        lemma_switched_says(threads.regs[tid as usize], s0.dbg_reg, info);
    }
    lemma_slot_set(s0.cx, opt.address, slot, info.rw, info.len);
    lemma_slot_set32(s0.cx32, opt.address, slot, info.rw, info.len);
}

/// A breakpoint that is added to the debug registers and not to be switched on yet takes
/// its slot and is in force, and nothing is asked of the host.
pub proof fn lemma_hard_added_off(s: AdaptorState, opt: BpOpt, rw: HwbpType, slot: usize)
    requires
        s.wf(),
        s.bps.len() < usize::MAX,
        s.base.status != UDbgStatus::Opened,
        !s.bp_map.dom().contains(id_of(opt.address)),
        opt.rw == Some(rw),
        !opt.enable,
        slot < 4,
        s.dbg_reg[slot as int] == 0,
        forall|j: int| 0 <= j < slot ==> #[trigger] s.dbg_reg[j] != 0,
    ensures
        ({
            let (s1, poll) = add_start(s, opt);
            let bp = s.bps.len() as usize;
            &&& poll == AddPoll::Ready(Ok(bp))
            &&& in_force(s1, opt, bp)
            &&& !s1.bps[bp as int].enabled
            &&& s1.dbg_reg == s.dbg_reg.update(slot as int, opt.address)
            &&& s1.bp_map == s.bp_map.insert((-(slot + 1)) as isize, bp).insert(
                id_of(opt.address),
                bp,
            )
            &&& s1.cx == s.cx && s1.cx32 == s.cx32
        }),
{
    lemma_slot_free(s, slot);
    lemma_add_starts(s, opt);
}

proof fn lemma_slot_free(s: AdaptorState, slot: usize)
    requires
        s.wf(),
        slot < 4,
        s.dbg_reg[slot as int] == 0,
        forall|j: int| 0 <= j < slot ==> #[trigger] s.dbg_reg[j] != 0,
    ensures
        free_slot(s.dbg_reg) == Some(slot),
        s.dbg_reg.len() == 4,
{
    reveal(crate::adaptor::table_wf);
    lemma_free_slot(s.dbg_reg);
    match free_slot(s.dbg_reg) {
        Some(i) => {
            if i < slot {
                assert(s.dbg_reg[i as int] != 0);
            }
        },
        None => {
            assert(s.dbg_reg[slot as int] != 0);
        },
    }
}

/// A breakpoint removed from the debug registers is silent in every thread it was
/// meant for, on both sides of the thread; its slot is free, and neither its own
/// number nor that of the slot stands for anything.
pub proof fn lemma_hard_removed(
    s: AdaptorState,
    bp: BpHandle,
    info: HwbpInfo,
    threads: Threads,
    fuel: nat,
)
    requires
        s.wf(),
        bp < s.bps.len(),
        s.bps[bp as int].bp_type == InnerBpType::Hard(info),
        info.rw <= 3,
        info.len <= 3,
        s.bp_map.dom().contains(id_of(s.bps[bp as int].address)),
        threads.left.no_duplicates(),
        forall|i: int|
            0 <= i < threads.left.len() ==> threads.regs.dom().contains(
                (#[trigger] threads.left[i]) as usize,
            ),
        fuel > 8 * threads.left.len(),
    ensures
        ({
            let (s0, poll) = remove_start(s, bp);
            let (s1, after, done) = remove_threads(s0, poll, threads, fuel);
            let b = s.bps[bp as int];
            &&& done
            &&& !s1.bps[bp as int].enabled
            &&& s1.bp_map == s.bp_map.remove(id_of(b.address)).remove((-(info.index + 1)) as isize)
            &&& s1.dbg_reg == s.dbg_reg.update(info.index as int, 0)
            &&& forall|i: int|
                0 <= i < threads.left.len() ==> {
                    let tid = #[trigger] threads.left[i];
                    let before = threads.regs[tid as usize];
                    if !s.protected.contains(tid) && (b.hit_tid is None || b.hit_tid == Some(tid)) {
                        thread_silent(before, after.regs[tid as usize], info.index as usize)
                    } else {
                        after.regs[tid as usize] == before
                    }
                }
        }),
{
    lemma_slot(s, bp);
    let (s0, poll) = remove_start(s, bp);
    let disabling = enable_start(s, bp, false);
    lemma_switched_everywhere(s, bp, info, false, threads, fuel);
    lemma_remove_follows(s, bp, disabling, threads, fuel);
    let (s1, after, done) = remove_threads(s0, poll, threads, fuel);
    assert forall|i: int| 0 <= i < threads.left.len() implies {
        let tid = #[trigger] threads.left[i];
        let before = threads.regs[tid as usize];
        let b = s.bps[bp as int];
        if !s.protected.contains(tid) && (b.hit_tid is None || b.hit_tid == Some(tid)) {
            thread_silent(before, after.regs[tid as usize], info.index as usize)
        } else {
            after.regs[tid as usize] == before
        }
    } by {
        let tid = threads.left[i];
        lemma_switched_says(threads.regs[tid as usize], s.dbg_reg, info);
    }
}

/// The breakpoint in a slot that stands under a number, if one does.
pub open spec fn hard_under(s: AdaptorState, id: int) -> Option<HwbpInfo> {
    match s.get_bp(id as isize) {
        Some(bp) => match s.bps[bp as int].bp_type {
            InnerBpType::Hard(info) => Some(info),
            _ => None,
        },
        None => None,
    }
}

/// Setting the slots of a new thread with that host: its registers after it, and
/// whether it has ended.
pub open spec fn arm_run(s: AdaptorState, poll: AllPoll, regs: Regs, fuel: nat) -> (Regs, bool)
    decreases fuel,
{
    match poll {
        Poll::Ready(_) => (regs, true),
        Poll::Pending(action, op) => if fuel == 0 {
            (regs, false)
        } else {
            let (regs1, reply) = answer_regs(regs, action);
            let (s1, poll1) = all_next(s, op, reply);
            arm_run(s1, poll1, regs1, (fuel - 1) as nat)
        },
    }
}

/// The registers of a thread with the breakpoints under the numbers from `-i` down
/// to `-3` set.
pub open spec fn armed_from(s: AdaptorState, regs: Regs, i: int) -> Regs
    decreases 4 - i,
{
    if i >= 4 {
        regs
    } else {
        match hard_under(s, -i) {
            Some(info) => armed_from(s, switched(regs, s.dbg_reg, info, true), i + 1),
            None => armed_from(s, regs, i + 1),
        }
    }
}

proof fn lemma_arm_one(
    s: AdaptorState,
    handle: usize,
    info: HwbpInfo,
    next: usize,
    regs: Regs,
    fuel: nat,
)
    requires
        fuel >= 6,
    ensures
        ({
            let t = thread_start(handle, info, true)->Pending_1;
            let op = AllOp { handle, enable: true, next, op: t };
            let used: nat = if regs.cx32 is Some {
                6
            } else {
                5
            };
            arm_run(s, Poll::Pending(Action::Suspend { handle }, op), regs, fuel) == arm_run(
                s,
                all_from(s, handle, true, next as int),
                switched(regs, s.dbg_reg, info, true),
                (fuel - used) as nat,
            )
        }),
{
    reveal(all_next);
    let t = thread_start(handle, info, true)->Pending_1;
    let op = AllOp { handle, enable: true, next, op: t };
    let a0 = Action::Suspend { handle };
    lemma_arm_step(s, a0, op, regs, fuel);
    let op1 = AllOp { op: ThreadOp { stage: crate::enable::ThreadStage::Read, ..t }, ..op };
    lemma_arm_step(s, Action::GetDebugRegs { handle }, op1, regs, (fuel - 1) as nat);
    let cx = hwbp_context(regs.cx, s.dbg_reg, info, true);
    let op2 = AllOp { op: ThreadOp { stage: crate::enable::ThreadStage::Write, ..t }, ..op };
    lemma_arm_step(s, Action::SetDebugRegs { handle, cx }, op2, regs, (fuel - 2) as nat);
    let regs1 = Regs { cx, ..regs };
    let op3 = AllOp { op: ThreadOp { stage: crate::enable::ThreadStage::Read32, ..t }, ..op };
    lemma_arm_step(s, Action::GetDebugRegs32 { handle }, op3, regs1, (fuel - 3) as nat);
    let op5 = AllOp { op: ThreadOp { stage: crate::enable::ThreadStage::Resume, ..t }, ..op };
    match regs.cx32 {
        Some(c) => {
            let cx32 = hwbp_context(c, s.dbg_reg, info, true);
            let op4 = AllOp {
                op: ThreadOp { stage: crate::enable::ThreadStage::Write32, ..t },
                ..op
            };
            lemma_arm_step(
                s,
                Action::SetDebugRegs32 { handle, cx32 },
                op4,
                regs1,
                (fuel - 4) as nat,
            );
            let regs2 = Regs { cx, cx32: Some(cx32) };
            lemma_arm_step(s, Action::Resume { handle }, op5, regs2, (fuel - 5) as nat);
        },
        None => {
            lemma_arm_step(s, Action::Resume { handle }, op5, regs1, (fuel - 4) as nat);
        },
    }
}

proof fn lemma_arm_step(s: AdaptorState, action: Action, op: AllOp, regs: Regs, fuel: nat)
    requires
        fuel > 0,
    ensures
        ({
            let (regs1, reply) = answer_regs(regs, action);
            let (s1, poll1) = all_next(s, op, reply);
            arm_run(s, Poll::Pending(action, op), regs, fuel) == arm_run(
                s1,
                poll1,
                regs1,
                (fuel - 1) as nat,
            )
        }),
{
}

proof fn lemma_arm_from(s: AdaptorState, handle: usize, regs: Regs, i: int, fuel: nat)
    requires
        0 <= i <= 4,
        fuel >= 6 * (4 - i),
    ensures
        arm_run(s, all_from(s, handle, true, i), regs, fuel) == (armed_from(s, regs, i), true),
    decreases 4 - i,
{
    if i < 4 {
        match hard_under(s, -i) {
            Some(info) => {
                lemma_arm_one(s, handle, info, (i + 1) as usize, regs, fuel);
                let used: nat = if regs.cx32 is Some {
                    6
                } else {
                    5
                };
                lemma_arm_from(
                    s,
                    handle,
                    switched(regs, s.dbg_reg, info, true),
                    i + 1,
                    (fuel - used) as nat,
                );
            },
            None => lemma_arm_from(s, handle, regs, i + 1, fuel),
        }
    }
}

/// Whether a slot is on in a context and says what its breakpoint asks for, where
/// one stands under the slot's number; or is as it was, where none does.
pub open spec fn slot_armed(s: AdaptorState, before: Regs, after: Regs, k: int) -> bool {
    match hard_under(s, -k) {
        Some(info) => slot_says(
            after.cx,
            (k - 1) as usize,
            s.dbg_reg[k - 1],
            info.rw,
            info.len,
        ) && (after.cx32 matches Some(cx32) ==> slot_says32(
            cx32,
            (k - 1) as usize,
            s.dbg_reg[k - 1],
            info.rw,
            info.len,
        )),
        None => slot_same(after.cx, before.cx, (k - 1) as usize) && (after.cx32 matches Some(cx32)
            ==> before.cx32 is Some && slot_same32(cx32, before.cx32->0, (k - 1) as usize)),
    }
}

/// A new thread gets the slots that are in use: for each of the numbers -1, -2 and
/// -3, the breakpoint in the slot under it is on in the thread's registers, on both
/// sides, with its address, its kind of access and its length. Slots under whose
/// number nothing stands are left as they are.
pub proof fn lemma_new_thread_armed(s: AdaptorState, handle: usize, regs: Regs)
    requires
        hard_under(s, 0) is None,
        forall|k: int|
            1 <= k < 4 ==> ((#[trigger] hard_under(s, -k)) matches Some(info) ==> info.index == k
                - 1 && info.rw <= 3 && info.len <= 3),
    ensures
        ({
            let (after, done) = arm_run(s, all_from(s, handle, true, 0), regs, 24);
            &&& done
            &&& slot_armed(s, regs, after, 1)
            &&& slot_armed(s, regs, after, 2)
            &&& slot_armed(s, regs, after, 3)
            &&& slot_same(after.cx, regs.cx, 3)
            &&& after.cx32 is Some <==> regs.cx32 is Some
        }),
{
    lemma_arm_from(s, handle, regs, 0, 24);
    reveal_with_fuel(armed_from, 5);
    let r1 = regs;
    let r2 = match hard_under(s, -1) {
        Some(info) => switched(r1, s.dbg_reg, info, true),
        None => r1,
    };
    let r3 = match hard_under(s, -2) {
        Some(info) => switched(r2, s.dbg_reg, info, true),
        None => r2,
    };
    let r4 = match hard_under(s, -3) {
        Some(info) => switched(r3, s.dbg_reg, info, true),
        None => r3,
    };
    assert(hard_under(s, -0) is None);
    assert(armed_from(s, regs, 0) == armed_from(s, r1, 1));
    assert(armed_from(s, r1, 1) == armed_from(s, r2, 2));
    assert(armed_from(s, r2, 2) == armed_from(s, r3, 3));
    assert(armed_from(s, r3, 3) == r4);
    if let Some(info) = hard_under(s, -1) {
        lemma_switched_says(r1, s.dbg_reg, info);
        assert(slot_same(r2.cx, r1.cx, 1));
        assert(slot_same(r2.cx, r1.cx, 2));
        assert(slot_same(r2.cx, r1.cx, 3));
        if r1.cx32 is Some {
            assert(slot_same32(r2.cx32->0, r1.cx32->0, 1));
            assert(slot_same32(r2.cx32->0, r1.cx32->0, 2));
            assert(slot_same32(r2.cx32->0, r1.cx32->0, 3));
        }
    }
    if let Some(info) = hard_under(s, -2) {
        lemma_switched_says(r2, s.dbg_reg, info);
        assert(slot_same(r3.cx, r2.cx, 0));
        assert(slot_same(r3.cx, r2.cx, 2));
        assert(slot_same(r3.cx, r2.cx, 3));
        if r2.cx32 is Some {
            assert(slot_same32(r3.cx32->0, r2.cx32->0, 0));
            assert(slot_same32(r3.cx32->0, r2.cx32->0, 2));
            assert(slot_same32(r3.cx32->0, r2.cx32->0, 3));
        }
    }
    if let Some(info) = hard_under(s, -3) {
        lemma_switched_says(r3, s.dbg_reg, info);
        assert(slot_same(r4.cx, r3.cx, 0));
        assert(slot_same(r4.cx, r3.cx, 1));
        assert(slot_same(r4.cx, r3.cx, 3));
        if r3.cx32 is Some {
            assert(slot_same32(r4.cx32->0, r3.cx32->0, 0));
            assert(slot_same32(r4.cx32->0, r3.cx32->0, 1));
            assert(slot_same32(r4.cx32->0, r3.cx32->0, 3));
        }
    }
    assert(slot_armed(s, regs, r4, 1));
    assert(slot_armed(s, regs, r4, 2));
    assert(slot_armed(s, regs, r4, 3));
}

} // verus!
