//! What becomes of a target whose host does as it is asked.
//!
//! The host here answers truthfully: it reads what is there, writes what it is
//! told to, and says so.
use vstd::prelude::*;

use crate::adaptor::{hwbp_context, AdaptorState};
use crate::bp_laws::{in_force, lemma_add_keeps, lemma_add_starts, lemma_remove_starts};
use crate::breakpoints::{
    add_next, add_start, int3_next, remove_next, remove_start, AddPoll, RemovePoll,
};
use crate::enable::{
    enable_at, enable_next, enable_start, enable_walked, thread_next, thread_start, EnableOp,
    EnablePoll, EnableStage, HardStage, ThreadOp, ThreadPoll, ThreadStage,
};
use crate::handler::{bp_disabled, bp_fetched, bp_next, handle_start};
use crate::hit::{bp_after, BpOp, BpPoll};
use crate::io::{Action, Poll, Reply};
use crate::regs::{has_bit, has_bit32, Context32, Context64, HWBPRegs, L_ENABLE};
use crate::session::HandlerState;
use crate::slots::{lemma_set_unset, lemma_set_unset32, slot_clear, slot_clear32};
use crate::types::{
    id_of, BpHandle, BpOpt, Breakpoint, HandleResult, HwbpInfo, InnerBpType, Tid, UDbgError, UDbgResult,
    UDbgStatus, BP_INSN,
};

verus! {

/// Memory of a target: bytes of code, and pointers.
pub struct Memory {
    pub bytes: Map<usize, u8>,
    pub words: Map<usize, usize>,
}

/// What the host does to the memory, and what it answers.
pub open spec fn answer(mem: Memory, action: Action) -> (Memory, Reply) {
    match action {
        Action::ReadInsn { address } => (
            mem,
            if mem.bytes.dom().contains(address) {
                Reply::Byte(mem.bytes[address])
            } else {
                Reply::Failed(0)
            },
        ),
        Action::WriteCode { address, byte } => if mem.bytes.dom().contains(address) {
            (Memory { bytes: mem.bytes.insert(address, byte), ..mem }, Reply::Word(1))
        } else {
            (mem, Reply::Word(0))
        },
        Action::ReadPtr { address } => (
            mem,
            if mem.words.dom().contains(address) {
                Reply::Word(mem.words[address])
            } else {
                Reply::Failed(0)
            },
        ),
        Action::WritePtr { address, value } => if mem.words.dom().contains(address) {
            (Memory { words: mem.words.insert(address, value), ..mem }, Reply::Done)
        } else {
            (mem, Reply::Failed(0))
        },
        _ => (mem, Reply::Done),
    }
}

/// Adding a breakpoint with that host, for at most some answers: the session and
/// the memory after it, and the outcome if it has ended.
pub open spec fn add_run(s: AdaptorState, poll: AddPoll, mem: Memory, fuel: nat) -> (
    AdaptorState,
    Memory,
    Option<UDbgResult<BpHandle>>,
)
    decreases fuel,
{
    match poll {
        Poll::Ready(r) => (s, mem, Some(r)),
        Poll::Pending(action, op) => if fuel == 0 {
            (s, mem, None)
        } else {
            let (mem1, reply) = answer(mem, action);
            let (s1, poll1) = add_next(s, op, reply);
            add_run(s1, poll1, mem1, (fuel - 1) as nat)
        },
    }
}

/// Removing a breakpoint with that host.
pub open spec fn remove_run(s: AdaptorState, poll: RemovePoll, mem: Memory, fuel: nat) -> (
    AdaptorState,
    Memory,
    bool,
)
    decreases fuel,
{
    match poll {
        Poll::Ready(_) => (s, mem, true),
        Poll::Pending(action, op) => if fuel == 0 {
            (s, mem, false)
        } else {
            let (mem1, reply) = answer(mem, action);
            let (s1, poll1) = remove_next(s, op, reply);
            remove_run(s1, poll1, mem1, (fuel - 1) as nat)
        },
    }
}

/// A trap instruction that was added is in force and on, and stands in the
/// memory in place of the byte that was there.
pub proof fn lemma_trap_written(s: AdaptorState, opt: BpOpt, mem: Memory)
    requires
        s.wf(),
        s.bps.len() < usize::MAX,
        s.base.status != UDbgStatus::Opened,
        !s.bp_map.dom().contains(id_of(opt.address)),
        opt.rw is None,
        !opt.table,
        opt.enable,
        mem.bytes.dom().contains(opt.address),
    ensures
        ({
            let (s0, poll) = add_start(s, opt);
            let (s1, mem1, r) = add_run(s0, poll, mem, 3);
            let bp = s.bps.len() as usize;
            &&& r == Some(Ok::<BpHandle, UDbgError>(bp))
            &&& in_force(s1, opt, bp)
            &&& s1.bps[bp as int].enabled
            &&& s1.bps[bp as int].bp_type == InnerBpType::Soft(mem.bytes[opt.address])
            &&& mem1 == (Memory { bytes: mem.bytes.insert(opt.address, BP_INSN), ..mem })
            &&& s1.bp_map == s.bp_map.insert(id_of(opt.address), bp)
            &&& s1.wf()
        }),
{
    reveal(int3_next);
    reveal(enable_next);
    let bp = s.bps.len() as usize;
    let (s0, poll0) = add_start(s, opt);
    lemma_add_starts(s, opt);
    let o0 = poll0->Pending_1;
    let (mem1, r0) = answer(mem, poll0->Pending_0);
    let (s1, poll1) = add_next(s0, o0, r0);
    lemma_add_keeps(s0, o0, r0);
    let o1 = poll1->Pending_1;
    let (mem2, r1) = answer(mem1, poll1->Pending_0);
    let (s2, poll2) = add_next(s1, o1, r1);
    lemma_add_keeps(s1, o1, r1);
    let o2 = poll2->Pending_1;
    let (mem3, r2) = answer(mem2, poll2->Pending_0);
    let (s3, poll3) = add_next(s2, o2, r2);
    lemma_add_keeps(s2, o2, r2);
    assert(mem3.bytes =~= mem.bytes.insert(opt.address, BP_INSN));
    assert(s3.bp_map =~= s.bp_map.insert(id_of(opt.address), bp));
    assert(add_run(s3, poll3, mem3, 0) == (s3, mem3, Some(Ok::<BpHandle, UDbgError>(bp))));
    assert(add_run(s2, poll2, mem2, 1) == add_run(s3, poll3, mem3, 0));
    assert(add_run(s1, poll1, mem1, 2) == add_run(s2, poll2, mem2, 1));
    assert(add_run(s0, poll0, mem, 3) == add_run(s1, poll1, mem1, 2));
}

/// Removing a trap instruction puts its byte back, and leaves nothing in force
/// under its number.
pub proof fn lemma_trap_removed(s: AdaptorState, bp: BpHandle, raw_byte: u8, mem: Memory)
    requires
        s.wf(),
        bp < s.bps.len(),
        s.bps[bp as int].bp_type == InnerBpType::Soft(raw_byte),
        mem.bytes.dom().contains(s.bps[bp as int].address),
    ensures
        ({
            let address = s.bps[bp as int].address;
            let (s0, poll) = remove_start(s, bp);
            let (s1, mem1, done) = remove_run(s0, poll, mem, 1);
            &&& done
            &&& mem1 == (Memory { bytes: mem.bytes.insert(address, raw_byte), ..mem })
            &&& s1.bp_map == s.bp_map.remove(id_of(address))
            &&& s1.dbg_reg == s.dbg_reg
            &&& !s1.bps[bp as int].enabled
        }),
{
    reveal(remove_next);
    reveal(enable_next);
    lemma_remove_starts(s, bp);
    let (s0, poll0) = remove_start(s, bp);
    let (mem1, r0) = answer(mem, poll0->Pending_0);
    let (s1, poll1) = remove_next(s0, poll0->Pending_1, r0);
    assert(remove_run(s1, poll1, mem1, 0) == (s1, mem1, true));
    assert(remove_run(s0, poll0, mem, 1) == remove_run(s1, poll1, mem1, 0));
}

/// Adding a trap instruction and removing it again leaves the memory and the
/// table as they were.
pub proof fn lemma_trap_round_trip(s: AdaptorState, opt: BpOpt, mem: Memory)
    requires
        s.wf(),
        s.bps.len() < usize::MAX,
        s.base.status != UDbgStatus::Opened,
        !s.bp_map.dom().contains(id_of(opt.address)),
        opt.rw is None,
        !opt.table,
        opt.enable,
        mem.bytes.dom().contains(opt.address),
    ensures
        ({
            let (s0, poll) = add_start(s, opt);
            let (s1, mem1, r) = add_run(s0, poll, mem, 3);
            let (s2, poll2) = remove_start(s1, s.bps.len() as usize);
            let (s3, mem3, done) = remove_run(s2, poll2, mem1, 1);
            &&& done
            &&& mem3 == mem
            &&& s3.bp_map == s.bp_map
            &&& s3.dbg_reg == s.dbg_reg
        }),
{
    let (s0, poll) = add_start(s, opt);
    let (s1, mem1, r) = add_run(s0, poll, mem, 3);
    let bp = s.bps.len() as usize;
    lemma_trap_written(s, opt, mem);
    lemma_trap_removed(s1, bp, mem.bytes[opt.address], mem1);
    lemma_regs_kept(s, opt, mem);
    let (s2, poll2) = remove_start(s1, bp);
    let (s3, mem3, done) = remove_run(s2, poll2, mem1, 1);
    assert(mem3.bytes =~= mem.bytes);
    assert(s3.bp_map =~= s.bp_map);
}

proof fn lemma_regs_kept(s: AdaptorState, opt: BpOpt, mem: Memory)
    requires
        opt.rw is None,
        !opt.table,
        opt.enable,
        s.base.status != UDbgStatus::Opened,
        !s.bp_map.dom().contains(id_of(opt.address)),
        mem.bytes.dom().contains(opt.address),
        s.bps.len() < usize::MAX,
    ensures
        ({
            let (s0, poll) = add_start(s, opt);
            add_run(s0, poll, mem, 3).0.dbg_reg == s.dbg_reg
        }),
{
    reveal(int3_next);
    reveal(enable_next);
    let (s0, poll0) = add_start(s, opt);
    let (mem1, r0) = answer(mem, poll0->Pending_0);
    let (s1, poll1) = add_next(s0, poll0->Pending_1, r0);
    let (mem2, r1) = answer(mem1, poll1->Pending_0);
    let (s2, poll2) = add_next(s1, poll1->Pending_1, r1);
    let (mem3, r2) = answer(mem2, poll2->Pending_0);
    let (s3, poll3) = add_next(s2, poll2->Pending_1, r2);
    assert(add_run(s2, poll2, mem2, 1) == add_run(s3, poll3, mem3, 0));
    assert(add_run(s1, poll1, mem1, 2) == add_run(s2, poll2, mem2, 1));
}

/// While a thread steps over a trap instruction, its own byte stands in the
/// memory.
pub proof fn lemma_off_for_the_step(h: HandlerState, op: BpOp, raw_byte: u8, mem: Memory)
    requires
        h.wf(),
        op.bp < h.this.debug.bps.len(),
        h.this.debug.bps[op.bp as int].bp_type == InnerBpType::Soft(raw_byte),
        h.this.debug.bps[op.bp as int].enabled,
        h.this.debug.get_bp(id_of(h.this.debug.bps[op.bp as int].address)) is Some,
        mem.bytes.dom().contains(h.this.debug.bps[op.bp as int].address),
    ensures
        bp_after(h.this.debug, op) matches Poll::Pending(action, o) && {
            let address = h.this.debug.bps[op.bp as int].address;
            let (mem1, reply) = answer(mem, action);
            let (h1, poll) = bp_next(h, o, reply);
            &&& mem1 == (Memory { bytes: mem.bytes.insert(address, raw_byte), ..mem })
            &&& !h1.this.debug.bps[op.bp as int].enabled
            &&& poll matches Poll::Pending(_, o1) && o1.stage is Cont
        },
{
    reveal(bp_after);
    reveal(enable_next);
    reveal(bp_disabled);
}

/// After the step the trap instruction stands there again, and the thread goes on
/// unless its user wanted to step.
pub proof fn lemma_on_after_the_step(h: HandlerState, op: BpOp, raw_byte: u8, mem: Memory)
    requires
        h.wf(),
        op.bp < h.this.debug.bps.len(),
        h.this.debug.bps[op.bp as int].bp_type == InnerBpType::Soft(raw_byte),
        h.this.debug.base.event_tid == op.tid,
        mem.bytes.dom().contains(h.this.debug.bps[op.bp as int].address),
    ensures
        bp_fetched(h, op).1 matches Poll::Pending(action, o) && {
            let address = h.this.debug.bps[op.bp as int].address;
            let (mem1, reply) = answer(mem, action);
            let (h1, poll) = bp_next(bp_fetched(h, op).0, o, reply);
            &&& mem1 == (Memory { bytes: mem.bytes.insert(address, BP_INSN), ..mem })
            &&& h1.this.debug.bps[op.bp as int].enabled
            &&& !op.user_step ==> poll == BpPoll::Ready(HandleResult::Continue)
        },
{
    reveal(enable_next);
    reveal(handle_start);
}

/// Registers of a thread: those of its native side, and of its 32-bit side if
/// it has one.
pub struct Regs {
    pub cx: Context64,
    pub cx32: Option<Context32>,
}

/// What the host does to a thread's registers, and what it answers.
pub open spec fn answer_regs(regs: Regs, action: Action) -> (Regs, Reply) {
    match action {
        Action::GetDebugRegs { .. } => (regs, Reply::Context(regs.cx)),
        Action::SetDebugRegs { cx, .. } => (Regs { cx, ..regs }, Reply::Done),
        Action::GetDebugRegs32 { .. } => (
            regs,
            match regs.cx32 {
                Some(cx32) => Reply::Context32(cx32),
                None => Reply::Failed(0),
            },
        ),
        Action::SetDebugRegs32 { cx32, .. } => (Regs { cx32: Some(cx32), ..regs }, Reply::Done),
        _ => (regs, Reply::Done),
    }
}

/// Switching a slot in a thread with that host.
pub open spec fn thread_run(s: AdaptorState, poll: ThreadPoll, regs: Regs, fuel: nat) -> (
    Regs,
    Option<UDbgResult<bool>>,
)
    decreases fuel,
{
    match poll {
        Poll::Ready(r) => (regs, Some(r)),
        Poll::Pending(action, op) => if fuel == 0 {
            (regs, None)
        } else {
            let (regs1, reply) = answer_regs(regs, action);
            let (s1, poll1) = thread_next(s, op, reply);
            thread_run(s1, poll1, regs1, (fuel - 1) as nat)
        },
    }
}

/// A thread's registers with a slot switched, on both sides.
pub open spec fn switched(regs: Regs, dbg_reg: Seq<usize>, info: HwbpInfo, enable: bool) -> Regs {
    Regs {
        cx: hwbp_context(regs.cx, dbg_reg, info, enable),
        cx32: match regs.cx32 {
            Some(cx32) => Some(hwbp_context(cx32, dbg_reg, info, enable)),
            None => None,
        },
    }
}

/// Switching a slot in a thread switches it on both sides of the thread.
pub proof fn lemma_thread_switched(
    s: AdaptorState,
    handle: usize,
    info: HwbpInfo,
    enable: bool,
    regs: Regs,
)
    ensures
        thread_run(s, thread_start(handle, info, enable), regs, 6) == (
            switched(regs, s.dbg_reg, info, enable),
            Some(Ok::<bool, UDbgError>(enable)),
        ),
{
    reveal_with_fuel(thread_run, 7);
}

/// Switching a free slot on and off again leaves a thread's registers as they
/// were, where exact breakpoints were on just when some slot was.
pub proof fn lemma_thread_round_trip(
    s: AdaptorState,
    handle: usize,
    info: HwbpInfo,
    regs: Regs,
)
    requires
        info.index < 4,
        info.rw <= 3,
        info.len <= 3,
        slot_clear(regs.cx, info.index as usize),
        has_bit(regs.cx.dr7, L_ENABLE) == !regs.cx.no_slot(),
        regs.cx32 matches Some(cx32) ==> slot_clear32(cx32, info.index as usize) && has_bit32(
            cx32.dr7,
            L_ENABLE,
        ) == !cx32.no_slot(),
    ensures
        ({
            let on = thread_run(s, thread_start(handle, info, true), regs, 6).0;
            thread_run(s, thread_start(handle, info, false), on, 6).0 == regs
        }),
{
    let on = thread_run(s, thread_start(handle, info, true), regs, 6).0;
    lemma_thread_switched(s, handle, info, true, regs);
    lemma_thread_switched(s, handle, info, false, on);
    let address = s.dbg_reg[info.index as int];
    lemma_set_unset(regs.cx, address, info.index as usize, info.rw, info.len);
    if let Some(cx32) = regs.cx32 {
        lemma_set_unset32(cx32, address, info.index as usize, info.rw, info.len);
    }
}

/// The threads of a target: those the walk has still to come to, and the registers
/// of all of them by handle. A thread's handle is its number.
pub struct Threads {
    pub left: Seq<Tid>,
    pub regs: Map<usize, Regs>,
}

/// What the host does to the threads, and what it answers.
pub open spec fn answer_threads(threads: Threads, action: Action) -> (Threads, Reply) {
    match action {
        Action::FirstThread | Action::NextThread => if threads.left.len() == 0 {
            (threads, Reply::Done)
        } else {
            (
                Threads { left: threads.left.skip(1), ..threads },
                Reply::Thread(threads.left[0]),
            )
        },
        Action::OpenThread { tid } => (threads, Reply::Handle(tid as usize)),
        Action::GetDebugRegs { handle } | Action::GetDebugRegs32 { handle } => (
            threads,
            answer_regs(threads.regs[handle], action).1,
        ),
        Action::SetDebugRegs { handle, .. } | Action::SetDebugRegs32 { handle, .. } => {
            let (regs, reply) = answer_regs(threads.regs[handle], action);
            (Threads { regs: threads.regs.insert(handle, regs), ..threads }, reply)
        },
        _ => (threads, Reply::Done),
    }
}

/// Switching a breakpoint with that host.
pub open spec fn enable_run(s: AdaptorState, poll: EnablePoll, threads: Threads, fuel: nat) -> (
    AdaptorState,
    Threads,
    Option<UDbgResult<bool>>,
)
    decreases fuel,
{
    match poll {
        Poll::Ready(r) => (s, threads, Some(r)),
        Poll::Pending(action, op) => if fuel == 0 {
            (s, threads, None)
        } else {
            let (threads1, reply) = answer_threads(threads, action);
            let (s1, poll1) = enable_next(s, op, reply);
            enable_run(s1, poll1, threads1, (fuel - 1) as nat)
        },
    }
}

/// Whether a breakpoint is to be set in a thread.
pub open spec fn is_meant(s: AdaptorState, bp: BpHandle, tid: Tid) -> bool {
    !s.protected.contains(tid) && (s.bps[bp as int].hit_tid matches Some(t) ==> t == tid)
}

/// The walk at the point where it asks for a thread.
pub open spec fn asks_thread(action: Action, op: EnableOp, info: HwbpInfo) -> bool {
    &&& action is FirstThread || action is NextThread
    &&& op.stage == (EnableStage::Hard { info, at: HardStage::Next })
    &&& op.result == Ok::<bool, UDbgError>(op.enable)
}

/// The registers of all threads with a slot switched in those of a list that the
/// breakpoint is meant for.
pub open spec fn switched_in(
    s: AdaptorState,
    op: EnableOp,
    info: HwbpInfo,
    regs: Map<usize, Regs>,
    list: Seq<Tid>,
) -> Map<usize, Regs> {
    Map::new(
        |handle: usize| regs.dom().contains(handle),
        |handle: usize|
            if handle <= u32::MAX && list.contains(handle as Tid) && is_meant(
                s,
                op.bp,
                handle as Tid,
            ) {
                switched(regs[handle], s.dbg_reg, info, op.enable)
            } else {
                regs[handle]
            },
    )
}

/// The session, the threads and what is waited for after one answer.
pub open spec fn enable_step(s: AdaptorState, action: Action, op: EnableOp, threads: Threads) -> (
    AdaptorState,
    Threads,
    EnablePoll,
) {
    let (threads1, reply) = answer_threads(threads, action);
    let (s1, poll1) = enable_next(s, op, reply);
    (s1, threads1, poll1)
}

proof fn lemma_run_step(
    s: AdaptorState,
    action: Action,
    op: EnableOp,
    threads: Threads,
    fuel: nat,
)
    requires
        fuel > 0,
    ensures
        ({
            let (s1, threads1, poll1) = enable_step(s, action, op, threads);
            enable_run(s, Poll::Pending(action, op), threads, fuel) == enable_run(
                s1,
                poll1,
                threads1,
                (fuel - 1) as nat,
            )
        }),
{
}

/// The walk in the middle of a thread.
pub open spec fn in_thread(
    op: EnableOp,
    info: HwbpInfo,
    tid: Tid,
    stage: ThreadStage,
) -> EnableOp {
    let t = ThreadOp { handle: tid as usize, info, enable: op.enable, result: op.result, stage };
    enable_at(op, info, HardStage::Thread { tid, op: t })
}

/// The walk from a thread it comes to up to the writing of its registers.
proof fn lemma_to_write(
    s: AdaptorState,
    action: Action,
    op: EnableOp,
    info: HwbpInfo,
    threads: Threads,
    fuel: nat,
)
    requires
        asks_thread(action, op, info),
        threads.left.len() > 0,
        is_meant(s, op.bp, threads.left[0]),
        fuel >= 4,
    ensures
        ({
            let tid = threads.left[0];
            let h = tid as usize;
            enable_run(s, Poll::Pending(action, op), threads, fuel) == enable_run(
                s,
                Poll::Pending(
                    Action::SetDebugRegs {
                        handle: h,
                        cx: hwbp_context(threads.regs[h].cx, s.dbg_reg, info, op.enable),
                    },
                    in_thread(op, info, tid, ThreadStage::Write),
                ),
                Threads { left: threads.left.skip(1), ..threads },
                (fuel - 4) as nat,
            )
        }),
{
    reveal(enable_next);
    let tid = threads.left[0];
    let h = tid as usize;
    let on = Threads { left: threads.left.skip(1), ..threads };
    let open = enable_at(op, info, HardStage::Open { tid });
    lemma_run_step(s, action, op, threads, fuel);
    lemma_run_step(s, Action::OpenThread { tid }, open, on, (fuel - 1) as nat);
    lemma_run_step(
        s,
        Action::Suspend { handle: h },
        in_thread(op, info, tid, ThreadStage::Suspend),
        on,
        (fuel - 2) as nat,
    );
    lemma_run_step(
        s,
        Action::GetDebugRegs { handle: h },
        in_thread(op, info, tid, ThreadStage::Read),
        on,
        (fuel - 3) as nat,
    );
}

/// The walk from the writing of a thread's registers on: those of its 32-bit side
/// follow, if it has one, and the walk asks for the next thread.
proof fn lemma_from_write(
    s: AdaptorState,
    op: EnableOp,
    info: HwbpInfo,
    tid: Tid,
    cx: Context64,
    threads: Threads,
    fuel: nat,
)
    requires
        asks_thread(Action::NextThread, op, info),
        fuel >= 4,
    ensures
        ({
            let h = tid as usize;
            let regs = threads.regs[h];
            let used: nat = if regs.cx32 is Some {
                4
            } else {
                3
            };
            let new = Regs {
                cx,
                cx32: match regs.cx32 {
                    Some(cx32) => Some(hwbp_context(cx32, s.dbg_reg, info, op.enable)),
                    None => None,
                },
            };
            enable_run(
                s,
                Poll::Pending(
                    Action::SetDebugRegs { handle: h, cx },
                    in_thread(op, info, tid, ThreadStage::Write),
                ),
                threads,
                fuel,
            ) == enable_run(
                s,
                Poll::Pending(Action::NextThread, op),
                Threads { regs: threads.regs.insert(h, new), ..threads },
                (fuel - used) as nat,
            )
        }),
{
    reveal(enable_next);
    let h = tid as usize;
    let regs = threads.regs[h];
    let one = Threads { regs: threads.regs.insert(h, Regs { cx, ..regs }), ..threads };
    lemma_run_step(
        s,
        Action::SetDebugRegs { handle: h, cx },
        in_thread(op, info, tid, ThreadStage::Write),
        threads,
        fuel,
    );
    lemma_run_step(
        s,
        Action::GetDebugRegs32 { handle: h },
        in_thread(op, info, tid, ThreadStage::Read32),
        one,
        (fuel - 1) as nat,
    );
    let resume = Action::Resume { handle: h };
    let last = in_thread(op, info, tid, ThreadStage::Resume);
    match regs.cx32 {
        Some(cx32) => {
            let new32 = hwbp_context(cx32, s.dbg_reg, info, op.enable);
            let both = Regs { cx, cx32: Some(new32) };
            let two = Threads { regs: threads.regs.insert(h, both), ..threads };
            assert(one.regs.insert(h, both) =~= two.regs);
            lemma_run_step(
                s,
                Action::SetDebugRegs32 { handle: h, cx32: new32 },
                in_thread(op, info, tid, ThreadStage::Write32),
                one,
                (fuel - 2) as nat,
            );
            lemma_run_step(s, resume, last, two, (fuel - 3) as nat);
        },
        None => {
            lemma_run_step(s, resume, last, one, (fuel - 2) as nat);
        },
    }
}

/// One thread of the walk: its registers are switched if it is meant, and the walk
/// asks for the next.
proof fn lemma_one_thread(
    s: AdaptorState,
    action: Action,
    op: EnableOp,
    info: HwbpInfo,
    threads: Threads,
    fuel: nat,
)
    requires
        asks_thread(action, op, info),
        threads.left.len() > 0,
        threads.regs.dom().contains(threads.left[0] as usize),
        fuel >= 8,
    ensures
        ({
            let tid = threads.left[0];
            let h = tid as usize;
            let after = Threads {
                left: threads.left.skip(1),
                regs: if is_meant(s, op.bp, tid) {
                    threads.regs.insert(h, switched(threads.regs[h], s.dbg_reg, info, op.enable))
                } else {
                    threads.regs
                },
            };
            let used: nat = if !is_meant(s, op.bp, tid) {
                1
            } else if threads.regs[h].cx32 is Some {
                8
            } else {
                7
            };
            enable_run(s, Poll::Pending(action, op), threads, fuel) == enable_run(
                s,
                Poll::Pending(Action::NextThread, op),
                after,
                (fuel - used) as nat,
            )
        }),
{
    let tid = threads.left[0];
    let h = tid as usize;
    if is_meant(s, op.bp, tid) {
        let on = Threads { left: threads.left.skip(1), ..threads };
        let cx = hwbp_context(threads.regs[h].cx, s.dbg_reg, info, op.enable);
        lemma_to_write(s, action, op, info, threads, fuel);
        lemma_from_write(s, op, info, tid, cx, on, (fuel - 4) as nat);
    } else {
        reveal(enable_next);
        lemma_run_step(s, action, op, threads, fuel);
    }
}

proof fn lemma_walk(
    s: AdaptorState,
    action: Action,
    op: EnableOp,
    info: HwbpInfo,
    threads: Threads,
    fuel: nat,
)
    requires
        asks_thread(action, op, info),
        threads.left.no_duplicates(),
        forall|i: int|
            0 <= i < threads.left.len() ==> threads.regs.dom().contains(
                (#[trigger] threads.left[i]) as usize,
            ),
        fuel > 8 * threads.left.len(),
    ensures
        enable_run(s, Poll::Pending(action, op), threads, fuel) == (
            enable_walked(s, op, info).0,
            Threads {
                left: Seq::<Tid>::empty(),
                regs: switched_in(s, op, info, threads.regs, threads.left),
            },
            Some(Ok::<bool, UDbgError>(op.enable)),
        ),
    decreases threads.left.len(),
{
    let regs = threads.regs;
    let left = threads.left;
    let all = switched_in(s, op, info, regs, left);
    if left.len() == 0 {
        reveal(enable_next);
        reveal_with_fuel(enable_run, 2);
        assert(left =~= Seq::<Tid>::empty());
        assert(all =~= regs);
    } else {
        let tid = left[0];
        let h = tid as usize;
        lemma_one_thread(s, action, op, info, threads, fuel);
        let regs1 = if is_meant(s, op.bp, tid) {
            regs.insert(h, switched(regs[h], s.dbg_reg, info, op.enable))
        } else {
            regs
        };
        let used: nat = if !is_meant(s, op.bp, tid) {
            1
        } else if regs[h].cx32 is Some {
            8
        } else {
            7
        };
        let rest = left.skip(1);
        let after = Threads { left: rest, regs: regs1 };
        assert forall|i: int| 0 <= i < rest.len() implies regs1.dom().contains(
            (#[trigger] rest[i]) as usize,
        ) by {
            assert(rest[i] == left[i + 1]);
        }
        assert(rest.no_duplicates()) by {
            assert forall|i: int, j: int|
                0 <= i < rest.len() && 0 <= j < rest.len() && i != j implies rest[i] != rest[j] by {
                assert(left[i + 1] != left[j + 1]);
            }
        }
        lemma_walk(s, Action::NextThread, op, info, after, (fuel - used) as nat);
        assert(!rest.contains(tid)) by {
            if rest.contains(tid) {
                let k = choose|k: int| 0 <= k < rest.len() && rest[k] == tid;
                assert(left[k + 1] == left[0]);
            }
        }
        assert forall|t: Tid| #[trigger] left.contains(t) <==> t == tid || rest.contains(t) by {
            if rest.contains(t) {
                let k = choose|k: int| 0 <= k < rest.len() && rest[k] == t;
                assert(left[k + 1] == t);
            }
            if left.contains(t) && t != tid {
                let k = choose|k: int| 0 <= k < left.len() && left[k] == t;
                assert(rest[k - 1] == t);
            }
        }
        assert(switched_in(s, op, info, regs1, rest) =~= all);
    }
}

/// Switching a slot switches it in every thread of the target that the breakpoint
/// is meant for, on both sides of it, and in no other; and the breakpoint is then
/// on or off as was asked.
pub proof fn lemma_switched_everywhere(
    s: AdaptorState,
    bp: BpHandle,
    info: HwbpInfo,
    enable: bool,
    threads: Threads,
    fuel: nat,
)
    requires
        s.wf(),
        bp < s.bps.len(),
        s.bps[bp as int].bp_type == InnerBpType::Hard(info),
        threads.left.no_duplicates(),
        forall|i: int|
            0 <= i < threads.left.len() ==> threads.regs.dom().contains(
                (#[trigger] threads.left[i]) as usize,
            ),
        fuel > 8 * threads.left.len(),
    ensures
        ({
            let (s1, after, r) = enable_run(s, enable_start(s, bp, enable), threads, fuel);
            &&& r == Some(Ok::<bool, UDbgError>(enable))
            &&& s1.bps[bp as int].enabled == enable
            &&& s1.bps == s.bps.update(bp as int, Breakpoint { enabled: enable, ..s.bps[bp as int] })
            &&& s1.bp_map == s.bp_map
            &&& s1.dbg_reg == s.dbg_reg
            &&& ({
                let at_hand = s.bps[bp as int].hit_tid matches Some(t) ==> t == s.base.event_tid;
                &&& s1.cx == (if s.has_cx && at_hand {
                    hwbp_context(s.cx, s.dbg_reg, info, enable)
                } else {
                    s.cx
                })
                &&& s1.cx32 == (if s.has_cx32 && at_hand {
                    hwbp_context(s.cx32, s.dbg_reg, info, enable)
                } else {
                    s.cx32
                })
            })
            &&& after.regs.dom() == threads.regs.dom()
            &&& forall|i: int|
                0 <= i < threads.left.len() ==> {
                    let tid = #[trigger] threads.left[i];
                    after.regs[tid as usize] == (if is_meant(s, bp, tid) {
                        switched(threads.regs[tid as usize], s.dbg_reg, info, enable)
                    } else {
                        threads.regs[tid as usize]
                    })
                }
            &&& forall|handle: usize|
                threads.regs.dom().contains(handle) && !(handle <= u32::MAX
                    && threads.left.contains(handle as Tid)) ==> #[trigger] after.regs[handle]
                    == threads.regs[handle]
        }),
{
    let op = enable_start(s, bp, enable)->Pending_1;
    lemma_walk(s, Action::FirstThread, op, info, threads, fuel);
    let (s1, after, r) = enable_run(s, enable_start(s, bp, enable), threads, fuel);
    assert(after.regs.dom() =~= threads.regs.dom());
    assert forall|i: int| 0 <= i < threads.left.len() implies {
        let tid = #[trigger] threads.left[i];
        after.regs[tid as usize] == (if is_meant(s, bp, tid) {
            switched(threads.regs[tid as usize], s.dbg_reg, info, enable)
        } else {
            threads.regs[tid as usize]
        })
    } by {
        let tid = threads.left[i];
        assert(threads.left.contains(tid));
        assert((tid as usize) as Tid == tid);
    }
}

/// A pointer that is redirected and put back leaves the memory and the table as
/// they were.
pub proof fn lemma_pointer_round_trip(s: AdaptorState, opt: BpOpt, mem: Memory)
    requires
        s.wf(),
        s.bps.len() < usize::MAX,
        s.base.status != UDbgStatus::Opened,
        !s.bp_map.dom().contains(id_of(opt.address)),
        opt.rw is None,
        opt.table,
        opt.enable,
        mem.words.dom().contains(opt.address),
        crate::adaptor::table_index(s.bp_map) is Some,
    ensures
        ({
            let index = crate::adaptor::table_index(s.bp_map).unwrap();
            let bp = s.bps.len() as usize;
            let (s0, poll) = add_start(s, opt);
            let (s1, mem1, r) = add_run(s0, poll, mem, 2);
            let (s2, poll2) = remove_start(s1, bp);
            let (s3, mem3, done) = remove_run(s2, poll2, mem1, 1);
            &&& r == Some(Ok::<BpHandle, UDbgError>(bp))
            &&& s1.bps[bp as int].enabled
            &&& mem1 == (Memory { words: mem.words.insert(opt.address, index as usize), ..mem })
            &&& done
            &&& mem3 == mem
            &&& s3.bp_map == s.bp_map
            &&& s3.dbg_reg == s.dbg_reg
        }),
{
    reveal(enable_next);
    reveal(remove_next);
    let index = crate::adaptor::table_index(s.bp_map).unwrap();
    let i = choose|id: crate::types::BpID| crate::adaptor::is_table_index(s.bp_map, id);
    assert(crate::adaptor::is_table_index(s.bp_map, i));
    let bp = s.bps.len() as usize;
    let (s0, poll0) = add_start(s, opt);
    let (mem1, r0) = answer(mem, poll0->Pending_0);
    let (s1, poll1) = add_next(s0, poll0->Pending_1, r0);
    let (mem2, r1) = answer(mem1, poll1->Pending_0);
    let (s2, poll2) = add_next(s1, poll1->Pending_1, r1);
    assert(add_run(s2, poll2, mem2, 0) == (s2, mem2, Some(Ok::<BpHandle, UDbgError>(bp))));
    assert(add_run(s1, poll1, mem1, 1) == add_run(s2, poll2, mem2, 0));
    assert(add_run(s0, poll0, mem, 2) == add_run(s1, poll1, mem1, 1));
    assert(s2.bps[bp as int].bp_type == (InnerBpType::Table {
        index,
        origin: mem.words[opt.address],
    }));
    let (s3, poll3) = remove_start(s2, bp);
    let (mem4, r3) = answer(mem2, poll3->Pending_0);
    let (s4, poll4) = remove_next(s3, poll3->Pending_1, r3);
    assert(remove_run(s4, poll4, mem4, 0) == (s4, mem4, true));
    assert(remove_run(s3, poll3, mem2, 1) == remove_run(s4, poll4, mem4, 0));
    assert(mem4.words =~= mem.words);
    assert(s4.bp_map =~= s.bp_map);
}

} // verus!
