//! Adding and removing breakpoints.
use vstd::prelude::*;

use crate::adaptor::{
    free_slot, lemma_fits, slot_id, table_index, AdaptorState, CommonAdaptor, store_grows, table_wf,
};
use crate::bp_laws::{lemma_add_keeps, lemma_add_starts, lemma_remove_keeps};
use crate::enable::{enable_next, enable_start, lemma_enable_keeps, EnableOp, EnablePoll};
use crate::io::{Action, Doing, Poll, Reply};
use crate::types::{
    id_of, BpHandle, BpID, BpOpt, Breakpoint, HwbpInfo, HwbpLen, HwbpType, InnerBpType, Reason,
    UDbgError, UDbgResult, UDbgStatus,
};

verus! {

broadcast use vstd::std_specs::hash::group_hash_axioms;

/// The action whose answer a new trap instruction waits for.
#[derive(Clone, Copy, Debug)]
pub enum Int3Stage {
    Read,
    Enable { bp: BpHandle, op: EnableOp },
}

/// Adding a trap instruction.
#[derive(Clone, Copy, Debug)]
pub struct Int3Op {
    pub opt: BpOpt,
    pub stage: Int3Stage,
}

/// The action whose answer a new breakpoint waits for.
#[derive(Clone, Copy, Debug)]
pub enum AddStage {
    Origin,
    Int3(Int3Op),
    Enable { bp: BpHandle, op: EnableOp },
}

/// Adding a breakpoint.
#[derive(Clone, Copy, Debug)]
pub struct AddOp {
    pub opt: BpOpt,
    pub stage: AddStage,
}

/// Removing a breakpoint: it waits for being switched off.
#[derive(Clone, Copy, Debug)]
pub struct RemoveOp {
    pub bp: BpHandle,
    pub op: EnableOp,
}

pub type Int3Poll = Poll<Int3Op, UDbgResult<BpHandle>>;

pub type AddPoll = Poll<AddOp, UDbgResult<BpHandle>>;

pub type RemovePoll = Poll<RemoveOp, ()>;

impl Int3Op {
    pub open spec fn wf(self, s: AdaptorState) -> bool {
        self.stage matches Int3Stage::Enable { bp, op } ==> {
            &&& op.wf(s)
            &&& op.bp == bp
            &&& s.bps[bp as int].address == self.opt.address
        }
    }
}

impl AddOp {
    pub open spec fn wf(self, s: AdaptorState) -> bool {
        match self.stage {
            AddStage::Origin => true,
            AddStage::Int3(op) => op.wf(s) && op.opt == self.opt,
            AddStage::Enable { bp, op } => op.wf(s) && op.bp == bp,
        }
    }
}

impl RemoveOp {
    pub open spec fn wf(self, s: AdaptorState) -> bool {
        self.op.wf(s) && self.op.bp == self.bp
    }
}

/// A breakpoint that has not been switched on or met yet.
pub open spec fn new_bp(opt: BpOpt, bp_type: InnerBpType) -> Breakpoint {
    Breakpoint {
        address: opt.address,
        enabled: false,
        temp: opt.temp,
        hit_tid: opt.tid,
        hit_count: 0,
        bp_type,
    }
}

/// What a slot is to watch.
pub open spec fn hwbp_info(rw: HwbpType, len: Option<HwbpLen>, index: usize) -> HwbpInfo {
    HwbpInfo {
        index: index as u8,
        rw: rw.bits(),
        len: match len {
            Some(len) => len.bits(),
            None => HwbpLen::L1.bits(),
        },
    }
}

/// Starts to add a trap instruction by reading the byte it goes over.
pub open spec fn int3_start(opt: BpOpt) -> Int3Poll {
    Poll::Pending(
        Action::ReadInsn { address: opt.address },
        Int3Op { opt, stage: Int3Stage::Read },
    )
}

/// Goes on as the switching of the new trap instruction does. It is in force
/// once it is on.
pub open spec fn int3_enabled(s: AdaptorState, opt: BpOpt, bp: BpHandle, poll: EnablePoll) -> (
    AdaptorState,
    Int3Poll,
) {
    match poll {
        Poll::Pending(action, op) => (
            s,
            Poll::Pending(action, Int3Op { opt, stage: Int3Stage::Enable { bp, op } }),
        ),
        Poll::Ready(Ok(_)) => (s.insert(id_of(opt.address), bp), Poll::Ready(Ok(bp))),
        Poll::Ready(Err(e)) => (s, Poll::Ready(Err(e))),
    }
}

/// Goes on adding a trap instruction.
#[verifier::opaque]
pub open spec fn int3_next(s: AdaptorState, op: Int3Op, reply: Reply) -> (AdaptorState, Int3Poll) {
    let opt = op.opt;
    match op.stage {
        Int3Stage::Read => match reply.byte() {
            Some(raw_byte) => {
                let bp = s.bps.len() as usize;
                let s1 = s.store(new_bp(opt, InnerBpType::Soft(raw_byte)));
                if opt.enable {
                    int3_enabled(s1, opt, bp, enable_start(s1, bp, true))
                } else {
                    (s1.insert(id_of(opt.address), bp), Poll::Ready(Ok(bp)))
                }
            },
            None => (s, Poll::Ready(Err(UDbgError::InvalidAddress))),
        },
        Int3Stage::Enable { bp, op: o } => {
            let (s1, poll) = enable_next(s, o, reply);
            int3_enabled(s1, opt, bp, poll)
        },
    }
}

/// Goes on as the switching of the new breakpoint does; a failure of it is only shown.
pub open spec fn add_enabled(s: AdaptorState, opt: BpOpt, bp: BpHandle, poll: EnablePoll) -> (
    AdaptorState,
    AddPoll,
) {
    match poll {
        Poll::Pending(action, op) => (
            s,
            Poll::Pending(action, AddOp { opt, stage: AddStage::Enable { bp, op } }),
        ),
        Poll::Ready(r) => (s.check_result(Doing::EnableAdded, r), Poll::Ready(Ok(bp))),
    }
}

/// Puts a new breakpoint in force under its own number, and switches it on if asked to.
pub open spec fn add_finish(s: AdaptorState, opt: BpOpt, bp: BpHandle) -> (AdaptorState, AddPoll) {
    let s1 = s.insert(id_of(opt.address), bp);
    if opt.enable {
        add_enabled(s1, opt, bp, enable_start(s1, bp, true))
    } else {
        (s1, Poll::Ready(Ok(bp)))
    }
}

/// The session with a new breakpoint in a slot, also under the slot's number.
pub open spec fn add_hard(s: AdaptorState, opt: BpOpt, rw: HwbpType, index: usize) -> AdaptorState {
    s.store(new_bp(opt, InnerBpType::Hard(hwbp_info(rw, opt.len, index)))).occupy(
        index as int,
        opt.address,
    ).insert(slot_id(index as int), s.bps.len() as usize)
}

/// The session with a new redirected pointer, also under the number it holds.
pub open spec fn add_table(s: AdaptorState, opt: BpOpt, index: BpID, origin: usize) -> AdaptorState {
    s.store(new_bp(opt, InnerBpType::Table { index, origin })).insert(index, s.bps.len() as usize)
}

/// Starts to add a breakpoint.
pub open spec fn add_start(s: AdaptorState, opt: BpOpt) -> (AdaptorState, AddPoll) {
    if s.base.status == UDbgStatus::Opened {
        (s, Poll::Ready(Err(UDbgError::NotSupport)))
    } else if s.bp_map.dom().contains(id_of(opt.address)) {
        (s, Poll::Ready(Err(UDbgError::BpExists)))
    } else {
        match opt.rw {
            Some(rw) => match free_slot(s.dbg_reg) {
                Some(index) => add_finish(
                    add_hard(s, opt, rw, index),
                    opt,
                    s.bps.len() as usize,
                ),
                None => (s, Poll::Ready(Err(UDbgError::HWBPSlotMiss))),
            },
            None => if opt.table {
                (
                    s,
                    Poll::Pending(
                        Action::ReadPtr { address: opt.address },
                        AddOp { opt, stage: AddStage::Origin },
                    ),
                )
            } else {
                add_trapped(s, opt, int3_start(opt))
            },
        }
    }
}

/// Goes on as the adding of the trap instruction does.
pub open spec fn add_trapped(s: AdaptorState, opt: BpOpt, poll: Int3Poll) -> (
    AdaptorState,
    AddPoll,
) {
    match poll {
        Poll::Pending(action, op) => (
            s,
            Poll::Pending(action, AddOp { opt, stage: AddStage::Int3(op) }),
        ),
        Poll::Ready(Ok(bp)) => add_finish(s, opt, bp),
        Poll::Ready(Err(e)) => (s, Poll::Ready(Err(e))),
    }
}

/// Goes on adding a breakpoint.
pub open spec fn add_next(s: AdaptorState, op: AddOp, reply: Reply) -> (AdaptorState, AddPoll) {
    let opt = op.opt;
    match op.stage {
        AddStage::Origin => match reply.word() {
            None => (s, Poll::Ready(Err(UDbgError::Text(Reason::ReadOrigin)))),
            Some(origin) => match table_index(s.bp_map) {
                None => (s, Poll::Ready(Err(UDbgError::Text(Reason::NoTableIndex)))),
                Some(index) => add_finish(
                    add_table(s, opt, index, origin),
                    opt,
                    s.bps.len() as usize,
                ),
            },
        },
        AddStage::Int3(o) => {
            let (s1, poll) = int3_next(s, o, reply);
            add_trapped(s1, opt, poll)
        },
        AddStage::Enable { bp, op: o } => {
            let (s1, poll) = enable_next(s, o, reply);
            add_enabled(s1, opt, bp, poll)
        },
    }
}

/// The session with a breakpoint taken out of force: its own number, and with
/// it the slot or the table number it held.
pub open spec fn unlist(s: AdaptorState, bp: BpHandle) -> AdaptorState {
    let b = s.bps[bp as int];
    let id = id_of(b.address);
    let s1 = s.forget(id);
    if s.bp_map.dom().contains(id) {
        match b.bp_type {
            InnerBpType::Hard(info) => s1.occupy(info.index as int, 0).forget(
                slot_id(info.index as int),
            ),
            InnerBpType::Table { index, .. } => s1.forget(index),
            InnerBpType::Soft(_) => s1,
        }
    } else {
        s1
    }
}

/// Goes on as the switching off does; a failure of it is only shown.
pub open spec fn remove_disabled(s: AdaptorState, bp: BpHandle, poll: EnablePoll) -> (
    AdaptorState,
    RemovePoll,
) {
    match poll {
        Poll::Pending(action, op) => (s, Poll::Pending(action, RemoveOp { bp, op })),
        Poll::Ready(r) => (
            unlist(s.check_result(Doing::DisableRemoved, r), bp),
            Poll::Ready(()),
        ),
    }
}

/// Starts to remove a breakpoint by switching it off.
pub open spec fn remove_start(s: AdaptorState, bp: BpHandle) -> (AdaptorState, RemovePoll) {
    remove_disabled(s, bp, enable_start(s, bp, false))
}

/// Goes on removing a breakpoint.
#[verifier::opaque]
pub open spec fn remove_next(s: AdaptorState, op: RemoveOp, reply: Reply) -> (
    AdaptorState,
    RemovePoll,
) {
    let (s1, poll) = enable_next(s, op.op, reply);
    remove_disabled(s1, op.bp, poll)
}

/// A breakpoint that has not been switched on or met yet.
fn make_bp(opt: BpOpt, bp_type: InnerBpType) -> (bp: Breakpoint)
    ensures
        bp == new_bp(opt, bp_type),
{
    Breakpoint {
        address: opt.address,
        enabled: false,
        temp: opt.temp,
        hit_tid: opt.tid,
        hit_count: 0,
        bp_type,
    }
}

impl CommonAdaptor {
    /// Starts to add a trap instruction.
    pub fn add_int3_bp(opt: BpOpt) -> (r: Int3Poll)
        ensures
            r == int3_start(opt),
    {
        Poll::Pending(
            Action::ReadInsn { address: opt.address },
            Int3Op { opt, stage: Int3Stage::Read },
        )
    }

    fn int3_enabled(&mut self, opt: BpOpt, bp: BpHandle, poll: EnablePoll) -> (r: Int3Poll)
        ensures
            final(self)@ == int3_enabled(old(self)@, opt, bp, poll).0,
            r == int3_enabled(old(self)@, opt, bp, poll).1,
    {
        match poll {
            Poll::Pending(action, op) => Poll::Pending(
                action,
                Int3Op { opt, stage: Int3Stage::Enable { bp, op } },
            ),
            Poll::Ready(Ok(_)) => {
                self.insert(opt.address as isize, bp);
                Poll::Ready(Ok(bp))
            },
            Poll::Ready(Err(e)) => Poll::Ready(Err(e)),
        }
    }

    /// Goes on adding a trap instruction.
    pub fn resume_int3_bp(&mut self, op: Int3Op, reply: Reply) -> (r: Int3Poll)
        requires
            old(self)@.wf(),
            op.wf(old(self)@),
        ensures
            final(self)@ == int3_next(old(self)@, op, reply).0,
            r == int3_next(old(self)@, op, reply).1,
            final(self)@.wf(),
            old(self)@.grows_to(final(self)@),
            r matches Poll::Pending(_, o) ==> o.wf(final(self)@),
    {
        proof {
            reveal(table_wf);
            reveal(int3_next);
        }
        let ghost s = self@;
        let opt = op.opt;
        let r = match op.stage {
            Int3Stage::Read => match reply.byte() {
                Some(raw_byte) => {
                    let bp: usize = self.store(make_bp(opt, InnerBpType::Soft(raw_byte)));
                    if opt.enable {
                        let poll = self.enable_breadpoint(bp, true);
                        self.int3_enabled(opt, bp, poll)
                    } else {
                        self.insert(opt.address as isize, bp);
                        Poll::Ready(Ok(bp))
                    }
                },
                None => Poll::Ready(Err(UDbgError::InvalidAddress)),
            },
            Int3Stage::Enable { bp, op: o } => {
                let poll = self.resume_breadpoint(o, reply);
                self.int3_enabled(opt, bp, poll)
            },
        };
        proof {
            lemma_fits(self);
            lemma_int3_keeps(s, op, reply);
        }
        r
    }

    fn add_enabled(&mut self, opt: BpOpt, bp: BpHandle, poll: EnablePoll) -> (r: AddPoll)
        ensures
            final(self)@ == add_enabled(old(self)@, opt, bp, poll).0,
            r == add_enabled(old(self)@, opt, bp, poll).1,
    {
        match poll {
            Poll::Pending(action, op) => Poll::Pending(
                action,
                AddOp { opt, stage: AddStage::Enable { bp, op } },
            ),
            Poll::Ready(r) => {
                self.check_result(Doing::EnableAdded, r);
                Poll::Ready(Ok(bp))
            },
        }
    }

    fn add_finish(&mut self, opt: BpOpt, bp: BpHandle) -> (r: AddPoll)
        requires
            old(self)@.wf(),
            bp < old(self)@.bps.len(),
            old(self)@.bps[bp as int].address == opt.address,
        ensures
            final(self)@ == add_finish(old(self)@, opt, bp).0,
            r == add_finish(old(self)@, opt, bp).1,
    {
        proof {
            reveal(table_wf);
        }
        self.insert(opt.address as isize, bp);
        if opt.enable {
            let poll = self.enable_breadpoint(bp, true);
            self.add_enabled(opt, bp, poll)
        } else {
            Poll::Ready(Ok(bp))
        }
    }

    fn add_trapped(&mut self, opt: BpOpt, poll: Int3Poll) -> (r: AddPoll)
        requires
            old(self)@.wf(),
            poll matches Poll::Ready(Ok(bp)) ==> {
                &&& bp < old(self)@.bps.len()
                &&& old(self)@.bps[bp as int].address == opt.address
            },
        ensures
            final(self)@ == add_trapped(old(self)@, opt, poll).0,
            r == add_trapped(old(self)@, opt, poll).1,
    {
        match poll {
            Poll::Pending(action, op) => Poll::Pending(
                action,
                AddOp { opt, stage: AddStage::Int3(op) },
            ),
            Poll::Ready(Ok(bp)) => self.add_finish(opt, bp),
            Poll::Ready(Err(e)) => Poll::Ready(Err(e)),
        }
    }

    /// Starts to add a breakpoint: a slot of the debug registers, a redirected
    /// pointer, or a trap instruction.
    pub fn add_bp(&mut self, opt: BpOpt) -> (r: AddPoll)
        requires
            old(self)@.wf(),
        ensures
            final(self)@ == add_start(old(self)@, opt).0,
            r == add_start(old(self)@, opt).1,
            final(self)@.wf(),
            old(self)@.grows_to(final(self)@),
            r matches Poll::Pending(_, o) ==> o.wf(final(self)@),
    {
        let ghost s = self@;
        let r = self.begin_add(opt);
        proof {
            lemma_fits(self);
            lemma_add_starts(s, opt);
        }
        r
    }

    fn begin_add(&mut self, opt: BpOpt) -> (r: AddPoll)
        requires
            old(self)@.wf(),
        ensures
            final(self)@ == add_start(old(self)@, opt).0,
            r == add_start(old(self)@, opt).1,
    {
        proof {
            reveal(table_wf);
        }
        if let Err(e) = self.base.check_opened() {
            return Poll::Ready(Err(e));
        }
        if self.bp_exists(opt.address as isize) {
            return Poll::Ready(Err(UDbgError::BpExists));
        }
        if let Some(rw) = opt.rw {
            match self.get_hwbp_index() {
                Some(index) => {
                    let len: u8 = match opt.len {
                        Some(len) => len.code(),
                        None => HwbpLen::L1.code(),
                    };
                    let info = HwbpInfo { index: index as u8, rw: rw.code(), len };
                    let bp: usize = self.store(make_bp(opt, InnerBpType::Hard(info)));
                    self.occupy_hwbp_index(index, opt.address);
                    self.insert(-(index as isize + 1), bp);
                    self.add_finish(opt, bp)
                },
                None => Poll::Ready(Err(UDbgError::HWBPSlotMiss)),
            }
        } else if opt.table {
            Poll::Pending(
                Action::ReadPtr { address: opt.address },
                AddOp { opt, stage: AddStage::Origin },
            )
        } else {
            self.add_trapped(opt, Self::add_int3_bp(opt))
        }
    }

    /// Goes on adding a breakpoint.
    pub fn resume_add_bp(&mut self, op: AddOp, reply: Reply) -> (r: AddPoll)
        requires
            old(self)@.wf(),
            op.wf(old(self)@),
        ensures
            final(self)@ == add_next(old(self)@, op, reply).0,
            r == add_next(old(self)@, op, reply).1,
            final(self)@.wf(),
            old(self)@.grows_to(final(self)@),
            r matches Poll::Pending(_, o) ==> o.wf(final(self)@),
    {
        proof {
            reveal(table_wf);
        }
        let ghost s = self@;
        let opt = op.opt;
        let r = match op.stage {
            AddStage::Origin => match reply.word() {
                None => Poll::Ready(Err(UDbgError::Text(Reason::ReadOrigin))),
                Some(origin) => match self.find_table_bp_index() {
                    None => Poll::Ready(Err(UDbgError::Text(Reason::NoTableIndex))),
                    Some(index) => {
                        let bp: usize = self.store(
                            make_bp(opt, InnerBpType::Table { index, origin }),
                        );
                        self.insert(index, bp);
                        self.add_finish(opt, bp)
                    },
                },
            },
            AddStage::Int3(o) => {
                let poll = self.resume_int3_bp(o, reply);
                proof {
                    lemma_fits(self);
                    lemma_int3_keeps(s, o, reply);
                }
                self.add_trapped(opt, poll)
            },
            AddStage::Enable { bp, op: o } => {
                let poll = self.resume_breadpoint(o, reply);
                self.add_enabled(opt, bp, poll)
            },
        };
        proof {
            lemma_fits(self);
            lemma_add_keeps(s, op, reply);
        }
        r
    }

    fn remove_disabled(&mut self, bp: BpHandle, poll: EnablePoll) -> (r: RemovePoll)
        requires
            old(self)@.wf(),
            bp < old(self)@.bps.len(),
        ensures
            final(self)@ == remove_disabled(old(self)@, bp, poll).0,
            r == remove_disabled(old(self)@, bp, poll).1,
    {
        proof {
            reveal(table_wf);
        }
        match poll {
            Poll::Pending(action, op) => Poll::Pending(action, RemoveOp { bp, op }),
            Poll::Ready(r) => {
                self.check_result(Doing::DisableRemoved, r);
                let b = self.bps[bp];
                if self.forget(b.get_id()) {
                    match b.bp_type {
                        InnerBpType::Hard(info) => {
                            self.occupy_hwbp_index(info.index as usize, 0);
                            self.forget(-(info.index as isize + 1));
                        },
                        InnerBpType::Table { index, .. } => {
                            self.forget(index);
                        },
                        InnerBpType::Soft(_) => {},
                    }
                }
                Poll::Ready(())
            },
        }
    }

    /// Starts to remove a breakpoint: it is switched off, then taken out of force.
    pub fn remove_breakpoint(&mut self, bp: BpHandle) -> (r: RemovePoll)
        requires
            old(self)@.wf(),
            bp < old(self)@.bps.len(),
        ensures
            final(self)@ == remove_start(old(self)@, bp).0,
            r == remove_start(old(self)@, bp).1,
            final(self)@ == old(self)@,
            r matches Poll::Pending(_, o) && o.wf(final(self)@),
    {
        let poll = self.enable_breadpoint(bp, false);
        self.remove_disabled(bp, poll)
    }

    /// Goes on removing a breakpoint.
    pub fn resume_remove(&mut self, op: RemoveOp, reply: Reply) -> (r: RemovePoll)
        requires
            old(self)@.wf(),
            op.wf(old(self)@),
        ensures
            final(self)@ == remove_next(old(self)@, op, reply).0,
            r == remove_next(old(self)@, op, reply).1,
            final(self)@.wf(),
            old(self)@.grows_to(final(self)@),
            r matches Poll::Pending(_, o) ==> o.wf(final(self)@),
    {
        proof {
            reveal(remove_next);
            lemma_enable_keeps(self@, op.op, reply);
            lemma_remove_keeps(self@, op, reply);
        }
        let poll = self.resume_breadpoint(op.op, reply);
        self.remove_disabled(op.bp, poll)
    }
}

/// Adding a trap instruction keeps the session in order.
pub proof fn lemma_int3_keeps(s: AdaptorState, op: Int3Op, reply: Reply)
    requires
        s.wf(),
        op.wf(s),
        int3_next(s, op, reply).0.fits(),
    ensures
        ({
            let (s1, poll) = int3_next(s, op, reply);
            &&& s1.wf()
            &&& s.grows_to(s1)
            &&& match poll {
                Poll::Pending(_, o) => o.wf(s1) && o.opt == op.opt,
                Poll::Ready(Ok(bp)) => {
                    &&& bp < s1.bps.len()
                    &&& s1.bps[bp as int].address == op.opt.address
                    &&& s1.get_bp(id_of(op.opt.address)) == Some(bp)
                },
                Poll::Ready(Err(_)) => s1.bp_map == s.bp_map,
            }
        }),
{
    reveal(table_wf);
    reveal(store_grows);
    reveal(int3_next);
    if let Int3Stage::Enable { bp, op: o } = op.stage {
        lemma_enable_keeps(s, o, reply);
    }
}

} // verus!
