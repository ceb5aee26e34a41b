//! The state of a debugging session and the table of its breakpoints.
use std::collections::{HashMap, HashSet};
use vstd::prelude::*;

use crate::io::{Doing, Report};
use crate::modules::{SymbolManager, WinModule};
use crate::regs::{with_bp, without_bp, Context32, Context64, DbgContext, HWBPRegs};
use crate::types::{
    id_of, Arch, BpHandle, BpID, Breakpoint, HwbpInfo, InnerBpType, Pid, Tid, UDbgError,
    UDbgResult, UDbgStatus,
};

verus! {

broadcast use vstd::std_specs::hash::group_hash_axioms;

/// Number of slots in the debug registers.
pub const HWBP_SLOTS: usize = 4;

/// Numbers for redirected table entries start here.
pub const TABLE_FIRST: BpID = -10000;

/// Numbers for redirected table entries end before this one.
pub const TABLE_END: BpID = -10;

/// What is known of the target as a whole.
pub struct UDbgBase {
    pub pid: Pid,
    pub image_base: usize,
    pub image_path: String,
    /// Thread of the last event.
    pub event_tid: Tid,
    /// Where that thread stood.
    pub event_pc: usize,
    pub status: UDbgStatus,
    pub arch: Arch,
    /// Whether strings the target prints are shown.
    pub show_output: bool,
}

impl UDbgBase {
    /// Whether the target is open for inspection only.
    pub fn is_opened(&self) -> (r: bool)
        ensures
            r == (self.status == UDbgStatus::Opened),
    {
        self.status == UDbgStatus::Opened
    }

    /// Whether the target is stopped at an event.
    pub fn is_paused(&self) -> (r: bool)
        ensures
            r == (self.status == UDbgStatus::Paused),
    {
        self.status == UDbgStatus::Paused
    }

    /// Refuses what needs a debugged target on one that is only open.
    pub fn check_opened(&self) -> (r: UDbgResult<()>)
        ensures
            r == (if self.status == UDbgStatus::Opened {
                Err::<(), UDbgError>(UDbgError::NotSupport)
            } else {
                Ok(())
            }),
    {
        if self.is_opened() {
            Err(UDbgError::NotSupport)
        } else {
            Ok(())
        }
    }

    /// Notes the instruction set of the stopped thread.
    pub fn update_arch(&mut self, arch: Arch)
        ensures
            *final(self) == (UDbgBase { arch, ..*old(self) }),
    {
        self.arch = arch;
    }
}

/// The target process.
#[derive(Clone, Copy, Debug, PartialEq, Eq, Structural)]
pub struct Process {
    pub pid: Pid,
    pub handle: usize,
}

/// The state of a session, whatever drives it.
pub struct CommonAdaptor {
    pub base: UDbgBase,
    /// Threads marked to run on.
    pub tid_to_run: HashSet<Tid>,
    /// Addresses the slots watch; zero where a slot is free.
    pub dbg_reg: [usize; 4],
    pub symgr: SymbolManager,
    /// Threads whose debug registers are left alone.
    pub protected_thread: Vec<Tid>,
    pub process: Process,
    /// Every breakpoint ever added, also those no longer in the table.
    pub bps: Vec<Breakpoint>,
    /// Breakpoints in force, by number.
    pub bp_map: HashMap<BpID, BpHandle>,
    /// Registers of the stopped thread.
    pub cx: Context64,
    /// Registers of its 32-bit side.
    pub cx32: Context32,
    /// Whether `cx` is to be written back.
    pub has_cx: bool,
    /// Whether `cx32` is to be written back.
    pub has_cx32: bool,
    /// Thread that was asked to step, or zero.
    pub step_tid: Tid,
    pub show_debug_string: bool,
    pub uspy_tid: Tid,
    /// What is still to be shown to the user.
    pub reports: Vec<Report>,
}

/// The session in terms of mathematics.
pub struct AdaptorState {
    pub base: UDbgBase,
    pub tid_to_run: Set<Tid>,
    pub dbg_reg: Seq<usize>,
    pub wow64: bool,
    pub symbol_cache: String,
    pub modules: Seq<WinModule>,
    pub protected: Seq<Tid>,
    pub process: Process,
    pub bps: Seq<Breakpoint>,
    pub bp_map: Map<BpID, BpHandle>,
    pub cx: Context64,
    pub cx32: Context32,
    pub has_cx: bool,
    pub has_cx32: bool,
    pub step_tid: Tid,
    pub show_debug_string: bool,
    pub uspy_tid: Tid,
    pub reports: Seq<Report>,
}

/// Which of the stopped thread's two register sets an exception concerns.
#[derive(Clone, Copy, Debug, PartialEq, Eq, Structural)]
pub enum Width {
    Wide,
    Narrow,
}

/// The number of the slot, as a key of the table.
pub open spec fn slot_id(index: int) -> BpID {
    (-(index + 1)) as isize
}

/// The first free slot.
pub open spec fn free_slot(dbg_reg: Seq<usize>) -> Option<usize> {
    if dbg_reg[0] == 0 {
        Some(0)
    } else if dbg_reg[1] == 0 {
        Some(1)
    } else if dbg_reg[2] == 0 {
        Some(2)
    } else if dbg_reg[3] == 0 {
        Some(3)
    } else {
        None
    }
}

/// Whether `id` is the least number for a table entry that is not taken.
pub open spec fn is_table_index(map: Map<BpID, BpHandle>, id: BpID) -> bool {
    &&& TABLE_FIRST <= id < TABLE_END
    &&& !map.dom().contains(id)
    &&& forall|j: BpID| TABLE_FIRST <= j < id ==> map.dom().contains(j)
}

/// The least number for a table entry that is not taken.
pub open spec fn table_index(map: Map<BpID, BpHandle>) -> Option<BpID> {
    if exists|id: BpID| is_table_index(map, id) {
        Some(choose|id: BpID| is_table_index(map, id))
    } else {
        None
    }
}

/// A register set with a breakpoint's slot set to `address`, or cleared.
pub open spec fn hwbp_context<C: HWBPRegs>(
    cx: C,
    dbg_reg: Seq<usize>,
    info: HwbpInfo,
    enable: bool,
) -> C {
    if enable {
        with_bp(cx, dbg_reg[info.index as int], info.index as usize, info.rw, info.len)
    } else {
        without_bp(cx, info.index as usize)
    }
}

/// Whether a breakpoint can stand under a number: its own, that of its slot, or
/// the one it redirects a pointer to.
pub open spec fn goes_by(bp: Breakpoint, id: BpID) -> bool {
    ||| id_of(bp.address) == id
    ||| bp.bp_type matches InnerBpType::Hard(info) && id == slot_id(info.index as int)
    ||| bp.bp_type matches InnerBpType::Table { index, .. } && id == index
}

/// What holds of the store and the table of every session: there are four slots,
/// a breakpoint in a slot is in one of them, and every number stands for a
/// breakpoint in store that can go by it.
#[verifier::opaque]
pub open spec fn table_wf(
    bps: Seq<Breakpoint>,
    bp_map: Map<BpID, BpHandle>,
    dbg_reg: Seq<usize>,
) -> bool {
    &&& dbg_reg.len() == 4
    &&& forall|h: int|
        0 <= h < bps.len() ==> match (#[trigger] bps[h]).bp_type {
            InnerBpType::Hard(info) => info.index < 4,
            _ => true,
        }
    &&& forall|id: BpID| #[trigger]
        bp_map.dom().contains(id) ==> {
            &&& bp_map[id] < bps.len()
            &&& goes_by(bps[bp_map[id] as int], id)
        }
}

/// Whether a store holds what another does: breakpoints stay where they are, and
/// what they are does not change.
#[verifier::opaque]
pub open spec fn store_grows(bps: Seq<Breakpoint>, next: Seq<Breakpoint>) -> bool {
    &&& bps.len() <= next.len()
    &&& forall|h: int|
        0 <= h < bps.len() ==> {
            &&& (#[trigger] next[h]).address == bps[h].address
            &&& next[h].bp_type == bps[h].bp_type
            &&& next[h].hit_tid == bps[h].hit_tid
            &&& next[h].temp == bps[h].temp
        }
}

/// A session that grew, and grew again, grew.
pub proof fn lemma_grows(a: AdaptorState, b: AdaptorState, c: AdaptorState)
    requires
        a.grows_to(b),
        b.grows_to(c),
    ensures
        a.grows_to(c),
{
    reveal(store_grows);
    if a.bps != b.bps && b.bps != c.bps {
        assert forall|h: int| 0 <= h < a.bps.len() implies {
            &&& (#[trigger] c.bps[h]).address == a.bps[h].address
            &&& c.bps[h].bp_type == a.bps[h].bp_type
            &&& c.bps[h].hit_tid == a.bps[h].hit_tid
            &&& c.bps[h].temp == a.bps[h].temp
        } by {
            assert(b.bps[h].address == a.bps[h].address);
        }
    }
}

/// What a session that grew still holds.
pub proof fn lemma_grown(a: AdaptorState, b: AdaptorState, h: int)
    requires
        a.grows_to(b),
        0 <= h < a.bps.len(),
    ensures
        a.bps.len() <= b.bps.len(),
        b.bps[h].address == a.bps[h].address,
        b.bps[h].bp_type == a.bps[h].bp_type,
        b.bps[h].hit_tid == a.bps[h].hit_tid,
        b.bps[h].temp == a.bps[h].temp,
{
    reveal(store_grows);
}

/// What a number in the table stands for.
pub proof fn lemma_listed(s: AdaptorState, id: BpID)
    requires
        s.wf(),
    ensures
        s.get_bp(id) matches Some(bp) ==> bp < s.bps.len() && goes_by(s.bps[bp as int], id),
{
    reveal(table_wf);
}

/// A breakpoint in a slot is in one of the four.
pub proof fn lemma_slot(s: AdaptorState, bp: BpHandle)
    requires
        s.wf(),
        bp < s.bps.len(),
    ensures
        s.bps[bp as int].bp_type matches InnerBpType::Hard(info) ==> info.index < 4,
        s.dbg_reg.len() == 4,
{
    reveal(table_wf);
}

impl AdaptorState {
    /// What holds of every session.
    pub open spec fn wf(self) -> bool {
        table_wf(self.bps, self.bp_map, self.dbg_reg)
    }

    /// Whether the store fits the machine; a store that exists does.
    pub open spec fn fits(self) -> bool {
        self.bps.len() <= usize::MAX
    }

    /// Whether `next` can come after this state: breakpoints stay where they
    /// are, and what they are does not change.
    pub open spec fn grows_to(self, next: AdaptorState) -> bool {
        self.bps == next.bps || store_grows(self.bps, next.bps)
    }

    /// The breakpoint a number stands for.
    pub open spec fn get_bp(self, id: BpID) -> Option<BpHandle> {
        if self.bp_map.dom().contains(id) {
            Some(self.bp_map[id])
        } else {
            None
        }
    }

    /// The session with one more thing to show.
    pub open spec fn report(self, report: Report) -> AdaptorState {
        AdaptorState { reports: self.reports.push(report), ..self }
    }

    /// The session in which a failure is shown, if there was one.
    pub open spec fn check_result<T>(self, doing: Doing, r: UDbgResult<T>) -> AdaptorState {
        match r {
            Ok(_) => self,
            Err(error) => self.report(Report::Failure { doing, error }),
        }
    }

    /// The session with a breakpoint switched.
    pub open spec fn set_enabled(self, bp: BpHandle, enabled: bool) -> AdaptorState {
        AdaptorState {
            bps: self.bps.update(bp as int, Breakpoint { enabled, ..self.bps[bp as int] }),
            ..self
        }
    }

    /// The session in which a breakpoint was met once more.
    pub open spec fn count_hit(self, bp: BpHandle) -> AdaptorState {
        let b = self.bps[bp as int];
        AdaptorState {
            bps: self.bps.update(
                bp as int,
                Breakpoint { hit_count: b.hit_count.wrapping_add(1), ..b },
            ),
            ..self
        }
    }

    /// The session with one more breakpoint in store.
    pub open spec fn store(self, bp: Breakpoint) -> AdaptorState {
        AdaptorState { bps: self.bps.push(bp), ..self }
    }

    /// The session with a breakpoint in force under a number.
    pub open spec fn insert(self, id: BpID, bp: BpHandle) -> AdaptorState {
        AdaptorState { bp_map: self.bp_map.insert(id, bp), ..self }
    }

    /// The session with nothing in force under a number.
    pub open spec fn forget(self, id: BpID) -> AdaptorState {
        AdaptorState { bp_map: self.bp_map.remove(id), ..self }
    }

    /// The session with a slot watching an address.
    pub open spec fn occupy(self, index: int, address: usize) -> AdaptorState {
        AdaptorState { dbg_reg: self.dbg_reg.update(index, address), ..self }
    }

    /// The session with the trap flag of the stopped thread switched.
    pub open spec fn set_step(self, width: Width, step: bool) -> AdaptorState {
        match width {
            Width::Wide => AdaptorState { cx: self.cx.with_step(step), ..self },
            Width::Narrow => AdaptorState { cx32: self.cx32.with_step(step), ..self },
        }
    }

    /// The session in which the stopped thread passes its breakpoint once.
    pub open spec fn set_rf(self, width: Width) -> AdaptorState {
        match width {
            Width::Wide => AdaptorState { cx: self.cx.with_rf(), ..self },
            Width::Narrow => AdaptorState { cx32: self.cx32.with_rf(), ..self },
        }
    }

    /// The session with the stopped thread moved.
    pub open spec fn set_ip(self, width: Width, pc: usize) -> AdaptorState {
        match width {
            Width::Wide => AdaptorState { cx: self.cx.with_pc(pc), ..self },
            Width::Narrow => AdaptorState { cx32: self.cx32.with_pc(pc), ..self },
        }
    }

    /// Where the stopped thread stands.
    pub open spec fn pc(self, width: Width) -> usize {
        match width {
            Width::Wide => self.cx.pc(),
            Width::Narrow => self.cx32.pc(),
        }
    }

    /// Where the stopped thread stands, as a signed number of its width.
    pub open spec fn signed_pc(self, width: Width) -> isize {
        match width {
            Width::Wide => self.cx.signed_pc(),
            Width::Narrow => self.cx32.signed_pc(),
        }
    }

    /// The flags of the stopped thread.
    pub open spec fn flags(self, width: Width) -> u32 {
        match width {
            Width::Wide => self.cx.flags(),
            Width::Narrow => self.cx32.flags(),
        }
    }

    /// The debug status register of the stopped thread.
    pub open spec fn dr6(self, width: Width) -> usize {
        match width {
            Width::Wide => self.cx.status(),
            Width::Narrow => self.cx32.status(),
        }
    }

    /// The session with a slot set or cleared in the registers at hand.
    pub open spec fn switch_current(self, info: HwbpInfo, enable: bool) -> AdaptorState {
        AdaptorState {
            cx: if self.has_cx {
                hwbp_context(self.cx, self.dbg_reg, info, enable)
            } else {
                self.cx
            },
            cx32: if self.has_cx32 {
                hwbp_context(self.cx32, self.dbg_reg, info, enable)
            } else {
                self.cx32
            },
            ..self
        }
    }
}

impl View for CommonAdaptor {
    type V = AdaptorState;

    open spec fn view(&self) -> AdaptorState {
        AdaptorState {
            base: self.base,
            tid_to_run: self.tid_to_run@,
            dbg_reg: self.dbg_reg@,
            wow64: self.symgr.is_wow64,
            symbol_cache: self.symgr.symbol_cache,
            modules: self.symgr.list@,
            protected: self.protected_thread@,
            process: self.process,
            bps: self.bps@,
            bp_map: self.bp_map@,
            cx: self.cx,
            cx32: self.cx32,
            has_cx: self.has_cx,
            has_cx32: self.has_cx32,
            step_tid: self.step_tid,
            show_debug_string: self.show_debug_string,
            uspy_tid: self.uspy_tid,
            reports: self.reports@,
        }
    }
}

impl CommonAdaptor {
    /// Whether a number stands for a breakpoint.
    pub fn bp_exists(&self, id: BpID) -> (r: bool)
        ensures
            r == self@.bp_map.dom().contains(id),
    {
        self.bp_map.contains_key(&id)
    }

    /// The breakpoint a number stands for.
    pub fn get_bp(&self, id: BpID) -> (r: Option<BpHandle>)
        ensures
            r == self@.get_bp(id),
    {
        match self.bp_map.get(&id) {
            Some(h) => Some(*h),
            None => None,
        }
    }

    /// The first slot of the debug registers that is free.
    pub fn get_hwbp_index(&self) -> (r: Option<usize>)
        ensures
            r == free_slot(self@.dbg_reg),
    {
        let mut i: usize = 0;
        while i < 4
            invariant
                i <= 4,
                forall|j: int| 0 <= j < i ==> self.dbg_reg@[j] != 0,
            decreases 4 - i,
        {
            if self.dbg_reg[i] == 0 {
                return Some(i);
            }
            i += 1;
        }
        None
    }

    /// Lets a slot watch an address; zero frees it.
    pub fn occupy_hwbp_index(&mut self, index: usize, p: usize)
        requires
            index < 4,
        ensures
            final(self)@ == old(self)@.occupy(index as int, p),
    {
        self.dbg_reg[index] = p;
    }

    /// The least number for a redirected table entry that is not taken.
    pub fn find_table_bp_index(&self) -> (r: Option<BpID>)
        ensures
            r == table_index(self@.bp_map),
    {
        let mut i: BpID = TABLE_FIRST;
        while i < TABLE_END
            invariant
                TABLE_FIRST <= i <= TABLE_END,
                forall|j: BpID| TABLE_FIRST <= j < i ==> self.bp_map@.dom().contains(j),
            decreases TABLE_END - i,
        {
            if !self.bp_map.contains_key(&i) {
                proof {
                    lemma_table_index(self.bp_map@, i);
                }
                return Some(i);
            }
            i += 1;
        }
        assert(forall|id: BpID| !is_table_index(self.bp_map@, id));
        None
    }

    /// Notes something to show to the user.
    pub fn report(&mut self, report: Report)
        ensures
            final(self)@ == old(self)@.report(report),
    {
        self.reports.push(report);
    }

    /// Notes a failure, if there was one.
    pub fn check_result<T>(&mut self, doing: Doing, r: UDbgResult<T>)
        ensures
            final(self)@ == old(self)@.check_result(doing, r),
    {
        match r {
            Ok(_) => {},
            Err(error) => self.report(Report::Failure { doing, error }),
        }
    }

    /// Notes whether a breakpoint is in effect.
    pub fn set_enabled(&mut self, bp: BpHandle, enabled: bool)
        requires
            bp < old(self)@.bps.len(),
        ensures
            final(self)@ == old(self)@.set_enabled(bp, enabled),
    {
        let b = self.bps[bp];
        self.bps.set(bp, Breakpoint { enabled, ..b });
    }

    /// Counts a hit of a breakpoint.
    pub fn count_hit(&mut self, bp: BpHandle)
        requires
            bp < old(self)@.bps.len(),
        ensures
            final(self)@ == old(self)@.count_hit(bp),
    {
        let b = self.bps[bp];
        self.bps.set(bp, Breakpoint { hit_count: b.hit_count.wrapping_add(1), ..b });
    }

    /// Takes a breakpoint into store and says where it is.
    pub fn store(&mut self, bp: Breakpoint) -> (h: BpHandle)
        ensures
            final(self)@ == old(self)@.store(bp),
            h == old(self)@.bps.len(),
    {
        let h: usize = self.bps.len();
        self.bps.push(bp);
        h
    }

    /// Puts a breakpoint in force under a number.
    pub fn insert(&mut self, id: BpID, bp: BpHandle)
        ensures
            final(self)@ == old(self)@.insert(id, bp),
    {
        self.bp_map.insert(id, bp);
    }

    /// Leaves nothing in force under a number, and says whether there was something.
    pub fn forget(&mut self, id: BpID) -> (r: bool)
        ensures
            final(self)@ == old(self)@.forget(id),
            r == old(self)@.bp_map.dom().contains(id),
    {
        match self.bp_map.remove(&id) {
            Some(_) => true,
            None => false,
        }
    }

    /// Sets a breakpoint's slot in a register set, or clears it.
    pub fn enable_hwbp_for_context<C: DbgContext>(&self, cx: &mut C, info: HwbpInfo, enable: bool)
        requires
            info.index < 4,
        ensures
            *final(cx) == hwbp_context(*old(cx), self@.dbg_reg, info, enable),
    {
        let i: usize = info.index as usize;
        if enable {
            cx.set_bp(self.dbg_reg[i], i, info.rw, info.len);
        } else {
            cx.unset_bp(i);
        }
    }

    /// Sets a breakpoint's slot in the registers at hand, or clears it.
    pub fn switch_current(&mut self, info: HwbpInfo, enable: bool)
        requires
            info.index < 4,
        ensures
            final(self)@ == old(self)@.switch_current(info, enable),
    {
        if self.has_cx {
            let mut cx = self.cx;
            self.enable_hwbp_for_context(&mut cx, info, enable);
            self.cx = cx;
        }
        if self.has_cx32 {
            let mut cx32 = self.cx32;
            self.enable_hwbp_for_context(&mut cx32, info, enable);
            self.cx32 = cx32;
        }
    }

    /// Switches the trap flag of the stopped thread.
    pub fn set_step(&mut self, width: Width, step: bool)
        ensures
            final(self)@ == old(self)@.set_step(width, step),
    {
        match width {
            Width::Wide => self.cx.set_step(step),
            Width::Narrow => self.cx32.set_step(step),
        }
    }

    /// Lets the stopped thread pass its breakpoint once.
    pub fn set_rf(&mut self, width: Width)
        ensures
            final(self)@ == old(self)@.set_rf(width),
    {
        match width {
            Width::Wide => self.cx.set_rf(),
            Width::Narrow => self.cx32.set_rf(),
        }
    }

    /// Moves the stopped thread.
    pub fn set_ip(&mut self, width: Width, pc: usize)
        ensures
            final(self)@ == old(self)@.set_ip(width, pc),
    {
        match width {
            Width::Wide => self.cx.set_ip(pc),
            Width::Narrow => self.cx32.set_ip(pc),
        }
    }

    /// Where the stopped thread stands, as a signed number of its width.
    pub fn signed_ip(&self, width: Width) -> (r: isize)
        ensures
            r == self@.signed_pc(width),
    {
        match width {
            Width::Wide => self.cx.signed_ip(),
            Width::Narrow => self.cx32.signed_ip(),
        }
    }

    /// Whether any of some flags of the stopped thread is set.
    pub fn test_eflags(&self, width: Width, flag: u32) -> (r: bool)
        ensures
            r == (self@.flags(width) & flag > 0),
    {
        match width {
            Width::Wide => self.cx.test_eflags(flag),
            Width::Narrow => self.cx32.test_eflags(flag),
        }
    }

    /// The debug status register of the stopped thread.
    pub fn dr6(&self, width: Width) -> (r: usize)
        ensures
            r == self@.dr6(width),
    {
        match width {
            Width::Wide => self.cx.dr6(),
            Width::Narrow => self.cx32.dr6(),
        }
    }
}

/// A store that exists fits the machine.
pub proof fn lemma_fits(adaptor: &CommonAdaptor)
    ensures
        adaptor@.fits(),
{
    assert(adaptor.bps.len() <= usize::MAX);
}

/// The least number not taken is the one `table_index` gives.
proof fn lemma_table_index(map: Map<BpID, BpHandle>, id: BpID)
    requires
        is_table_index(map, id),
    ensures
        table_index(map) == Some(id),
{
    let other = choose|other: BpID| is_table_index(map, other);
    assert(is_table_index(map, other));
    if other < id {
        assert(map.dom().contains(other));
    }
    if id < other {
        assert(map.dom().contains(id));
    }
}

} // verus!
