//! What adding and removing breakpoints keeps and undoes.
use vstd::prelude::*;

use crate::adaptor::{
    free_slot, lemma_grown, slot_id, store_grows, table_index, table_wf, AdaptorState,
};
use crate::breakpoints::{
    add_finish, add_hard, add_next, add_start, add_table, int3_next, lemma_int3_keeps, remove_next,
    remove_start, unlist, AddOp, AddStage, Int3Op, Int3Stage, RemoveOp,
};
use crate::enable::{enable_next, lemma_enable_keeps, lemma_enable_stays};
use crate::io::{Action, Doing, Poll, Reply};
use crate::types::{
    id_of, BpHandle, BpID, BpOpt, HwbpInfo, HwbpLen, HwbpType, InnerBpType, UDbgError, UDbgStatus, BP_INSN,
};

verus! {

/// Whether a breakpoint as asked for is in force under its number.
pub open spec fn in_force(s: AdaptorState, opt: BpOpt, bp: BpHandle) -> bool {
    &&& bp < s.bps.len()
    &&& s.bps[bp as int].address == opt.address
    &&& s.bps[bp as int].temp == opt.temp
    &&& s.bps[bp as int].hit_tid == opt.tid
    &&& s.get_bp(id_of(opt.address)) == Some(bp)
    &&& opt.rw is Some <==> s.bps[bp as int].bp_type is Hard
    &&& opt.rw is None && opt.table <==> s.bps[bp as int].bp_type is Table
    &&& s.bps[bp as int].bp_type matches InnerBpType::Hard(info) ==> watches(s, opt, bp, info)
    &&& s.bps[bp as int].bp_type matches InnerBpType::Table { index, .. } ==> -10000 <= index < -10
        && s.get_bp(index) == Some(bp)
}

/// Whether a slot watches what was asked for: the kind of access and the length in
/// the codes of the control register, one byte where no length was asked for, and
/// the address; and whether the breakpoint is found under the slot's number.
pub open spec fn watches(s: AdaptorState, opt: BpOpt, bp: BpHandle, info: HwbpInfo) -> bool {
    &&& info.index < 4
    &&& info.rw == (match opt.rw {
        Some(HwbpType::Write) => 1u8,
        Some(HwbpType::Access) => 3u8,
        _ => 0u8,
    })
    &&& info.len == (match opt.len {
        Some(HwbpLen::L2) => 1u8,
        Some(HwbpLen::L4) => 3u8,
        Some(HwbpLen::L8) => 2u8,
        _ => 0u8,
    })
    &&& s.dbg_reg[info.index as int] == opt.address
    &&& s.get_bp((-(info.index + 1)) as isize) == Some(bp)
}

/// What an adding operation knows of the breakpoint it is about to switch.
pub open spec fn settled(s: AdaptorState, op: AddOp) -> bool {
    match op.stage {
        AddStage::Origin => op.opt.rw is None && op.opt.table,
        AddStage::Int3(o) => {
            &&& op.opt.rw is None && !op.opt.table
            &&& o.stage matches Int3Stage::Enable { bp, op: e } ==> {
                &&& s.bps[bp as int].temp == op.opt.temp
                &&& s.bps[bp as int].hit_tid == op.opt.tid
                &&& s.bps[bp as int].bp_type is Soft
            }
        },
        AddStage::Enable { bp, op: o } => in_force(s, op.opt, bp),
    }
}

/// What the adding of a trap instruction waits for stays meaningful while the
/// session grows.
pub proof fn lemma_int3_stays(s: AdaptorState, s1: AdaptorState, op: Int3Op)
    requires
        op.wf(s),
        s.grows_to(s1),
    ensures
        op.wf(s1),
{
    if let Int3Stage::Enable { bp, op: e } = op.stage {
        lemma_enable_stays(s, s1, e);
        lemma_grown(s, s1, bp as int);
    }
}

/// The same for the adding of a breakpoint.
pub proof fn lemma_add_stays(s: AdaptorState, s1: AdaptorState, op: AddOp)
    requires
        op.wf(s),
        s.grows_to(s1),
    ensures
        op.wf(s1),
{
    match op.stage {
        AddStage::Origin => {},
        AddStage::Int3(o) => lemma_int3_stays(s, s1, o),
        AddStage::Enable { bp, op: e } => lemma_enable_stays(s, s1, e),
    }
}

/// The same for the removing of a breakpoint.
pub proof fn lemma_remove_stays(s: AdaptorState, s1: AdaptorState, op: RemoveOp)
    requires
        op.wf(s),
        s.grows_to(s1),
    ensures
        op.wf(s1),
{
    lemma_enable_stays(s, s1, op.op);
}

/// There is no free slot just when all four watch something, and the slot
/// chosen is the first free one.
pub proof fn lemma_free_slot(dbg_reg: Seq<usize>)
    requires
        dbg_reg.len() == 4,
    ensures
        match free_slot(dbg_reg) {
            Some(i) => {
                &&& i < 4
                &&& dbg_reg[i as int] == 0
                &&& forall|j: int| 0 <= j < i ==> dbg_reg[j] != 0
            },
            None => forall|j: int| 0 <= j < 4 ==> #[trigger] dbg_reg[j] != 0,
        },
{
}

/// When adding a breakpoint is refused at once, and that it then changes nothing.
pub proof fn lemma_add_refused(s: AdaptorState, opt: BpOpt)
    ensures
        ({
            let (s1, poll) = add_start(s, opt);
            let opened = s.base.status == UDbgStatus::Opened;
            let taken = s.bp_map.dom().contains(id_of(opt.address));
            let full = opt.rw is Some && free_slot(s.dbg_reg) is None;
            &&& poll == Poll::<AddOp, _>::Ready(Err::<BpHandle, _>(UDbgError::NotSupport))
                <==> opened
            &&& poll == Poll::<AddOp, _>::Ready(Err::<BpHandle, _>(UDbgError::BpExists))
                <==> !opened && taken
            &&& poll == Poll::<AddOp, _>::Ready(Err::<BpHandle, _>(UDbgError::HWBPSlotMiss))
                <==> !opened && !taken && full
            &&& (poll matches Poll::Ready(r) && r is Err) <==> opened || taken || full
            &&& opened || taken || full ==> s1 == s
        }),
{
}

proof fn lemma_add_finish(s: AdaptorState, opt: BpOpt, bp: BpHandle)
    requires
        s.wf(),
        bp < s.bps.len(),
        s.bps[bp as int].address == opt.address,
    ensures
        ({
            let (s1, poll) = add_finish(s, opt, bp);
            let asked = in_force(s.insert(id_of(opt.address), bp), opt, bp);
            &&& s1.wf()
            &&& s.grows_to(s1)
            &&& asked ==> in_force(s1, opt, bp)
            &&& match poll {
                Poll::Pending(_, o) => {
                    &&& o.wf(s1)
                    &&& o.opt == opt
                    &&& asked ==> settled(s1, o)
                },
                Poll::Ready(r) => r == Ok::<BpHandle, UDbgError>(bp),
            }
        }),
{
    reveal(table_wf);
    reveal(store_grows);
}

/// Starting to add a breakpoint keeps the session in order; where it ends at
/// once without an error, the breakpoint asked for is in force.
pub proof fn lemma_add_starts(s: AdaptorState, opt: BpOpt)
    requires
        s.wf(),
        add_start(s, opt).0.fits(),
    ensures
        ({
            let (s1, poll) = add_start(s, opt);
            &&& s1.wf()
            &&& s.grows_to(s1)
            &&& match poll {
                Poll::Pending(_, o) => o.wf(s1) && settled(s1, o) && o.opt == opt,
                Poll::Ready(Ok(bp)) => in_force(s1, opt, bp),
                Poll::Ready(Err(_)) => true,
            }
        }),
{
    reveal(table_wf);
    reveal(store_grows);
    let (s1, poll) = add_start(s, opt);
    if s.base.status != UDbgStatus::Opened && !s.bp_map.dom().contains(id_of(opt.address)) {
        if let Some(rw) = opt.rw {
            if let Some(index) = free_slot(s.dbg_reg) {
                lemma_free_slot(s.dbg_reg);
                let s0 = add_hard(s, opt, rw, index);
                assert(s0.wf());
                lemma_add_finish(s0, opt, s.bps.len() as usize);
            }
        }
    }
}

/// Going on to add a breakpoint keeps the session in order. Where nothing came
/// between, it ends with the breakpoint asked for in force, or with an error and
/// the table as it was.
pub proof fn lemma_add_keeps(s: AdaptorState, op: AddOp, reply: Reply)
    requires
        s.wf(),
        op.wf(s),
        add_next(s, op, reply).0.fits(),
    ensures
        ({
            let (s1, poll) = add_next(s, op, reply);
            &&& s1.wf()
            &&& s.grows_to(s1)
            &&& match poll {
                Poll::Pending(_, o) => {
                    &&& o.wf(s1)
                    &&& o.opt == op.opt
                    &&& settled(s, op) ==> settled(s1, o)
                },
                Poll::Ready(Ok(bp)) => settled(s, op) ==> in_force(s1, op.opt, bp),
                Poll::Ready(Err(_)) => s1.bp_map == s.bp_map && s1.dbg_reg == s.dbg_reg,
            }
        }),
{
    reveal(table_wf);
    reveal(store_grows);
    reveal(int3_next);
    let opt = op.opt;
    match op.stage {
        AddStage::Origin => {
            if let Some(origin) = reply.word() {
                if let Some(index) = table_index(s.bp_map) {
                    let s0 = add_table(s, opt, index, origin);
                    assert(s0.wf()) by {
                        let i = choose|id: BpID| crate::adaptor::is_table_index(s.bp_map, id);
                        assert(crate::adaptor::is_table_index(s.bp_map, i));
                    }
                    lemma_add_finish(s0, opt, s.bps.len() as usize);
                }
            }
        },
        AddStage::Int3(o) => {
            let (s1, poll) = int3_next(s, o, reply);
            assert(s1.fits());
            lemma_int3_keeps(s, o, reply);
            if let Int3Stage::Enable { bp, op: e } = o.stage {
                lemma_enable_keeps(s, e, reply);
            }
            if let Poll::Ready(Ok(bp)) = poll {
                lemma_add_finish(s1, opt, bp);
            }
        },
        AddStage::Enable { bp, op: e } => {
            lemma_enable_keeps(s, e, reply);
        },
    }
}

/// The session without a breakpoint is in order.
pub proof fn lemma_unlist_keeps(s: AdaptorState, bp: BpHandle)
    requires
        s.wf(),
        bp < s.bps.len(),
    ensures
        unlist(s, bp).wf(),
        s.grows_to(unlist(s, bp)),
        unlist(s, bp).bps == s.bps,
        !unlist(s, bp).bp_map.dom().contains(id_of(s.bps[bp as int].address)),
{
    reveal(table_wf);
    reveal(store_grows);
}

/// Starting to remove a breakpoint always waits for it to be switched off.
pub proof fn lemma_remove_starts(s: AdaptorState, bp: BpHandle)
    requires
        s.wf(),
        bp < s.bps.len(),
    ensures
        ({
            let (s1, poll) = remove_start(s, bp);
            s1 == s && (poll matches Poll::Pending(_, o) && o.wf(s) && o.bp == bp)
        }),
{
    reveal(table_wf);
    reveal(store_grows);
}

/// Going on to remove a breakpoint keeps the session in order, and ends with
/// nothing in force under its number.
pub proof fn lemma_remove_keeps(s: AdaptorState, op: RemoveOp, reply: Reply)
    requires
        s.wf(),
        op.wf(s),
    ensures
        ({
            let (s1, poll) = remove_next(s, op, reply);
            &&& s1.wf()
            &&& s.grows_to(s1)
            &&& match poll {
                Poll::Pending(_, o) => o.wf(s1) && o.bp == op.bp && s1.bp_map == s.bp_map,
                Poll::Ready(_) => !s1.bp_map.dom().contains(
                    id_of(s.bps[op.bp as int].address),
                ),
            }
        }),
{
    reveal(table_wf);
    reveal(store_grows);
    reveal(remove_next);
    lemma_enable_keeps(s, op.op, reply);
    let (s0, poll) = enable_next(s, op.op, reply);
    if let Poll::Ready(r) = poll {
        lemma_unlist_keeps(s0.check_result(Doing::DisableRemoved, r), op.bp);
    }
}

/// Removing a breakpoint from a slot gives back the table and the slots as they
/// were before it was added, where neither its number nor that of the slot was taken.
pub proof fn lemma_hard_round_trip(s: AdaptorState, opt: BpOpt, rw: HwbpType, index: usize)
    requires
        s.wf(),
        s.bps.len() < usize::MAX,
        free_slot(s.dbg_reg) == Some(index),
        !s.bp_map.dom().contains(id_of(opt.address)),
        !s.bp_map.dom().contains(slot_id(index as int)),
    ensures
        ({
            let bp = s.bps.len() as usize;
            let added = add_hard(s, opt, rw, index).insert(id_of(opt.address), bp);
            let removed = unlist(added, bp);
            removed.bp_map == s.bp_map && removed.dbg_reg == s.dbg_reg
        }),
{
    reveal(table_wf);
    reveal(store_grows);
    lemma_free_slot(s.dbg_reg);
    let bp = s.bps.len() as usize;
    let added = add_hard(s, opt, rw, index).insert(id_of(opt.address), bp);
    let removed = unlist(added, bp);
    assert(removed.bp_map =~= s.bp_map);
    assert(removed.dbg_reg =~= s.dbg_reg);
}

/// Removing a redirected pointer gives back the table as it was before.
pub proof fn lemma_table_round_trip(s: AdaptorState, opt: BpOpt, index: BpID, origin: usize)
    requires
        s.wf(),
        s.bps.len() < usize::MAX,
        table_index(s.bp_map) == Some(index),
        !s.bp_map.dom().contains(id_of(opt.address)),
    ensures
        ({
            let bp = s.bps.len() as usize;
            let added = add_table(s, opt, index, origin).insert(id_of(opt.address), bp);
            let removed = unlist(added, bp);
            removed.bp_map == s.bp_map && removed.dbg_reg == s.dbg_reg
        }),
{
    reveal(table_wf);
    reveal(store_grows);
    let i = choose|id: BpID| crate::adaptor::is_table_index(s.bp_map, id);
    assert(crate::adaptor::is_table_index(s.bp_map, i));
    let bp = s.bps.len() as usize;
    let added = add_table(s, opt, index, origin).insert(id_of(opt.address), bp);
    assert(unlist(added, bp).bp_map =~= s.bp_map);
}

/// Removing a trap instruction gives back the table as it was before, where its
/// number was not taken.
pub proof fn lemma_soft_round_trip(s: AdaptorState, opt: BpOpt, raw_byte: u8)
    requires
        s.wf(),
        s.bps.len() < usize::MAX,
        !s.bp_map.dom().contains(id_of(opt.address)),
    ensures
        ({
            let bp = s.bps.len() as usize;
            let added = s.store(
                crate::breakpoints::new_bp(opt, InnerBpType::Soft(raw_byte)),
            ).insert(id_of(opt.address), bp);
            let removed = unlist(added, bp);
            removed.bp_map == s.bp_map && removed.dbg_reg == s.dbg_reg
        }),
{
    reveal(table_wf);
    reveal(store_grows);
    let bp = s.bps.len() as usize;
    let added = s.store(crate::breakpoints::new_bp(opt, InnerBpType::Soft(raw_byte))).insert(
        id_of(opt.address),
        bp,
    );
    assert(unlist(added, bp).bp_map =~= s.bp_map);
}

/// A trap instruction goes over the byte that was read there, and however the
/// session went on, removing it asks for that very byte to be written back.
pub proof fn lemma_byte_restored(
    s: AdaptorState,
    op: Int3Op,
    reply: Reply,
    raw_byte: u8,
    later: AdaptorState,
)
    requires
        s.wf(),
        s.bps.len() < usize::MAX,
        op.stage is Read,
        op.opt.enable,
        reply.byte() == Some(raw_byte),
        int3_next(s, op, reply).0.grows_to(later),
    ensures
        ({
            let (s1, poll) = int3_next(s, op, reply);
            let bp = s.bps.len() as usize;
            let address = op.opt.address;
            &&& poll matches Poll::Pending(action, _) && action == (Action::WriteCode {
                address,
                byte: BP_INSN,
            })
            &&& remove_start(later, bp).1 matches Poll::Pending(action, _) && action == (
            Action::WriteCode { address, byte: raw_byte })
        }),
{
    reveal(table_wf);
    reveal(store_grows);
    reveal(int3_next);
}

} // verus!
