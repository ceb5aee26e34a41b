//! What is noted of modules, threads and handles, told from what the system says.
use vstd::prelude::*;
use vstd::string::*;

use crate::adaptor::{AdaptorState, Process, UDbgBase};
use crate::context::{access_next, access_start, Access, AccessPoll};
use crate::event_loop::WAIT_TIMEOUT;
use crate::handles::{is_shown, kind_name, text_or_empty, HandleInfo};
use crate::io::{Action, Doing, Place, Reply};
use crate::loader::{
    header_bytes, holds_exports, is_symbol_of, last_export, lemma_last_export, load_outcome,
    modules_left, pe_headers, readable, says, Export, Loaded, Origin, PeImage, COFF_MACHINE_X86_64,
    IMAGE_FILE_MACHINE_I386,
};
use crate::memory::{ImageNtHeaders, NtHeader, OPTIONAL_HEADER};
use crate::modules::{ascending, modules_without, RuntimeFunction, Symbol, WinModule};
use crate::process::{
    CREATE_NEW_CONSOLE, DEBUG_ONLY_THIS_PROCESS, EXTENDED_STARTUPINFO_PRESENT, PARENT_PROCESS,
};
use crate::regs::{Context32, Context64, EFLAGS_RF, EFLAGS_TF};
use crate::session::{DbgThread, StandardAdaptor};
use crate::target::{break_start, fresh, BreakOp, BreakPoll};
use crate::text::{file_name, text_of, under_root, unpadded, upper};
use crate::thread::{
    block_address, holds_stats, last_listed, numbers, source_of, threads_of, ThreadSource,
    ThreadStat, THREAD_PRIORITY_ERROR_RETURN,
};
use crate::types::{
    BpOpt, Pid, Reason, Tid, UDbgError, UDbgStatus, BP_INSN, EXCEPTION_MAXIMUM_PARAMETERS,
};

verus! {

/// Whether an export is the last of its image at its place.
pub open spec fn is_last_at(exports: Seq<Export>, i: int) -> bool {
    &&& 0 <= i < exports.len()
    &&& forall|j: int| i < j < exports.len() ==> (#[trigger] exports[j]).rva != exports[i].rva
}

/// Whether a symbol says of an export what there is to say: its name, the length of its
/// entry in the unwind table, its place, and that it is an exported function.
pub open spec fn says_export(symbol: Symbol, export: Export) -> bool {
    &&& symbol.name@ == (if export.name is Some {
        export.name->0@
    } else {
        "<>"@
    })
    &&& symbol.type_id == 0
    &&& symbol.flags == 3
    &&& symbol.offset == export.rva as u32
    &&& export.function is None ==> symbol.len is None
    &&& export.function matches Some(f) ==> {
        &&& symbol.len is Some
        &&& symbol.len->0 == (if f.begin_address <= f.end_address {
            f.end_address - f.begin_address
        } else {
            0x1_0000_0000 + f.end_address - f.begin_address
        })
    }
}

proof fn lemma_export(map: Map<usize, Symbol>, exports: Seq<Export>, i: int)
    requires
        holds_exports(map, exports),
        is_last_at(exports, i),
    ensures
        map.dom().contains(exports[i].rva),
        says_export(map[exports[i].rva], exports[i]),
{
    let rva = exports[i].rva;
    let found = last_export(exports, rva);
    lemma_last_export(exports, rva);
    if found is None {
        assert(exports[i].rva != rva);
    }
    let k = found->0;
    if k < i {
        assert(exports[i].rva != rva);
    }
    if i < k {
        assert(exports[k].rva != rva);
    }
    assert(map.dom().contains(rva));
    assert(is_symbol_of(map[rva], exports[i]));
    assert(1u32 | 2u32 == 3u32) by (bit_vector);
    assert(map[rva].flags == 3);
    if let Some(f) = exports[i].function {
        assert(map[rva].len == Some(f.end_address.wrapping_sub(f.begin_address)));
    }
}

/// The table of exports has the last export at each place, and no place that no export
/// is at.
pub proof fn lemma_exports(map: Map<usize, Symbol>, exports: Seq<Export>)
    requires
        holds_exports(map, exports),
    ensures
        forall|i: int| #[trigger]
            is_last_at(exports, i) ==> map.dom().contains(exports[i].rva) && says_export(
                map[exports[i].rva],
                exports[i],
            ),
        forall|rva: usize| #[trigger]
            map.dom().contains(rva) ==> exists|i: int|
                0 <= i < exports.len() && (#[trigger] exports[i]).rva == rva,
{
    assert forall|i: int| #[trigger] is_last_at(exports, i) implies map.dom().contains(
        exports[i].rva,
    ) && says_export(map[exports[i].rva], exports[i]) by {
        lemma_export(map, exports, i);
    }
    assert forall|rva: usize| #[trigger] map.dom().contains(rva) implies exists|i: int|
        0 <= i < exports.len() && (#[trigger] exports[i]).rva == rva by {
        lemma_last_export(exports, rva);
        if let Some(i) = last_export(exports, rva) {
            assert(exports[i].rva == rva);
        }
    }
}

proof fn lemma_readable_push(a: Seq<Option<RuntimeFunction>>, f: Option<RuntimeFunction>)
    ensures
        readable(a.push(f)) == (match f {
            Some(f) => readable(a).push(f),
            None => readable(a),
        }),
{
    assert(a.push(f).drop_last() =~= a);
}

/// The entries that could be read are kept in their order, and no others: what is kept of
/// two tables, one behind the other, is what is kept of each.
pub proof fn lemma_readable(
    a: Seq<Option<RuntimeFunction>>,
    b: Seq<Option<RuntimeFunction>>,
    f: RuntimeFunction,
)
    ensures
        readable(a + b) == readable(a) + readable(b),
        readable(seq![Some(f)]) == seq![f],
        readable(seq![None::<RuntimeFunction>]) == Seq::<RuntimeFunction>::empty(),
        readable(Seq::empty()) == Seq::<RuntimeFunction>::empty(),
    decreases b.len(),
{
    let none = Seq::<Option<RuntimeFunction>>::empty();
    lemma_readable_push(none, Some(f));
    lemma_readable_push(none, None);
    assert(none.push(Some(f)) =~= seq![Some(f)]);
    assert(none.push(None) =~= seq![None::<RuntimeFunction>]);
    assert(readable(none).push(f) =~= seq![f]);
    if b.len() == 0 {
        assert(a + b =~= a);
        assert(readable(a) + readable(b) =~= readable(a));
    } else {
        let init = b.drop_last();
        lemma_readable(a, init, f);
        lemma_readable_push(a + init, b.last());
        assert((a + init).push(b.last()) =~= a + b);
        assert(readable(a + b) =~= readable(a) + readable(b));
    }
}

/// Whether a noted module is what its origin and the headers of its image say.
pub open spec fn is_noted(
    m: WinModule,
    from: Origin,
    root: &str,
    wow64: bool,
    machine: u16,
    entry: u64,
    image_size: u32,
) -> bool {
    let name = file_name(from.path);
    &&& m.data.base == from.base
    &&& from.size > 0 ==> m.data.size == from.size
    &&& from.size == 0 ==> m.data.size == image_size
    &&& m.data.entry == entry as usize
    &&& m.data.machine == machine
    &&& m.data.path@ == from.path
    &&& m.file == from.file
    &&& m.data.user_module <==> !under_root(root@, root.spec_bytes().len(), from.path)
    &&& wow64 && machine == 0x8664 && name == "ntdll.dll"@ ==> m.data.name@ == "ntdll64.dll"@
    &&& !(wow64 && machine == 0x8664 && name == "ntdll.dll"@) ==> m.data.name@ == name
}

/// Whether a module has the symbols that its image gives; none where it was not read.
pub open spec fn has_read(m: WinModule, image: Option<PeImage>) -> bool {
    match image {
        Some(image) => {
            &&& m.syms.pdb == image.pdb
            &&& image.pdb_filename is None ==> m.syms.pdb_name@.len() == 0
            &&& image.pdb_filename matches Some(bytes) ==> m.syms.pdb_name@ == unpadded(
                text_of(bytes@),
            )
            &&& image.pdb_signature is None ==> m.syms.pdb_sig@.len() == 0
            &&& image.pdb_signature matches Some(sig) ==> {
                &&& m.syms.pdb_sig@.len() == sig@.len()
                &&& forall|i: int|
                    0 <= i < sig@.len() ==> #[trigger] m.syms.pdb_sig@[i] == upper(sig@[i])
            }
            &&& m.funcs@ == readable(image.functions@)
            &&& forall|i: int| #[trigger]
                is_last_at(image.exports@, i) ==> m.syms.exports@.dom().contains(
                    image.exports@[i].rva,
                ) && says_export(m.syms.exports@[image.exports@[i].rva], image.exports@[i])
            &&& forall|rva: usize| #[trigger]
                m.syms.exports@.dom().contains(rva) ==> exists|i: int|
                    0 <= i < image.exports@.len() && (#[trigger] image.exports@[i]).rva == rva
        },
        None => {
            &&& m.syms.exports@.dom() == Set::<usize>::empty()
            &&& m.syms.pdb is None
            &&& m.syms.pdb_name@.len() == 0
            &&& m.syms.pdb_sig@.len() == 0
            &&& m.funcs@.len() == 0
        },
    }
}

/// A module is noted, at the end of the list, just where none is known at its base and
/// its headers can be read and have their optional part; what is noted is what the
/// origin, the headers and the image say. In every other case the list stays, and the
/// outcome says why.
pub proof fn lemma_loaded(
    before: Seq<WinModule>,
    after: Seq<WinModule>,
    wow64: bool,
    from: Origin,
    root: &str,
    bytes: Option<Seq<u8>>,
    image: Option<PeImage>,
    r: Loaded,
)
    requires
        load_outcome(before, after, wow64, from, root, bytes, image, r),
    ensures
        !(r is Done) ==> after == before,
        r is Known <==> exists|i: int|
            0 <= i < before.len() && (#[trigger] before[i]).data.base == from.base,
        r is Unreadable ==> bytes is None,
        r is BadHeaders ==> bytes is Some && pe_headers(bytes->0) is None,
        r is NoOptionalHeader ==> bytes is Some && pe_headers(bytes->0) is Some && (pe_headers(
            bytes->0,
        )->0).1 is None,
        r is Done ==> {
            &&& bytes is Some && pe_headers(bytes->0) is Some && (pe_headers(bytes->0)->0).1 is Some
            &&& after.len() == before.len() + 1
            &&& forall|i: int| 0 <= i < before.len() ==> #[trigger] after[i] == before[i]
            &&& ({
                let (machine, optional) = pe_headers(bytes->0)->0;
                let (entry, image_size) = optional->0;
                let m = after[before.len() as int];
                &&& is_noted(m, from, root, wow64, machine, entry, image_size)
                &&& has_read(m, image)
            })
        },
        r is Done ==> says(bytes->0, pe_headers(bytes->0)->0),
{
    if r is Done {
        let m = after.last();
        if let Some(image) = image {
            lemma_exports(m.syms.exports@, image.exports@);
            lemma_nothing_padded();
        }
    }
}

proof fn lemma_nothing_padded()
    ensures
        unpadded(Seq::empty()).len() == 0,
{
    crate::text_laws::lemma_unpadded(Seq::empty());
}

/// The headers are read from the file that is mapped, and only where there is none from
/// the memory.
pub proof fn lemma_header_bytes(mapped: Option<&[u8]>, memory: Option<&[u8]>)
    ensures
        mapped matches Some(bytes) ==> header_bytes(mapped, memory) == Some(bytes@),
        mapped is None && memory is Some ==> header_bytes(mapped, memory) == Some(memory->0@),
        mapped is None && memory is None ==> header_bytes(mapped, memory) is None,
{
}

/// Of the modules that were known before a look at the system's list, those that are not
/// in it are forgotten; every other module stays, and all that stay keep their order.
pub proof fn lemma_modules_left(
    a: Seq<WinModule>,
    b: Seq<WinModule>,
    known: Seq<usize>,
    present: Seq<usize>,
    m: WinModule,
)
    ensures
        modules_left(a + b, known, present) == modules_left(a, known, present) + modules_left(
            b,
            known,
            present,
        ),
        modules_left(seq![m], known, present) == (if known.contains(m.data.base)
            && !present.contains(m.data.base) {
            Seq::<WinModule>::empty()
        } else {
            seq![m]
        }),
{
    reveal(Seq::filter);
    let keep = |m: WinModule| !crate::loader::is_stale(known, present, m.data.base);
    Seq::filter_distributes_over_add(a, b, keep);
    assert(seq![m].drop_last() =~= Seq::<WinModule>::empty());
    assert(Seq::<WinModule>::empty().filter(keep) =~= Seq::empty());
    assert(Seq::<WinModule>::empty().push(m) =~= seq![m]);
}

/// Forgetting what starts at a place forgets all of that and nothing else, and what stays
/// keeps its order.
pub proof fn lemma_modules_without(
    a: Seq<WinModule>,
    b: Seq<WinModule>,
    base: usize,
    m: WinModule,
)
    ensures
        modules_without(a + b, base) == modules_without(a, base) + modules_without(b, base),
        modules_without(seq![m], base) == (if m.data.base == base {
            Seq::<WinModule>::empty()
        } else {
            seq![m]
        }),
{
    reveal(Seq::filter);
    let keep = |m: WinModule| m.data.base != base;
    Seq::filter_distributes_over_add(a, b, keep);
    assert(seq![m].drop_last() =~= Seq::<WinModule>::empty());
    assert(Seq::<WinModule>::empty().filter(keep) =~= Seq::empty());
    assert(Seq::<WinModule>::empty().push(m) =~= seq![m]);
}

/// The address of a thread's block is the one that is known, if one is; else the one the
/// system gives, if it gives one. Zero is no address.
pub proof fn lemma_block_address(known: usize, queried: Option<usize>)
    ensures
        known != 0 ==> block_address(known, queried) == Some(known),
        known == 0 && queried is Some && queried->0 != 0 ==> block_address(known, queried)
            == queried,
        known == 0 && (queried is None || queried == Some(0usize)) ==> block_address(known, queried)
            is None,
{
}

/// Whether an entry of a list is the last for its thread.
pub open spec fn is_last_of(listed: Seq<(Tid, ThreadStat)>, i: int) -> bool {
    &&& 0 <= i < listed.len()
    &&& forall|j: int| i < j < listed.len() ==> (#[trigger] listed[j]).0 != listed[i].0
}

proof fn lemma_last_listed(listed: Seq<(Tid, ThreadStat)>, tid: Tid)
    ensures
        match last_listed(listed, tid) {
            Some(i) => is_last_of(listed, i) && listed[i].0 == tid,
            None => forall|j: int| 0 <= j < listed.len() ==> (#[trigger] listed[j]).0 != tid,
        },
    decreases listed.len(),
{
    if listed.len() > 0 && listed.last().0 != tid {
        let init = listed.drop_last();
        lemma_last_listed(init, tid);
        assert forall|j: int| 0 <= j < init.len() implies init[j] == listed[j] by {}
        match last_listed(init, tid) {
            Some(i) => {
                assert forall|j: int| i < j < listed.len() implies (#[trigger] listed[j]).0
                    != listed[i].0 by {
                    if j < init.len() {
                        assert(init[j].0 != init[i].0);
                    }
                }
            },
            None => {
                assert forall|j: int| 0 <= j < listed.len() implies (#[trigger] listed[j]).0
                    != tid by {
                    if j < init.len() {
                        assert(init[j].0 != tid);
                    }
                }
            },
        }
    }
}

/// What is known of threads is what the system lists last of each of those asked for, and
/// nothing of any other thread.
pub proof fn lemma_thread_infos(
    infos: Map<Tid, ThreadStat>,
    ids: Seq<Tid>,
    listed: Seq<(Tid, ThreadStat)>,
)
    requires
        holds_stats(infos, ids, listed),
    ensures
        forall|i: int| #[trigger]
            is_last_of(listed, i) && ids.contains(listed[i].0) ==> {
                &&& infos.dom().contains(listed[i].0)
                &&& infos[listed[i].0].priority == listed[i].1.priority
                &&& infos[listed[i].0].start_address == listed[i].1.start_address
                &&& infos[listed[i].0].status@ == listed[i].1.status@
            },
        forall|tid: Tid| #[trigger]
            infos.dom().contains(tid) ==> ids.contains(tid) && exists|i: int|
                0 <= i < listed.len() && (#[trigger] listed[i]).0 == tid,
{
    assert forall|i: int| #[trigger]
        is_last_of(listed, i) && ids.contains(listed[i].0) implies {
        &&& infos.dom().contains(listed[i].0)
        &&& infos[listed[i].0].priority == listed[i].1.priority
        &&& infos[listed[i].0].start_address == listed[i].1.start_address
        &&& infos[listed[i].0].status@ == listed[i].1.status@
    } by {
        let tid = listed[i].0;
        lemma_last_listed(listed, tid);
        assert(infos.dom().contains(tid) == infos.dom().contains(tid));
        match last_listed(listed, tid) {
            Some(k) => {
                if k < i {
                    assert(listed[i].0 != listed[k].0);
                }
                if i < k {
                    assert(listed[k].0 != listed[i].0);
                }
            },
            None => {
                assert(listed[i].0 != tid);
            },
        }
    }
    assert forall|tid: Tid| #[trigger] infos.dom().contains(tid) implies ids.contains(tid)
        && exists|i: int| 0 <= i < listed.len() && (#[trigger] listed[i]).0 == tid by {
        lemma_last_listed(listed, tid);
        if let Some(i) = last_listed(listed, tid) {
            assert(listed[i].0 == tid);
        }
    }
}

/// A thread that an event brought is opened by what the event said of it; any other under
/// its number.
pub proof fn lemma_source(threads: Map<Tid, DbgThread>, tid: Tid)
    ensures
        threads.dom().contains(tid) ==> source_of(Some(threads), tid) == (ThreadSource::Event {
            tid: threads[tid].tid,
            handle: threads[tid].handle,
            local_base: threads[tid].local_base,
        }),
        !threads.dom().contains(tid) ==> source_of(Some(threads), tid) == (ThreadSource::Number {
            tid,
        }),
        source_of(None, tid) == (ThreadSource::Number { tid }),
{
}

/// A handle is shown just where it is one of the process and was copied; its kind is
/// called what it was first called.
pub proof fn lemma_handle_shown(pid: Pid, kinds: Map<u32, String>, info: HandleInfo)
    ensures
        is_shown(pid, info) <==> info.pid == pid && info.copy is Some && info.copy->0 != 0,
        kinds.dom().contains(info.ty) ==> kind_name(kinds, info) == kinds[info.ty]@,
        !kinds.dom().contains(info.ty) && info.kind is Some ==> kind_name(kinds, info)
            == info.kind->0@,
        !kinds.dom().contains(info.ty) && info.kind is None ==> kind_name(kinds, info).len() == 0,
        info.object_name is Some ==> text_or_empty(info.object_name) == info.object_name->0@,
        info.object_name is None ==> text_or_empty(info.object_name).len() == 0,
        info.image_path is Some ==> text_or_empty(info.image_path) == info.image_path->0@,
        info.image_path is None ==> text_or_empty(info.image_path).len() == 0,
{
}

/// A target can be stopped while it runs: not where it is only open, and not where it is
/// stopped already.
pub proof fn lemma_break(status: UDbgStatus)
    ensures
        status == UDbgStatus::Opened ==> break_start(status) == BreakPoll::Ready(
            Err(UDbgError::NotSupport),
        ),
        status == UDbgStatus::Paused ==> break_start(status) == BreakPoll::Ready(
            Err(UDbgError::Text(Reason::AlreadyPaused)),
        ),
        status == UDbgStatus::Running || status == UDbgStatus::Ended ==> break_start(status)
            == BreakPoll::Pending(Action::BreakProcess, BreakOp),
{
}

/// A session starts with nothing in force: no breakpoint, no slot in use, no module, no
/// thread to step or to leave alone, no registers to write back, and nothing to show.
pub proof fn lemma_starts_empty(
    base: UDbgBase,
    process: Process,
    wow64: bool,
    image_base: Option<usize>,
    show: Option<bool>,
    s: AdaptorState,
)
    requires
        fresh(base, process, wow64, image_base, show, s),
    ensures
        s.bps.len() == 0,
        forall|id: isize| !s.bp_map.dom().contains(id),
        s.dbg_reg.len() == 4,
        forall|i: int| 0 <= i < 4 ==> s.dbg_reg[i] == 0,
        s.modules.len() == 0,
        s.protected.len() == 0,
        forall|tid: Tid| !s.tid_to_run.contains(tid),
        s.reports.len() == 0,
        !s.has_cx && !s.has_cx32,
        s.step_tid == 0 && s.uspy_tid == 0,
        s.wow64 == wow64,
        s.process == process,
        s.base.pid == process.pid,
        s.base.image_base == (if image_base is Some {
            image_base->0
        } else {
            0
        }),
        s.base.status == base.status && s.base.arch == base.arch && s.base.show_output
            == base.show_output && s.base.image_path == base.image_path,
        s.base.event_tid == base.event_tid && s.base.event_pc == base.event_pc,
        s.show_debug_string <==> show != Some(false),
{
}

/// Touching the registers of a thread: it is suspended, its registers are read or written
/// as asked, it is let go, and what the host said of the registers comes back.
pub proof fn lemma_access_asks(handle: usize, access: Access, a: Reply, b: Reply, c: Reply)
    ensures
        ({
            let start = access_start(handle, access);
            let p1 = access_next(start->Pending_1, a);
            let p2 = access_next(p1->Pending_1, b);
            let place = Place::Handle(handle);
            &&& start is Pending && start->Pending_0 == (Action::Suspend { handle })
            &&& p1 is Pending
            &&& access is Read ==> p1->Pending_0 == (Action::GetContext { place })
            &&& access is Read32 ==> p1->Pending_0 == (Action::GetContext32 { place })
            &&& access matches Access::Write(cx) ==> p1->Pending_0 == (Action::SetContext {
                place,
                cx,
            })
            &&& access matches Access::Write32(cx32) ==> p1->Pending_0 == (Action::SetContext32 {
                place,
                cx32,
            })
            &&& p2 is Pending && p2->Pending_0 == (Action::Resume { handle })
            &&& access_next(p2->Pending_1, c) == AccessPoll::Ready(b)
        }),
{
}

/// A target is created for debugging alone and with a console of its own; with more to
/// say at the start where a parent is named.
pub proof fn lemma_start_flags()
    ensures
        DEBUG_ONLY_THIS_PROCESS | CREATE_NEW_CONSOLE == 0x12,
        (DEBUG_ONLY_THIS_PROCESS | CREATE_NEW_CONSOLE) | 0 == 0x12,
        (DEBUG_ONLY_THIS_PROCESS | CREATE_NEW_CONSOLE) | EXTENDED_STARTUPINFO_PRESENT == 0x80012,
{
    assert(0x02u32 | 0x10u32 == 0x12 && (0x02u32 | 0x10u32) | 0 == 0x12 && (0x02u32 | 0x10u32)
        | 0x80000u32 == 0x80012) by (bit_vector);
}

/// A context of zeros has no bit set anywhere.
pub proof fn lemma_zeroed()
    ensures
        ({
            let cx = Context64::zero();
            &&& cx.seg_cs == 0 && cx.eflags == 0 && cx.rip == 0
            &&& cx.dr0 == 0 && cx.dr1 == 0 && cx.dr2 == 0 && cx.dr3 == 0
            &&& cx.dr6 == 0 && cx.dr7 == 0
        }),
        ({
            let cx = Context32::zero();
            &&& cx.eflags == 0 && cx.eip == 0
            &&& cx.dr0 == 0 && cx.dr1 == 0 && cx.dr2 == 0 && cx.dr3 == 0
            &&& cx.dr6 == 0 && cx.dr7 == 0
        }),
{
}

/// The options of a plain trap instruction: for every thread, on at once, and staying.
pub proof fn lemma_plain_trap(address: usize)
    ensures
        ({
            let opt = BpOpt::trap(address);
            &&& opt.address == address
            &&& opt.rw is None && opt.len is None && !opt.table
            &&& opt.enable && !opt.temp && opt.tid is None
        }),
{
}

/// What went wrong, and at what, in words.
pub proof fn lemma_words()
    ensures
        Reason::ReadOrigin.words() == "read origin failed",
        Reason::NoTableIndex.words() == "no more table index",
        Reason::AlreadyPaused.words() == "already paused",
        Reason::MapFailed.words() == "map failed",
        Reason::ParsePe.words() == "parse pe",
        Reason::ParentOpen.words() == "ppid open failed",
        Reason::ParentSet.words() == "set ppid falied",
        Reason::GetPid.words() == "get pid",
        Reason::OpenProcess.words() == "open process",
        Doing::AddBp.words() == "add bp",
        Doing::DisableBp.words() == "disable bp",
        Doing::EnableBp.words() == "enable bp",
        Doing::EnableAdded.words() == "enable bp falied",
        Doing::DisableRemoved.words() == "disable bp falied",
{
}

/// The numbers in a list of threads to open are those of its entries, and the threads of
/// an adaptor are those it knows.
pub proof fn lemma_thread_lists(list: Seq<(Tid, ThreadSource)>, adaptor: &StandardAdaptor)
    ensures
        numbers(list).len() == list.len(),
        forall|i: int| 0 <= i < list.len() ==> #[trigger] numbers(list)[i] == list[i].0,
        threads_of(Some(adaptor)) == Some(adaptor@.threads),
        threads_of(None) is None,
{
}

/// Numbers that grow along a list grow from each to every one behind it.
pub proof fn lemma_ascending(list: Seq<usize>, i: int, j: int)
    requires
        ascending(list),
        0 <= i < j < list.len(),
    ensures
        list[i] < list[j],
{
}

/// The machine of an image is the number in its headers.
pub proof fn lemma_machine(headers: ImageNtHeaders)
    ensures
        headers.machine_number() == headers.machine,
{
}

/// The numbers that the system and the processor give to things.
pub proof fn lemma_system_numbers()
    ensures
        IMAGE_FILE_MACHINE_I386 == 0x14c,
        COFF_MACHINE_X86_64 == 0x8664,
        OPTIONAL_HEADER == 24,
        THREAD_PRIORITY_ERROR_RETURN == 0x7fffffff,
        BP_INSN == 0xcc,
        EFLAGS_TF == 0x100,
        EFLAGS_RF == 0x10000,
        WAIT_TIMEOUT == 258,
        PARENT_PROCESS == 0,
        EXCEPTION_MAXIMUM_PARAMETERS == 15,
{
}

} // verus!
