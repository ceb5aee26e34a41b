//! A target as its user sees it.
use std::collections::{HashMap, HashSet};
use vstd::prelude::*;
use vstd::string::*;

use crate::adaptor::{table_wf, AdaptorState, CommonAdaptor, Process, UDbgBase, Width};
use crate::io::{Action, Poll, Reply};
use crate::loader::{
    header_bytes, load_outcome, modules_left, Loaded, ModuleFile, Origin, PeImage,
};
use crate::modules::{SymbolManager, WinModule};
use crate::process::{cache_directory, opt_view, symbol_cache};
use crate::regs::{Context32, Context64};
use crate::session::{DbgThread, StandardAdaptor, StandardState};
use crate::types::{
    BpHandle, BpID, Breakpoint, ExceptionRecord, Reason, Tid, UDbgError, UDbgResult, UDbgStatus,
};

verus! {

broadcast use vstd::std_specs::hash::group_hash_axioms;

/// What is configured for a target.
pub struct Settings {
    pub symbol_cache: Option<String>,
    /// Symbol path of the system's tools.
    pub symbol_path: Option<String>,
    pub show_debug_string: Option<bool>,
}

/// The value of a property.
#[derive(Clone, Copy, Debug, PartialEq, Eq, Structural)]
pub enum PropValue {
    U64(u64),
    Bool(bool),
}

/// A place in a module, by name.
pub struct SymbolInfo {
    pub module: String,
    /// Name, or nothing where only the module is known.
    pub symbol: String,
    /// Distance from the symbol, or from the module.
    pub offset: usize,
    pub mod_base: usize,
}

/// Waiting for the system to stop the target.
#[derive(Clone, Copy, Debug, PartialEq, Eq, Structural)]
pub struct BreakOp;

pub type BreakPoll = Poll<BreakOp, UDbgResult<()>>;

/// Whether the target can be stopped.
pub open spec fn break_start(status: UDbgStatus) -> BreakPoll {
    if status == UDbgStatus::Opened {
        Poll::Ready(Err(UDbgError::NotSupport))
    } else if status == UDbgStatus::Paused {
        Poll::Ready(Err(UDbgError::Text(Reason::AlreadyPaused)))
    } else {
        Poll::Pending(Action::BreakProcess, BreakOp)
    }
}

/// The session of a target at its start.
pub open spec fn fresh(
    base: UDbgBase,
    process: Process,
    wow64: bool,
    image_base: Option<usize>,
    show_debug_string: Option<bool>,
    s: AdaptorState,
) -> bool {
    &&& s.base == (UDbgBase {
        pid: process.pid,
        image_base: match image_base {
            Some(n) => n,
            None => 0,
        },
        ..base
    })
    &&& s.process == process
    &&& s.wow64 == wow64
    &&& s.modules == Seq::<WinModule>::empty()
    &&& s.tid_to_run == Set::<Tid>::empty()
    &&& s.dbg_reg == seq![0usize, 0usize, 0usize, 0usize]
    &&& s.protected == Seq::<Tid>::empty()
    &&& s.bps == Seq::<Breakpoint>::empty()
    &&& s.bp_map == Map::<BpID, BpHandle>::empty()
    &&& !s.has_cx && !s.has_cx32
    &&& s.step_tid == 0
    &&& s.uspy_tid == 0
    &&& s.show_debug_string == (match show_debug_string {
        Some(b) => b,
        None => true,
    })
    &&& s.reports.len() == 0
}

impl CommonAdaptor {
    /// The session of a target: without breakpoints, and before its modules are
    /// looked at.
    pub fn new(
        base: UDbgBase,
        process: Process,
        wow64: bool,
        image_base: Option<usize>,
        settings: Settings,
    ) -> (r: CommonAdaptor)
        ensures
            fresh(base, process, wow64, image_base, settings.show_debug_string, r@),
            r@.symbol_cache@ == cache_directory(
                opt_view(settings.symbol_cache),
                opt_view(settings.symbol_path),
            ),
            r@.wf(),
    {
        let mut base = base;
        base.pid = process.pid;
        base.image_base =
        match image_base {
            Some(n) => n,
            None => 0,
        };
        let show_debug_string: bool = match settings.show_debug_string {
            Some(b) => b,
            None => true,
        };
        let mut symgr = SymbolManager::new(
            symbol_cache(settings.symbol_cache, settings.symbol_path),
        );
        symgr.is_wow64 = wow64;
        let r = CommonAdaptor {
            base,
            tid_to_run: HashSet::new(),
            dbg_reg: [0, 0, 0, 0],
            symgr,
            protected_thread: Vec::new(),
            process,
            bps: Vec::new(),
            bp_map: HashMap::new(),
            cx: Context64::zeroed(),
            cx32: Context32::zeroed(),
            has_cx: false,
            has_cx32: false,
            step_tid: 0,
            show_debug_string,
            uspy_tid: 0,
            reports: Vec::new(),
        };
        assert(r@.dbg_reg =~= seq![0usize, 0usize, 0usize, 0usize]);
        assert(r@.wf()) by {
            reveal(table_wf);
        }
        r
    }

    /// The threads that are marked to run on.
    pub fn tid_to_run(&self) -> (r: &HashSet<Tid>)
        ensures
            r@ == self@.tid_to_run,
    {
        &self.tid_to_run
    }

    /// The numbers of the breakpoints that are addresses, each once.
    pub fn get_bp_list(&self) -> (r: Vec<BpID>)
        ensures
            r@.no_duplicates(),
            forall|id: BpID| #[trigger]
                r@.contains(id) <==> id > 0 && self@.bp_map.dom().contains(id),
    {
        let keys = self.bp_keys();
        let mut list: Vec<BpID> = Vec::new();
        let mut i: usize = 0;
        while i < keys.len()
            invariant
                i <= keys.len(),
                keys@.no_duplicates(),
                list@.no_duplicates(),
                forall|id: BpID| #[trigger]
                    list@.contains(id) <==> id > 0 && keys@.take(i as int).contains(id),
            decreases keys.len() - i,
        {
            let id: BpID = keys[i];
            let ghost before = list@;
            let ghost some = keys@.take(i as int);
            let ghost more = keys@.take(i + 1);
            assert(more =~= some.push(id));
            assert(!some.contains(id)) by {
                if some.contains(id) {
                    let j = choose|j: int| 0 <= j < some.len() && some[j] == id;
                    assert(keys@[j] == keys@[i as int]);
                }
            }
            proof {
                lemma_push(some, id);
            }
            assert(!before.contains(id));
            if id > 0 {
                list.push(id);
                proof {
                    lemma_push(before, id);
                }
            }
            assert forall|x: BpID| #[trigger] list@.contains(x) <==> x > 0 && more.contains(x) by {
                assert(before.contains(x) <==> x > 0 && some.contains(x));
            }
            i += 1;
        }
        assert(keys@.take(i as int) =~= keys@);
        assert forall|x: BpID| #[trigger] list@.contains(x) <==> x > 0
            && self@.bp_map.dom().contains(x) by {
            assert(keys@.to_set().contains(x) <==> keys@.contains(x));
        }
        list
    }

    /// The numbers in the table.
    fn bp_keys(&self) -> (r: Vec<BpID>)
        ensures
            r@.no_duplicates(),
            r@.to_set() == self@.bp_map.dom(),
    {
        let mut keys: Vec<BpID> = Vec::new();
        for k in it: self.bp_map.keys()
            invariant
                it.seq().unref().to_set() == self.bp_map@.dom(),
                it.seq().no_duplicates(),
                keys@ == it.seq().unref().take(it.index()),
                it.index() == it.seq().len() ==> keys@ =~= it.seq().unref(),
        {
            assert(it.seq().unref().take(it.index() + 1) =~= keys@.push(*k));
            keys.push(*k);
        }
        keys
    }

    /// Forgets the modules that were known before a look at the system's list and
    /// are not in it any more.
    pub fn check_all_module(&mut self, known: &Vec<usize>, present: &Vec<usize>)
        ensures
            final(self)@ == (AdaptorState {
                modules: modules_left(old(self)@.modules, known@, present@),
                ..old(self)@
            }),
    {
        self.symgr.drop_stale(known, present);
    }

    /// A named place, given as the module's where the symbol is too far away.
    pub fn to_syminfo(sym: SymbolInfo, addr: usize, max_offset: usize) -> (r: SymbolInfo)
        requires
            sym.symbol@.len() > 0 && sym.offset > max_offset ==> sym.mod_base <= addr,
        ensures
            r.module == sym.module,
            r.mod_base == sym.mod_base,
            if sym.symbol@.len() > 0 && sym.offset > max_offset {
                r.symbol@ == Seq::<char>::empty() && r.offset == addr - sym.mod_base
            } else {
                r.symbol == sym.symbol && r.offset == sym.offset
            },
    {
        let mut sym = sym;
        if !sym.symbol.as_str().is_empty() && sym.offset > max_offset {
            sym.symbol = String::new();
            sym.offset = addr - sym.mod_base;
        }
        sym
    }

    /// A property of the target by its name.
    pub fn get_prop(&self, key: &str, peb: Option<usize>) -> (r: UDbgResult<PropValue>)
        ensures
            r == (if key@ == "peb"@ {
                match peb {
                    Some(peb) => Ok::<PropValue, UDbgError>(PropValue::U64(peb as u64)),
                    None => Err(UDbgError::NotFound),
                }
            } else if key@ == "wow64"@ {
                Ok(PropValue::Bool(self@.wow64))
            } else if key@ == "handle"@ {
                Ok(PropValue::U64(self@.process.handle as u64))
            } else {
                Err(UDbgError::NotFound)
            }),
    {
        let key = key.to_owned();
        if key == "peb".to_owned() {
            match peb {
                Some(peb) => Ok(PropValue::U64(peb as u64)),
                None => Err(UDbgError::NotFound),
            }
        } else if key == "wow64".to_owned() {
            Ok(PropValue::Bool(self.symgr.is_wow64))
        } else if key == "handle".to_owned() {
            Ok(PropValue::U64(self.process.handle as u64))
        } else {
            Err(UDbgError::NotFound)
        }
    }

    /// Shows a string of the target, if strings are shown.
    pub fn output_debug_string(&self, address: usize, count: usize, wide: bool) -> (r: Option<
        Action,
    >)
        ensures
            r == (if self@.base.show_output {
                Some(Action::ShowString { address, count, wide })
            } else {
                None
            }),
    {
        if self.base.show_output {
            Some(Action::ShowString { address, count, wide })
        } else {
            None
        }
    }

    /// What came of ending the target.
    pub fn terminate_process(reply: Reply) -> (r: UDbgResult<()>)
        ensures
            r == (match reply.failed() {
                Some(code) => Err::<(), UDbgError>(UDbgError::System(code)),
                None => Ok(()),
            }),
    {
        match reply.failed() {
            Some(code) => Err(UDbgError::System(code)),
            None => Ok(()),
        }
    }
}

impl StandardAdaptor {
    /// A target at the start of its session.
    pub fn new(debug: CommonAdaptor, image_path: Option<String>) -> (r: StandardAdaptor)
        ensures
            r@.debug == (AdaptorState {
                base: UDbgBase { image_path: r@.debug.base.image_path, ..debug@.base },
                ..debug@
            }),
            r@.debug.base.image_path@ == (match image_path {
                Some(path) => path@,
                None => Seq::empty(),
            }),
            r@.record.code == 0,
            r@.record.address == 0,
            forall|i: int| 0 <= i < 15 ==> r@.record.params@[i] == 0,
            r@.threads == Map::<Tid, DbgThread>::empty(),
            !r@.attached,
            !r@.detaching,
            debug@.wf() ==> r@.debug.wf(),
    {
        let mut debug = debug;
        debug.base.image_path =
        match image_path {
            Some(path) => path,
            None => String::new(),
        };
        StandardAdaptor {
            debug,
            record: ExceptionRecord {
                code: 0,
                address: 0,
                params: [0, 0, 0, 0, 0, 0, 0, 0, 0, 0, 0, 0, 0, 0, 0],
            },
            threads: HashMap::new(),
            attached: false,
            detaching: false,
        }
    }

    /// The same target, taken over while it ran.
    pub fn attach(self) -> (r: StandardAdaptor)
        ensures
            r@ == (StandardState { attached: true, ..self@ }),
    {
        let mut r = self;
        r.attached = true;
        r
    }

    /// What came of opening a process.
    pub fn open(process: Option<Process>) -> (r: UDbgResult<Process>)
        ensures
            r == (match process {
                Some(p) => Ok::<Process, UDbgError>(p),
                None => Err(UDbgError::Text(Reason::OpenProcess)),
            }),
    {
        match process {
            Some(p) => Ok(p),
            None => Err(UDbgError::Text(Reason::OpenProcess)),
        }
    }

    /// The threads the events brought.
    pub fn threads(&self) -> (r: &HashMap<Tid, DbgThread>)
        ensures
            r@ == self@.threads,
    {
        &self.threads
    }

    /// The last exception.
    pub fn record(&self) -> (r: &ExceptionRecord)
        ensures
            *r == self@.record,
    {
        &self.record
    }

    /// The registers of the stopped thread, while they are to be written back.
    pub fn context(&self) -> (r: Option<Context64>)
        ensures
            r == (if self@.debug.has_cx {
                Some(self@.debug.cx)
            } else {
                None
            }),
    {
        if self.debug.has_cx {
            Some(self.debug.cx)
        } else {
            None
        }
    }

    /// Which registers the user works with: those of the 32-bit side before the
    /// others, and none while the target runs.
    pub fn get_registers(&self) -> (r: UDbgResult<Width>)
        ensures
            r == (if self@.debug.has_cx32 {
                Ok::<Width, UDbgError>(Width::Narrow)
            } else if self@.debug.has_cx {
                Ok(Width::Wide)
            } else {
                Err(UDbgError::TargetIsBusy)
            }),
    {
        if self.debug.has_cx32 {
            Ok(Width::Narrow)
        } else if self.debug.has_cx {
            Ok(Width::Wide)
        } else {
            Err(UDbgError::TargetIsBusy)
        }
    }

    /// A parameter of the last exception.
    pub fn except_param(&self, i: usize) -> (r: Option<usize>)
        ensures
            r == (if i < 15 {
                Some(self@.record.params@[i as int] as usize)
            } else {
                None
            }),
    {
        if i < 15 {
            Some(self.record.params[i] as usize)
        } else {
            None
        }
    }

    /// How many bytes were written, if any were.
    pub fn write_memory(written: usize) -> (r: Option<usize>)
        ensures
            r == (if written == 0 {
                None
            } else {
                Some(written)
            }),
    {
        match written {
            0 => None,
            s => Some(s),
        }
    }

    /// Starts to stop the target where it is.
    pub fn breakk(&self) -> (r: BreakPoll)
        ensures
            r == break_start(self@.debug.base.status),
    {
        if let Err(e) = self.debug.base.check_opened() {
            return Poll::Ready(Err(e));
        }
        if self.debug.base.is_paused() {
            return Poll::Ready(Err(UDbgError::Text(Reason::AlreadyPaused)));
        }
        Poll::Pending(Action::BreakProcess, BreakOp)
    }

    /// What came of stopping the target.
    pub fn resume_break(reply: Reply) -> (r: UDbgResult<()>)
        ensures
            r == (match reply.failed() {
                Some(code) => Err::<(), UDbgError>(UDbgError::System(code)),
                None => Ok(()),
            }),
    {
        match reply.failed() {
            Some(code) => Err(UDbgError::System(code)),
            None => Ok(()),
        }
    }

    /// Starts to leave the target. One that is only open is left at once; one
    /// that runs is stopped first, and left after its next event.
    pub fn detach(&mut self) -> (r: BreakPoll)
        ensures
            ({
                let s = old(self)@;
                let status = s.debug.base.status;
                if status == UDbgStatus::Opened {
                    &&& r == BreakPoll::Ready(Ok(()))
                    &&& final(self)@ == (StandardState {
                        debug: AdaptorState {
                            base: UDbgBase { status: UDbgStatus::Ended, ..s.debug.base },
                            ..s.debug
                        },
                        ..s
                    })
                } else {
                    &&& final(self)@ == (StandardState { detaching: true, ..s })
                    &&& r == (if status == UDbgStatus::Paused {
                        BreakPoll::Ready(Ok(()))
                    } else {
                        BreakPoll::Pending(Action::BreakProcess, BreakOp)
                    })
                }
            }),
    {
        if self.debug.base.is_opened() {
            self.debug.base.status = UDbgStatus::Ended;
            return Poll::Ready(Ok(()));
        }
        self.detaching = true;
        if self.debug.base.is_paused() {
            Poll::Ready(Ok(()))
        } else {
            self.breakk()
        }
    }

    /// What came of ending the target.
    pub fn kill(reply: Reply) -> (r: UDbgResult<()>)
        ensures
            r == (match reply.failed() {
                Some(code) => Err::<(), UDbgError>(UDbgError::System(code)),
                None => Ok(()),
            }),
    {
        CommonAdaptor::terminate_process(reply)
    }

    /// Whether the modules are to be looked at anew before they are listed: of a
    /// target that is only open no event tells.
    pub fn needs_refresh(&self) -> (r: bool)
        ensures
            r == (self@.debug.base.status == UDbgStatus::Opened),
    {
        self.debug.base.is_opened()
    }

    /// The modules of the target.
    pub fn enum_module(&self) -> (r: &Vec<WinModule>)
        ensures
            r@ == self@.debug.modules,
    {
        &self.debug.symgr.list
    }

    /// The threads the events brought, or nothing where the target is only open
    /// and its threads have to be walked.
    pub fn enum_thread(&self) -> (r: Option<Vec<Tid>>)
        ensures
            r is None <==> self@.debug.base.status == UDbgStatus::Opened,
            r matches Some(list) ==> exists|keys: Seq<Tid>|
                #![trigger keys.no_duplicates()]
                {
                    &&& keys.no_duplicates()
                    &&& keys.to_set() == self@.threads.dom()
                    &&& list@ == keys.map_values(|k: Tid| self@.threads[k].tid)
                },
    {
        if self.debug.base.is_opened() {
            None
        } else {
            Some(self.known_threads())
        }
    }

    /// Notes the module that an event introduces, under the path chosen for it;
    /// nothing where there is no path.
    pub fn try_load_module(
        &mut self,
        path: Option<String>,
        base: usize,
        file: usize,
        root: &str,
        mapped: Option<&[u8]>,
        memory: Option<&[u8]>,
        image: &Option<PeImage>,
    ) -> (r: Option<Loaded>)
        ensures
            final(self)@ == (StandardState {
                debug: AdaptorState { modules: final(self)@.debug.modules, ..old(self)@.debug },
                ..old(self)@
            }),
            match path {
                Some(path) => r matches Some(loaded) && load_outcome(
                    old(self)@.debug.modules,
                    final(self)@.debug.modules,
                    old(self)@.debug.wow64,
                    Origin { base, size: 0, path: path@, file },
                    root,
                    header_bytes(mapped, memory),
                    *image,
                    loaded,
                ),
                None => r is None && final(self)@.debug.modules == old(self)@.debug.modules,
            },
    {
        match path {
            Some(path) => {
                let from = ModuleFile { base, size: 0, path: path.as_str(), file };
                Some(self.debug.symgr.check_load_module(from, root, mapped, memory, image))
            },
            None => None,
        }
    }
}

/// What a list with one more number holds.
proof fn lemma_push(s: Seq<BpID>, id: BpID)
    ensures
        forall|x: BpID| #[trigger] s.push(id).contains(x) <==> s.contains(x) || x == id,
{
    let more = s.push(id);
    assert forall|x: BpID| #[trigger] more.contains(x) <==> s.contains(x) || x == id by {
        if s.contains(x) {
            let j = choose|j: int| 0 <= j < s.len() && s[j] == x;
            assert(more[j] == x);
        }
        assert(more[s.len() as int] == id);
        if more.contains(x) && x != id {
            let j = choose|j: int| 0 <= j < more.len() && more[j] == x;
            assert(s[j] == x);
        }
    }
}

} // verus!
