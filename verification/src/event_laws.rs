//! What the loop does with each kind of event, told from the event and the host's
//! answers to what the user is told and the system is answered.
use vstd::prelude::*;

use crate::adaptor::{AdaptorState, UDbgBase};
use crate::enable::{all_from, all_next, AllOp};
use crate::event_loop::{loop_cont, loop_handled, loop_next, loop_start, LoopOp, LoopPoll};
use crate::handler::{handle_start, without_module, HandleOp, HandlePoll};
use crate::hard_laws::hard_under;
use crate::io::{Action, DebugEvent, EventKind, ImageInfo, Place, Poll, Reply, Report, ThreadInfo};
use crate::modules::{lemma_module_covering, WinModule};
use crate::session::{cont_start, context_read, fetched, with_thread, DbgThread, HandlerState, StandardState};
use crate::types::{HandleResult, Tid, UDbgStatus, UEvent};

verus! {

/// Where the loop stands: the session, and what it waits for.
pub type At = (HandlerState, LoopPoll);

/// The loop after an answer to what it waits for.
#[verifier::opaque]
pub open spec fn goes(at: At, reply: Reply) -> At {
    match at.1 {
        Poll::Pending(_, op) => loop_next(at.0, op, reply),
        Poll::Ready(_) => at,
    }
}

/// The loop after an event came.
#[verifier::opaque]
pub open spec fn comes(h: HandlerState, event: DebugEvent) -> At {
    loop_next(h, LoopOp::Fetch, Reply::Event(event))
}

/// Whether the loop asks the host for an action.
pub open spec fn asks(at: At, action: Action) -> bool {
    at.1 matches Poll::Pending(a, _) && a == action
}

/// Whether the loop tells the user of something.
pub open spec fn tells(at: At, event: UEvent) -> bool {
    asks(at, Action::Callback(event))
}

/// How a thread is reached: by its handle, where one is known.
pub open spec fn reached(threads: Map<Tid, DbgThread>, tid: Tid) -> Place {
    if threads.dom().contains(tid) {
        Place::Handle(threads[tid].handle)
    } else {
        Place::Tid(tid)
    }
}

/// Whether the loop asks for the registers of the thread of the event at hand.
pub open spec fn asks_registers(at: At) -> bool {
    asks(at, Action::GetContext { place: reached(at.0.this.threads, at.0.event.tid) })
}

/// Whether the loop answers the system for the event at hand.
pub open spec fn answers(at: At, status: u32) -> bool {
    asks(at, Action::ContinueEvent { pid: at.0.event.pid, tid: at.0.event.tid, status })
}

/// Whether the loop goes on from the event at hand: the registers that were read
/// are written back first, those of the 32-bit side rather than the others, and
/// then the system is answered. Nothing of the session changes but that no
/// registers are left to be written back.
#[verifier::opaque]
pub open spec fn goes_on(h: HandlerState, at: At, status: u32) -> bool {
    let s = h.this.debug;
    let place = reached(h.this.threads, h.event.tid);
    &&& at.0 == (HandlerState {
        this: StandardState {
            debug: AdaptorState { has_cx: false, has_cx32: false, ..s },
            ..h.this
        },
        ..h
    })
    &&& if s.has_cx32 {
        asks(at, Action::SetContext32 { place, cx32: s.cx32 }) && forall|r: Reply|
            answers(#[trigger] goes(at, r), status)
    } else if s.has_cx {
        asks(at, Action::SetContext { place, cx: s.cx }) && forall|r: Reply|
            answers(#[trigger] goes(at, r), status)
    } else {
        answers(at, status)
    }
}

/// Going on from an event writes the registers back and answers the system.
pub proof fn lemma_goes_on(h: HandlerState, status: HandleResult)
    ensures
        goes_on(h, loop_cont(cont_start(h, status)), status.number()),
{
    reveal(goes);
    reveal(comes);
    reveal(goes_on);
    let at = loop_cont(cont_start(h, status));
    assert forall|r: Reply| answers(#[trigger] goes(at, r), status.number()) || answers(
        at,
        status.number(),
    ) by {}
}

/// Whether two sessions have the same breakpoints, slots and modules.
pub open spec fn same_target(a: AdaptorState, b: AdaptorState) -> bool {
    &&& a.bps == b.bps
    &&& a.bp_map == b.bp_map
    &&& a.dbg_reg == b.dbg_reg
    &&& a.modules == b.modules
    &&& a.protected == b.protected
    &&& a.process == b.process
    &&& a.step_tid == b.step_tid
    &&& a.wow64 == b.wow64
}

/// Whether the registers that the host read were taken in, and became where the
/// thread stands; where it read none, all is as it was.
pub open spec fn took_registers(h: HandlerState, h1: HandlerState, reply: Reply) -> bool {
    let s = h.this.debug;
    match reply {
        Reply::Context(cx) => h1 == (HandlerState {
            this: StandardState {
                debug: AdaptorState {
                    cx,
                    has_cx: true,
                    base: UDbgBase { event_pc: cx.rip as usize, ..s.base },
                    ..s
                },
                ..h.this
            },
            ..h
        }),
        _ => h1 == h,
    }
}

/// Every answer has the number the system knows it by.
pub proof fn lemma_answer_numbers()
    ensures
        HandleResult::Continue.number() == 0x00010002,
        HandleResult::Handled.number() == 0x00010001,
        HandleResult::NotHandled.number() == 0x80010001,
{
}

/// Whether a session is stopped at an event: paused, in the thread of the event, and
/// at an exception with its record kept and the place of it as that of the thread.
/// Breakpoints, slots and modules are those of before.
pub open spec fn stopped_at(h: HandlerState, h1: HandlerState, event: DebugEvent) -> bool {
    let base = h1.this.debug.base;
    &&& h1.event == event
    &&& base.status == UDbgStatus::Paused
    &&& base.event_tid == event.tid
    &&& same_target(h1.this.debug, h.this.debug)
    &&& h1.this.attached == h.this.attached
    &&& h1.this.detaching == h.this.detaching
    &&& h1.first_bp_hitted == h.first_bp_hitted
    &&& h1.first_bp32_hitted == h.first_bp32_hitted
    &&& match event.kind {
        EventKind::Exception { first, record } => h1.this.record == record && base.event_pc
            == record.address as usize,
        _ => h1.this.record == h.this.record && base.event_pc == h.this.debug.base.event_pc,
    }
}

proof fn lemma_started(h: HandlerState, event: DebugEvent)
    ensures
        stopped_at(h, handle_start(fetched(h, event)).0, event),
{
    reveal(handle_start);
}

proof fn lemma_handled(went: (HandlerState, HandlePoll))
    ensures
        ({
            let h1 = loop_handled(went).0;
            &&& h1.event == went.0.event
            &&& h1.this.record == went.0.this.record
            &&& h1.this.attached == went.0.this.attached
            &&& h1.this.detaching == went.0.this.detaching
            &&& h1.first_bp_hitted == went.0.first_bp_hitted
            &&& h1.first_bp32_hitted == went.0.first_bp32_hitted
            &&& same_target(h1.this.debug, went.0.this.debug)
            &&& h1.this.debug.base == went.0.this.debug.base
        }),
{
}

/// An event that came stops the session at it.
pub proof fn lemma_event_taken(h: HandlerState, event: DebugEvent)
    ensures
        stopped_at(h, comes(h, event).0, event),
{
    reveal(goes);
    reveal(comes);
    lemma_started(h, event);
    lemma_handled(handle_start(fetched(h, event)));
}

/// Once the system was answered the loop waits for the next event, running; a target
/// that is being left is let go first, and it is shown whether that was done.
pub proof fn lemma_waits_again(at: At, reply: Reply, left: Reply)
    requires
        at.1 matches Poll::Pending(Action::ContinueEvent { .. }, op) && op is Cont && op->Cont_0.stage
            == crate::session::ContStage::Continue,
    ensures
        ({
            let at1 = goes(at, reply);
            let s = at.0.this.debug;
            if at.0.this.detaching {
                let at2 = goes(at1, left);
                &&& asks(at1, Action::StopDebugging { pid: at.0.event.pid })
                &&& asks(at2, Action::WaitEvent)
                &&& at2.0.this.debug.base.status == UDbgStatus::Running
                &&& at2.0.this.debug.reports == s.reports.push(
                    Report::Detached(left == Reply::Flag(true)),
                )
                &&& same_target(at2.0.this.debug, s)
            } else {
                &&& asks(at1, Action::WaitEvent)
                &&& at1.0.this.debug == (AdaptorState {
                    base: UDbgBase { status: UDbgStatus::Running, ..s.base },
                    ..s
                })
            }
        }),
{
    reveal(goes);
    reveal(comes);
}

/// A target that is only open is waited for, ten milliseconds at a time, until the
/// system no longer says that the time ran out or it is no longer open; one under
/// debugging is run. It is shown which side the target is of.
pub proof fn lemma_loop_begins(h: HandlerState, reply: Reply)
    ensures
        ({
            let at = loop_start(h);
            let s = h.this.debug;
            let opened = s.base.status == UDbgStatus::Opened;
            &&& at.0.this.debug.reports == s.reports.push(Report::Wow64(s.wow64))
            &&& same_target(at.0.this.debug, s)
            &&& opened ==> asks(at, Action::WaitExit { timeout: 10 })
            &&& !opened ==> asks(at, Action::WaitEvent) && at.0.this.debug.base.status
                == UDbgStatus::Running
            &&& opened && s.wow64 ==> at.0.this.debug.base.arch == crate::types::Arch::X86
            &&& opened ==> {
                let at1 = goes(at, reply);
                &&& reply == Reply::Word(258) ==> asks(at1, Action::WaitExit { timeout: 10 })
                &&& reply != Reply::Word(258) ==> at1.1 is Ready
            }
            &&& loop_next(
                HandlerState {
                    this: StandardState {
                        debug: AdaptorState {
                            base: UDbgBase { status: UDbgStatus::Paused, ..s.base },
                            ..s
                        },
                        ..h.this
                    },
                    ..h
                },
                LoopOp::Exit,
                reply,
            ).1 is Ready
        }),
{
    reveal(goes);
    reveal(comes);
}

/// A new process: its thread is known from then on, its module is noted, and the
/// user is told of the process and then of its thread.
pub proof fn lemma_process_told(
    h: HandlerState,
    event: DebugEvent,
    thread: ThreadInfo,
    image: ImageInfo,
    a: Reply,
    b: Reply,
    c: Reply,
    d: Reply,
)
    requires
        event.kind == (EventKind::CreateProcess { thread, image }),
    ensures
        ({
            let at = comes(h, event);
            let at1 = goes(at, a);
            let at2 = goes(at1, b);
            let at3 = goes(at2, c);
            let at4 = goes(at3, d);
            &&& asks(
                at,
                Action::LoadModule {
                    name: image.name,
                    base: image.base,
                    file: image.file,
                    unicode: image.unicode,
                },
            )
            &&& at.0.this.threads == h.this.threads.insert(
                event.tid,
                DbgThread {
                    tid: thread.tid,
                    handle: thread.handle,
                    local_base: thread.local_base,
                    start_address: thread.start_address,
                },
            )
            &&& at.0.this.debug.reports == (if thread.handle == 0 {
                h.this.debug.reports.push(Report::NoProcessHandle(event.tid))
            } else {
                h.this.debug.reports
            })
            &&& asks(at1, Action::GetContext { place: Place::Handle(thread.handle) })
            &&& took_registers(at1.0, at2.0, b)
            &&& tells(at2, UEvent::ProcessCreate)
            &&& tells(at3, UEvent::ThreadCreate(event.tid))
            &&& at3.0 == at2.0
            &&& goes_on(at3.0, at4, 0x00010002)
        }),
{
    reveal(goes);
    reveal(comes);
    reveal(handle_start);
    let at3 = goes(goes(goes(comes(h, event), a), b), c);
    lemma_goes_on(at3.0, HandleResult::Continue);
}

/// The end of the process: the user is told with its code, and the loop ends.
pub proof fn lemma_process_exit_told(h: HandlerState, event: DebugEvent, code: u32, a: Reply, b: Reply)
    requires
        event.kind == EventKind::ExitProcess(code),
    ensures
        ({
            let at = comes(h, event);
            let at1 = goes(at, a);
            let at2 = goes(at1, b);
            &&& asks_registers(at)
            &&& took_registers(at.0, at1.0, a)
            &&& tells(at1, UEvent::ProcessExit(code))
            &&& at2.1 is Ready
            &&& at2.0 == at1.0
        }),
{
    reveal(goes);
    reveal(comes);
    reveal(handle_start);
}

/// Whether no breakpoint in a slot stands under one of the numbers from 0 to -3.
pub open spec fn slots_unused(s: AdaptorState) -> bool {
    &&& hard_under(s, 0) is None
    &&& hard_under(s, -1) is None
    &&& hard_under(s, -2) is None
    &&& hard_under(s, -3) is None
}

proof fn lemma_slots_looked_for(s: AdaptorState, handle: usize)
    ensures
        slots_unused(s) ==> all_from(s, handle, true, 0) is Ready,
        !slots_unused(s) ==> (all_from(s, handle, true, 0) matches Poll::Pending(action, _)
            && action == (Action::Suspend { handle })),
{
    reveal_with_fuel(all_from, 5);
    assert(hard_under(s, -0) == hard_under(s, 0));
}

/// A new thread: it is asked whether it is to be left without breakpoints.
pub proof fn lemma_thread_asked(h: HandlerState, event: DebugEvent, info: ThreadInfo)
    requires
        event.kind == EventKind::CreateThread(info),
    ensures
        ({
            let at = comes(h, event);
            &&& asks(at, Action::AskHwbp)
            &&& at.1->Pending_1 == LoopOp::Handle(HandleOp::ThreadAsk { info })
            &&& at.0.this.threads == h.this.threads
            &&& at.0.this.debug.reports == (if info.handle == 0 {
                h.this.debug.reports.push(Report::NoThreadHandle(event.tid))
            } else {
                h.this.debug.reports
            })
        }),
{
    reveal(goes);
    reveal(comes);
    reveal(handle_start);
}

/// Where a new thread is to be left without breakpoints, or no slot is in use, the
/// thread is known from then on and the user is told of it; else the slots in use are
/// set in it first, which starts with suspending it.
pub proof fn lemma_thread_told(
    h: HandlerState,
    event: DebugEvent,
    info: ThreadInfo,
    a: Reply,
    b: Reply,
    c: Reply,
)
    requires
        event.kind == EventKind::CreateThread(info),
    ensures
        ({
            let at = comes(h, event);
            let at1 = goes(at, a);
            let at2 = goes(at1, b);
            let at3 = goes(at2, c);
            let left_alone = a == Reply::Flag(true) || slots_unused(h.this.debug);
            &&& !left_alone ==> asks(at1, Action::Suspend { handle: info.handle }) && at1.0 == at.0
            &&& left_alone ==> {
                &&& at1.0.this.threads == h.this.threads.insert(
                    event.tid,
                    DbgThread {
                        tid: info.tid,
                        handle: info.handle,
                        local_base: info.local_base,
                        start_address: info.start_address,
                    },
                )
                &&& asks(at1, Action::GetContext { place: Place::Handle(info.handle) })
                &&& took_registers(at1.0, at2.0, b)
                &&& tells(at2, UEvent::ThreadCreate(event.tid))
                &&& goes_on(at2.0, at3, 0x00010002)
            }
        }),
{
    reveal(goes);
    reveal(comes);
    let at = comes(h, event);
    lemma_thread_asked(h, event, info);
    lemma_event_taken(h, event);
    let s = at.0.this.debug;
    assert(slots_unused(s) == slots_unused(h.this.debug));
    lemma_slots_looked_for(s, info.handle);
    let at1 = goes(at, a);
    if a == Reply::Flag(true) || slots_unused(s) {
        let h1 = with_thread(at.0, info);
        assert(at1.0 == h1);
        assert(at1.1->Pending_1 == LoopOp::Handle(HandleOp::ThreadContext));
        let at2 = goes(at1, b);
        assert(at2.0 == context_read(h1, b));
        assert(at2.1->Pending_1 == LoopOp::Handle(HandleOp::Last));
        lemma_goes_on(at2.0, HandleResult::Continue);
    }
}

/// Once the slots in use are set in a new thread, it is known and its registers are read;
/// until then the loop asks for what the setting of the slots asks for.
pub proof fn lemma_thread_after_arming(at: At, info: ThreadInfo, op: AllOp, a: Reply, b: Reply)
    requires
        at.1 is Pending,
        at.1->Pending_1 == LoopOp::Handle(HandleOp::ThreadArm { info, op }),
    ensures
        ({
            let (s1, poll) = all_next(at.0.this.debug, op, a);
            let at1 = goes(at, a);
            let at2 = goes(at1, b);
            &&& poll matches Poll::Pending(action, op1) ==> {
                &&& asks(at1, action)
                &&& at1.0 == at.0.with(s1)
                &&& at1.1->Pending_1 == LoopOp::Handle(HandleOp::ThreadArm { info, op: op1 })
            }
            &&& poll is Ready ==> {
                &&& at1.0.this.threads == at.0.this.threads.insert(
                    at.0.event.tid,
                    DbgThread {
                        tid: info.tid,
                        handle: info.handle,
                        local_base: info.local_base,
                        start_address: info.start_address,
                    },
                )
                &&& at1.0.this.debug == s1
                &&& asks(at1, Action::GetContext { place: Place::Handle(info.handle) })
                &&& tells(at2, UEvent::ThreadCreate(at.0.event.tid))
                &&& took_registers(at1.0, at2.0, b)
            }
        }),
{
    reveal(goes);
    let (s1, poll) = all_next(at.0.this.debug, op, a);
    let at1 = goes(at, a);
    if poll is Ready {
        let h1 = with_thread(at.0.with(s1), info);
        assert(at1.0 == h1);
        assert(at1.1->Pending_1 == LoopOp::Handle(HandleOp::ThreadContext));
        assert(goes(at1, b).0 == context_read(h1, b));
    }
}

/// The end of a thread: the user is told with its code, the thread is forgotten, and
/// its registers are not written back.
pub proof fn lemma_thread_exit_told(h: HandlerState, event: DebugEvent, code: u32, a: Reply, b: Reply)
    requires
        event.kind == EventKind::ExitThread(code),
    ensures
        ({
            let at = comes(h, event);
            let at1 = goes(at, a);
            &&& asks_registers(at)
            &&& tells(at1, UEvent::ThreadExit(code))
            &&& at1.0.this.threads == h.this.threads.remove(event.tid)
            &&& !at1.0.this.debug.has_cx
            &&& same_target(at1.0.this.debug, h.this.debug)
            &&& goes_on(at1.0, goes(at1, b), 0x00010002)
        }),
{
    reveal(goes);
    reveal(comes);
    reveal(handle_start);
    lemma_goes_on(goes(comes(h, event), a).0, HandleResult::Continue);
}

/// Whether a module is the first of a list that an address lies in.
pub open spec fn is_first_covering(list: Seq<WinModule>, address: usize, i: int) -> bool {
    &&& 0 <= i < list.len()
    &&& list[i].data.base <= address < list[i].data.base + list[i].data.size
    &&& forall|j: int|
        0 <= j < i ==> !((#[trigger] list[j]).data.base <= address < list[j].data.base
            + list[j].data.size)
}

proof fn lemma_first_covering(list: Seq<WinModule>, address: usize)
    ensures
        forall|i: int| #[trigger]
            is_first_covering(list, address, i) ==> crate::modules::module_covering(list, address)
                == Some(i),
        (forall|i: int|
            0 <= i < list.len() ==> !((#[trigger] list[i]).data.base <= address < list[i].data.base
                + list[i].data.size)) ==> crate::modules::module_covering(list, address) is None,
{
    lemma_module_covering(list, address);
    let found = crate::modules::module_covering(list, address);
    assert forall|i: int| #[trigger] is_first_covering(list, address, i) implies found == Some(
        i,
    ) by {
        assert(list[i].covers(address));
        if let Some(j) = found {
            assert(list[j].covers(address));
            if i < j {
                assert(!list[i].covers(address));
            }
        }
    }
    if forall|i: int|
        0 <= i < list.len() ==> !((#[trigger] list[i]).data.base <= address < list[i].data.base
            + list[i].data.size) {
        if let Some(j) = found {
            assert(list[j].covers(address));
        }
    }
}

/// A module that was loaded is noted, and the user is told of the first module known
/// at that place; of nothing, where none is.
pub proof fn lemma_module_load_told(
    h: HandlerState,
    event: DebugEvent,
    image: ImageInfo,
    a: Reply,
    noted: Seq<WinModule>,
    b: Reply,
    c: Reply,
)
    requires
        event.kind == EventKind::LoadDll(image),
    ensures
        ({
            let at = comes(h, event);
            let at1 = goes(at, a);
            let h1 = at1.0.with(AdaptorState { modules: noted, ..at1.0.this.debug });
            let at2 = goes((h1, at1.1), b);
            &&& asks_registers(at)
            &&& took_registers(at.0, at1.0, a)
            &&& asks(
                at1,
                Action::LoadModule {
                    name: image.name,
                    base: image.base,
                    file: image.file,
                    unicode: image.unicode,
                },
            )
            &&& forall|i: int| #[trigger]
                is_first_covering(noted, image.base, i) ==> tells(
                    at2,
                    UEvent::ModuleLoad(noted[i].data.base),
                ) && at2.0 == h1 && goes_on(h1, goes(at2, c), 0x00010002)
            &&& (forall|i: int|
                0 <= i < noted.len() ==> !((#[trigger] noted[i]).data.base <= image.base
                    < noted[i].data.base + noted[i].data.size)) ==> goes_on(h1, at2, 0x00010002)
        }),
{
    reveal(goes);
    reveal(comes);
    reveal(handle_start);
    lemma_first_covering(noted, image.base);
    let at1 = goes(comes(h, event), a);
    let h1 = at1.0.with(AdaptorState { modules: noted, ..at1.0.this.debug });
    lemma_goes_on(h1, HandleResult::Continue);
}

/// A module that was unloaded: the user is told of the first module known at that
/// place while it is still known, and then no module that starts there is.
pub proof fn lemma_module_unload_told(
    h: HandlerState,
    event: DebugEvent,
    base: usize,
    i: int,
    a: Reply,
    b: Reply,
)
    requires
        event.kind == (EventKind::UnloadDll { base }),
        is_first_covering(h.this.debug.modules, base, i),
    ensures
        ({
            let at = comes(h, event);
            let at1 = goes(at, a);
            let modules = h.this.debug.modules;
            let left = modules.filter(|m: WinModule| m.data.base != base);
            &&& asks_registers(at)
            &&& took_registers(at.0, at1.0, a)
            &&& tells(at1, UEvent::ModuleUnload(modules[i].data.base))
            &&& goes_on(
                at1.0.with(AdaptorState { modules: left, ..at1.0.this.debug }),
                goes(at1, b),
                0x00010002,
            )
        }),
{
    reveal(goes);
    reveal(comes);
    let at = comes(h, event);
    lemma_unload_starts(h, event, base);
    lemma_first_covering(h.this.debug.modules, base);
    let at1 = goes(at, a);
    assert(at1.1->Pending_1 == LoopOp::Handle(HandleOp::DllUnloadTold { base }));
    let h1 = without_module(at1.0, base);
    lemma_goes_on(h1, HandleResult::Continue);
    assert(goes(at1, b) == loop_cont(cont_start(h1, HandleResult::Continue)));
}

/// Where no module is known at the place of one that was unloaded, the user is told
/// of nothing, and no module that starts there is known after it.
pub proof fn lemma_module_unload_untold(h: HandlerState, event: DebugEvent, base: usize, a: Reply)
    requires
        event.kind == (EventKind::UnloadDll { base }),
        forall|i: int|
            0 <= i < h.this.debug.modules.len() ==> !((
            #[trigger] h.this.debug.modules[i]).data.base <= base < h.this.debug.modules[i].data.base
                + h.this.debug.modules[i].data.size),
    ensures
        ({
            let at1 = goes(comes(h, event), a);
            let left = h.this.debug.modules.filter(|m: WinModule| m.data.base != base);
            &&& at1.0.this.debug.modules == left
            &&& at1.1 matches Poll::Pending(action, _) && !(action is Callback)
        }),
{
    reveal(goes);
    reveal(comes);
    lemma_unload_starts(h, event, base);
    lemma_first_covering(h.this.debug.modules, base);
}

proof fn lemma_unload_starts(h: HandlerState, event: DebugEvent, base: usize)
    requires
        event.kind == (EventKind::UnloadDll { base }),
    ensures
        ({
            let at = comes(h, event);
            &&& asks_registers(at)
            &&& at.1->Pending_1 == LoopOp::Handle(HandleOp::DllUnload { base })
            &&& at.0.this.debug.modules == h.this.debug.modules
        }),
{
    reveal(goes);
    reveal(comes);
    reveal(handle_start);
}

/// A string the target prints is shown where strings are wanted and output is; it is
/// left to the target where they are not wanted. A fault report is only shown.
pub proof fn lemma_string_shown(
    h: HandlerState,
    event: DebugEvent,
    address: usize,
    count: usize,
    unicode: bool,
    a: Reply,
)
    requires
        event.kind == (EventKind::OutputString { address, count, unicode }),
    ensures
        ({
            let at = comes(h, event);
            let s = h.this.debug;
            let stopped = HandlerState {
                this: StandardState {
                    debug: AdaptorState {
                        base: UDbgBase {
                            status: UDbgStatus::Paused,
                            event_tid: event.tid,
                            ..s.base
                        },
                        ..s
                    },
                    ..h.this
                },
                event,
                ..h
            };
            &&& !s.show_debug_string ==> goes_on(stopped, at, 0x80010001)
            &&& s.show_debug_string && !s.base.show_output ==> goes_on(stopped, at, 0x00010002)
            &&& s.show_debug_string && s.base.show_output ==> {
                &&& asks(at, Action::ShowString { address, count, wide: unicode })
                &&& at.0 == stopped
                &&& goes_on(stopped, goes(at, a), 0x00010002)
            }
        }),
{
    reveal(goes);
    reveal(comes);
    reveal(handle_start);
    lemma_goes_on(fetched(h, event), HandleResult::Continue);
    lemma_goes_on(fetched(h, event), HandleResult::NotHandled);
}

/// A fault that the system reports of itself is shown, and the target goes on.
pub proof fn lemma_rip_shown(h: HandlerState, event: DebugEvent, code: u32, kind: u32)
    requires
        event.kind == (EventKind::Rip { code, kind }),
    ensures
        ({
            let at = comes(h, event);
            let s = h.this.debug;
            let stopped = HandlerState {
                this: StandardState {
                    debug: AdaptorState {
                        base: UDbgBase {
                            status: UDbgStatus::Paused,
                            event_tid: event.tid,
                            ..s.base
                        },
                        reports: s.reports.push(Report::Rip { code, kind }),
                        ..s
                    },
                    ..h.this
                },
                event,
                ..h
            };
            goes_on(stopped, at, 0x00010002)
        }),
{
    reveal(goes);
    reveal(comes);
    reveal(handle_start);
    lemma_goes_on(
        fetched(h, event).report(Report::Rip { code, kind }),
        HandleResult::Continue,
    );
}

} // verus!
