use std::collections::{HashMap, VecDeque};
use udbg::adaptor::{CommonAdaptor, Process, UDbgBase};
use udbg::event_loop::{LoopOp, LoopPoll};
use udbg::io::{Action, DebugEvent, EventKind, ImageInfo, Place, Poll, Reply, Report, ThreadInfo};
use udbg::modules::{ModuleData, SymbolsData, WinModule};
use udbg::regs::{Context32, Context64};
use udbg::session::{StandardAdaptor, Win32Handler};
use udbg::target::Settings;
use udbg::types::{
    Arch, BpHandle, BpOpt, ExceptionRecord, HandleResult, HwbpType, UDbgStatus, UEvent, UserReply,
    BP_INSN,
};

const BREAKPOINT: u32 = 0x80000003;
const SINGLE_STEP: u32 = 0x80000004;
const ACCESS_VIOLATION: u32 = 0xC0000005;
const WX86_BREAKPOINT: u32 = 0x4000001F;
const WX86_SINGLE_STEP: u32 = 0x4000001E;

type User = Box<dyn FnMut(&mut Host, &mut Win32Handler, UEvent) -> UserReply>;

/// A target that is a script of events.
struct Host {
    code: HashMap<usize, u8>,
    pointers: HashMap<usize, usize>,
    cx: HashMap<u32, Context64>,
    cx32: HashMap<u32, Context32>,
    calls: HashMap<usize, usize>,
    events: VecDeque<DebugEvent>,
    walk: VecDeque<u32>,
    keep_hwbp: bool,
    exit_waits: VecDeque<usize>,
    log: Vec<String>,
    told: Vec<UEvent>,
}

impl Host {
    fn new() -> Host {
        Host {
            code: HashMap::new(),
            pointers: HashMap::new(),
            cx: HashMap::new(),
            cx32: HashMap::new(),
            calls: HashMap::new(),
            events: VecDeque::new(),
            walk: VecDeque::new(),
            keep_hwbp: false,
            exit_waits: VecDeque::new(),
            log: Vec::new(),
            told: Vec::new(),
        }
    }

    fn tid(place: Place) -> u32 {
        match place {
            Place::Handle(h) => (h / 4) as u32,
            Place::Tid(tid) => tid,
        }
    }

    fn perform(&mut self, h: &mut Win32Handler, user: &mut User, action: Action) -> Reply {
        match action {
            Action::Callback(event) => {
                self.told.push(event);
                Reply::User(user(self, h, event))
            }
            Action::LoadModule { base, file, .. } => {
                self.log.push(format!("load {:x}", base));
                h.this.debug.symgr.list.push(module(base, file));
                Reply::Done
            }
            Action::WaitEvent => match self.events.pop_front() {
                Some(event) => Reply::Event(event),
                None => Reply::Failed(121),
            },
            Action::ContinueEvent { tid, status, .. } => {
                self.log.push(format!("continue {} {:x}", tid, status));
                Reply::Flag(true)
            }
            Action::StopDebugging { pid } => {
                self.log.push(format!("stop {}", pid));
                Reply::Flag(true)
            }
            Action::AskHwbp => Reply::Flag(self.keep_hwbp),
            Action::ShowString { address, count, wide } => {
                self.log.push(format!("show {:x} {} {}", address, count, wide));
                Reply::Done
            }
            Action::WaitExit { timeout } => {
                self.log.push(format!("wait {}", timeout));
                Reply::Word(self.exit_waits.pop_front().unwrap_or(0))
            }
            other => self.touch(other),
        }
    }

    fn touch(&mut self, action: Action) -> Reply {
        match action {
            Action::ReadInsn { address } => match self.code.get(&address) {
                Some(b) => Reply::Byte(*b),
                None => Reply::Failed(998),
            },
            Action::ReadPtr { address } => match self.pointers.get(&address) {
                Some(p) => Reply::Word(*p),
                None => Reply::Failed(998),
            },
            Action::WriteCode { address, byte } => {
                self.log.push(format!("code {:x} {:02x}", address, byte));
                self.code.insert(address, byte);
                Reply::Word(1)
            }
            Action::WritePtr { address, value } => {
                self.pointers.insert(address, value);
                Reply::Done
            }
            Action::CheckCall { address } => match self.calls.get(&address) {
                Some(after) => Reply::Word(*after),
                None => Reply::Done,
            },
            Action::FirstThread => {
                self.walk = self.cx.keys().copied().collect();
                self.walk.make_contiguous().sort();
                self.touch(Action::NextThread)
            }
            Action::NextThread => match self.walk.pop_front() {
                Some(tid) => Reply::Thread(tid),
                None => Reply::Done,
            },
            Action::OpenThread { tid } => Reply::Handle(tid as usize * 4),
            Action::Suspend { .. } | Action::Resume { .. } => Reply::Done,
            Action::GetDebugRegs { handle } => Reply::Context(self.cx[&((handle / 4) as u32)]),
            Action::SetDebugRegs { handle, cx } => {
                self.cx.insert((handle / 4) as u32, cx);
                Reply::Done
            }
            Action::GetDebugRegs32 { .. } => Reply::Failed(87),
            Action::GetContext { place } => match self.cx.get(&Host::tid(place)) {
                Some(cx) => Reply::Context(*cx),
                None => Reply::Failed(6),
            },
            Action::GetContext32 { place } => match self.cx32.get(&Host::tid(place)) {
                Some(cx) => Reply::Context32(*cx),
                None => Reply::Failed(6),
            },
            Action::SetContext { place, cx } => {
                self.log.push(format!("set {:?} {:x} {:x}", place, cx.rip, cx.eflags));
                self.cx.insert(Host::tid(place), cx);
                Reply::Done
            }
            Action::SetContext32 { place, cx32 } => {
                self.log.push(format!("set32 {:?} {:x} {:x}", place, cx32.eip, cx32.eflags));
                self.cx32.insert(Host::tid(place), cx32);
                Reply::Done
            }
            other => panic!("unexpected {:?}", other),
        }
    }

    fn run(&mut self, h: &mut Win32Handler, user: &mut User) {
        let mut poll: LoopPoll = h.event_loop();
        loop {
            match poll {
                Poll::Pending(action, op) => {
                    let reply = self.perform(h, user, action);
                    assert!(h.loop_expects(&op, reply));
                    poll = h.resume_loop(op, reply);
                }
                Poll::Ready(()) => return,
            }
        }
    }

    fn add(&mut self, s: &mut CommonAdaptor, opt: BpOpt) -> BpHandle {
        let mut poll = s.add_bp(opt);
        loop {
            match poll {
                Poll::Pending(action, op) => poll = s.resume_add_bp(op, self.touch(action)),
                Poll::Ready(r) => return r.expect("add bp"),
            }
        }
    }

    fn remove(&mut self, s: &mut CommonAdaptor, bp: BpHandle) {
        let mut poll = s.remove_breakpoint(bp);
        loop {
            match poll {
                Poll::Pending(action, op) => poll = s.resume_remove(op, self.touch(action)),
                Poll::Ready(()) => return,
            }
        }
    }

    fn event(&mut self, tid: u32, kind: EventKind) {
        self.events.push_back(DebugEvent { pid: 7, tid, kind });
    }

    fn exception(&mut self, tid: u32, code: u32, address: usize) {
        self.event(tid, exception(code, address));
    }

    fn start(&mut self, tid: u32) {
        self.cx.entry(tid).or_insert(Context64::zeroed());
        self.event(
            tid,
            EventKind::CreateProcess {
                thread: thread_info(tid),
                image: ImageInfo { name: 0x10, base: 0x400000, file: 8, unicode: true },
            },
        );
    }
}

fn thread_info(tid: u32) -> ThreadInfo {
    ThreadInfo {
        tid,
        handle: tid as usize * 4,
        local_base: 0x7000 + tid as usize,
        start_address: 0x401000,
    }
}

fn exception(code: u32, address: usize) -> EventKind {
    EventKind::Exception {
        first: true,
        record: ExceptionRecord { code, address: address as u64, params: [0; 15] },
    }
}

fn module(base: usize, file: usize) -> WinModule {
    WinModule {
        data: ModuleData {
            base,
            size: 0x10000,
            entry: 0x1000,
            machine: 0x8664,
            user_module: true,
            name: "main.exe".to_string(),
            path: "C:\\main.exe".to_string(),
        },
        syms: SymbolsData {
            exports: std::collections::BTreeMap::new(),
            pdb: None,
            pdb_name: String::new(),
            pdb_sig: String::new(),
        },
        funcs: Vec::new(),
        file,
    }
}

fn handler(status: UDbgStatus, wow64: bool, attached: bool) -> Win32Handler {
    let base = UDbgBase {
        pid: 0,
        image_base: 0,
        image_path: String::new(),
        event_tid: 0,
        event_pc: 0,
        status,
        arch: Arch::X64,
        show_output: true,
    };
    let debug = CommonAdaptor::new(
        base,
        Process { pid: 7, handle: 0x44 },
        wow64,
        None,
        Settings { symbol_cache: None, symbol_path: None, show_debug_string: Some(true) },
    );
    let this = StandardAdaptor::new(debug, Some("C:\\main.exe".to_string()));
    Win32Handler::new(if attached { this.attach() } else { this })
}

fn go_on() -> User {
    Box::new(|_, _, _| UserReply::Run(true))
}

#[test]
fn a_session_from_start_to_end() {
    let mut host = Host::new();
    let mut h = handler(UDbgStatus::Running, false, false);
    host.code.insert(0x401000, 0x48);
    host.code.insert(0x7ff0_1000, 0x4C);
    host.start(1);
    host.exception(1, BREAKPOINT, 0x7ff0_0000);
    host.exception(1, BREAKPOINT, 0x401000);
    host.exception(1, BREAKPOINT, 0x7ff0_1000);
    host.exception(1, SINGLE_STEP, 0x7ff0_2000);
    host.event(1, EventKind::ExitProcess(3));
    let mut stops = 0;
    let mut user: User = Box::new(move |host, h, event| {
        match event {
            UEvent::InitBp => {
                let entry = h.this.debug.symgr.list[0].entry_point().unwrap();
                assert_eq!(entry, 0x401000);
                host.add(&mut h.this.debug, BpOpt::int3(entry));
                assert_eq!(host.code[&entry], BP_INSN);
                host.cx.get_mut(&1).unwrap().rip = 0x401001;
            }
            UEvent::Breakpoint(bp) => {
                stops += 1;
                let b = h.this.debug.bps[bp];
                if stops == 1 {
                    assert_eq!(h.this.debug.cx.rip as usize, b.address);
                    host.remove(&mut h.this.debug, bp);
                    assert_eq!(host.code[&0x401000], 0x48);
                    host.add(&mut h.this.debug, BpOpt::int3(0x7ff0_1000));
                    host.cx.get_mut(&1).unwrap().rip = 0x7ff0_1001;
                } else if stops == 2 {
                    assert_eq!(h.this.debug.cx.rip as usize, b.address);
                    host.add(
                        &mut h.this.debug,
                        BpOpt::hwbp(0x9000, HwbpType::Access, None),
                    );
                    host.remove(&mut h.this.debug, bp);
                    assert_eq!(h.this.debug.cx.dr0, 0x9000);
                    h.this.debug.cx.dr6 = 1;
                } else {
                    assert!(b.is_hard());
                    assert_eq!(b.address, 0x9000);
                    host.remove(&mut h.this.debug, bp);
                    assert_eq!(h.this.debug.cx.dr7, 0);
                }
            }
            _ => {}
        }
        UserReply::Run(true)
    });
    host.run(&mut h, &mut user);
    assert_eq!(
        host.told,
        vec![
            UEvent::ProcessCreate,
            UEvent::ThreadCreate(1),
            UEvent::InitBp,
            UEvent::Breakpoint(0),
            UEvent::Breakpoint(1),
            UEvent::Breakpoint(2),
            UEvent::ProcessExit(3),
        ]
    );
    assert!(h.this.debug.get_bp_list().is_empty());
    assert_eq!(h.this.debug.bps[0].hit_count, 1);
    assert_eq!(h.this.debug.base.status, UDbgStatus::Paused);
    assert_eq!(h.this.debug.reports, vec![Report::Wow64(false)]);
}

#[test]
fn a_trap_that_stays_is_stepped_over() {
    let mut host = Host::new();
    let mut h = handler(UDbgStatus::Running, false, false);
    host.code.insert(0x401000, 0x55);
    host.start(1);
    host.exception(1, BREAKPOINT, 0x7ff0_0000);
    host.exception(1, BREAKPOINT, 0x401000);
    host.cx.insert(2, Context64::zeroed());
    host.event(2, EventKind::CreateThread(thread_info(2)));
    host.exception(1, SINGLE_STEP, 0x401001);
    host.event(1, EventKind::ExitProcess(0));
    let mut user: User = Box::new(|host, h, event| {
        if event == UEvent::InitBp {
            host.add(&mut h.this.debug, BpOpt::int3(0x401000));
            host.log.clear();
        }
        UserReply::Run(true)
    });
    host.run(&mut h, &mut user);
    assert_eq!(
        host.log,
        vec![
            "set Handle(4) 0 0",
            "continue 1 10002",
            "code 401000 55",
            "set Handle(4) 401000 100",
            "continue 1 10001",
            "set Handle(8) 0 0",
            "continue 2 10002",
            "code 401000 cc",
            "continue 1 10002",
        ]
    );
    assert!(h.this.debug.bps[0].enabled);
    assert_eq!(host.code[&0x401000], 0xCC);
    assert_eq!(host.told[4], UEvent::ThreadCreate(2));
    assert_eq!(h.this.threads().len(), 2);
}

#[test]
fn a_user_step_over_a_trap_is_told() {
    let mut host = Host::new();
    let mut h = handler(UDbgStatus::Running, false, false);
    host.code.insert(0x401000, 0x55);
    host.start(1);
    host.exception(1, BREAKPOINT, 0x7ff0_0000);
    host.exception(1, BREAKPOINT, 0x401000);
    host.exception(1, SINGLE_STEP, 0x401001);
    host.event(1, EventKind::ExitProcess(0));
    let mut user: User = Box::new(|host, h, event| match event {
        UEvent::InitBp => {
            host.add(&mut h.this.debug, BpOpt::int3(0x401000));
            UserReply::Run(true)
        }
        UEvent::Breakpoint(_) => UserReply::StepIn,
        _ => UserReply::Run(true),
    });
    host.run(&mut h, &mut user);
    assert_eq!(host.told[4], UEvent::Step);
    assert_eq!(h.this.debug.step_tid, 0);
    assert!(h.this.debug.bps[0].enabled);
}

#[test]
fn an_unexpected_event_of_a_stepping_thread_is_noticed() {
    let mut host = Host::new();
    let mut h = handler(UDbgStatus::Running, false, false);
    host.code.insert(0x401000, 0x55);
    host.start(1);
    host.exception(1, BREAKPOINT, 0x7ff0_0000);
    host.exception(1, BREAKPOINT, 0x401000);
    let mut user: User = Box::new(|host, h, event| {
        if event == UEvent::InitBp {
            host.add(&mut h.this.debug, BpOpt::int3(0x401000));
        }
        UserReply::Run(true)
    });
    let mut poll = h.event_loop();
    let op = loop {
        match poll {
            Poll::Pending(action, op) => {
                if matches!(action, Action::WaitEvent) && host.events.is_empty() {
                    break op;
                }
                let reply = host.perform(&mut h, &mut user, action);
                poll = h.resume_loop(op, reply);
            }
            Poll::Ready(()) => panic!("ended"),
        }
    };
    assert!(matches!(op, LoopOp::Handle(_)));
    let fault = DebugEvent { pid: 7, tid: 1, kind: exception(ACCESS_VIOLATION, 0) };
    let exit = DebugEvent { pid: 7, tid: 1, kind: EventKind::ExitThread(0) };
    let other = DebugEvent { pid: 7, tid: 2, kind: exception(ACCESS_VIOLATION, 0) };
    let step = DebugEvent { pid: 7, tid: 1, kind: exception(SINGLE_STEP, 0) };
    assert!(!h.loop_expects(&op, Reply::Event(fault)));
    assert!(!h.loop_expects(&op, Reply::Event(exit)));
    assert!(h.loop_expects(&op, Reply::Event(other)));
    assert!(h.loop_expects(&op, Reply::Event(step)));
    assert!(h.loop_expects(&op, Reply::Failed(1)));
}

#[test]
fn a_breakpoint_for_another_thread_is_passed_in_silence() {
    let mut host = Host::new();
    let mut h = handler(UDbgStatus::Running, false, false);
    host.code.insert(0x401000, 0x55);
    host.start(1);
    host.exception(1, BREAKPOINT, 0x7ff0_0000);
    host.exception(1, BREAKPOINT, 0x401000);
    host.exception(1, SINGLE_STEP, 0x401001);
    host.event(1, EventKind::ExitProcess(0));
    let mut user: User = Box::new(|host, h, event| {
        if event == UEvent::InitBp {
            host.add(&mut h.this.debug, BpOpt::int3(0x401000).thread(5));
        }
        UserReply::Run(true)
    });
    host.run(&mut h, &mut user);
    assert!(!host.told.contains(&UEvent::Breakpoint(0)));
    assert_eq!(h.this.debug.bps[0].hit_count, 1);
}

#[test]
fn steps_into_and_over_calls() {
    let mut host = Host::new();
    let mut h = handler(UDbgStatus::Running, false, false);
    host.code.insert(0x401007, 0x90);
    host.code.insert(0x402000, 0x91);
    host.calls.insert(0x401002, 0x401007);
    host.start(1);
    host.exception(1, BREAKPOINT, 0x401000);
    host.exception(1, SINGLE_STEP, 0x401001);
    host.exception(1, SINGLE_STEP, 0x401002);
    host.exception(1, BREAKPOINT, 0x401007);
    host.exception(1, BREAKPOINT, 0x402000);
    host.event(1, EventKind::ExitProcess(0));
    let mut n = 0;
    let mut user: User = Box::new(move |_, _, _| {
        n += 1;
        match n {
            3 => UserReply::StepIn,
            4 => UserReply::StepOut,
            5 => UserReply::StepOut,
            6 => UserReply::Goto(0x402000),
            _ => UserReply::Run(true),
        }
    });
    host.run(&mut h, &mut user);
    assert_eq!(
        host.told[2..],
        [
            UEvent::InitBp,
            UEvent::Step,
            UEvent::Step,
            UEvent::Breakpoint(0),
            UEvent::Breakpoint(1),
            UEvent::ProcessExit(0),
        ]
    );
    assert_eq!(h.this.debug.bps[0].address, 0x401007);
    assert_eq!(h.this.debug.bps[0].hit_tid, Some(1));
    assert!(h.this.debug.bps[0].temp);
    assert_eq!(h.this.debug.bps[1].hit_tid, None);
    assert_eq!(host.code[&0x401007], 0x90);
    assert_eq!(host.code[&0x402000], 0x91);
    assert!(h.this.debug.get_bp_list().is_empty());
}

#[test]
fn a_wish_that_cannot_be_met_is_shown() {
    let mut host = Host::new();
    let mut h = handler(UDbgStatus::Running, false, false);
    host.start(1);
    host.exception(1, BREAKPOINT, 0x401000);
    host.event(1, EventKind::ExitProcess(0));
    let mut user: User = Box::new(|_, _, event| match event {
        UEvent::InitBp => UserReply::Goto(0x1),
        _ => UserReply::Run(true),
    });
    host.run(&mut h, &mut user);
    assert_eq!(
        h.this.debug.reports[1],
        Report::Failure {
            doing: udbg::io::Doing::AddBp,
            error: udbg::types::UDbgError::InvalidAddress,
        }
    );
}

#[test]
fn a_redirected_pointer_is_met_at_its_number() {
    let mut host = Host::new();
    let mut h = handler(UDbgStatus::Running, false, false);
    host.pointers.insert(0x6000, 0x403000);
    host.start(1);
    host.exception(1, BREAKPOINT, 0x401000);
    host.exception(1, ACCESS_VIOLATION, -10000isize as usize);
    host.event(1, EventKind::ExitProcess(0));
    let mut user: User = Box::new(|host, h, event| {
        match event {
            UEvent::InitBp => {
                host.add(&mut h.this.debug, BpOpt::int3(0x6000).table(true));
                h.this.debug.cx.rip = -10000i64 as u64;
            }
            UEvent::Breakpoint(_) => assert_eq!(h.this.debug.cx.rip, 0x403000),
            _ => {}
        }
        UserReply::Run(true)
    });
    host.run(&mut h, &mut user);
    assert_eq!(host.told[3], UEvent::Breakpoint(0));
    assert_eq!(host.cx[&1].rip, 0x403000);
}

#[test]
fn an_exception_is_left_to_the_target_unless_the_user_takes_it() {
    for (reply, status) in [
        (UserReply::Run(true), "10002"),
        (UserReply::Run(false), "80010001"),
        (UserReply::StepIn, "80010001"),
    ] {
        let mut host = Host::new();
        let mut h = handler(UDbgStatus::Running, false, false);
        host.start(1);
        host.exception(1, 0xE06D7363, 0x401000);
        let mut user: User = Box::new(move |_, _, event| match event {
            UEvent::Exception { first: true, code: 0xE06D7363 } => reply,
            _ => UserReply::Run(true),
        });
        host.run(&mut h, &mut user);
        assert_eq!(host.log.last().unwrap(), &format!("continue 1 {}", status));
    }
}

#[test]
fn an_unknown_trap_or_fault_is_told_as_an_exception() {
    let mut host = Host::new();
    let mut h = handler(UDbgStatus::Running, false, false);
    host.start(1);
    host.exception(1, BREAKPOINT, 0x1);
    host.exception(1, BREAKPOINT, 0x401000);
    host.exception(1, SINGLE_STEP, 0x401000);
    host.exception(1, ACCESS_VIOLATION, 0x401000);
    let mut user = go_on();
    host.run(&mut h, &mut user);
    assert_eq!(
        host.told[3..],
        [
            UEvent::Exception { first: true, code: BREAKPOINT },
            UEvent::Exception { first: true, code: SINGLE_STEP },
            UEvent::Exception { first: true, code: ACCESS_VIOLATION },
        ]
    );
}

#[test]
fn a_slot_for_execution_is_only_met_in_place() {
    let mut host = Host::new();
    let mut h = handler(UDbgStatus::Running, false, false);
    host.start(1);
    host.exception(1, BREAKPOINT, 0x1);
    host.exception(1, SINGLE_STEP, 0x402000);
    host.exception(1, SINGLE_STEP, 0x401000);
    let mut user: User = Box::new(|host, h, event| {
        if event == UEvent::InitBp {
            host.add(&mut h.this.debug, BpOpt::hwbp(0x401000, HwbpType::Execute, None));
            h.this.debug.cx.dr6 = 1;
        }
        UserReply::Run(true)
    });
    host.run(&mut h, &mut user);
    assert_eq!(
        host.told[3..],
        [UEvent::Exception { first: true, code: SINGLE_STEP }, UEvent::Breakpoint(0)]
    );
    assert_eq!(host.cx[&1].eflags, 0x10000);
}

#[test]
fn the_narrow_side_of_a_thread() {
    let mut host = Host::new();
    let mut h = handler(UDbgStatus::Running, true, false);
    host.code.insert(0x401000, 0x55);
    host.start(1);
    host.cx32.insert(1, Context32::zeroed());
    host.exception(1, BREAKPOINT, 0x7ff0_0000);
    host.exception(1, WX86_BREAKPOINT, 0x77f0_0000);
    host.exception(1, WX86_BREAKPOINT, 0x401000);
    host.exception(1, WX86_SINGLE_STEP, 0x401001);
    host.event(1, EventKind::ExitProcess(0));
    let mut user: User = Box::new(|host, h, event| {
        match event {
            UEvent::InitBp => {
                assert_eq!(h.this.debug.base.arch, Arch::X86);
                host.add(&mut h.this.debug, BpOpt::int3(0x401000));
                host.log.clear();
            }
            UEvent::Breakpoint(_) => {
                assert_eq!(h.this.debug.cx32.eip, 0x401000);
                assert_eq!(h.this.get_registers(), Ok(udbg::adaptor::Width::Narrow));
            }
            _ => {}
        }
        UserReply::Run(true)
    });
    host.run(&mut h, &mut user);
    assert_eq!(
        host.told[2..],
        [UEvent::InitBp, UEvent::Breakpoint(0), UEvent::ProcessExit(0)]
    );
    assert_eq!(
        host.log,
        vec![
            "set32 Handle(4) 77f00000 0",
            "continue 1 80010001",
            "code 401000 55",
            "set32 Handle(4) 401000 100",
            "continue 1 10001",
            "code 401000 cc",
            "continue 1 10002",
        ]
    );
    assert_eq!(h.this.debug.reports, vec![Report::Wow64(true)]);
}

#[test]
fn a_native_exception_in_narrow_code_reads_both_sides() {
    let mut host = Host::new();
    let mut h = handler(UDbgStatus::Running, true, true);
    host.start(1);
    host.cx.get_mut(&1).unwrap().seg_cs = 0x23;
    host.cx32.insert(1, Context32::zeroed());
    host.exception(1, 0xC0000094, 0x401000);
    let mut user = go_on();
    host.run(&mut h, &mut user);
    assert_eq!(h.this.debug.base.arch, Arch::X86);
    assert_eq!(host.cx32[&1].eip, 0x401000);
    assert_eq!(
        host.log.iter().filter(|l| l.starts_with("set32")).count(),
        1
    );
}

#[test]
fn an_attached_narrow_process_is_told_of_its_first_trap() {
    let mut host = Host::new();
    let mut h = handler(UDbgStatus::Running, true, true);
    host.start(1);
    host.exception(1, BREAKPOINT, 0x7ff0_0000);
    let mut user = go_on();
    host.run(&mut h, &mut user);
    assert_eq!(host.told[2..], [UEvent::InitBp]);
    assert_eq!(h.this.debug.base.arch, Arch::X64);
}

#[test]
fn modules_come_and_go() {
    let mut host = Host::new();
    let mut h = handler(UDbgStatus::Running, false, false);
    host.start(1);
    host.event(
        1,
        EventKind::LoadDll(ImageInfo { name: 0, base: 0x500000, file: 12, unicode: false }),
    );
    host.event(1, EventKind::UnloadDll { base: 0x500000 });
    host.event(1, EventKind::UnloadDll { base: 0x900000 });
    let mut user = go_on();
    host.run(&mut h, &mut user);
    assert_eq!(
        host.told[2..],
        [UEvent::ModuleLoad(0x500000), UEvent::ModuleUnload(0x500000)]
    );
    assert_eq!(h.this.debug.symgr.bases(), vec![0x400000]);
}

#[test]
fn threads_come_and_go() {
    let mut host = Host::new();
    let mut h = handler(UDbgStatus::Running, false, false);
    host.start(1);
    host.exception(1, BREAKPOINT, 0x1);
    host.cx.insert(2, Context64::zeroed());
    host.event(2, EventKind::CreateThread(thread_info(2)));
    host.event(2, EventKind::ExitThread(5));
    let mut none = thread_info(3);
    none.handle = 0;
    host.event(3, EventKind::CreateThread(none));
    let mut user: User = Box::new(|host, h, event| {
        match event {
            UEvent::InitBp => {
                host.add(&mut h.this.debug, BpOpt::hwbp(0x9000, HwbpType::Write, None));
                host.keep_hwbp = false;
                host.cx.get_mut(&2).unwrap().dr0 = 0;
                host.cx.get_mut(&2).unwrap().dr7 = 0;
            }
            UEvent::ThreadCreate(2) => {
                assert_eq!(host.cx[&2].dr0, 0x9000);
                host.keep_hwbp = true;
            }
            _ => {}
        }
        UserReply::Run(true)
    });
    host.run(&mut h, &mut user);
    assert_eq!(
        host.told[3..],
        [UEvent::ThreadCreate(2), UEvent::ThreadExit(5), UEvent::ThreadCreate(3)]
    );
    assert_eq!(h.this.threads().len(), 2);
    assert!(h.this.threads().get(&2).is_none());
    assert_eq!(h.this.debug.reports[1], Report::NoThreadHandle(3));
    assert!(host.log.contains(&"continue 2 10002".to_string()));
}

#[test]
fn strings_of_the_target_are_shown_or_not() {
    let text = EventKind::OutputString { address: 0x30, count: 4, unicode: true };
    let mut host = Host::new();
    let mut h = handler(UDbgStatus::Running, false, false);
    host.start(1);
    host.event(1, text);
    let mut user = go_on();
    host.run(&mut h, &mut user);
    assert!(host.log.contains(&"show 30 4 true".to_string()));
    assert_eq!(host.log.last().unwrap(), "continue 1 10002");

    let mut h = handler(UDbgStatus::Running, false, false);
    h.this.debug.base.show_output = false;
    let mut host = Host::new();
    host.start(1);
    host.event(1, text);
    host.run(&mut h, &mut user);
    assert_eq!(host.log.last().unwrap(), "continue 1 10002");
    assert!(!host.log.iter().any(|l| l.starts_with("show")));

    let mut h = handler(UDbgStatus::Running, false, false);
    h.this.debug.show_debug_string = false;
    let mut host = Host::new();
    host.start(1);
    host.event(1, text);
    host.run(&mut h, &mut user);
    assert_eq!(host.log.last().unwrap(), "continue 1 80010001");
}

#[test]
fn system_errors_are_shown() {
    let mut host = Host::new();
    let mut h = handler(UDbgStatus::Running, false, false);
    host.start(1);
    host.event(1, EventKind::Rip { code: 5, kind: 1 });
    let mut user = go_on();
    host.run(&mut h, &mut user);
    assert_eq!(h.this.debug.reports[1], Report::Rip { code: 5, kind: 1 });
}

#[test]
fn a_target_that_is_left_goes_on_first() {
    let mut host = Host::new();
    let mut h = handler(UDbgStatus::Running, false, false);
    host.start(1);
    host.exception(1, BREAKPOINT, 0x1);
    let mut user: User = Box::new(|_, h, event| {
        if event == UEvent::InitBp {
            assert!(matches!(h.this.detach(), Poll::Ready(Ok(()))));
        }
        UserReply::Run(true)
    });
    host.run(&mut h, &mut user);
    let n = host.log.len();
    assert_eq!(host.log[n - 2..], ["continue 1 10002".to_string(), "stop 7".to_string()]);
    assert_eq!(h.this.debug.reports[1], Report::Detached(true));
}

#[test]
fn while_leaving_exceptions_are_not_told() {
    let mut host = Host::new();
    let mut h = handler(UDbgStatus::Running, false, false);
    h.this.detaching = true;
    host.start(1);
    host.exception(1, 0xE06D7363, 0x401000);
    let mut user = go_on();
    host.run(&mut h, &mut user);
    assert_eq!(host.told, vec![UEvent::ProcessCreate, UEvent::ThreadCreate(1)]);
    assert!(host.log.contains(&"continue 1 80010001".to_string()));
}

#[test]
fn an_opened_target_is_waited_for() {
    let mut host = Host::new();
    let mut h = handler(UDbgStatus::Opened, true, false);
    host.exit_waits.push_back(258);
    host.exit_waits.push_back(258);
    host.exit_waits.push_back(0);
    let mut user = go_on();
    host.run(&mut h, &mut user);
    assert_eq!(host.log, vec!["wait 10", "wait 10", "wait 10"]);
    assert_eq!(h.this.debug.base.arch, Arch::X86);
    assert!(host.told.is_empty());

    let mut h = handler(UDbgStatus::Opened, false, false);
    let poll = h.event_loop();
    h.this.debug.base.status = UDbgStatus::Ended;
    match poll {
        Poll::Pending(_, op) => {
            assert!(matches!(h.resume_loop(op, Reply::Word(258)), Poll::Ready(())))
        }
        Poll::Ready(()) => panic!("too early"),
    }
}

#[test]
fn registers_that_cannot_be_read_are_not_written() {
    let mut host = Host::new();
    let mut h = handler(UDbgStatus::Running, false, false);
    host.start(1);
    host.cx.clear();
    let mut user = go_on();
    host.run(&mut h, &mut user);
    assert_eq!(host.log, vec!["load 400000", "continue 1 10002"]);
    assert!(h.this.context().is_none());
}

#[test]
fn answers_have_the_system_s_numbers() {
    assert_eq!(HandleResult::Continue.code(), 0x00010002);
    assert_eq!(HandleResult::Handled.code(), 0x00010001);
    assert_eq!(HandleResult::NotHandled.code(), 0x80010001);
}

#[test]
fn the_start_is_told_once() {
    for (wow64, attached) in [(false, false), (false, true), (true, false), (true, true)] {
        let mut host = Host::new();
        let mut h = handler(UDbgStatus::Running, wow64, attached);
        host.start(1);
        host.cx32.insert(1, Context32::zeroed());
        host.exception(1, BREAKPOINT, 0x7ff0_0000);
        host.exception(1, BREAKPOINT, 0x7ff0_0000);
        if wow64 {
            host.exception(1, WX86_BREAKPOINT, 0x77f0_0000);
            host.exception(1, WX86_BREAKPOINT, 0x77f0_0000);
        }
        host.exception(1, BREAKPOINT, 0x7ff0_0000);
        let mut user = go_on();
        host.run(&mut h, &mut user);
        let native = UEvent::Exception { first: true, code: BREAKPOINT };
        let narrow = UEvent::Exception { first: true, code: WX86_BREAKPOINT };
        let expected = match (wow64, attached) {
            (false, _) => vec![UEvent::InitBp, native, native],
            (true, false) => vec![native, UEvent::InitBp, narrow, native],
            (true, true) => vec![UEvent::InitBp, native, narrow, narrow, native],
        };
        assert_eq!(host.told[2..], expected[..]);
        assert!(h.first_bp_hitted);
        assert_eq!(h.first_bp32_hitted, wow64 || attached);
    }
}

#[test]
fn the_start_is_told_while_another_thread_steps_over_a_trap() {
    let mut host = Host::new();
    let mut h = handler(UDbgStatus::Running, true, false);
    host.code.insert(0x401000, 0x48);
    host.start(1);
    host.cx.insert(2, Context64::zeroed());
    host.cx32.insert(2, Context32::zeroed());
    host.exception(1, BREAKPOINT, 0x7ff0_0000);
    host.exception(1, BREAKPOINT, 0x401000);
    host.exception(2, WX86_BREAKPOINT, 0x77f0_0000);
    host.exception(2, WX86_BREAKPOINT, 0x77f0_0000);
    host.exception(1, SINGLE_STEP, 0x401003);
    host.add(&mut h.this.debug, BpOpt::int3(0x401000));
    let mut user: User = Box::new(|host, h, event| {
        if event == UEvent::InitBp {
            host.code.insert(0x402000, 0x90);
            host.add(&mut h.this.debug, BpOpt::int3(0x402000));
        }
        UserReply::Run(true)
    });
    host.run(&mut h, &mut user);
    assert_eq!(
        host.told[2..],
        [
            UEvent::Breakpoint(0),
            UEvent::InitBp,
            UEvent::Exception { first: true, code: WX86_BREAKPOINT },
        ]
    );
    assert_eq!(host.code[&0x401000], BP_INSN);
    assert_eq!(host.code[&0x402000], BP_INSN);
    assert!(h.this.debug.bps[0].enabled);
}
