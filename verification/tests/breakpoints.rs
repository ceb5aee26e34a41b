use std::collections::HashMap;
use udbg::adaptor::{CommonAdaptor, Process, UDbgBase};
use udbg::breakpoints::{AddPoll, RemovePoll};
use udbg::enable::{AllPoll, EnablePoll};
use udbg::io::{Action, Doing, Poll, Reply, Report};
use udbg::regs::{Context32, Context64};
use udbg::target::Settings;
use udbg::types::{
    Arch, BpHandle, BpOpt, HwbpLen, HwbpType, InnerBpType, Reason, UDbgError, UDbgStatus,
};

/// A target in memory: bytes, pointers and threads.
struct Host {
    code: HashMap<usize, u8>,
    pointers: HashMap<usize, usize>,
    threads: Vec<(u32, Context64, Option<Context32>)>,
    next: usize,
    suspended: Vec<usize>,
    resumed: Vec<usize>,
    refuse_write: bool,
    refuse_open: Option<u32>,
    refuse_get: Option<usize>,
    refuse_set: Option<usize>,
    log: Vec<String>,
}

impl Host {
    fn new() -> Host {
        Host {
            code: HashMap::new(),
            pointers: HashMap::new(),
            threads: Vec::new(),
            next: 0,
            suspended: Vec::new(),
            resumed: Vec::new(),
            refuse_write: false,
            refuse_open: None,
            refuse_get: None,
            refuse_set: None,
            log: Vec::new(),
        }
    }

    fn walk(&mut self) -> Reply {
        let i = self.next;
        self.next += 1;
        match self.threads.get(i) {
            Some(t) => Reply::Thread(t.0),
            None => Reply::Done,
        }
    }

    fn perform(&mut self, action: Action) -> Reply {
        match action {
            Action::ReadInsn { address } => match self.code.get(&address) {
                Some(b) => Reply::Byte(*b),
                None => Reply::Failed(998),
            },
            Action::ReadPtr { address } => match self.pointers.get(&address) {
                Some(p) => Reply::Word(*p),
                None => Reply::Failed(998),
            },
            Action::WriteCode { address, byte } => {
                self.log.push(format!("code {:x} {:02x}", address, byte));
                if self.refuse_write {
                    Reply::Word(0)
                } else {
                    self.code.insert(address, byte);
                    Reply::Word(1)
                }
            }
            Action::WritePtr { address, value } => {
                if self.refuse_write {
                    Reply::Failed(5)
                } else {
                    self.pointers.insert(address, value);
                    Reply::Done
                }
            }
            Action::FirstThread => {
                self.next = 0;
                self.walk()
            }
            Action::NextThread => self.walk(),
            Action::OpenThread { tid } => {
                self.log.push(format!("open {}", tid));
                if self.refuse_open == Some(tid) {
                    Reply::Refused(UDbgError::System(5))
                } else {
                    Reply::Handle(tid as usize * 4)
                }
            }
            Action::Suspend { handle } => {
                self.suspended.push(handle);
                Reply::Done
            }
            Action::Resume { handle } => {
                self.resumed.push(handle);
                Reply::Done
            }
            Action::GetDebugRegs { handle } => {
                if self.refuse_get == Some(handle) {
                    return Reply::Failed(31);
                }
                Reply::Context(self.find(handle).1)
            }
            Action::SetDebugRegs { handle, cx } => {
                if self.refuse_set == Some(handle) {
                    return Reply::Failed(32);
                }
                self.find(handle).1 = cx;
                Reply::Done
            }
            Action::GetDebugRegs32 { handle } => match self.find(handle).2 {
                Some(cx) => Reply::Context32(cx),
                None => Reply::Failed(87),
            },
            Action::SetDebugRegs32 { handle, cx32 } => {
                self.find(handle).2 = Some(cx32);
                Reply::Done
            }
            other => panic!("unexpected {:?}", other),
        }
    }

    fn find(&mut self, handle: usize) -> &mut (u32, Context64, Option<Context32>) {
        self.threads
            .iter_mut()
            .find(|t| t.0 as usize * 4 == handle)
            .unwrap()
    }

    fn add(&mut self, s: &mut CommonAdaptor, opt: BpOpt) -> Result<BpHandle, UDbgError> {
        let mut poll: AddPoll = s.add_bp(opt);
        loop {
            match poll {
                Poll::Pending(action, op) => poll = s.resume_add_bp(op, self.perform(action)),
                Poll::Ready(r) => return r,
            }
        }
    }

    fn remove(&mut self, s: &mut CommonAdaptor, bp: BpHandle) {
        let mut poll: RemovePoll = s.remove_breakpoint(bp);
        loop {
            match poll {
                Poll::Pending(action, op) => poll = s.resume_remove(op, self.perform(action)),
                Poll::Ready(()) => return,
            }
        }
    }

    fn finish(
        &mut self,
        s: &mut CommonAdaptor,
        start: EnablePoll,
    ) -> Result<bool, UDbgError> {
        let mut poll = start;
        loop {
            match poll {
                Poll::Pending(action, op) => poll = s.resume_breadpoint(op, self.perform(action)),
                Poll::Ready(r) => return r,
            }
        }
    }
}

fn session(status: UDbgStatus) -> CommonAdaptor {
    let base = UDbgBase {
        pid: 0,
        image_base: 0,
        image_path: String::new(),
        event_tid: 1,
        event_pc: 0,
        status,
        arch: Arch::X64,
        show_output: false,
    };
    CommonAdaptor::new(
        base,
        Process { pid: 7, handle: 0x44 },
        false,
        Some(0x400000),
        Settings { symbol_cache: None, symbol_path: None, show_debug_string: None },
    )
}

#[test]
fn a_trap_goes_over_the_byte_and_comes_off_again() {
    let mut host = Host::new();
    let mut s = session(UDbgStatus::Paused);
    host.code.insert(0x401000, 0x55);
    let bp = host.add(&mut s, BpOpt::int3(0x401000)).unwrap();
    assert_eq!(host.code[&0x401000], 0xCC);
    assert_eq!(s.get_bp(0x401000), Some(bp));
    assert!(s.bps[bp].enabled);
    assert!(s.bps[bp].is_soft());
    assert_eq!(s.bps[bp].bp_type, InnerBpType::Soft(0x55));
    assert_eq!(s.get_bp_list(), vec![0x401000]);
    host.remove(&mut s, bp);
    assert_eq!(host.code[&0x401000], 0x55);
    assert_eq!(s.get_bp(0x401000), None);
    assert!(!s.bp_exists(0x401000));
    assert!(!s.bps[bp].enabled);
    assert!(s.get_bp_list().is_empty());
    assert!(s.reports.is_empty());
}

#[test]
fn an_enabled_trap_is_written_when_it_is_made_and_once_more() {
    let mut host = Host::new();
    let mut s = session(UDbgStatus::Running);
    host.code.insert(0x10, 0x90);
    host.add(&mut s, BpOpt::int3(0x10)).unwrap();
    assert_eq!(host.log, vec!["code 10 cc", "code 10 cc"]);
    host.code.insert(0x20, 0x90);
    host.log.clear();
    let bp = host.add(&mut s, BpOpt::int3(0x20).enable(false)).unwrap();
    assert!(host.log.is_empty());
    assert!(!s.bps[bp].enabled);
}

#[test]
fn adding_is_refused() {
    let mut host = Host::new();
    let mut opened = session(UDbgStatus::Opened);
    assert_eq!(host.add(&mut opened, BpOpt::int3(0x10)), Err(UDbgError::NotSupport));
    let mut s = session(UDbgStatus::Running);
    assert_eq!(host.add(&mut s, BpOpt::int3(0x10)), Err(UDbgError::InvalidAddress));
    host.code.insert(0x10, 1);
    host.add(&mut s, BpOpt::int3(0x10)).unwrap();
    assert_eq!(host.add(&mut s, BpOpt::int3(0x10)), Err(UDbgError::BpExists));
    assert_eq!(
        host.add(&mut s, BpOpt::hwbp(0x10, HwbpType::Write, None)),
        Err(UDbgError::BpExists)
    );
    assert_eq!(
        host.add(&mut s, BpOpt::int3(0x20).table(true)),
        Err(UDbgError::Text(Reason::ReadOrigin))
    );
    assert_eq!(Reason::ReadOrigin.message(), "read origin failed");
    host.code.insert(0x30, 1);
    host.refuse_write = true;
    assert_eq!(host.add(&mut s, BpOpt::int3(0x30)), Err(UDbgError::MemoryError));
    assert!(!s.bp_exists(0x30));
}

#[test]
fn slots_run_out_after_four() {
    let mut host = Host::new();
    let mut s = session(UDbgStatus::Running);
    for i in 0..4usize {
        assert_eq!(s.get_hwbp_index(), Some(i));
        let bp = host
            .add(&mut s, BpOpt::hwbp(0x1000 + i, HwbpType::Access, Some(HwbpLen::L4)))
            .unwrap();
        assert_eq!(s.bps[bp].hard_index(), Some(i));
        assert!(s.bps[bp].is_hard());
        assert_eq!(s.get_bp(-(i as isize + 1)), Some(bp));
        assert_eq!(s.dbg_reg[i], 0x1000 + i);
    }
    assert_eq!(s.get_hwbp_index(), None);
    assert_eq!(
        host.add(&mut s, BpOpt::hwbp(0x2000, HwbpType::Access, None)),
        Err(UDbgError::HWBPSlotMiss)
    );
    let second = s.get_bp(0x1001).unwrap();
    host.remove(&mut s, second);
    assert_eq!(s.get_hwbp_index(), Some(1));
    assert_eq!(s.get_bp(-2), None);
    assert_eq!(s.get_bp(0x1001), None);
    assert_eq!(s.dbg_reg, [0x1000, 0, 0x1002, 0x1003]);
    let mut list = s.get_bp_list();
    list.sort();
    assert_eq!(list, vec![0x1000, 0x1002, 0x1003]);
}

#[test]
fn a_slot_is_set_in_every_thread_it_is_meant_for() {
    let mut host = Host::new();
    let mut s = session(UDbgStatus::Paused);
    host.threads.push((1, Context64::zeroed(), None));
    host.threads.push((2, Context64::zeroed(), Some(Context32::zeroed())));
    host.threads.push((3, Context64::zeroed(), None));
    s.protected_thread.push(3);
    s.has_cx = true;
    let bp = host.add(&mut s, BpOpt::hwbp(0x5000, HwbpType::Write, None)).unwrap();
    assert_eq!(host.threads[0].1.dr0, 0x5000);
    assert_eq!(host.threads[0].1.dr7, 0x10101);
    assert_eq!(host.threads[1].1.dr0, 0x5000);
    assert_eq!(host.threads[1].2.unwrap().dr7, 0x10101);
    assert_eq!(host.threads[2].1, Context64::zeroed());
    assert_eq!(s.cx.dr7, 0x10101);
    assert_eq!(s.cx32, Context32::zeroed());
    assert_eq!(host.suspended, host.resumed);
    assert_eq!(host.suspended, vec![4, 8]);
    host.remove(&mut s, bp);
    assert_eq!(host.threads[0].1, Context64::zeroed());
    assert_eq!(host.threads[1].2.unwrap(), Context32::zeroed());
    assert_eq!(s.cx, Context64::zeroed());
    assert_eq!(host.suspended, host.resumed);
}

#[test]
fn a_slot_for_one_thread_leaves_the_others() {
    let mut host = Host::new();
    let mut s = session(UDbgStatus::Paused);
    host.threads.push((1, Context64::zeroed(), None));
    host.threads.push((2, Context64::zeroed(), None));
    s.has_cx = true;
    host.add(&mut s, BpOpt::hwbp(0x5000, HwbpType::Execute, None).thread(2)).unwrap();
    assert_eq!(host.log, vec!["open 2"]);
    assert_eq!(host.threads[0].1, Context64::zeroed());
    assert_eq!(host.threads[1].1.dr7, 0x101);
    assert_eq!(s.cx, Context64::zeroed());
}

#[test]
fn failures_of_threads_are_shown_and_the_last_decides() {
    let mut host = Host::new();
    let mut s = session(UDbgStatus::Paused);
    for tid in 1..5 {
        host.threads.push((tid, Context64::zeroed(), None));
    }
    let bp = host
        .add(&mut s, BpOpt::hwbp(0x5000, HwbpType::Write, None).enable(false))
        .unwrap();
    host.refuse_open = Some(1);
    host.refuse_get = Some(8);
    let start = s.enable_bp(0x5000, true);
    assert_eq!(host.finish(&mut s, start), Ok(true));
    assert!(s.bps[bp].enabled);
    assert_eq!(
        s.reports,
        vec![
            Report::OpenThread { tid: 1, error: UDbgError::System(5) },
            Report::EnableThread { tid: 2, error: UDbgError::GetContext(31) },
        ]
    );
    assert_eq!(host.suspended, vec![8, 12, 16]);
    assert_eq!(host.resumed, vec![8, 12, 16]);
    s.reports.clear();
    host.refuse_get = None;
    host.refuse_open = None;
    host.refuse_set = Some(16);
    let start = s.enable_bp(0x5000, false);
    assert_eq!(host.finish(&mut s, start), Err(UDbgError::SetContext(32)));
    assert!(s.bps[bp].enabled);
    assert_eq!(
        s.reports,
        vec![Report::EnableThread { tid: 4, error: UDbgError::SetContext(32) }]
    );
    assert_eq!(host.suspended, host.resumed);
}

#[test]
fn an_unknown_number_cannot_be_switched() {
    let mut host = Host::new();
    let mut s = session(UDbgStatus::Paused);
    let start = s.enable_bp(0x99, true);
    assert_eq!(host.finish(&mut s, start), Err(UDbgError::NotFound));
}

#[test]
fn a_pointer_is_redirected_and_put_back() {
    let mut host = Host::new();
    let mut s = session(UDbgStatus::Running);
    host.pointers.insert(0x6000, 0x401234);
    assert_eq!(s.find_table_bp_index(), Some(-10000));
    let bp = host.add(&mut s, BpOpt::int3(0x6000).table(true)).unwrap();
    assert_eq!(host.pointers[&0x6000], -10000isize as usize);
    assert_eq!(s.get_bp(-10000), Some(bp));
    assert_eq!(s.get_bp(0x6000), Some(bp));
    assert_eq!(s.bps[bp].bp_type, InnerBpType::Table { index: -10000, origin: 0x401234 });
    assert_eq!(s.find_table_bp_index(), Some(-9999));
    assert_eq!(s.get_bp_list(), vec![0x6000]);
    host.remove(&mut s, bp);
    assert_eq!(host.pointers[&0x6000], 0x401234);
    assert_eq!(s.get_bp(-10000), None);
    assert_eq!(s.get_bp(0x6000), None);
    assert_eq!(s.find_table_bp_index(), Some(-10000));
}

#[test]
fn table_numbers_run_out() {
    let mut host = Host::new();
    let mut s = session(UDbgStatus::Running);
    for id in -10000..-10isize {
        let bp = s.store(udbg::types::Breakpoint {
            address: 0,
            enabled: false,
            temp: false,
            hit_tid: None,
            hit_count: 0,
            bp_type: InnerBpType::Table { index: id, origin: 0 },
        });
        s.insert(id, bp);
    }
    assert_eq!(s.find_table_bp_index(), None);
    host.pointers.insert(0x6000, 1);
    assert_eq!(
        host.add(&mut s, BpOpt::int3(0x6000).table(true)),
        Err(UDbgError::Text(Reason::NoTableIndex))
    );
    assert_eq!(Reason::NoTableIndex.message(), "no more table index");
}

#[test]
fn a_failure_to_switch_a_new_pointer_is_only_shown() {
    let mut host = Host::new();
    let mut s = session(UDbgStatus::Running);
    host.pointers.insert(0x6000, 9);
    host.refuse_write = true;
    let bp = host.add(&mut s, BpOpt::int3(0x6000).table(true)).unwrap();
    assert!(!s.bps[bp].enabled);
    assert_eq!(
        s.reports,
        vec![Report::Failure { doing: Doing::EnableAdded, error: UDbgError::MemoryError }]
    );
    assert_eq!(Doing::EnableAdded.message(), "enable bp falied");
    host.remove(&mut s, bp);
    assert_eq!(
        s.reports[1],
        Report::Failure { doing: Doing::DisableRemoved, error: UDbgError::MemoryError }
    );
    assert_eq!(s.get_bp(0x6000), None);
}

#[test]
fn removing_what_is_not_in_force_keeps_the_slot() {
    let mut host = Host::new();
    let mut s = session(UDbgStatus::Running);
    let bp = host.add(&mut s, BpOpt::hwbp(0x5000, HwbpType::Write, None)).unwrap();
    s.forget(0x5000);
    host.remove(&mut s, bp);
    assert_eq!(s.dbg_reg[0], 0x5000);
    assert_eq!(s.get_bp(-1), Some(bp));
}

#[test]
fn a_new_thread_gets_the_slots_numbered_zero_to_minus_three() {
    let mut host = Host::new();
    let mut s = session(UDbgStatus::Running);
    for i in 0..4usize {
        host.add(&mut s, BpOpt::hwbp(0x1000 * (i + 1), HwbpType::Write, None)).unwrap();
    }
    host.threads.push((9, Context64::zeroed(), None));
    let mut poll: AllPoll = s.enable_all_hwbp_for_thread(36, true);
    loop {
        match poll {
            Poll::Pending(action, op) => poll = s.resume_all_hwbp(op, host.perform(action)),
            Poll::Ready(()) => break,
        }
    }
    assert_eq!(host.threads[0].1.dr0, 0x1000);
    assert_eq!(host.threads[0].1.dr1, 0x2000);
    assert_eq!(host.threads[0].1.dr2, 0x3000);
    assert_eq!(host.threads[0].1.dr3, 0);
    assert_eq!(host.suspended.len(), 3);
    assert_eq!(host.resumed.len(), 3);
}

#[test]
fn a_suspension_that_fails_is_shown() {
    let mut s = session(UDbgStatus::Running);
    let info = udbg::types::HwbpInfo { index: 0, rw: 1, len: 0 };
    let op = match CommonAdaptor::enable_hwbp_for_thread(12, info, true) {
        Poll::Pending(action, op) => {
            assert!(matches!(action, Action::Suspend { handle: 12 }));
            op
        }
        Poll::Ready(_) => panic!("too early"),
    };
    let poll = s.resume_hwbp_for_thread(op, Reply::Failed(6));
    assert!(matches!(poll, Poll::Pending(Action::GetDebugRegs { handle: 12 }, _)));
    assert_eq!(s.reports, vec![Report::Suspend { handle: 12, code: 6 }]);
}

#[test]
fn codes_of_kinds_and_lengths() {
    assert_eq!(HwbpType::Execute.code(), 0);
    assert_eq!(HwbpType::Write.code(), 1);
    assert_eq!(HwbpType::Access.code(), 3);
    assert_eq!(HwbpLen::L1.code(), 0);
    assert_eq!(HwbpLen::L2.code(), 1);
    assert_eq!(HwbpLen::L4.code(), 3);
    assert_eq!(HwbpLen::L8.code(), 2);
}
