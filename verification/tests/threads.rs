use std::collections::HashMap;
use udbg::adaptor::{CommonAdaptor, Process, UDbgBase};
use udbg::context::{
    get_selector_entry, get_selector_entry_wow64, get_thread_context, get_thread_handle_context,
    resume_access, set_thread_context,
};
use udbg::handles::{HandleInfo, HandleIter};
use udbg::io::{Action, Place, Poll, Reply, ThreadInfo};
use udbg::regs::Context64;
use udbg::session::{DbgThread, StandardAdaptor};
use udbg::target::Settings;
use udbg::thread::{
    block_step, choose_block, open_all_thread, open_win_thread, start_block, thread_ids,
    thread_infos, SuspendCall, ThreadSource, ThreadStat, WinThread,
};
use udbg::types::{Arch, UDbgError, UDbgStatus};

fn target(wow64: bool) -> StandardAdaptor {
    let base = UDbgBase {
        pid: 0,
        image_base: 0,
        image_path: String::new(),
        event_tid: 0,
        event_pc: 0,
        status: UDbgStatus::Running,
        arch: Arch::X64,
        show_output: false,
    };
    let debug = CommonAdaptor::new(
        base,
        Process { pid: 7, handle: 0x44 },
        wow64,
        None,
        Settings { symbol_cache: None, symbol_path: None, show_debug_string: None },
    );
    StandardAdaptor::new(debug, None)
}

fn stat(priority: i32, start_address: usize, status: &str) -> ThreadStat {
    ThreadStat { priority, start_address, status: status.to_string() }
}

#[test]
fn the_block_s_address_is_asked_for_once() {
    let t = WinThread::new(5, 20).unwrap();
    assert_eq!(t.known_teb(), None);
    assert_eq!(t.teb(None), None);
    assert_eq!(t.teb(Some(0)), None);
    assert_eq!(t.teb(Some(0x7000)), Some(0x7000));
    assert_eq!(t.known_teb(), Some(0x7000));
    assert_eq!(t.teb(Some(0x8000)), Some(0x7000));
    assert_eq!(t.teb(None), Some(0x7000));
    assert_eq!(t.teb.load(), 0x7000);
    assert_eq!(choose_block(0, Some(3)), Some(3));
    assert_eq!(choose_block(4, Some(3)), Some(4));
    assert_eq!(choose_block(0, None), None);
    assert_eq!(block_step(0, Some(3)), (Some(3), Some(3)));
    assert_eq!(block_step(4, Some(3)), (Some(4), None));
    assert_eq!(block_step(0, Some(0)), (None, Some(0)));
    assert_eq!(block_step(0, None), (None, Some(0)));
}

#[test]
fn what_the_system_lists_fills_in() {
    let mut t = open_win_thread(5, 20, false);
    assert_eq!(t.status(), "");
    assert_eq!(t.priority(0x7fffffff), Some(0x7fffffff));
    assert_eq!(t.entry(None), 0);
    t.infos.insert(5, stat(8, 0x401000, "Waiting"));
    assert_eq!(t.status(), "Waiting");
    assert_eq!(t.priority(0x7fffffff), Some(8));
    assert_eq!(t.priority(-2), Some(-2));
    assert_eq!(t.entry(None), 0x401000);
    assert_eq!(t.entry(Some(0x402000)), 0x402000);
}

#[test]
fn how_a_thread_is_suspended() {
    assert_eq!(open_win_thread(1, 4, true).suspend(), SuspendCall::Wow64);
    assert_eq!(open_win_thread(1, 4, false).suspend(), SuspendCall::Native);
}

#[test]
fn where_the_last_error_stands() {
    assert_eq!(WinThread::last_error(Some(0x7000), 0x68), Some(0x7068));
    assert_eq!(WinThread::last_error(None, 0x68), None);
    assert_eq!(WinThread::last_error(Some(usize::MAX), 1), None);
}

#[test]
fn properties_of_a_thread_are_registers() {
    assert_eq!(WinThread::get_prop("@rax"), Ok("rax".to_string()));
    assert_eq!(WinThread::get_prop("@"), Ok(String::new()));
    assert_eq!(WinThread::get_prop("rax"), Err(UDbgError::NotSupport));
    assert_eq!(WinThread::get_prop(""), Err(UDbgError::NotSupport));
    assert_eq!(WinThread::get_reg(Some(3)), Ok(3));
    assert_eq!(WinThread::get_reg(None), Err(UDbgError::InvalidRegister));
}

#[test]
fn threads_an_event_brought_keep_their_block() {
    let mut s = target(true);
    s.threads.insert(
        3,
        DbgThread::from(ThreadInfo { tid: 3, handle: 12, local_base: 0x7003, start_address: 1 }),
    );
    let known = s.open_thread(3);
    assert_eq!(known, ThreadSource::Event { tid: 3, handle: 12, local_base: 0x7003 });
    assert_eq!(start_block(known), 0x7003);
    let t = s.opened_thread(known, 99);
    assert_eq!((t.tid, t.handle, t.wow64), (3, 99, true));
    assert_eq!(t.known_teb(), Some(0x7003));
    let other = s.open_thread(4);
    assert_eq!(other, ThreadSource::Number { tid: 4 });
    assert_eq!(start_block(other), 0);
    let t = s.opened_thread(other, 98);
    assert_eq!((t.tid, t.handle), (4, 98));
    assert_eq!(t.known_teb(), None);
    assert_eq!(s.enum_thread(), Some(vec![3]));
    s.debug.base.status = UDbgStatus::Opened;
    assert_eq!(s.enum_thread(), None);
}

#[test]
fn every_thread_of_a_process_once() {
    let all = vec![(7, 1), (8, 2), (7, 3), (7, 1)];
    let mut ids = thread_ids(&all, 7);
    ids.sort();
    assert_eq!(ids, vec![1, 3]);
    assert!(thread_ids(&all, 9).is_empty());
    let mut s = target(false);
    s.threads.insert(3, DbgThread::new(3, 12, 5, 6));
    let mut list = open_all_thread(&all, 7, Some(&s));
    list.sort_by_key(|t| t.0);
    assert_eq!(
        list,
        vec![
            (1, ThreadSource::Number { tid: 1 }),
            (3, ThreadSource::Event { tid: 3, handle: 12, local_base: 5 }),
        ]
    );
    assert_eq!(
        open_all_thread(&vec![(7, 3)], 7, None),
        vec![(3, ThreadSource::Number { tid: 3 })]
    );
    let infos = thread_infos(
        &vec![1, 3],
        &vec![(1, stat(1, 1, "a")), (2, stat(2, 2, "b")), (1, stat(3, 3, "c"))],
    );
    assert_eq!(infos.len(), 1);
    assert_eq!(infos[&1].priority, 3);
    assert_eq!(infos[&1].status, "c");
}

#[test]
fn a_thread_is_let_go_after_a_look_at_its_registers() {
    let mut cx = Context64::zeroed();
    cx.rip = 0x1234;
    let op = match get_thread_handle_context(8) {
        Poll::Pending(Action::Suspend { handle: 8 }, op) => op,
        _ => panic!("not suspended"),
    };
    let op = match resume_access(op, Reply::Done) {
        Poll::Pending(Action::GetContext { place: Place::Handle(8) }, op) => op,
        _ => panic!("not read"),
    };
    let op = match resume_access(op, Reply::Context(cx)) {
        Poll::Pending(Action::Resume { handle: 8 }, op) => op,
        _ => panic!("not let go"),
    };
    match resume_access(op, Reply::Done) {
        Poll::Ready(answer) => assert_eq!(CommonAdaptor::get_registers(answer), Some(cx)),
        _ => panic!("not done"),
    }
    assert_eq!(CommonAdaptor::get_registers(Reply::Failed(5)), None);
    assert!(matches!(get_thread_context(4), Action::OpenThread { tid: 4 }));
}

#[test]
fn a_thread_is_let_go_though_its_registers_were_not_written() {
    let op = match set_thread_context(8, Context64::zeroed()) {
        Poll::Pending(_, op) => op,
        _ => panic!("not suspended"),
    };
    let op = match resume_access(op, Reply::Done) {
        Poll::Pending(Action::SetContext { .. }, op) => op,
        _ => panic!("not written"),
    };
    let op = match resume_access(op, Reply::Failed(5)) {
        Poll::Pending(Action::Resume { handle: 8 }, op) => op,
        _ => panic!("not let go"),
    };
    match resume_access(op, Reply::Done) {
        Poll::Ready(answer) => assert!(!CommonAdaptor::set_thread_context(answer)),
        _ => panic!("not done"),
    }
    assert!(CommonAdaptor::set_thread_context(Reply::Done));
}

#[test]
fn bases_out_of_descriptors() {
    assert_eq!(get_selector_entry_wow64(0x5678, 0x12cf9334), 0x12345678);
    assert_eq!(get_selector_entry(0x5678, 0x12cf9334), 0x12345678);
    assert_eq!(get_selector_entry_wow64(0, 0x00ffff00), 0);
}

#[test]
fn handles_of_a_process() {
    let info = |pid: u32, ty: u32, copy: Option<usize>, kind: &str| HandleInfo {
        pid,
        value: 0x10,
        ty,
        copy,
        kind: Some(kind.to_string()),
        image_path: Some("a.exe".to_string()),
        object_name: Some("\\Name".to_string()),
    };
    let mut it = HandleIter::enum_process_handle(7);
    assert!(it.next(info(8, 1, Some(4), "File")).is_none());
    assert!(it.next(info(7, 1, None, "File")).is_none());
    assert!(it.next(info(7, 1, Some(0), "File")).is_none());
    assert_eq!(it.kinds, HashMap::new());
    assert!(it.asks_kind(&info(7, 1, Some(4), "File")));
    let shown = it.next(info(7, 1, Some(4), "File")).unwrap();
    assert_eq!((shown.ty, shown.handle), (1, 0x10));
    assert_eq!(shown.kind, "File");
    assert_eq!(shown.name, "\\Name");
    assert!(!it.asks_kind(&info(7, 1, Some(4), "Key")));
    assert_eq!(it.next(info(7, 1, Some(4), "Key")).unwrap().kind, "File");
    let process = it.next(info(7, 2, Some(4), "Process")).unwrap();
    assert_eq!(process.name, "a.exe");
    let mut bare = info(7, 3, Some(4), "");
    bare.kind = None;
    bare.object_name = None;
    let shown = it.next(bare).unwrap();
    assert_eq!(shown.kind, "");
    assert_eq!(shown.name, "");
}
