use udbg::adaptor::{CommonAdaptor, Process, UDbgBase, Width};
use udbg::io::{Action, Poll, Reply};
use udbg::loader::Loaded;
use udbg::session::StandardAdaptor;
use udbg::target::{PropValue, Settings, SymbolInfo};
use udbg::types::{Arch, Reason, UDbgError, UDbgStatus};

fn debug(status: UDbgStatus, show: Option<bool>) -> CommonAdaptor {
    let base = UDbgBase {
        pid: 0,
        image_base: 0,
        image_path: "x".to_string(),
        event_tid: 0,
        event_pc: 0,
        status,
        arch: Arch::X64,
        show_output: true,
    };
    CommonAdaptor::new(
        base,
        Process { pid: 7, handle: 0x44 },
        true,
        Some(0x400000),
        Settings {
            symbol_cache: None,
            symbol_path: Some("srv*d".to_string()),
            show_debug_string: show,
        },
    )
}

fn target(status: UDbgStatus) -> StandardAdaptor {
    StandardAdaptor::new(debug(status, None), Some("C:\\a.exe".to_string()))
}

#[test]
fn a_session_at_its_start() {
    let s = debug(UDbgStatus::Running, None);
    assert_eq!(s.base.pid, 7);
    assert_eq!(s.base.image_base, 0x400000);
    assert_eq!(s.symgr.symbol_cache, "d");
    assert!(s.symgr.is_wow64);
    assert!(s.show_debug_string);
    assert!(s.tid_to_run().is_empty());
    assert_eq!(s.dbg_reg, [0; 4]);
    assert!(!debug(UDbgStatus::Running, Some(false)).show_debug_string);
    let t = target(UDbgStatus::Running);
    assert_eq!(t.debug.base.image_path, "C:\\a.exe");
    assert_eq!(t.record().code, 0);
    assert!(!t.attached);
    assert!(t.attach().attached);
    let t = StandardAdaptor::new(debug(UDbgStatus::Running, None), None);
    assert_eq!(t.debug.base.image_path, "");
}

#[test]
fn opening_a_process() {
    let p = Process { pid: 1, handle: 2 };
    assert_eq!(StandardAdaptor::open(Some(p)), Ok(p));
    assert_eq!(StandardAdaptor::open(None), Err(UDbgError::Text(Reason::OpenProcess)));
    assert_eq!(Reason::OpenProcess.message(), "open process");
}

#[test]
fn properties() {
    let s = debug(UDbgStatus::Running, None);
    assert_eq!(s.get_prop("peb", Some(0x1000)), Ok(PropValue::U64(0x1000)));
    assert_eq!(s.get_prop("peb", None), Err(UDbgError::NotFound));
    assert_eq!(s.get_prop("wow64", None), Ok(PropValue::Bool(true)));
    assert_eq!(s.get_prop("handle", None), Ok(PropValue::U64(0x44)));
    assert_eq!(s.get_prop("pid", Some(1)), Err(UDbgError::NotFound));
}

#[test]
fn stopping() {
    assert!(matches!(
        target(UDbgStatus::Opened).breakk(),
        Poll::Ready(Err(UDbgError::NotSupport))
    ));
    assert!(matches!(
        target(UDbgStatus::Paused).breakk(),
        Poll::Ready(Err(UDbgError::Text(Reason::AlreadyPaused)))
    ));
    assert!(matches!(
        target(UDbgStatus::Running).breakk(),
        Poll::Pending(Action::BreakProcess, _)
    ));
    assert_eq!(StandardAdaptor::resume_break(Reply::Done), Ok(()));
    assert_eq!(StandardAdaptor::resume_break(Reply::Failed(5)), Err(UDbgError::System(5)));
    assert_eq!(Reason::AlreadyPaused.message(), "already paused");
}

#[test]
fn leaving() {
    let mut t = target(UDbgStatus::Opened);
    assert!(matches!(t.detach(), Poll::Ready(Ok(()))));
    assert_eq!(t.debug.base.status, UDbgStatus::Ended);
    assert!(!t.detaching);
    let mut t = target(UDbgStatus::Paused);
    assert!(matches!(t.detach(), Poll::Ready(Ok(()))));
    assert!(t.detaching);
    let mut t = target(UDbgStatus::Running);
    assert!(matches!(t.detach(), Poll::Pending(Action::BreakProcess, _)));
    assert!(t.detaching);
}

#[test]
fn ending() {
    assert_eq!(StandardAdaptor::kill(Reply::Done), Ok(()));
    assert_eq!(StandardAdaptor::kill(Reply::Failed(5)), Err(UDbgError::System(5)));
    assert_eq!(CommonAdaptor::terminate_process(Reply::Failed(6)), Err(UDbgError::System(6)));
}

#[test]
fn registers_at_hand() {
    let mut t = target(UDbgStatus::Running);
    assert_eq!(t.get_registers(), Err(UDbgError::TargetIsBusy));
    t.debug.has_cx = true;
    t.debug.cx.rip = 5;
    assert_eq!(t.get_registers(), Ok(Width::Wide));
    assert_eq!(t.context().unwrap().rip, 5);
    t.debug.has_cx32 = true;
    assert_eq!(t.get_registers(), Ok(Width::Narrow));
}

#[test]
fn parameters_of_exceptions() {
    let mut t = target(UDbgStatus::Paused);
    t.record.params[14] = 9;
    assert_eq!(t.except_param(14), Some(9));
    assert_eq!(t.except_param(0), Some(0));
    assert_eq!(t.except_param(15), None);
}

#[test]
fn bytes_written() {
    assert_eq!(StandardAdaptor::write_memory(0), None);
    assert_eq!(StandardAdaptor::write_memory(3), Some(3));
}

#[test]
fn far_symbols_are_given_by_module() {
    let sym = |offset: usize, symbol: &str| SymbolInfo {
        module: "m".to_string(),
        symbol: symbol.to_string(),
        offset,
        mod_base: 0x1000,
    };
    let near = CommonAdaptor::to_syminfo(sym(4, "f"), 0x1234, 0x100);
    assert_eq!((near.symbol.as_str(), near.offset), ("f", 4));
    let far = CommonAdaptor::to_syminfo(sym(0x200, "f"), 0x1234, 0x100);
    assert_eq!((far.symbol.as_str(), far.offset), ("", 0x234));
    let bare = CommonAdaptor::to_syminfo(sym(0x200, ""), 0x1234, 0x100);
    assert_eq!((bare.symbol.as_str(), bare.offset), ("", 0x200));
}

#[test]
fn strings_are_shown_if_configured() {
    let mut s = debug(UDbgStatus::Paused, None);
    assert!(matches!(
        s.output_debug_string(1, 2, false),
        Some(Action::ShowString { address: 1, count: 2, wide: false })
    ));
    s.base.show_output = false;
    assert!(s.output_debug_string(1, 2, true).is_none());
}

#[test]
fn a_module_of_an_event() {
    let mut t = target(UDbgStatus::Paused);
    let r = t.try_load_module(None, 0x1000, 3, "C:\\Windows", None, None, &None);
    assert!(r.is_none());
    let path = || Some("C:\\b.dll".to_string());
    let r = t.try_load_module(path(), 0x1000, 3, "C:\\Windows", None, None, &None);
    assert!(matches!(r, Some(Loaded::Unreadable)));
    let r = t.try_load_module(path(), 0x1000, 3, "C:\\Windows", Some(&[0; 99]), None, &None);
    assert!(matches!(r, Some(Loaded::BadHeaders(_))));
    assert!(t.debug.symgr.list.is_empty());
    assert!(t.enum_module().is_empty());
    assert!(!t.needs_refresh());
    assert!(target(UDbgStatus::Opened).needs_refresh());
    let known = t.debug.symgr.bases();
    t.debug.check_all_module(&known, &vec![]);
    assert!(t.debug.symgr.list.is_empty());
}
