use udbg::regs::{Context32, Context64, DbgContext, HWBPRegs, EFLAGS_RF, EFLAGS_TF};

#[test]
fn step_flag_is_switched() {
    let mut cx = Context64::zeroed();
    cx.eflags = 0x246;
    cx.set_step(true);
    assert_eq!(cx.eflags, 0x346);
    assert!(cx.test_eflags(EFLAGS_TF));
    cx.set_step(false);
    assert_eq!(cx.eflags, 0x246);
    assert!(!cx.test_eflags(EFLAGS_TF));
    let mut cx32 = Context32::zeroed();
    cx32.set_step(true);
    assert_eq!(cx32.eflags, 0x100);
}

#[test]
fn resume_flag_is_set() {
    let mut cx = Context64::zeroed();
    cx.set_rf();
    assert_eq!(cx.eflags, EFLAGS_RF);
    let mut cx32 = Context32::zeroed();
    cx32.eflags = 2;
    cx32.set_rf();
    assert_eq!(cx32.eflags, 0x10002);
    assert!(cx32.test_eflags(EFLAGS_RF));
}

#[test]
fn slots_are_set_in_the_control_register() {
    let mut cx = Context64::zeroed();
    cx.set_bp(0x1000, 0, 0, 0);
    assert_eq!(cx.dr7, 0x101);
    assert_eq!(cx.dr0, 0x1000);
    cx.set_bp(0x2000, 1, 1, 1);
    assert_eq!(cx.dr7, 0x500105);
    assert_eq!(cx.dr1, 0x2000);
    cx.set_bp(0x3000, 2, 3, 3);
    assert_eq!(cx.dr7, 0xF500115);
    assert_eq!(cx.dr2, 0x3000);
    cx.set_bp(0x4000, 3, 3, 2);
    assert_eq!(cx.dr7, 0xBF500135);
    assert_eq!(cx.dr3, 0x4000);
    assert_eq!(cx.dr0, 0x1000);
}

#[test]
fn a_cleared_slot_leaves_the_others() {
    let mut cx = Context64::zeroed();
    cx.set_bp(0x1000, 0, 3, 0);
    cx.set_bp(0x2000, 1, 1, 3);
    cx.unset_bp(0);
    assert_eq!(cx.dr0, 0);
    assert_eq!(cx.dr1, 0x2000);
    assert_eq!(cx.dr7, 0xD00104);
    assert!(!cx.empty());
    cx.unset_bp(1);
    assert_eq!(cx.dr7, 0);
    assert!(cx.empty());
}

#[test]
fn setting_and_clearing_gives_the_context_back() {
    for i in 0..4usize {
        let mut cx = Context64::zeroed();
        cx.eflags = 0x246;
        cx.rip = 0x401000;
        let before = cx;
        cx.set_bp(0x7ff6_0000_1000, i, 3, 2);
        assert_ne!(cx, before);
        cx.unset_bp(i);
        assert_eq!(cx, before);
        let mut cx32 = Context32::zeroed();
        let before32 = cx32;
        cx32.set_bp(0x401000, i, 1, 3);
        assert_ne!(cx32, before32);
        cx32.unset_bp(i);
        assert_eq!(cx32, before32);
    }
}

#[test]
fn narrow_slots_hold_the_low_half() {
    let mut cx = Context32::zeroed();
    cx.set_bp(0x1_0040_1000, 2, 1, 3);
    assert_eq!(cx.dr2, 0x401000);
    assert_eq!(cx.dr7, 0x0D000110);
}

#[test]
fn an_access_kind_past_two_bits_spills() {
    let mut cx = Context64::zeroed();
    cx.set_rw(0, 4);
    assert_eq!(cx.dr7, 4 << 16);
    cx.set_len(0, 1);
    assert_eq!(cx.dr7, 1 << 18);
}

#[test]
fn instruction_pointers_read_as_signed() {
    let mut cx = Context64::zeroed();
    cx.set_ip(0xFFFF_FFFF_FFFF_D8F0);
    assert_eq!(cx.signed_ip(), -10000);
    assert_eq!(cx.ip(), 0xFFFF_FFFF_FFFF_D8F0);
    let mut cx32 = Context32::zeroed();
    cx32.set_ip(0xFFFF_D8F0);
    assert_eq!(cx32.signed_ip(), -10000);
    cx32.dr6 = 0xFFFF0FF1;
    assert_eq!(cx32.dr6(), 0xFFFF0FF1);
}

#[test]
fn exact_breakpoints_and_locals_are_switched() {
    let mut cx = Context64::zeroed();
    cx.l_enable(true);
    assert_eq!(cx.dr7, 0x100);
    cx.l_enable(false);
    assert_eq!(cx.dr7, 0);
    cx.set_local(3, true);
    assert_eq!(cx.dr7, 0x20);
    assert!(!cx.empty());
    cx.set_local(9, false);
    assert_eq!(cx.dr7, 0);
    cx.dr6 = 0xFFFF_0FF2;
    assert_eq!(cx.dr6(), 0xFFFF_0FF2);
}
