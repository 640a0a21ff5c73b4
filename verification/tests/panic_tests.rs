use libkernel::panic::{
    panic_exit, panic_prevent_reenter, panic_report, PanicExit, PanicHookSlot, PanicLocation,
    ReenterDecision,
};

#[test]
fn reenter_guard_lets_one_panic_through() {
    let (flag, first) = panic_prevent_reenter(false);
    assert_eq!(first, ReenterDecision::Proceed);
    assert!(flag);
    let (flag, second) = panic_prevent_reenter(flag);
    assert_eq!(second, ReenterDecision::Halt);
    assert!(flag);
}

#[test]
fn exit_after_panic() {
    assert_eq!(panic_exit(false), PanicExit::WaitForever);
    assert_eq!(panic_exit(true), PanicExit::QemuExitFailure);
}

#[test]
fn report_with_location() {
    let loc = PanicLocation { file: "src/main.rs", line: 12, column: 5 };
    let r = panic_report(3, 1500, Some(loc), "boom");
    assert_eq!(
        r,
        "\n\n[    3.001500] Kernel panic!\n\n\n        Panic location:\n      File 'src/main.rs', line 12, column 5\n\n\n        boom\n"
    );
}

#[test]
fn report_without_location() {
    let r = panic_report(1000, 0, None, "");
    assert_eq!(
        r,
        "\n\n[  1000.000000] Kernel panic!\n\n\n        Panic location:\n      File '???', line 0, column 0\n\n\n        \n"
    );
}

#[test]
fn hook_slot_take_after_set() {
    let mut slot: PanicHookSlot<u32> = PanicHookSlot::new();
    assert_eq!(slot.take_panic_hook(), None);
    slot.set_panic_hook(7);
    slot.set_panic_hook(9);
    assert_eq!(slot.take_panic_hook(), Some(9));
    assert_eq!(slot.take_panic_hook(), None);
}
