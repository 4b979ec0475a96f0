use rxinu::interrupts::irq::{timer, TimerDecision};
use rxinu::interrupts::exception::{handle, Exception, ExceptionOutcome};
use rxinu::interrupts::{
    clear_mask, disable_interrupts_then, disable_then_execute, enable_and_hlt, enabled, mask,
    mask_then_restore, restore_mask, InterruptState,
};

#[test]
fn breakpoint_exception() {
    // the breakpoint handler reports the trap and returns
    let exception = Exception::from_vector(3).unwrap();
    let (message, outcome) = handle(exception);
    assert_eq!(message, "\nBreakpoint trap");
    assert_eq!(outcome, ExceptionOutcome::Resume);
}

#[test]
fn mod_breakpoint_exception() {
    let (_, outcome) = handle(Exception::Breakpoint);
    assert_eq!(outcome, ExceptionOutcome::Resume);
}

#[test]
fn faults_that_halt() {
    assert_eq!(handle(Exception::PageFault).1, ExceptionOutcome::Halt);
    assert_eq!(handle(Exception::DoubleFault).1, ExceptionOutcome::Halt);
    assert_eq!(handle(Exception::InvalidOpcode).1, ExceptionOutcome::Halt);
    assert_eq!(handle(Exception::GeneralProtectionFault).1, ExceptionOutcome::Halt);
    assert_eq!(handle(Exception::DivideError).1, ExceptionOutcome::Resume);
}

#[test]
fn exception_vectors_round_trip() {
    for v in 0..=255u8 {
        match Exception::from_vector(v) {
            Some(e) => assert_eq!(e.vector(), v),
            None => assert!(v == 9 || v == 15 || (21..30).contains(&v) || v >= 31),
        }
    }
    assert!(Exception::PageFault.has_error_code());
    assert!(!Exception::Breakpoint.has_error_code());
}

#[test]
fn disable_then_execute_restores_the_flag() {
    let mut state = InterruptState { enabled: true, main_mask: 0x12, worker_mask: 0x34 };
    let r = disable_then_execute(&mut state, |s| {
        assert!(!s.enabled);
        7
    });
    assert_eq!(r, 7);
    assert_eq!(state, InterruptState { enabled: true, main_mask: 0x12, worker_mask: 0x34 });
    let mut off = InterruptState { enabled: false, main_mask: 0, worker_mask: 0 };
    disable_then_execute(&mut off, |s| assert!(!s.enabled));
    assert!(!enabled(&off));
}

#[test]
fn mask_then_restore_puts_the_masks_back() {
    let mut state = InterruptState { enabled: false, main_mask: 0xfb, worker_mask: 0x01 };
    let r = mask_then_restore(&mut state, |s| {
        assert_eq!(*s, InterruptState { enabled: false, main_mask: 0xff, worker_mask: 0xff });
        "done"
    });
    assert_eq!(r, "done");
    assert_eq!(state, InterruptState { enabled: true, main_mask: 0xfb, worker_mask: 0x01 });
}

#[test]
fn mask_and_restore() {
    let mut state = InterruptState { enabled: true, main_mask: 0x0f, worker_mask: 0xf0 };
    let saved = mask(&mut state);
    assert_eq!(saved, (0x0f, 0xf0));
    assert_eq!(state, InterruptState { enabled: false, main_mask: 0xff, worker_mask: 0xff });
    restore_mask(&mut state, saved);
    assert_eq!(state, InterruptState { enabled: true, main_mask: 0x0f, worker_mask: 0xf0 });
    clear_mask(&mut state);
    assert_eq!(state, InterruptState { enabled: true, main_mask: 0, worker_mask: 0 });
    let mut s = InterruptState { enabled: false, main_mask: 1, worker_mask: 2 };
    enable_and_hlt(&mut s);
    assert!(s.enabled);
    disable_interrupts_then(&mut s, |inner| assert!(!inner.enabled));
    assert!(s.enabled);
}

#[test]
fn timer_reschedules_every_tenth_tick() {
    assert_eq!(timer(0), TimerDecision { ticks: 1, reschedule: false });
    assert_eq!(timer(8), TimerDecision { ticks: 9, reschedule: false });
    assert_eq!(timer(9), TimerDecision { ticks: 0, reschedule: true });
    assert_eq!(timer(10), TimerDecision { ticks: 0, reschedule: true });
    let mut ticks = 0;
    let mut reschedules = 0;
    for _ in 0..20 {
        let d = timer(ticks);
        ticks = d.ticks;
        if d.reschedule {
            reschedules += 1;
        }
    }
    assert_eq!(reschedules, 2);
    assert_eq!(ticks, 0);
}
