use dialpwm::pwm::{cycle_ticks, PwmAction, PwmCtrl};

#[test]
fn cycle_ticks_divides_periods() {
    // 20 ms cycle cut into 5 us ticks.
    assert_eq!(cycle_ticks(20_000_000, 5_000), 4000);
    assert_eq!(cycle_ticks(10, 3), 3);
    assert_eq!(cycle_ticks(2, 3), 0);
}

#[test]
fn cycle_ticks_keeps_low_32_bits() {
    assert_eq!(cycle_ticks((1u128 << 32) + 5, 1), 5);
    assert_eq!(cycle_ticks(u128::MAX, 1), u32::MAX);
}

#[test]
fn from_periods_refuses_empty_cycles() {
    assert!(PwmCtrl::from_periods(1000, 0).is_none());
    assert!(PwmCtrl::from_periods(2, 3).is_none());
    let p = PwmCtrl::from_periods(20_000, 5_000).unwrap();
    assert_eq!(p.ticks(), 4);
    assert_eq!(p.position(), 4);
    assert!(p.needs_sync());
}

#[test]
fn new_starts_at_cycle_boundary() {
    let p = PwmCtrl::new(8);
    assert!(p.needs_sync());
    assert_eq!(p.ticks(), 8);
    assert_eq!(p.position(), 8);
    assert_eq!(p.duty_ticks(), 0);
    assert_eq!(p.mask(), 0);
}

#[test]
fn full_cycle_outputs_mask_for_duty_ticks() {
    let mut p = PwmCtrl::new(4);
    let mut out = Vec::new();
    out.push(p.step(false, 0b1010, 3));
    for _ in 1..4 {
        assert!(!p.needs_sync());
        out.push(p.step(false, 0, 0));
    }
    assert_eq!(
        out,
        vec![
            PwmAction::Write(0b1010),
            PwmAction::Write(0b1010),
            PwmAction::Write(0b1010),
            PwmAction::Write(0)
        ]
    );
    assert!(p.needs_sync());
    assert_eq!(p.duty_ticks(), 3);
    assert_eq!(p.mask(), 0b1010);
}

#[test]
fn duty_at_or_above_ticks_keeps_output_on() {
    let mut p = PwmCtrl::new(3);
    for _ in 0..3 {
        assert_eq!(p.step(false, 0xff, 7), PwmAction::Write(0xff));
    }
    assert!(p.needs_sync());
}

#[test]
fn zero_duty_keeps_output_off() {
    let mut p = PwmCtrl::new(3);
    for _ in 0..3 {
        assert_eq!(p.step(false, 0xff, 0), PwmAction::Write(0));
    }
}

#[test]
fn stop_only_at_cycle_boundary() {
    let mut p = PwmCtrl::new(2);
    assert_eq!(p.step(false, 1, 1), PwmAction::Write(1));
    // Inside the cycle the stop flag is not looked at.
    assert_eq!(p.step(true, 1, 1), PwmAction::Write(0));
    assert!(p.needs_sync());
    assert_eq!(p.step(true, 1, 1), PwmAction::Stop);
    // Stopping leaves the state unchanged.
    assert!(p.needs_sync());
    assert_eq!(p.position(), 2);
    assert_eq!(p.step(true, 5, 5), PwmAction::Stop);
}

#[test]
fn inputs_inside_cycle_are_ignored() {
    let mut a = PwmCtrl::new(5);
    let mut b = PwmCtrl::new(5);
    assert_eq!(a.step(false, 3, 2), b.step(false, 3, 2));
    for k in 1..5u32 {
        let x = a.step(false, 0, 0);
        let y = b.step(true, 0xff, k * 100);
        assert_eq!(x, y);
    }
    assert!(a.needs_sync() && b.needs_sync());
}

#[test]
fn new_cycle_takes_new_settings() {
    let mut p = PwmCtrl::new(2);
    assert_eq!(p.step(false, 1, 2), PwmAction::Write(1));
    assert_eq!(p.step(false, 9, 0), PwmAction::Write(1));
    assert_eq!(p.step(false, 4, 1), PwmAction::Write(4));
    assert_eq!(p.step(false, 9, 9), PwmAction::Write(0));
    assert_eq!(p.mask(), 4);
    assert_eq!(p.duty_ticks(), 1);
}
