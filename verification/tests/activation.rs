use draft::activation::{Fsm, InEvent, Mode, OutEvent};
use draft::clock::{share_of, Duration, Instant, WHOLE};

fn down(ms: u64) -> InEvent {
    InEvent::Pressed(Instant::from_millis(ms))
}

fn up(ms: u64) -> InEvent {
    InEvent::Released(Instant::from_millis(ms))
}

/// Holding records for as long as the key is down.
#[test]
fn holding_records_while_the_key_is_down() {
    let mut f = Fsm::new(Mode::Hold { double_press_lock: false });
    assert_eq!(f.step(up(0)), OutEvent::Ignore);
    assert_eq!(f.step(down(10)), OutEvent::Start);
    assert_eq!(f.step(down(20)), OutEvent::Ignore);
    assert_eq!(f.step(up(30)), OutEvent::Stop);
}

/// Toggling records from one press to the next.
#[test]
fn toggling_records_between_presses() {
    let mut f = Fsm::new(Mode::Toggle);
    assert_eq!(f.step(down(0)), OutEvent::Start);
    assert_eq!(f.step(up(10)), OutEvent::Ignore);
    assert_eq!(f.step(down(1000)), OutEvent::Stop);
    assert_eq!(f.step(up(1010)), OutEvent::Ignore);
}

/// A second press right behind the first one keeps recording until a third.
#[test]
fn a_double_press_locks() {
    let mut f = Fsm::new(Mode::Hold { double_press_lock: true });
    f.step(down(0));
    assert_eq!(f.step(up(100)), OutEvent::Stop);
    assert_eq!(f.step(down(400)), OutEvent::Start);
    assert_eq!(f.step(up(500)), OutEvent::Ignore);
    assert_eq!(f.step(down(900)), OutEvent::Stop);
}

/// A second press that comes too late only holds.
#[test]
fn a_late_second_press_only_holds() {
    let mut f = Fsm::new(Mode::Hold { double_press_lock: true });
    f.step(down(0));
    f.step(up(100));
    f.step(down(401));
    assert_eq!(f.step(up(500)), OutEvent::Stop);
}

/// A share is exact, is capped at the whole, and of no time at all is the whole.
#[test]
fn shares_of_a_duration_are_exact() {
    let ms = Duration::from_millis;
    assert_eq!(share_of(ms(1), ms(4)), WHOLE / 4);
    assert_eq!(share_of(ms(5), ms(4)), WHOLE);
    assert_eq!(share_of(ms(0), ms(0)), WHOLE);
    let later = Instant::from_millis(5).plus(ms(3));
    assert_eq!(later.saturating_duration_since(Instant::from_millis(5)), ms(3));
    assert_eq!(Instant::from_millis(5).saturating_duration_since(later), ms(0));
}
