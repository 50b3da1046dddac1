use draft::clock::{Instant, WHOLE};
use draft::pill::bar::{button, Action, BUTTON_COUNT};
use draft::pill::label::{Fade, Label, COPIED, COPIED_LINGER_MS};


fn t(ms: u64) -> Instant {
    Instant::from_millis(ms)
}

/// The index of the button with `action`, so the tests name buttons the way
/// the bar does rather than by a position that could be re-ordered.
fn index_of(action: Action) -> usize {
    (0..BUTTON_COUNT).position(|i| button(i).action == action).unwrap()
}

/// Nothing hovered, nothing acknowledged: the label is not on screen. The
/// end padding reaches here too — the Pill core reports it as no button.
#[test]
fn a_label_with_nothing_to_say_draws_nothing() {
    let mut l = Label::new(t(0));
    assert!(l.at(t(0)).is_blank());
    assert!(!l.set_hover(None, t(0)), "no change to make");
    assert!(l.at(t(1000)).is_blank());
    assert!(!l.is_running(t(0)));
}

/// Hovering a button names it, over the settled 110 ms.
#[test]
fn hovering_a_button_fades_its_name_in() {
    let mut l = Label::new(t(0));
    assert!(l.set_hover(Some(index_of(Action::Copy)), t(0)));
    let f = l.at(t(0));
    assert_eq!(f.to, Some("Copy last transcript"));
    assert_eq!(f.from, None);
    assert_eq!(f.opacities(), (0, 0));
    assert!(l.is_running(t(0)));
    assert_eq!(l.at(t(110)).opacities(), (0, WHOLE));
    assert!(!l.is_running(t(110)));
}

/// Sliding from one button to the next is one crossfade: the arriving name
/// comes up over exactly the 110 ms the leaving one goes down, and the two
/// opacities sum to one throughout.
#[test]
fn the_name_crossfades_between_buttons() {
    let mut l = Label::new(t(0));
    l.set_hover(Some(index_of(Action::Copy)), t(0));
    assert!(l.set_hover(Some(index_of(Action::Settings)), t(110)));
    for ms in 110..=220 {
        let f = l.at(t(ms));
        assert_eq!(
            (f.from, f.to),
            (Some("Copy last transcript"), Some("Settings"))
        );
        let (a, b) = f.opacities();
        assert_eq!(a + b, WHOLE, "at {ms}ms: {a} + {b}");
    }
    assert_eq!(l.at(t(220)).opacities(), (0, WHOLE));
}

/// A cursor wandering inside one slab is not a change: restarting the fade
/// on every `CursorMoved` would leave the name permanently half-drawn.
#[test]
fn label_re_hovering_the_same_button_does_not_restart_the_fade() {
    let mut l = Label::new(t(0));
    l.set_hover(Some(index_of(Action::Settings)), t(0));
    assert!(!l.set_hover(Some(index_of(Action::Settings)), t(55)));
    assert_eq!(l.at(t(110)).opacities(), (0, WHOLE));
    assert!(!l.is_running(t(110)));
}

/// Leaving the bar takes the label with it, over the same crossfade — out
/// to nothing rather than by some second disappear animation.
#[test]
fn leaving_the_bar_fades_the_name_out() {
    let mut l = Label::new(t(0));
    l.set_hover(Some(index_of(Action::Dictate)), t(0));
    assert!(l.set_hover(None, t(110)));
    let f = l.at(t(165));
    assert_eq!((f.from, f.to), (Some("Dictate"), None));
    let (a, b) = f.opacities();
    assert!(a > 0 && b == 0, "{a} {b}");
    assert!(l.at(t(220)).is_blank());
}

/// The copy acknowledgement: exactly 1000 ms, then back to whatever the
/// cursor is on — which, since the user just clicked it, is Copy.
#[test]
fn a_copy_flashes_for_its_linger_and_then_names_the_button_again() {
    let mut l = Label::new(t(0));
    l.set_hover(Some(index_of(Action::Copy)), t(0));
    assert!(l.flash(COPIED, t(200)));
    assert_eq!(l.at(t(310)).to, Some(COPIED));
    // Still up a millisecond short of the linger...
    assert!(!l.tick(t(1199)));
    assert_eq!(l.at(t(1199)).to, Some(COPIED));
    // ...and gone on the crossing, back to the button under the cursor.
    assert!(l.tick(t(1200)));
    let f = l.at(t(1200));
    assert_eq!((f.from, f.to), (Some(COPIED), Some("Copy last transcript")));
    assert_eq!(COPIED_LINGER_MS, 1000);
}

/// A held flash is a still image. Asking for frames through the whole
/// second would be a second of pushing identical pixels — the very cost the
/// resident pill is built to avoid.
#[test]
fn a_held_flash_asks_for_no_frames() {
    let mut l = Label::new(t(0));
    l.flash(COPIED, t(0));
    assert!(l.is_running(t(50)), "the fade in still has frames");
    assert!(!l.is_running(t(500)), "a settled flash wants no frames");
}

/// The flash outranks the hover while it holds — including the cursor
/// moving on to another button, which is where "Copied" would otherwise be
/// replaced by a name a beat after the click that earned it.
#[test]
fn a_flash_outranks_the_hover_underneath_it() {
    let mut l = Label::new(t(0));
    l.set_hover(Some(index_of(Action::Copy)), t(0));
    l.flash(COPIED, t(0));
    assert!(!l.set_hover(Some(index_of(Action::Settings)), t(200)));
    assert_eq!(l.at(t(200)).to, Some(COPIED));
    // And when it expires, the hover it was covering is what surfaces.
    assert!(l.tick(t(1000)));
    assert_eq!(l.at(t(1000)).to, Some("Settings"));
}

/// The bar collapsing takes everything with it, flash included: a "Copied"
/// left standing would sit over a recording pill saying nothing about it.
#[test]
fn dismissing_the_label_drops_a_running_flash() {
    let mut l = Label::new(t(0));
    l.set_hover(Some(index_of(Action::Copy)), t(0));
    l.flash(COPIED, t(0));
    assert!(l.dismiss(t(200)));
    assert!(l.at(t(310)).is_blank());
    // And the hover underneath is gone too, so it cannot surface later.
    assert!(!l.tick(t(2000)));
}

/// A reset is a wipe, not a fade — for a window that is being destroyed,
/// where there is nothing left to fade out on.
#[test]
fn a_reset_leaves_no_tail_for_the_next_window() {
    let mut l = Label::new(t(0));
    l.set_hover(Some(index_of(Action::Settings)), t(0));
    l.reset(t(50));
    assert!(l.at(t(50)).is_blank());
    assert!(!l.is_running(t(50)));
}

/// Every button has a name, and they are the settled ones. The
/// bar is icon-only; a button whose name were empty would be unlearnable.
#[test]
fn every_button_is_named() {
    let names: Vec<&str> = (0..BUTTON_COUNT).map(|i| button(i).name).collect();
    assert_eq!(names, vec!["Copy last transcript", "Dictate", "Settings"]);
    assert!(names.iter().all(|n| !n.trim().is_empty()));
}

/// A share past the whole is the whole.
#[test]
fn a_fade_never_lights_past_the_whole() {
    let f = Fade {
        from: Some("a"),
        to: Some("b"),
        t: 2 * WHOLE,
    };
    assert_eq!(f.opacities(), (0, WHOLE));
    assert!(!f.is_blank());
    let gone = Fade { to: None, ..f };
    assert!(gone.is_blank());
}
