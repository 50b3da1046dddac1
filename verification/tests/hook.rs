use draft::pill::hook::{
    classify, HookEvent, Reaction, MA_NOACTIVATE, PBT_POWERSETTINGCHANGE, PROCESSED,
    SESSION_DISPLAY_STATUS, WM_DISPLAYCHANGE, WM_DPICHANGED, WM_MOUSEACTIVATE, WM_POWERBROADCAST,
    WM_WTSSESSION_CHANGE, WTS_CONSOLE_CONNECT, WTS_REMOTE_CONNECT, WTS_SESSION_LOCK,
    WTS_SESSION_UNLOCK,
};

const WM_SIZE: u32 = 0x0005;
const WM_SETFOCUS: u32 = 0x0007;
const WM_PAINT: u32 = 0x000f;
const WM_CLOSE: u32 = 0x0010;
const WM_NCDESTROY: u32 = 0x0082;
const WM_MOUSEMOVE: u32 = 0x0200;

const WTS_CONSOLE_DISCONNECT: u32 = 2;
const WTS_REMOTE_DISCONNECT: u32 = 4;
const WTS_SESSION_LOGON: u32 = 5;


/// The whole reason the pill can be clicked at all: the click is
/// answered here, never forwarded, so DefWindowProc's MA_ACTIVATE — the
/// documented WS_EX_NOACTIVATE hole — is never reached.
#[test]
fn a_click_on_the_pill_is_answered_without_activating_it() {
    assert_eq!(
        classify(WM_MOUSEACTIVATE, 0, None),
        Reaction::Answer {
            result: MA_NOACTIVATE,
            event: None
        }
    );
}

/// winit acts on both of these itself, so surfacing must not swallow
/// them.
#[test]
fn display_and_dpi_changes_are_surfaced_and_still_forwarded() {
    assert_eq!(
        classify(WM_DISPLAYCHANGE, 32, None),
        Reaction::Watch(HookEvent::DisplayChanged)
    );
    // wParam packs the new DPI into both words; we read the low one.
    assert_eq!(
        classify(WM_DPICHANGED, 0x0090_0090, None),
        Reaction::Watch(HookEvent::DpiChanged { dpi: 144 })
    );
}

#[test]
fn the_display_going_off_and_coming_back_are_surfaced() {
    let off = classify(
        WM_POWERBROADCAST,
        PBT_POWERSETTINGCHANGE as usize,
        Some((SESSION_DISPLAY_STATUS, 0)),
    );
    assert_eq!(
        off,
        Reaction::Answer {
            result: PROCESSED,
            event: Some(HookEvent::DisplayPower { on: false })
        }
    );
    for data in [1, 2] {
        assert_eq!(
            classify(
                WM_POWERBROADCAST,
                PBT_POWERSETTINGCHANGE as usize,
                Some((SESSION_DISPLAY_STATUS, data)),
            ),
            Reaction::Answer {
                result: PROCESSED,
                event: Some(HookEvent::DisplayPower { on: true })
            },
            "display data {data} (2 is dimmed, which is still on)"
        );
    }
}

/// We register for one power setting, but the message is shared —
/// anything else arriving on it belongs to whoever asked for it.
#[test]
fn another_power_setting_passes_through() {
    let other: u128 = 0x0da73b3a_0000_0000_0000_000000000000;
    assert_eq!(
        classify(
            WM_POWERBROADCAST,
            PBT_POWERSETTINGCHANGE as usize,
            Some((other, 0))
        ),
        Reaction::Pass
    );
    // Suspend/resume broadcasts share the message too.
    assert_eq!(classify(WM_POWERBROADCAST, 0x0004, None), Reaction::Pass);
}

/// Surfaced and still forwarded — this message's return value is
/// documented as ignored, so answering it would claim nothing.
#[test]
fn locking_and_unlocking_the_session_are_surfaced() {
    assert_eq!(
        classify(WM_WTSSESSION_CHANGE, WTS_SESSION_LOCK as usize, None),
        Reaction::Watch(HookEvent::SessionLock { locked: true })
    );
    assert_eq!(
        classify(WM_WTSSESSION_CHANGE, WTS_SESSION_UNLOCK as usize, None),
        Reaction::Watch(HookEvent::SessionLock { locked: false })
    );
    // The same message carries logon and the disconnects, which
    // nothing acts on.
    for code in [
        WTS_SESSION_LOGON,
        WTS_CONSOLE_DISCONNECT,
        WTS_REMOTE_DISCONNECT,
    ] {
        assert_eq!(
            classify(WM_WTSSESSION_CHANGE, code as usize, None),
            Reaction::Pass,
            "session code {code}"
        );
    }
}

/// An RDP client reconnecting, and the session going back to the
/// physical console, both rebuild what is drawing the desktop — and a
/// layered surface does not reliably survive that. The pill has to hear
/// about it or it comes back invisible, with no way to recover but to
/// start a dictation.
#[test]
fn reattaching_the_session_to_a_terminal_is_surfaced() {
    for code in [WTS_REMOTE_CONNECT, WTS_CONSOLE_CONNECT] {
        assert_eq!(
            classify(WM_WTSSESSION_CHANGE, code as usize, None),
            Reaction::Watch(HookEvent::SessionReconnected),
            "session code {code}"
        );
    }
}

/// The hook claims five messages and nothing else. Everything the
/// window does — painting, sizing, focus, closing, the mouse moving
/// over it — has to reach the window procedure untouched.
#[test]
fn every_other_message_passes_through() {
    for msg in [
        WM_PAINT,
        WM_SIZE,
        WM_CLOSE,
        WM_SETFOCUS,
        WM_MOUSEMOVE,
        WM_NCDESTROY,
    ] {
        assert_eq!(classify(msg, 0, None), Reaction::Pass, "message {msg:#x}");
    }
}
    
