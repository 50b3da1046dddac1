//! What the pill's window does with the messages that only the system's window
//! procedure sees. Everything that is not named here passes through unchanged.
use vstd::prelude::*;

verus! {

/// The message that asks whether a click may activate the window.
pub const WM_MOUSEACTIVATE: u32 = 0x0021;

/// The answer that the click does not activate it.
pub const MA_NOACTIVATE: isize = 3;

/// The resolution, the monitors or their colours changed.
pub const WM_DISPLAYCHANGE: u32 = 0x007e;

/// The window's scale changed.
pub const WM_DPICHANGED: u32 = 0x02e0;

/// The message that carries power settings, among others.
pub const WM_POWERBROADCAST: u32 = 0x0218;

/// A power setting changed.
pub const PBT_POWERSETTINGCHANGE: u32 = 0x8013;

/// The session was locked, unlocked or moved to another terminal.
pub const WM_WTSSESSION_CHANGE: u32 = 0x02b1;

/// The session came to the physical console.
pub const WTS_CONSOLE_CONNECT: u32 = 1;

/// The session came to a remote terminal.
pub const WTS_REMOTE_CONNECT: u32 = 3;

/// The session was locked.
pub const WTS_SESSION_LOCK: u32 = 7;

/// The session was unlocked.
pub const WTS_SESSION_UNLOCK: u32 = 8;

/// The power setting that tells whether the session's display is on.
pub const SESSION_DISPLAY_STATUS: u128 = 0x2b84c20e_ad23_4ddf_93db_05ffbd7efca5;

/// The answer that a broadcast was dealt with.
pub const PROCESSED: isize = 1;

/// A window message that the app loop needs to know about.
#[derive(Clone, Copy, PartialEq, Eq, Debug, Structural)]
pub enum HookEvent {
    /// The pill's coordinate space may no longer exist.
    DisplayChanged,
    /// The pill's scale changed; `dpi` is the new one.
    DpiChanged { dpi: u32 },
    /// The display went off or came back. A dimmed one is still on.
    DisplayPower { on: bool },
    /// The session was locked or unlocked.
    SessionLock { locked: bool },
    /// The session is drawn by another terminal than before.
    SessionReconnected,
}

/// What the hook does with a message.
#[derive(Clone, Copy, PartialEq, Eq, Debug)]
pub enum Reaction {
    /// Forward it unchanged.
    Pass,
    /// Return `result` without forwarding.
    Answer { result: isize, event: Option<HookEvent> },
    /// Report it, then forward it: others act on it too.
    Watch(HookEvent),
}

/// The low 32 bits of a message parameter.
pub open spec fn low_dword(x: usize) -> int {
    x as int % 0x1_0000_0000
}

/// The low 16 bits of a message parameter.
pub open spec fn low_word(x: usize) -> int {
    x as int % 0x1_0000
}

/// What the hook does with a message. `power` is the setting that a power
/// broadcast carries, with its value.
pub open spec fn reaction(msg: u32, wparam: usize, power: Option<(u128, u32)>) -> Reaction {
    if msg == WM_MOUSEACTIVATE {
        Reaction::Answer { result: MA_NOACTIVATE, event: None }
    } else if msg == WM_DISPLAYCHANGE {
        Reaction::Watch(HookEvent::DisplayChanged)
    } else if msg == WM_DPICHANGED {
        Reaction::Watch(HookEvent::DpiChanged { dpi: low_word(wparam) as u32 })
    } else if msg == WM_POWERBROADCAST && low_dword(wparam) == PBT_POWERSETTINGCHANGE {
        match power {
            Some((setting, value)) => if setting == SESSION_DISPLAY_STATUS {
                Reaction::Answer {
                    result: PROCESSED,
                    event: Some(HookEvent::DisplayPower { on: value != 0 }),
                }
            } else {
                Reaction::Pass
            },
            None => Reaction::Pass,
        }
    } else if msg == WM_WTSSESSION_CHANGE {
        let code = low_dword(wparam);
        if code == WTS_SESSION_LOCK {
            Reaction::Watch(HookEvent::SessionLock { locked: true })
        } else if code == WTS_SESSION_UNLOCK {
            Reaction::Watch(HookEvent::SessionLock { locked: false })
        } else if code == WTS_REMOTE_CONNECT || code == WTS_CONSOLE_CONNECT {
            Reaction::Watch(HookEvent::SessionReconnected)
        } else {
            Reaction::Pass
        }
    } else {
        Reaction::Pass
    }
}

/// The whole hook as a function of a message.
pub fn classify(msg: u32, wparam: usize, power: Option<(u128, u32)>) -> (r: Reaction)
    ensures
        r == reaction(msg, wparam, power),
{
    let code: u64 = wparam as u64 % 0x1_0000_0000;
    if msg == WM_MOUSEACTIVATE {
        return Reaction::Answer { result: MA_NOACTIVATE, event: None };
    }
    if msg == WM_DISPLAYCHANGE {
        return Reaction::Watch(HookEvent::DisplayChanged);
    }
    if msg == WM_DPICHANGED {
        let dpi: u32 = (wparam % 0x1_0000) as u32;
        return Reaction::Watch(HookEvent::DpiChanged { dpi });
    }
    if msg == WM_POWERBROADCAST && code == PBT_POWERSETTINGCHANGE as u64 {
        return match power {
            Some((setting, value)) if setting == SESSION_DISPLAY_STATUS => Reaction::Answer {
                result: PROCESSED,
                event: Some(HookEvent::DisplayPower { on: value != 0 }),
            },
            _ => Reaction::Pass,
        };
    }
    if msg == WM_WTSSESSION_CHANGE {
        if code == WTS_SESSION_LOCK as u64 {
            return Reaction::Watch(HookEvent::SessionLock { locked: true });
        }
        if code == WTS_SESSION_UNLOCK as u64 {
            return Reaction::Watch(HookEvent::SessionLock { locked: false });
        }
        if code == WTS_REMOTE_CONNECT as u64 || code == WTS_CONSOLE_CONNECT as u64 {
            return Reaction::Watch(HookEvent::SessionReconnected);
        }
    }
    Reaction::Pass
}

/// A click on the pill never activates it, whatever else the message says.
pub proof fn law_clicks_never_activate(wparam: usize, power: Option<(u128, u32)>)
    ensures
        reaction(WM_MOUSEACTIVATE, wparam, power) == (Reaction::Answer {
            result: MA_NOACTIVATE,
            event: None,
        }),
{
}

/// The hook claims five messages and nothing else.
pub proof fn law_other_messages_pass(msg: u32, wparam: usize, power: Option<(u128, u32)>)
    requires
        msg != WM_MOUSEACTIVATE,
        msg != WM_DISPLAYCHANGE,
        msg != WM_DPICHANGED,
        msg != WM_POWERBROADCAST,
        msg != WM_WTSSESSION_CHANGE,
    ensures
        reaction(msg, wparam, power) == Reaction::Pass,
{
}

/// Only the click and the power broadcast are kept from whoever owned the window
/// before: everything else is still forwarded.
pub proof fn law_what_is_watched_is_forwarded(msg: u32, wparam: usize, power: Option<(u128, u32)>)
    requires
        reaction(msg, wparam, power) is Answer,
    ensures
        msg == WM_MOUSEACTIVATE || msg == WM_POWERBROADCAST,
{
}

/// A new scale is the number in the low 16 bits, whatever stands above them.
pub proof fn law_the_new_scale_is_read(
    wparam: usize,
    dpi: u32,
    above: int,
    power: Option<(u128, u32)>,
)
    requires
        wparam == above * 0x1_0000 + dpi,
        dpi < 0x1_0000,
    ensures
        reaction(0x02e0, wparam, power) == Reaction::Watch(HookEvent::DpiChanged { dpi }),
{
    vstd::arithmetic::div_mod::lemma_mod_multiples_vanish(above, dpi as int, 0x1_0000);
    assert(above * 0x1_0000 + dpi == 0x1_0000 * above + dpi) by (nonlinear_arith);
    vstd::arithmetic::div_mod::lemma_small_mod(dpi as nat, 0x1_0000);
}

/// The display counts as off only at zero: dimmed is still on. The answer comes from the
/// one setting that tells of this session's display, and no other is claimed.
pub proof fn law_only_a_dark_display_is_off(
    wparam: usize,
    setting: u128,
    value: u32,
    power: Option<(u128, u32)>,
)
    ensures
        low_dword(wparam) == 0x8013 ==> reaction(
            0x0218,
            wparam,
            Some((0x2b84c20e_ad23_4ddf_93db_05ffbd7efca5u128, value)),
        ) == (Reaction::Answer {
            result: 1,
            event: Some(HookEvent::DisplayPower { on: value > 0 }),
        }),
        setting != 0x2b84c20e_ad23_4ddf_93db_05ffbd7efca5u128 ==> reaction(
            0x0218,
            wparam,
            Some((setting, value)),
        ) == Reaction::Pass,
        reaction(0x0218, wparam, None) == Reaction::Pass,
        low_dword(wparam) != 0x8013 ==> reaction(0x0218, wparam, power) == Reaction::Pass,
{
}

/// What a change of the session means: a lock, an unlock, or another terminal, near or far.
/// Every other change passes.
pub proof fn law_what_a_session_change_means(wparam: usize, power: Option<(u128, u32)>)
    ensures
        ({
            let code = low_dword(wparam);
            let r = reaction(0x02b1, wparam, power);
            &&& r == Reaction::Watch(HookEvent::SessionLock { locked: true }) <==> code == 7
            &&& r == Reaction::Watch(HookEvent::SessionLock { locked: false }) <==> code == 8
            &&& r == Reaction::Watch(HookEvent::SessionReconnected) <==> code == 1 || code == 3
            &&& r == Reaction::Pass <==> code != 7 && code != 8 && code != 1 && code != 3
        }),
{
}

/// A change of the screens is reported and still forwarded; a click is answered by not
/// activating the window, and nobody hears of it.
pub proof fn law_screens_and_clicks(wparam: usize, power: Option<(u128, u32)>)
    ensures
        reaction(0x007e, wparam, power) == Reaction::Watch(HookEvent::DisplayChanged),
        reaction(0x0021, wparam, power) == (Reaction::Answer { result: 3, event: None }),
{
}

/// Only the low half of a parameter is read.
pub proof fn law_the_low_half_is_read(wparam: usize, low: int, above: int)
    requires
        wparam == above * 0x1_0000_0000 + low,
        0 <= low < 0x1_0000_0000,
    ensures
        low_dword(wparam) == low,
{
    vstd::arithmetic::div_mod::lemma_mod_multiples_vanish(above, low, 0x1_0000_0000);
    assert(above * 0x1_0000_0000 + low == 0x1_0000_0000 * above + low) by (nonlinear_arith);
    vstd::arithmetic::div_mod::lemma_small_mod(low as nat, 0x1_0000_0000);
}

} // verus!
