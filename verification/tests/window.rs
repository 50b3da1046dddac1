use draft::pill::monitor::{HomeMonitor, Rect};
use draft::pill::window::{
    with_pill_ex_style, without_layered, Buffers, Size, Surface, PILL_EX_STYLE, WS_EX_LAYERED, WS_EX_NOACTIVATE,
    WS_EX_TOOLWINDOW, WS_EX_TOPMOST, WS_EX_TRANSPARENT,
};

const WS_EX_APPWINDOW: u32 = 0x0004_0000;


// The bit that keeps the pill from stealing focus is the whole reason the
// clobber matters — it must be in the set we re-assert, not just LAYERED.
#[test]
fn the_pill_set_covers_every_style_the_pill_depends_on() {
    for bit in [
        WS_EX_LAYERED,
        WS_EX_TRANSPARENT,
        WS_EX_NOACTIVATE,
        WS_EX_TOOLWINDOW,
        WS_EX_TOPMOST,
    ] {
        assert_eq!(PILL_EX_STYLE & bit, bit, "missing {bit:?}");
    }
}

// Read-modify-write, never an absolute write: bits set by Windows or winit
// for their own reasons have to survive our re-assertion.
#[test]
fn applying_the_pill_set_preserves_foreign_bits() {
    let cur = WS_EX_APPWINDOW;
    assert_eq!(with_pill_ex_style(cur), cur | PILL_EX_STYLE);
}

#[test]
fn applying_the_pill_set_is_idempotent() {
    let once = with_pill_ex_style(WS_EX_APPWINDOW);
    assert_eq!(with_pill_ex_style(once), once);
}

// The re-arm's first write must drop LAYERED and nothing else — clearing
// NOACTIVATE for even one message would let the pill take focus.
#[test]
fn the_rearm_clears_only_the_layered_bit() {
    let cur = with_pill_ex_style(WS_EX_APPWINDOW);
    let cleared = without_layered(cur);
    assert_eq!(cleared & WS_EX_LAYERED, 0);
    assert_eq!(cleared, cur & !WS_EX_LAYERED);
    assert_eq!(with_pill_ex_style(cleared), cur);
}

fn home(dpi: u32) -> HomeMonitor {
    HomeMonitor { id: 1, work: Rect::default(), dpi }
}

/// The same monitor again is no move; another scale on it is one.
#[test]
fn only_a_changed_home_monitor_moves_the_window() {
    let mut s: Surface<u8> = Surface::new(home(96), 124, 36);
    assert!(!s.set_home(home(96)));
    assert!(s.set_home(home(144)));
    assert_eq!(s.home.dpi, 144);
    assert!(!s.set_home(home(144)));
}

/// Buffers are remade only for another size, and never without a pixel.
#[test]
fn only_another_size_remakes_the_buffers() {
    let mut s: Surface<u8> = Surface::new(home(96), 124, 36);
    assert!(!s.ensure_size(124, 36));
    assert!(s.ensure_size(0, 3));
    assert_eq!(
        s.buffers,
        Buffers {
            device: Size { w: 1, h: 3 },
            mid: Size { w: 2, h: 6 },
            hires: Size { w: 4, h: 12 },
        }
    );
    assert!(!s.has_frame());
    s.drawn(7);
    assert!(s.has_frame());
    s.ensure_size(124, 36);
    assert_eq!(s.last, Some(7));
}
