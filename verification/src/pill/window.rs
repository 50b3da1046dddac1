//! What the pill's window decides for itself: its extended-style bits, the buffers
//! it is drawn through, and when it has to be placed or pushed again.
use crate::pill::monitor::HomeMonitor;
use vstd::prelude::*;

verus! {

pub const WS_EX_TOPMOST: u32 = 0x0000_0008;

pub const WS_EX_TRANSPARENT: u32 = 0x0000_0020;

pub const WS_EX_TOOLWINDOW: u32 = 0x0000_0080;

pub const WS_EX_LAYERED: u32 = 0x0008_0000;

pub const WS_EX_NOACTIVATE: u32 = 0x0800_0000;

/// The bits that the pill owns: all five of the above. Other code clears them
/// together, so they are asserted together.
pub const PILL_EX_STYLE: u32 = 0x0808_00a8;

/// The pill's bits put onto whatever the window currently has: never an absolute
/// write, so that bits set by others survive.
pub fn with_pill_ex_style(cur: u32) -> (r: u32)
    ensures
        r == cur | PILL_EX_STYLE,
{
    cur | PILL_EX_STYLE
}

/// The same value without the layered bit, for the first half of arming the
/// window again.
pub fn without_layered(cur: u32) -> (r: u32)
    ensures
        r == cur & !WS_EX_LAYERED,
{
    cur & !WS_EX_LAYERED
}

/// The pill's set holds every style that the pill depends on, and asserting it
/// keeps every bit that was there.
pub proof fn law_the_set_is_added(cur: u32)
    ensures
        PILL_EX_STYLE == WS_EX_LAYERED | WS_EX_TRANSPARENT | WS_EX_NOACTIVATE | WS_EX_TOOLWINDOW
            | WS_EX_TOPMOST,
        (cur | PILL_EX_STYLE) & cur == cur,
        (cur | PILL_EX_STYLE) & PILL_EX_STYLE == PILL_EX_STYLE,
{
    assert(0x0808_00a8u32 == 0x0008_0000u32 | 0x0000_0020u32 | 0x0800_0000u32 | 0x0000_0080u32
        | 0x0000_0008u32) by (bit_vector);
    assert((cur | 0x0808_00a8u32) & cur == cur) by (bit_vector);
    assert((cur | 0x0808_00a8u32) & 0x0808_00a8u32 == 0x0808_00a8u32) by (bit_vector);
}

/// Asserting the set twice is asserting it once.
pub proof fn law_asserting_is_idempotent(cur: u32)
    ensures
        (cur | PILL_EX_STYLE) | PILL_EX_STYLE == cur | PILL_EX_STYLE,
{
    assert((cur | 0x0808_00a8u32) | 0x0808_00a8u32 == cur | 0x0808_00a8u32) by (bit_vector);
}

/// Arming the window again drops the layered bit and nothing else, and asserting
/// the set afterwards brings back what was there.
pub proof fn law_rearming_clears_only_the_layered_bit(cur: u32)
    ensures
        (cur & !WS_EX_LAYERED) & WS_EX_LAYERED == 0,
        (cur & !WS_EX_LAYERED) | WS_EX_LAYERED == cur | WS_EX_LAYERED,
        (((cur | PILL_EX_STYLE) & !WS_EX_LAYERED) | PILL_EX_STYLE) == cur | PILL_EX_STYLE,
{
    assert((cur & !0x0008_0000u32) & 0x0008_0000u32 == 0) by (bit_vector);
    assert((cur & !0x0008_0000u32) | 0x0008_0000u32 == cur | 0x0008_0000u32) by (bit_vector);
    assert((((cur | 0x0808_00a8u32) & !0x0008_0000u32) | 0x0808_00a8u32) == cur | 0x0808_00a8u32)
        by (bit_vector);
}

/// The pill is drawn at this multiple of the device's resolution and then halved
/// twice.
pub const SUPERSAMPLE: u32 = 4;

/// A size in pixels.
#[derive(Clone, Copy, PartialEq, Eq, Debug, Structural)]
pub struct Size {
    pub w: u32,
    pub h: u32,
}

/// The sizes of the buffers that a frame goes through, from the window's own up.
#[derive(Clone, Copy, PartialEq, Eq, Debug, Structural)]
pub struct Buffers {
    pub device: Size,
    pub mid: Size,
    pub hires: Size,
}

/// A side of a buffer: never nothing.
pub open spec fn at_least_one(side: u32) -> int {
    if side < 1 {
        1
    } else {
        side as int
    }
}

/// The buffers for a window of this size can be counted.
pub open spec fn countable(w: u32, h: u32) -> bool {
    at_least_one(w) * SUPERSAMPLE <= u32::MAX && at_least_one(h) * SUPERSAMPLE <= u32::MAX
}

/// The buffers for a window of this size.
pub open spec fn buffers_for(w: u32, h: u32) -> Buffers {
    let (w, h) = (at_least_one(w), at_least_one(h));
    Buffers {
        device: Size { w: w as u32, h: h as u32 },
        mid: Size { w: (w * 2) as u32, h: (h * 2) as u32 },
        hires: Size { w: (w * SUPERSAMPLE) as u32, h: (h * SUPERSAMPLE) as u32 },
    }
}

fn sized(w: u32, h: u32) -> (b: Buffers)
    requires
        countable(w, h),
    ensures
        b == buffers_for(w, h),
{
    let w: u32 = if w < 1 {
        1
    } else {
        w
    };
    let h: u32 = if h < 1 {
        1
    } else {
        h
    };
    Buffers {
        device: Size { w, h },
        mid: Size { w: w * 2, h: h * 2 },
        hires: Size { w: w * SUPERSAMPLE, h: h * SUPERSAMPLE },
    }
}

/// Where the window is, what it is drawn through and the frame it shows. `F` is a
/// frame.
pub struct Surface<F> {
    pub home: HomeMonitor,
    pub buffers: Buffers,
    /// The last frame drawn, which is pushed again when the system drops the
    /// surface.
    pub last: Option<F>,
}

impl<F> Surface<F> {
    /// A window of this size on its home monitor, with nothing drawn yet.
    pub fn new(home: HomeMonitor, w: u32, h: u32) -> (s: Self)
        requires
            countable(w, h),
        ensures
            s == (Surface::<F> { home, buffers: buffers_for(w, h), last: None }),
    {
        Surface { home, buffers: sized(w, h), last: None }
    }

    /// Takes a home monitor, and says whether the window has to be placed on it:
    /// not where nothing about it changed.
    pub fn set_home(&mut self, home: HomeMonitor) -> (moved: bool)
        ensures
            moved == (home != old(self).home),
            *final(self) == (Surface { home, ..*old(self) }),
    {
        if self.home == home {
            return false;
        }
        self.home = home;
        true
    }

    /// Takes the window's size, and says whether the buffers have to be made anew.
    pub fn ensure_size(&mut self, w: u32, h: u32) -> (remade: bool)
        requires
            countable(w, h),
        ensures
            remade == (buffers_for(w, h) != old(self).buffers),
            *final(self) == (Surface { buffers: buffers_for(w, h), ..*old(self) }),
    {
        let wanted = sized(w, h);
        if wanted == self.buffers {
            return false;
        }
        self.buffers = wanted;
        true
    }

    /// A frame was drawn.
    pub fn drawn(&mut self, frame: F)
        ensures
            *final(self) == (Surface { last: Some(frame), ..*old(self) }),
    {
        self.last = Some(frame);
    }

    /// Whether anything was drawn yet: a window that is shown without is blank.
    pub fn has_frame(&self) -> (r: bool)
        ensures
            r == self.last is Some,
    {
        self.last.is_some()
    }
}

/// Each buffer is twice the one below it, so that halving twice lands exactly on
/// the window's own size.
pub proof fn law_halving_lands_on_the_window(w: u32, h: u32)
    requires
        countable(w, h),
    ensures
        ({
            let b = buffers_for(w, h);
            &&& b.hires.w == 2 * b.mid.w && b.hires.h == 2 * b.mid.h
            &&& b.mid.w == 2 * b.device.w && b.mid.h == 2 * b.device.h
            &&& b.device.w >= 1 && b.device.h >= 1
        }),
{
}

/// A window is drawn through its own size, twice that and four times that; a side of
/// nothing counts as one pixel.
pub proof fn law_the_buffers_fit_the_window(w: u32, h: u32)
    requires
        countable(w, h),
    ensures
        ({
            let b = buffers_for(w, h);
            &&& w > 0 ==> b.device.w == w && b.hires.w == 4 * w
            &&& w == 0 ==> b.device.w == 1 && b.hires.w == 4
            &&& h > 0 ==> b.device.h == h && b.hires.h == 4 * h
            &&& h == 0 ==> b.device.h == 1 && b.hires.h == 4
        }),
{
}

/// The buffers of a window can be counted up to a thousand million pixels a side.
pub proof fn law_ordinary_windows_can_be_counted(w: u32, h: u32)
    requires
        w <= 1_000_000_000,
        h <= 1_000_000_000,
    ensures
        countable(w, h),
{
}

} // verus!
