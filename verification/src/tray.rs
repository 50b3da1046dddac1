//! What the tray shows.
use crate::config;
use crate::config::Provider;
use crate::text;
use vstd::prelude::*;

verus! {

/// Everything that the tray displays.
pub struct Status {
    pub hotkey: String,
    pub provider: Provider,
    /// Version of an available update, when the check found one.
    pub update: Option<String>,
    /// Whether there is a transcript to copy.
    pub has_history: bool,
}

/// The tooltip: the hotkey and what the next dictation will use, and on a line of
/// its own an update where there is one.
pub open spec fn tip(hotkey: Seq<char>, provider: Provider, update: Option<String>) -> Seq<char> {
    let first = "Draft — "@ + hotkey + " · "@ + config::provider_name(provider);
    match update {
        Some(version) => first + "\nUpdate available: "@ + version@,
        None => first,
    }
}

/// The tooltip text for a status.
pub fn tooltip(status: &Status) -> (s: String)
    ensures
        s@ == tip(status.hotkey@, status.provider, status.update),
{
    let mut s = String::new();
    s.push_str("Draft — ");
    s.push_str(status.hotkey.as_str());
    s.push_str(" · ");
    s.push_str(status.provider.label());
    if let Some(version) = &status.update {
        s.push_str("\nUpdate available: ");
        s.push_str(version.as_str());
    }
    assert(s@ =~= tip(status.hotkey@, status.provider, status.update));
    s
}

/// The icon is this many pixels wide and high.
pub const ICON_SIZE: usize = 16;

/// The pixel at `x`, `y` lies in the disc: its middle is at most seven pixels
/// from the middle of the icon. Counted in half pixels.
pub open spec fn in_disc(x: int, y: int) -> bool {
    (2 * x - 15) * (2 * x - 15) + (2 * y - 15) * (2 * y - 15) <= 14 * 14
}

/// The byte at `k` of the icon: a dark, opaque disc on nothing.
pub open spec fn icon_byte(k: int) -> u8 {
    if in_disc((k / 4) % 16, (k / 4) / 16) {
        if k % 4 == 3 {
            255
        } else {
            20
        }
    } else {
        0
    }
}

/// The icon, row by row, four bytes a pixel.
pub fn icon_rgba() -> (rgba: Vec<u8>)
    ensures
        rgba@ == Seq::new(16 * 16 * 4, |k: int| icon_byte(k)),
{
    let mut rgba: Vec<u8> = Vec::new();
    let mut k: usize = 0;
    while k < 1024
        invariant
            k <= 1024,
            rgba@ == Seq::new(k as nat, |j: int| icon_byte(j)),
        decreases 1024 - k,
    {
        let x: i64 = ((k / 4) % 16) as i64;
        let y: i64 = ((k / 4) / 16) as i64;
        let dx: i64 = 2 * x - 15;
        let dy: i64 = 2 * y - 15;
        proof {
            assert(0 <= dx * dx <= 225) by (nonlinear_arith)
                requires
                    -15 <= dx <= 15,
            ;
            assert(0 <= dy * dy <= 289) by (nonlinear_arith)
                requires
                    -15 <= dy <= 17,
            ;
        }
        let inside = dx * dx + dy * dy <= 196;
        let byte: u8 = if inside {
            if k % 4 == 3 {
                255
            } else {
                20
            }
        } else {
            0
        };
        assert(byte == icon_byte(k as int));
        rgba.push(byte);
        assert(rgba@ =~= Seq::new((k + 1) as nat, |j: int| icon_byte(j)));
        k += 1;
    }
    rgba
}

/// The tooltip always names the hotkey and the provider, update or not: an update
/// only adds to it.
pub proof fn law_an_update_only_adds(hotkey: Seq<char>, provider: Provider, version: String)
    ensures
        tip(hotkey, provider, None).is_prefix_of(tip(hotkey, provider, Some(version))),
{
    let first = tip(hotkey, provider, None);
    let whole = tip(hotkey, provider, Some(version));
    assert(first =~= whole.subrange(0, first.len() as int));
}

/// What the tooltip says: the program, the hotkey and the provider on one line, and the
/// version of an update on another.
pub proof fn law_the_tooltip_names_what_counts(
    hotkey: Seq<char>,
    provider: Provider,
    version: String,
)
    ensures
        text::occurs(tip(hotkey, provider, None), hotkey),
        text::occurs(tip(hotkey, provider, None), config::provider_name(provider)),
        text::occurs(tip(hotkey, provider, Some(version)), "\nUpdate available: "@ + version@),
{
    lemma_found_in("Draft — "@, hotkey, " · "@ + config::provider_name(provider));
    lemma_found_in("Draft — "@ + hotkey + " · "@, config::provider_name(provider), Seq::empty());
    lemma_found_in(
        tip(hotkey, provider, None),
        "\nUpdate available: "@ + version@,
        Seq::empty(),
    );
    lemma_regrouped("Draft — "@ + hotkey, " · "@, config::provider_name(provider));
    lemma_regrouped(tip(hotkey, provider, None), "\nUpdate available: "@, version@);
}

proof fn lemma_regrouped(a: Seq<char>, b: Seq<char>, c: Seq<char>)
    ensures
        a + (b + c) == a + b + c,
{
    assert(a + (b + c) =~= a + b + c);
}

proof fn lemma_found_in(a: Seq<char>, b: Seq<char>, c: Seq<char>)
    ensures
        text::occurs(a + b + c, b),
        c.len() == 0 ==> text::occurs(a + b, b),
{
    text::law_what_stands_there_is_found(a, b, c);
    if c.len() == 0 {
        assert(a + b + c =~= a + b);
    }
}

/// The icon is a disc: it looks the same upside down and on its side, it is fourteen
/// pixels across, and it leaves the rows and columns at the edge free.
pub proof fn law_the_icon_is_a_disc(x: int, y: int)
    requires
        0 <= x < 16,
        0 <= y < 16,
    ensures
        in_disc(x, y) == in_disc(y, x),
        in_disc(x, y) == in_disc(15 - x, y),
        in_disc(x, 7) <==> 1 <= x <= 14,
        !in_disc(x, 0),
        !in_disc(x, 15),
{
    assert((2 * (15 - x) - 15) * (2 * (15 - x) - 15) == (2 * x - 15) * (2 * x - 15))
        by (nonlinear_arith);
    let d = 2 * x - 15;
    assert(d * d >= 0) by (nonlinear_arith);
    assert((2 * 7 - 15) * (2 * 7 - 15) == 1) by (nonlinear_arith);
    assert((2 * 0 - 15) * (2 * 0 - 15) == 225) by (nonlinear_arith);
    assert((2 * 15 - 15) * (2 * 15 - 15) == 225) by (nonlinear_arith);
    assert(-13 <= d <= 13 ==> d * d <= 169) by (nonlinear_arith);
    assert(d <= -15 || d >= 15 ==> d * d >= 225) by (nonlinear_arith);
}

/// A pixel of the icon is all there or not there at all: dark and opaque in the disc, and
/// nothing outside it.
pub proof fn law_a_pixel_is_dark_or_nothing(x: int, y: int)
    requires
        0 <= x < 16,
        0 <= y < 16,
    ensures
        ({
            let k = (y * 16 + x) * 4;
            let px = (icon_byte(k), icon_byte(k + 1), icon_byte(k + 2), icon_byte(k + 3));
            &&& in_disc(x, y) ==> px == (20u8, 20u8, 20u8, 255u8)
            &&& !in_disc(x, y) ==> px == (0u8, 0u8, 0u8, 0u8)
        }),
{
    let k = (y * 16 + x) * 4;
    assert((k / 4) == y * 16 + x && (y * 16 + x) % 16 == x && (y * 16 + x) / 16 == y);
    assert((k + 1) / 4 == y * 16 + x && (k + 2) / 4 == y * 16 + x && (k + 3) / 4 == y * 16 + x);
}

} // verus!
