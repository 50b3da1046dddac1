//! The button bar that the pill unfolds into, in logical pixels.
use vstd::prelude::*;

verus! {

/// How many buttons the bar has.
pub const BUTTON_COUNT: usize = 3;

/// The middle one, which the pill grows into.
pub const CENTRE: usize = 1;

/// The height of the bar.
pub const BAR_H: i32 = 32;

/// The gap between two buttons.
pub const BAR_GAP: i32 = 3;

/// How many buttons a session has that was begun with the mouse: cancel and confirm.
pub const CHECK_COUNT: usize = 2;

/// How wide each of those is.
pub const CHECK_BUTTON: i32 = 20;

/// How far the middle of each lies inside the end of the body.
pub const CHECK_INSET: i32 = 17;

/// What each takes of the body's width, with the room around it.
pub const CHECK_CLAIM: i32 = 39;

/// The box that a glyph is drawn in, on the bar and on cancel and confirm.
pub const GLYPH_BOX: i32 = 22;

pub const CHECK_GLYPH_BOX: i32 = 20;

/// What a button does.
#[derive(Clone, Copy, PartialEq, Eq, Debug, Structural)]
pub enum Action {
    Copy,
    Dictate,
    Settings,
    Cancel,
    Confirm,
}

/// What a button shows.
#[derive(Clone, Copy, PartialEq, Eq, Debug, Hash, Structural)]
pub enum Icon {
    Copy,
    Mic,
    Sliders,
    X,
    Check,
}

/// The width of the button at `i`.
pub open spec fn width_of(i: int) -> int {
    if i == CENTRE {
        48
    } else {
        32
    }
}

/// The action of the button at `i`.
pub open spec fn action_of(i: int) -> Action {
    if i == 0 {
        Action::Copy
    } else if i == 1 {
        Action::Dictate
    } else {
        Action::Settings
    }
}

/// The icon of the button at `i`.
pub open spec fn icon_of(i: int) -> Icon {
    if i == 0 {
        Icon::Copy
    } else if i == 1 {
        Icon::Mic
    } else {
        Icon::Sliders
    }
}

/// The name of the button at `i`.
pub open spec fn name_of(i: int) -> Seq<char> {
    if i == 0 {
        "Copy last transcript"@
    } else if i == 1 {
        "Dictate"@
    } else {
        "Settings"@
    }
}

/// One button of the bar.
#[derive(Clone, Copy, PartialEq, Eq, Debug)]
pub struct Button {
    pub action: Action,
    pub name: &'static str,
    pub icon: Icon,
    pub w: i32,
}

/// The button at `i`, from the left.
pub fn button(i: usize) -> (b: Button)
    requires
        i < BUTTON_COUNT,
    ensures
        b.action == action_of(i as int),
        b.name@ == name_of(i as int),
        b.icon == icon_of(i as int),
        b.w == width_of(i as int),
{
    if i == 0 {
        Button { action: Action::Copy, name: "Copy last transcript", icon: Icon::Copy, w: 32 }
    } else if i == 1 {
        Button { action: Action::Dictate, name: "Dictate", icon: Icon::Mic, w: 48 }
    } else {
        Button { action: Action::Settings, name: "Settings", icon: Icon::Sliders, w: 32 }
    }
}

/// What the check button at `i` does, from the left: cancel, and then confirm.
pub open spec fn check_action_of(i: int) -> Action {
    if i == 0 {
        Action::Cancel
    } else {
        Action::Confirm
    }
}

/// The icon of the check button at `i`.
pub open spec fn check_icon_of(i: int) -> Icon {
    if i == 0 {
        Icon::X
    } else {
        Icon::Check
    }
}

/// The check button at `i`, from the left.
pub fn check_button(i: usize) -> (b: Button)
    requires
        i < CHECK_COUNT,
    ensures
        b.action == check_action_of(i as int),
        b.name@ == (if i == 0 {
            "Cancel"@
        } else {
            "Confirm"@
        }),
        b.icon == check_icon_of(i as int),
        b.w == CHECK_BUTTON,
{
    if i == 0 {
        Button { action: Action::Cancel, name: "Cancel", icon: Icon::X, w: CHECK_BUTTON }
    } else {
        Button { action: Action::Confirm, name: "Confirm", icon: Icon::Check, w: CHECK_BUTTON }
    }
}

/// Where the button at `i` starts, counted from the left end of the bar.
pub open spec fn offset_of(i: int) -> int
    decreases i,
{
    if i <= 0 {
        0
    } else {
        offset_of(i - 1) + width_of(i - 1) + BAR_GAP
    }
}

/// How wide the whole bar is.
pub open spec fn bar_span() -> int {
    offset_of(BUTTON_COUNT as int) - BAR_GAP
}

/// How wide the whole bar is.
pub fn bar_width() -> (w: i32)
    ensures
        w == bar_span(),
{
    proof {
        reveal_with_fuel(offset_of, 4);
    }
    118
}

/// How far the middle of the button at `i` lies to the right of the middle of
/// the bar, twice over, so that it is a whole number.
pub open spec fn centre_twice(i: int) -> int {
    2 * offset_of(i) + width_of(i) - bar_span()
}

/// How far the middle of the button at `i` lies to the right of the middle of
/// the bar.
pub fn island_centre(i: usize) -> (x: i32)
    requires
        i < BUTTON_COUNT,
    ensures
        2 * x == centre_twice(i as int),
{
    proof {
        reveal_with_fuel(offset_of, 4);
    }
    if i == 0 {
        -43
    } else if i == 1 {
        0
    } else {
        43
    }
}

/// No button is far from the middle of the bar.
pub(crate) proof fn lemma_centres_are_near(i: int)
    requires
        0 <= i < BUTTON_COUNT,
    ensures
        -1000 <= centre_twice(i) <= 1000,
        i < CENTRE ==> centre_twice(i) < 0,
        i == CENTRE ==> centre_twice(i) == 0,
        i > CENTRE ==> centre_twice(i) > 0,
        bar_span() == 118,
{
    reveal_with_fuel(offset_of, 4);
}

/// The bar is symmetric about its middle button.
pub proof fn law_bar_is_symmetric(i: int)
    requires
        0 <= i < BUTTON_COUNT,
    ensures
        centre_twice(i) == -centre_twice(BUTTON_COUNT - 1 - i),
        centre_twice(CENTRE as int) == 0,
{
    reveal_with_fuel(offset_of, 4);
}

/// The buttons stand side by side, three pixels apart, a wide one between two narrow ones,
/// and fill the bar from end to end.
pub proof fn law_buttons_stand_side_by_side(i: int)
    requires
        0 <= i < 2,
    ensures
        offset_of(0) == 0,
        offset_of(i + 1) == offset_of(i) + width_of(i) + 3,
        width_of(0) == 32 && width_of(1) == 48 && width_of(2) == 32,
        offset_of(2) + width_of(2) == bar_span(),
        bar_span() == 32 + 3 + 48 + 3 + 32,
{
    reveal_with_fuel(offset_of, 4);
}

/// Each button shows what it does: the left one copies, the middle one dictates, the right
/// one opens the settings. Over a recording the left one cancels and the right one
/// confirms.
pub proof fn law_buttons_show_what_they_do(i: int)
    requires
        0 <= i < 3,
    ensures
        action_of(i) == Action::Copy <==> i == 0,
        action_of(i) == Action::Dictate <==> i == 1,
        action_of(i) == Action::Settings <==> i == 2,
        icon_of(i) == (match action_of(i) {
            Action::Copy => Icon::Copy,
            Action::Dictate => Icon::Mic,
            _ => Icon::Sliders,
        }),
        name_of(0) == "Copy last transcript"@,
        name_of(1) == "Dictate"@,
        name_of(2) == "Settings"@,
        check_action_of(0) == Action::Cancel && check_icon_of(0) == Icon::X,
        check_action_of(1) == Action::Confirm && check_icon_of(1) == Icon::Check,
{
}

} // verus!
