//! What the rest of the library knows of the Game Boy.

use crate::text::same_text;
use vstd::prelude::*;

verus! {

/// Width of the screen in pixels.
pub const WIDTH: u32 = 160;

/// Height of the screen in pixels.
pub const HEIGHT: u32 = 144;

/// A button.
#[derive(Clone, Copy, Debug, PartialEq, Eq, Hash, Structural)]
pub enum Button {
    Up,
    Down,
    Left,
    Right,
    A,
    B,
    Start,
    Select,
}

/// The button that a name stands for.
pub open spec fn button_named(name: Seq<char>) -> Option<Button> {
    if name == "up"@ {
        Some(Button::Up)
    } else if name == "down"@ {
        Some(Button::Down)
    } else if name == "left"@ {
        Some(Button::Left)
    } else if name == "right"@ {
        Some(Button::Right)
    } else if name == "a"@ {
        Some(Button::A)
    } else if name == "b"@ {
        Some(Button::B)
    } else if name == "start"@ {
        Some(Button::Start)
    } else if name == "select"@ {
        Some(Button::Select)
    } else {
        None
    }
}

impl Button {
    /// The button that a name stands for, if any.
    pub fn from_name(name: &str) -> (r: Option<Button>)
        ensures
            r == button_named(name@),
    {
        if same_text(name, "up") {
            Some(Button::Up)
        } else if same_text(name, "down") {
            Some(Button::Down)
        } else if same_text(name, "left") {
            Some(Button::Left)
        } else if same_text(name, "right") {
            Some(Button::Right)
        } else if same_text(name, "a") {
            Some(Button::A)
        } else if same_text(name, "b") {
            Some(Button::B)
        } else if same_text(name, "start") {
            Some(Button::Start)
        } else if same_text(name, "select") {
            Some(Button::Select)
        } else {
            None
        }
    }
}

/// Every button has one name, in lowercase, and no other text names a button.
pub proof fn law_buttons_are_named(name: &str, r: Option<Button>)
    requires
        call_ensures(Button::from_name, (name,), r),
    ensures
        r == Some(Button::Up) <==> name@ == "up"@,
        r == Some(Button::Down) <==> name@ == "down"@,
        r == Some(Button::Left) <==> name@ == "left"@,
        r == Some(Button::Right) <==> name@ == "right"@,
        r == Some(Button::A) <==> name@ == "a"@,
        r == Some(Button::B) <==> name@ == "b"@,
        r == Some(Button::Start) <==> name@ == "start"@,
        r == Some(Button::Select) <==> name@ == "select"@,
{
    reveal_strlit("up");
    reveal_strlit("down");
    reveal_strlit("left");
    reveal_strlit("right");
    reveal_strlit("a");
    reveal_strlit("b");
    reveal_strlit("start");
    reveal_strlit("select");
    assert("up"@.len() == 2 && "down"@.len() == 4 && "left"@.len() == 4 && "right"@.len() == 5
        && "a"@.len() == 1 && "b"@.len() == 1 && "start"@.len() == 5 && "select"@.len() == 6);
    assert("down"@[0] == 'd' && "left"@[0] == 'l');
    assert("right"@[0] == 'r' && "start"@[0] == 's');
    assert("a"@[0] == 'a' && "b"@[0] == 'b');
}

} // verus!
