//! Keyboard shortcuts: which key gives which message.

use vstd::prelude::*;
use vstd::string::*;
use crate::message::{Dir, Message, Modal, Step, Tab};

verus! {

/// A key as the shortcuts see it.
#[derive(Debug, Clone)]
pub enum Key {
    ArrowUp,
    ArrowDown,
    ArrowLeft,
    ArrowRight,
    Space,
    Escape,
    Enter,
    F5,
    /// A key that types text.
    Character(String),
    /// Any other key.
    Other,
}

/// Whether `a` and `b` are the same text.
fn same_text(a: &str, b: &str) -> (same: bool)
    ensures
        same == (a@ == b@),
{
    let n = a.unicode_len();
    let m = b.unicode_len();
    if n != m {
        return false;
    }
    let mut i: usize = 0;
    while i < n
        invariant
            n == a@.len(),
            m == b@.len(),
            n == m,
            i <= n,
            forall|j: int| 0 <= j < i ==> a@[j] == b@[j],
        decreases n - i,
    {
        if a.get_char(i) != b.get_char(i) {
            return false;
        }
        i = i + 1;
    }
    proof {
        assert(a@ =~= b@);
    }
    true
}

/// The driving direction of a key: WASD and the arrow keys.
pub open spec fn key_direction(key: Key) -> Option<Dir> {
    match key {
        Key::ArrowUp => Some(Dir::Forward),
        Key::ArrowDown => Some(Dir::Backward),
        Key::ArrowLeft => Some(Dir::Left),
        Key::ArrowRight => Some(Dir::Right),
        Key::Character(c) => if c@ == "w"@ || c@ == "W"@ {
            Some(Dir::Forward)
        } else if c@ == "s"@ || c@ == "S"@ {
            Some(Dir::Backward)
        } else if c@ == "a"@ || c@ == "A"@ {
            Some(Dir::Left)
        } else if c@ == "d"@ || c@ == "D"@ {
            Some(Dir::Right)
        } else {
            None
        },
        _ => None,
    }
}

/// `c` is the letter given in either case.
pub open spec fn is_letter(c: Seq<char>, lower: Seq<char>, upper: Seq<char>) -> bool {
    c == lower || c == upper
}

/// The message of a key press that is not a driving key.
pub open spec fn key_command(key: Key) -> Option<Message> {
    match key {
        Key::Space => Some(Message::EmergencyStop),
        Key::Escape => Some(Message::ModalClosed),
        Key::Enter => Some(Message::ConnectionToggleRequested),
        Key::F5 => Some(Message::RefreshRequested),
        Key::Character(c) => if c@ == "1"@ {
            Some(Message::GearSelected(1))
        } else if c@ == "2"@ {
            Some(Message::GearSelected(2))
        } else if c@ == "3"@ {
            Some(Message::GearSelected(3))
        } else if is_letter(c@, "r"@, "R"@) {
            Some(Message::MotorStartRequested)
        } else if c@ == "["@ {
            Some(Message::IntervalStepped(Step::Down))
        } else if c@ == "]"@ {
            Some(Message::IntervalStepped(Step::Up))
        } else if is_letter(c@, "l"@, "L"@) {
            Some(Message::LightToggled)
        } else if is_letter(c@, "b"@, "B"@) {
            Some(Message::BrakeToggled)
        } else if c@ == ","@ {
            Some(Message::ReverseLeftToggled)
        } else if c@ == "."@ {
            Some(Message::ReverseRightToggled)
        } else if is_letter(c@, "x"@, "X"@) {
            Some(Message::TransportToggleRequested)
        } else if is_letter(c@, "v"@, "V"@) {
            Some(Message::CameraToggleRequested)
        } else if is_letter(c@, "n"@, "N"@) {
            Some(Message::DetectionToggled)
        } else if is_letter(c@, "g"@, "G"@) {
            Some(Message::GpsToggled)
        } else if c@ == "+"@ {
            Some(Message::MapZoomStepped(Step::Up))
        } else if c@ == "-"@ {
            Some(Message::MapZoomStepped(Step::Down))
        } else if is_letter(c@, "c"@, "C"@) {
            Some(Message::TabSelected(Tab::Camera))
        } else if is_letter(c@, "m"@, "M"@) {
            Some(Message::TabSelected(Tab::MapView))
        } else if is_letter(c@, "t"@, "T"@) {
            Some(Message::ThemeToggled)
        } else if c@ == "?"@ {
            Some(Message::ModalOpened(Modal::Shortcuts))
        } else {
            None
        },
        _ => None,
    }
}

/// The message of a key going down.
pub open spec fn key_down_message(key: Key) -> Option<Message> {
    match key_direction(key) {
        Some(d) => Some(Message::DirPressed(d)),
        None => key_command(key),
    }
}

/// The message of a key going up.
pub open spec fn key_up_message(key: Key) -> Option<Message> {
    match key_direction(key) {
        Some(d) => Some(Message::DirReleased(d)),
        None => None,
    }
}

/// The driving direction of a key: WASD and the arrow keys fall on the same four.
pub fn direction(key: &Key) -> (d: Option<Dir>)
    ensures
        d == key_direction(*key),
{
    match key {
        Key::ArrowUp => Some(Dir::Forward),
        Key::ArrowDown => Some(Dir::Backward),
        Key::ArrowLeft => Some(Dir::Left),
        Key::ArrowRight => Some(Dir::Right),
        Key::Character(c) => {
            let c = c.as_str();
            if same_text(c, "w") || same_text(c, "W") {
                Some(Dir::Forward)
            } else if same_text(c, "s") || same_text(c, "S") {
                Some(Dir::Backward)
            } else if same_text(c, "a") || same_text(c, "A") {
                Some(Dir::Left)
            } else if same_text(c, "d") || same_text(c, "D") {
                Some(Dir::Right)
            } else {
                None
            }
        },
        _ => None,
    }
}

/// The message of a key going down: a driving key presses its direction; the
/// other keys give the shortcuts of the help window:
///
/// - Space: emergency stop; Esc: close the modal window; `?`: the shortcut list
/// - Enter: connect / disconnect; X: serial port / TCP; F5: refresh the port and
///   camera lists
/// - R: start the motor; 1, 2, 3: gear; `[` / `]`: send interval down / up;
///   L: light; B: brake; `,` / `.`: reverse the left / right motor
/// - V: camera on / off; N: object detection on / off; G: GPS on / off;
///   `+` / `-`: map zoom
/// - C / M: camera / map tab; T: theme
pub fn on_key_down(key: &Key) -> (m: Option<Message>)
    ensures
        m == key_down_message(*key),
{
    if let Some(dir) = direction(key) {
        return Some(Message::DirPressed(dir));
    }
    match key {
        Key::Space => Some(Message::EmergencyStop),
        Key::Escape => Some(Message::ModalClosed),
        Key::Enter => Some(Message::ConnectionToggleRequested),
        Key::F5 => Some(Message::RefreshRequested),
        Key::Character(c) => {
            let c = c.as_str();
            if same_text(c, "1") {
                Some(Message::GearSelected(1))
            } else if same_text(c, "2") {
                Some(Message::GearSelected(2))
            } else if same_text(c, "3") {
                Some(Message::GearSelected(3))
            } else if same_text(c, "r") || same_text(c, "R") {
                Some(Message::MotorStartRequested)
            } else if same_text(c, "[") {
                Some(Message::IntervalStepped(Step::Down))
            } else if same_text(c, "]") {
                Some(Message::IntervalStepped(Step::Up))
            } else if same_text(c, "l") || same_text(c, "L") {
                Some(Message::LightToggled)
            } else if same_text(c, "b") || same_text(c, "B") {
                Some(Message::BrakeToggled)
            } else if same_text(c, ",") {
                Some(Message::ReverseLeftToggled)
            } else if same_text(c, ".") {
                Some(Message::ReverseRightToggled)
            } else if same_text(c, "x") || same_text(c, "X") {
                Some(Message::TransportToggleRequested)
            } else if same_text(c, "v") || same_text(c, "V") {
                Some(Message::CameraToggleRequested)
            } else if same_text(c, "n") || same_text(c, "N") {
                Some(Message::DetectionToggled)
            } else if same_text(c, "g") || same_text(c, "G") {
                Some(Message::GpsToggled)
            } else if same_text(c, "+") {
                Some(Message::MapZoomStepped(Step::Up))
            } else if same_text(c, "-") {
                Some(Message::MapZoomStepped(Step::Down))
            } else if same_text(c, "c") || same_text(c, "C") {
                Some(Message::TabSelected(Tab::Camera))
            } else if same_text(c, "m") || same_text(c, "M") {
                Some(Message::TabSelected(Tab::MapView))
            } else if same_text(c, "t") || same_text(c, "T") {
                Some(Message::ThemeToggled)
            } else if same_text(c, "?") {
                Some(Message::ModalOpened(Modal::Shortcuts))
            } else {
                None
            }
        },
        _ => None,
    }
}

/// The message of a key going up: only driving keys release.
pub fn on_key_up(key: &Key) -> (m: Option<Message>)
    ensures
        m == key_up_message(*key),
{
    match direction(key) {
        Some(dir) => Some(Message::DirReleased(dir)),
        None => None,
    }
}

} // verus!
