//! Keyboard input that the frontend injects into the remote session.

use crate::text::{concat, order_of, parse_u64, parsed_u64, split_order, str_eq, to_uppercase, uppercase};
use vstd::prelude::*;
use vstd::string::*;

verus! {

/// Why an input could not be played.
#[derive(Debug)]
pub enum Error {
    Keyboard(String),
}

/// A key of the keyboard.
#[derive(Clone, Copy, Debug, PartialEq, Eq, Hash, Structural)]
pub enum Key {
    AltLeft,
    AltRight,
    Backspace,
    Control,
    Delete,
    Down,
    Escape,
    F1,
    F2,
    F3,
    F4,
    F5,
    F6,
    F7,
    F8,
    F9,
    F10,
    F11,
    HyperLeft,
    HyperRight,
    Left,
    Level3Shift,
    Level5Shift,
    MetaLeft,
    MetaRight,
    Return,
    Right,
    Shift,
    SuperLeft,
    SuperRight,
    Tab,
    Up,
    Windows,
    Printable(char),
}

/// What is done with the keyboard: a key goes down, is pressed, goes up, or
/// a text is typed.
#[derive(Debug, PartialEq, Eq)]
pub enum KeyboardAction {
    KeyDown(Key),
    KeyPress(Key),
    KeyUp(Key),
    Write(String),
}

/// What is played in the remote session.
#[derive(Debug)]
pub enum InputAction {
    /// Wait this many milliseconds.
    Pause(u64),
    Keyboard(KeyboardAction),
}

/// What can be set about the keyboard.
#[derive(Debug)]
pub enum KeyboardSetting {
    /// Wait this many milliseconds between two keys.
    Delay(u64),
}

/// What can be set about the input.
#[derive(Debug)]
pub enum InputSetting {
    Keyboard(KeyboardSetting),
}

/// What plays input in the remote session: a client of the remote desktop
/// that can be made to press keys.
pub trait InputHandler {
    fn set(&mut self, setting: InputSetting) -> Result<(), Error>;

    fn play(&self, action: InputAction) -> Result<(), Error>;

    fn reset(&mut self);
}

/// The key that a name in capitals stands for.
pub open spec fn key_named(name: Seq<char>) -> Option<Key> {
    if name == "ALT"@ || name == "ALTL"@ || name == "ALT_L"@ || name == "ALT_LEFT"@ {
        Some(Key::AltLeft)
    }     else if name == "ALTR"@ || name == "ALT_R"@ || name == "ALT_RIGHT"@ {
        Some(Key::AltRight)
    }     else if name == "BACKSPACE"@ {
        Some(Key::Backspace)
    }     else if name == "CONTROL"@ || name == "CTRL"@ {
        Some(Key::Control)
    }     else if name == "DELETE"@ || name == "DEL"@ {
        Some(Key::Delete)
    }     else if name == "DOWN"@ {
        Some(Key::Down)
    }     else if name == "ESCAPE"@ || name == "ESC"@ {
        Some(Key::Escape)
    }     else if name == "F1"@ {
        Some(Key::F1)
    }     else if name == "F2"@ {
        Some(Key::F2)
    }     else if name == "F3"@ {
        Some(Key::F3)
    }     else if name == "F4"@ {
        Some(Key::F4)
    }     else if name == "F5"@ {
        Some(Key::F5)
    }     else if name == "F6"@ {
        Some(Key::F6)
    }     else if name == "F7"@ {
        Some(Key::F7)
    }     else if name == "F8"@ {
        Some(Key::F8)
    }     else if name == "F9"@ {
        Some(Key::F9)
    }     else if name == "F10"@ {
        Some(Key::F10)
    }     else if name == "F11"@ {
        Some(Key::F11)
    }     else if name == "HYPERL"@ || name == "HYPER_L"@ || name == "HYPER_LEFT"@ {
        Some(Key::HyperLeft)
    }     else if name == "HYPERR"@ || name == "HYPER_R"@ || name == "HYPER_RIGHT"@ {
        Some(Key::HyperRight)
    }     else if name == "LEFT"@ {
        Some(Key::Left)
    }     else if name == "METAL"@ || name == "META_L"@ || name == "META_LEFT"@ {
        Some(Key::MetaLeft)
    }     else if name == "METAR"@ || name == "META_R"@ || name == "META_RIGHT"@ {
        Some(Key::MetaRight)
    }     else if name == "RETURN"@ || name == "ENTER"@ {
        Some(Key::Return)
    }     else if name == "RIGHT"@ {
        Some(Key::Right)
    }     else if name == "SHIFT"@ {
        Some(Key::Shift)
    }     else if name == "SUPERL"@ || name == "SUPER_L"@ || name == "SUPER_LEFT"@ {
        Some(Key::SuperLeft)
    }     else if name == "SUPERR"@ || name == "SUPER_R"@ || name == "SUPER_RIGHT"@ {
        Some(Key::SuperRight)
    }     else if name == "TAB"@ {
        Some(Key::Tab)
    }     else if name == "UP"@ {
        Some(Key::Up)
    }     else if name == "WIN"@ || name == "WINDOWS"@ {
        Some(Key::Windows)
    } else {
        None
    }
}

/// The key that a name stands for, in small or capital letters.
pub fn key_lookup(s: &str) -> (key: Option<Key>)
    ensures
        key == key_named(uppercase(s@)),
{
    let name: String = to_uppercase(s);
    key_with_name(name.as_str())
}

/// The key that a name in capitals stands for.
pub fn key_with_name(name: &str) -> (key: Option<Key>)
    ensures
        key == key_named(name@),
{
    if str_eq(name, "ALT") || str_eq(name, "ALTL") || str_eq(name, "ALT_L") || str_eq(name, "ALT_LEFT") {
        Some(Key::AltLeft)
    }     else if str_eq(name, "ALTR") || str_eq(name, "ALT_R") || str_eq(name, "ALT_RIGHT") {
        Some(Key::AltRight)
    }     else if str_eq(name, "BACKSPACE") {
        Some(Key::Backspace)
    }     else if str_eq(name, "CONTROL") || str_eq(name, "CTRL") {
        Some(Key::Control)
    }     else if str_eq(name, "DELETE") || str_eq(name, "DEL") {
        Some(Key::Delete)
    }     else if str_eq(name, "DOWN") {
        Some(Key::Down)
    }     else if str_eq(name, "ESCAPE") || str_eq(name, "ESC") {
        Some(Key::Escape)
    }     else if str_eq(name, "F1") {
        Some(Key::F1)
    }     else if str_eq(name, "F2") {
        Some(Key::F2)
    }     else if str_eq(name, "F3") {
        Some(Key::F3)
    }     else if str_eq(name, "F4") {
        Some(Key::F4)
    }     else if str_eq(name, "F5") {
        Some(Key::F5)
    }     else if str_eq(name, "F6") {
        Some(Key::F6)
    }     else if str_eq(name, "F7") {
        Some(Key::F7)
    }     else if str_eq(name, "F8") {
        Some(Key::F8)
    }     else if str_eq(name, "F9") {
        Some(Key::F9)
    }     else if str_eq(name, "F10") {
        Some(Key::F10)
    }     else if str_eq(name, "F11") {
        Some(Key::F11)
    }     else if str_eq(name, "HYPERL") || str_eq(name, "HYPER_L") || str_eq(name, "HYPER_LEFT") {
        Some(Key::HyperLeft)
    }     else if str_eq(name, "HYPERR") || str_eq(name, "HYPER_R") || str_eq(name, "HYPER_RIGHT") {
        Some(Key::HyperRight)
    }     else if str_eq(name, "LEFT") {
        Some(Key::Left)
    }     else if str_eq(name, "METAL") || str_eq(name, "META_L") || str_eq(name, "META_LEFT") {
        Some(Key::MetaLeft)
    }     else if str_eq(name, "METAR") || str_eq(name, "META_R") || str_eq(name, "META_RIGHT") {
        Some(Key::MetaRight)
    }     else if str_eq(name, "RETURN") || str_eq(name, "ENTER") {
        Some(Key::Return)
    }     else if str_eq(name, "RIGHT") {
        Some(Key::Right)
    }     else if str_eq(name, "SHIFT") {
        Some(Key::Shift)
    }     else if str_eq(name, "SUPERL") || str_eq(name, "SUPER_L") || str_eq(name, "SUPER_LEFT") {
        Some(Key::SuperLeft)
    }     else if str_eq(name, "SUPERR") || str_eq(name, "SUPER_R") || str_eq(name, "SUPER_RIGHT") {
        Some(Key::SuperRight)
    }     else if str_eq(name, "TAB") {
        Some(Key::Tab)
    }     else if str_eq(name, "UP") {
        Some(Key::Up)
    }     else if str_eq(name, "WIN") || str_eq(name, "WINDOWS") {
        Some(Key::Windows)
    } else {
        None
    }
}

/// What a line of the local client asks for.
#[derive(Debug)]
pub enum Order {
    /// Nothing: the line is empty.
    Nothing,
    /// End the session.
    Exit,
    /// Play this action.
    Action(InputAction),
    /// Apply this setting.
    Setting(InputSetting),
    /// Write the lines of this file.
    Cat(String),
    /// The delay is no number: this is what stood in its place.
    BadDelay(String),
    /// The key has no name that is known.
    UnknownKey,
    /// Nothing that is known.
    Invalid,
}

/// What a key order gives: the action on the key, if the key is known.
pub open spec fn is_key_order(order: Order, key: Option<Key>, which: int) -> bool {
    match key {
        None => order is UnknownKey,
        Some(k) => order matches Order::Action(InputAction::Keyboard(action)) && (if which == 0 {
            action == KeyboardAction::KeyDown(k)
        } else if which == 1 {
            action == KeyboardAction::KeyPress(k)
        } else {
            action == KeyboardAction::KeyUp(k)
        }),
    }
}

/// What a command in capitals asks for with its argument, where `delay` is
/// the number that the argument reads as, if it does, and `key` the key that
/// it names, if it does.
pub open spec fn is_order_with(
    order: Order,
    command: Seq<char>,
    argument: Seq<char>,
    delay: Option<u64>,
    key: Option<Key>,
) -> bool {
    if command == ""@ {
        order is Nothing
    } else if command == "EXIT"@ || command == "QUIT"@ {
        order is Exit
    } else if command == "PAUSE"@ || command == "SLEEP"@ {
        match delay {
            Some(delay) => order matches Order::Action(InputAction::Pause(d)) && d == delay,
            None => order matches Order::BadDelay(text) && text@ == argument,
        }
    } else if command == "DELAY"@ {
        match delay {
            Some(delay) => order matches Order::Setting(
                InputSetting::Keyboard(KeyboardSetting::Delay(d)),
            ) && d == delay,
            None => order matches Order::BadDelay(text) && text@ == argument,
        }
    } else if command == "WRITE"@ {
        order matches Order::Action(InputAction::Keyboard(KeyboardAction::Write(text))) && text@
            == argument
    } else if command == "WRITELN"@ {
        order matches Order::Action(InputAction::Keyboard(KeyboardAction::Write(text))) && text@
            == argument + "\n"@
    } else if command == "KEYDOWN"@ {
        is_key_order(order, key, 0)
    } else if command == "KEY"@ || command == "KEYPRESS"@ {
        is_key_order(order, key, 1)
    } else if command == "KEYUP"@ {
        is_key_order(order, key, 2)
    } else if command == "CAT"@ {
        order matches Order::Cat(file) && file@ == argument
    } else {
        order is Invalid
    }
}

/// What the command of a line, in capitals, asks for with its argument.
pub open spec fn is_order(order: Order, command: Seq<char>, argument: Seq<char>) -> bool {
    is_order_with(order, command, argument, parsed_u64(argument), key_named(uppercase(argument)))
}

/// Reads a line of the local client: its first word, in small or capital
/// letters, is the command, and what follows the first space its argument.
pub fn order(line: &str) -> (r: Order)
    ensures
        is_order(r, order_of(line@).0, order_of(line@).1),
{
    let (command, argument): (String, String) = split_order(line);
    let delay: Option<u64> = parse_u64(argument.as_str());
    let key: Option<Key> = key_lookup(argument.as_str());
    order_with(command.as_str(), argument, delay, key)
}

/// What a command in capitals asks for with its argument, where `delay` is
/// the number that the argument reads as, if it does, and `key` the key that
/// it names, if it does.
pub fn order_with(command: &str, argument: String, delay: Option<u64>, key: Option<Key>) -> (r:
    Order)
    ensures
        is_order_with(r, command@, argument@, delay, key),
{
    if str_eq(command, "") {
        Order::Nothing
    } else if str_eq(command, "EXIT") || str_eq(command, "QUIT") {
        Order::Exit
    } else if str_eq(command, "PAUSE") || str_eq(command, "SLEEP") {
        match delay {
            Some(delay) => Order::Action(InputAction::Pause(delay)),
            None => Order::BadDelay(argument),
        }
    } else if str_eq(command, "DELAY") {
        match delay {
            Some(delay) => Order::Setting(InputSetting::Keyboard(KeyboardSetting::Delay(delay))),
            None => Order::BadDelay(argument),
        }
    } else if str_eq(command, "WRITE") {
        Order::Action(InputAction::Keyboard(KeyboardAction::Write(argument)))
    } else if str_eq(command, "WRITELN") {
        Order::Action(InputAction::Keyboard(KeyboardAction::Write(concat(argument, "\n"))))
    } else if str_eq(command, "KEYDOWN") {
        match key {
            None => Order::UnknownKey,
            Some(key) => Order::Action(InputAction::Keyboard(KeyboardAction::KeyDown(key))),
        }
    } else if str_eq(command, "KEY") || str_eq(command, "KEYPRESS") {
        match key {
            None => Order::UnknownKey,
            Some(key) => Order::Action(InputAction::Keyboard(KeyboardAction::KeyPress(key))),
        }
    } else if str_eq(command, "KEYUP") {
        match key {
            None => Order::UnknownKey,
            Some(key) => Order::Action(InputAction::Keyboard(KeyboardAction::KeyUp(key))),
        }
    } else if str_eq(command, "CAT") {
        Order::Cat(argument)
    } else {
        Order::Invalid
    }
}

/// The keys that type one character: the return key for a line feed, the
/// key of the character for any other; a tilde is followed by a space, so
/// that it is not taken for an accent.
pub open spec fn keys_of(c: char) -> Seq<Key> {
    if c == '\n' {
        seq![Key::Return]
    } else if c == '~' {
        seq![Key::Printable(c), Key::Printable(' ')]
    } else {
        seq![Key::Printable(c)]
    }
}

/// The keys that type a text, in order.
pub open spec fn keys_of_text(text: Seq<char>) -> Seq<Key>
    decreases text.len(),
{
    if text.len() == 0 {
        Seq::empty()
    } else {
        keys_of_text(text.drop_last()) + keys_of(text.last())
    }
}

/// The keys to press to type one character.
pub fn char_keys(c: char) -> (keys: Vec<Key>)
    ensures
        keys@ == keys_of(c),
{
    let mut keys: Vec<Key> = Vec::new();
    if c == '\n' {
        keys.push(Key::Return);
    } else if c == '~' {
        keys.push(Key::Printable(c));
        keys.push(Key::Printable(' '));
    } else {
        keys.push(Key::Printable(c));
    }
    assert(keys@ =~= keys_of(c));
    keys
}

/// The keys to press, one after the other, to type `text`.
pub fn text_keys(text: &str) -> (keys: Vec<Key>)
    ensures
        keys@ == keys_of_text(text@),
{
    let mut keys: Vec<Key> = Vec::new();
    for c in it: text.chars()
        invariant
            it.seq() == text@,
            keys@ == keys_of_text(text@.take(it.index())),
    {
        proof {
            let k = it.index();
            assert(text@.take(k + 1).drop_last() =~= text@.take(k));
            assert(text@.take(k + 1).last() == c);
        }
        let mut more: Vec<Key> = char_keys(c);
        keys.append(&mut more);
    }
    assert(text@.take(text@.len() as int) =~= text@);
    keys
}

} // verus!
