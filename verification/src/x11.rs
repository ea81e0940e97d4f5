//! Keys as the X server knows them: the symbol of a key, and the key code
//! with the modifiers that produce a symbol.

use crate::input::Key;
use vstd::prelude::*;

verus! {

pub const SHIFT_MASK: u8 = 0x01;

pub const LOCK_MASK: u8 = 0x02;

pub const CONTROL_MASK: u8 = 0x04;

pub const MOD1_MASK: u8 = 0x08;

pub const MOD2_MASK: u8 = 0x10;

pub const MOD3_MASK: u8 = 0x20;

pub const MOD4_MASK: u8 = 0x40;

pub const MOD5_MASK: u8 = 0x80;

/// Why a key could not be turned into a key code.
#[derive(Clone, Copy, Debug, PartialEq, Eq, Structural)]
pub enum Error {
    OpenDisplayFailed,
    GetMapFailed,
    MapIsNull,
    KeySymMapIsNull,
    TypesIsNull,
    SymsIsNull,
    KeycodeNotFoundForKey(Key),
    InvalidCharacter(char),
}

/// A key code, and the modifiers to hold while it is pressed.
#[derive(Clone, Copy, Debug, Default, PartialEq, Eq, Structural)]
pub struct KeycodeAndModifier {
    pub keycode: u8,
    pub modifiers: u8,
}

impl KeycodeAndModifier {
    pub fn contains_shift(self) -> (held: bool)
        ensures
            held == (self.modifiers & SHIFT_MASK != 0),
    {
        self.modifiers & SHIFT_MASK != 0
    }

    pub fn contains_control(self) -> (held: bool)
        ensures
            held == (self.modifiers & CONTROL_MASK != 0),
    {
        self.modifiers & CONTROL_MASK != 0
    }

    pub fn contains_mod1(self) -> (held: bool)
        ensures
            held == (self.modifiers & MOD1_MASK != 0),
    {
        self.modifiers & MOD1_MASK != 0
    }

    pub fn contains_mod2(self) -> (held: bool)
        ensures
            held == (self.modifiers & MOD2_MASK != 0),
    {
        self.modifiers & MOD2_MASK != 0
    }

    pub fn contains_mod3(self) -> (held: bool)
        ensures
            held == (self.modifiers & MOD3_MASK != 0),
    {
        self.modifiers & MOD3_MASK != 0
    }

    pub fn contains_mod4(self) -> (held: bool)
        ensures
            held == (self.modifiers & MOD4_MASK != 0),
    {
        self.modifiers & MOD4_MASK != 0
    }

    pub fn contains_mod5(self) -> (held: bool)
        ensures
            held == (self.modifiers & MOD5_MASK != 0),
    {
        self.modifiers & MOD5_MASK != 0
    }

    /// Adds the modifiers of `other` to those held.
    pub fn set_modifiers(&mut self, other: KeycodeAndModifier)
        ensures
            final(self).keycode == old(self).keycode,
            final(self).modifiers == old(self).modifiers | other.modifiers,
    {
        self.modifiers = self.modifiers | other.modifiers;
    }

    /// Whether this pair comes before `other`: it holds fewer modifiers, or
    /// the same and has the smaller key code.
    pub open spec fn precedes(self, other: KeycodeAndModifier) -> bool {
        self.modifiers < other.modifiers || (self.modifiers == other.modifiers && self.keycode
            < other.keycode)
    }
}

/// The symbol of a key.
pub open spec fn keysym_of(key: Key) -> Result<u64, Error> {
    match key {
        Key::AltLeft => Ok(0xffe9),
        Key::AltRight => Ok(0xffea),
        Key::Backspace => Ok(0xff08),
        Key::Control => Ok(0xffe3),
        Key::Delete => Ok(0xffff),
        Key::Down => Ok(0xff54),
        Key::Escape => Ok(0xff1b),
        Key::F1 => Ok(0xffbe),
        Key::F2 => Ok(0xffbf),
        Key::F3 => Ok(0xffc0),
        Key::F4 => Ok(0xffc1),
        Key::F5 => Ok(0xffc2),
        Key::F6 => Ok(0xffc3),
        Key::F7 => Ok(0xffc4),
        Key::F8 => Ok(0xffc5),
        Key::F9 => Ok(0xffc6),
        Key::F10 => Ok(0xffc7),
        Key::F11 => Ok(0xffc8),
        Key::HyperLeft => Ok(0xffed),
        Key::HyperRight => Ok(0xffee),
        Key::Left => Ok(0xff51),
        Key::Level3Shift => Ok(0xfe03),
        Key::Level5Shift => Ok(0xfe11),
        Key::MetaLeft => Ok(0xffe7),
        Key::MetaRight => Ok(0xffe8),
        Key::Return => Ok(0xff0d),
        Key::Right => Ok(0xff53),
        Key::Shift => Ok(0xffe1),
        Key::SuperLeft | Key::Windows => Ok(0xffeb),
        Key::SuperRight => Ok(0xffec),
        Key::Tab => Ok(0xff09),
        Key::Up => Ok(0xff52),
        Key::Printable(c) => if (c as u32) < 0x20 {
            Err(Error::InvalidCharacter(c))
        } else {
            Ok(((c as u32) % 256) as u64)
        },
    }
}

/// The symbol of a key. A printable character has the symbol of its lowest
/// byte; a control character has none.
pub fn key_to_keysym(key: Key) -> (r: Result<u64, Error>)
    ensures
        r == keysym_of(key),
{
    match key {
        Key::AltLeft => Ok(0xffe9),
        Key::AltRight => Ok(0xffea),
        Key::Backspace => Ok(0xff08),
        Key::Control => Ok(0xffe3),
        Key::Delete => Ok(0xffff),
        Key::Down => Ok(0xff54),
        Key::Escape => Ok(0xff1b),
        Key::F1 => Ok(0xffbe),
        Key::F2 => Ok(0xffbf),
        Key::F3 => Ok(0xffc0),
        Key::F4 => Ok(0xffc1),
        Key::F5 => Ok(0xffc2),
        Key::F6 => Ok(0xffc3),
        Key::F7 => Ok(0xffc4),
        Key::F8 => Ok(0xffc5),
        Key::F9 => Ok(0xffc6),
        Key::F10 => Ok(0xffc7),
        Key::F11 => Ok(0xffc8),
        Key::HyperLeft => Ok(0xffed),
        Key::HyperRight => Ok(0xffee),
        Key::Left => Ok(0xff51),
        Key::Level3Shift => Ok(0xfe03),
        Key::Level5Shift => Ok(0xfe11),
        Key::MetaLeft => Ok(0xffe7),
        Key::MetaRight => Ok(0xffe8),
        Key::Return => Ok(0xff0d),
        Key::Right => Ok(0xff53),
        Key::Shift => Ok(0xffe1),
        Key::SuperLeft | Key::Windows => Ok(0xffeb),
        Key::SuperRight => Ok(0xffec),
        Key::Tab => Ok(0xff09),
        Key::Up => Ok(0xff52),
        Key::Printable(c) => {
            let code: u32 = c as u32;
            if code < 0x20 {
                Err(Error::InvalidCharacter(c))
            } else {
                Ok((code % 256) as u64)
            }
        },
    }
}

/// Of the ways to produce a key, the one that holds the fewest modifiers,
/// and among those the one with the smallest key code. No way at all is an
/// error that names the key.
pub fn key_to_keycode_and_modifiers(matches: &Vec<KeycodeAndModifier>, key: Key) -> (r: Result<
    KeycodeAndModifier,
    Error,
>)
    ensures
        matches@.len() == 0 ==> r == Err::<KeycodeAndModifier, Error>(
            Error::KeycodeNotFoundForKey(key),
        ),
        matches@.len() > 0 ==> r is Ok && matches@.contains(r->Ok_0) && forall|i: int|
            0 <= i < matches@.len() ==> !(#[trigger] matches@[i]).precedes(r->Ok_0),
{
    if matches.len() == 0 {
        return Err(Error::KeycodeNotFoundForKey(key));
    }
    let last: usize = matches.len() - 1;
    let mut best: KeycodeAndModifier = matches[last];
    let mut i: usize = 0;
    while i < last
        invariant
            last == matches@.len() - 1,
            i <= last,
            matches@.contains(best),
            !matches@[last as int].precedes(best),
            forall|j: int| 0 <= j < i ==> !(#[trigger] matches@[j]).precedes(best),
        decreases last - i,
    {
        let km: KeycodeAndModifier = matches[i];
        if km.modifiers < best.modifiers || (km.modifiers == best.modifiers && km.keycode
            < best.keycode) {
            best = km;
        }
        i = i + 1;
    }
    Ok(best)
}

/// One event of a key: the key that holds a modifier goes down or up, or
/// the key itself does.
#[derive(Clone, Copy, Debug, PartialEq, Eq, Structural)]
pub enum Stroke {
    /// The key that stands for a modifier; `true` for down.
    Modifier(bool, Key),
    /// The key that was asked for; `true` for down.
    Main(bool),
}

/// The events of one pass, down or up: shift, control and the third level,
/// once for each of the modifiers 1 and 5, as far as they are held, and then
/// the key itself if it is to move in this pass.
pub open spec fn pass(km: KeycodeAndModifier, press: bool, main: bool) -> Seq<Stroke> {
    (if km.modifiers & SHIFT_MASK != 0 {
        seq![Stroke::Modifier(press, Key::Shift)]
    } else {
        Seq::empty()
    }) + (if km.modifiers & CONTROL_MASK != 0 {
        seq![Stroke::Modifier(press, Key::Control)]
    } else {
        Seq::empty()
    }) + (if km.modifiers & MOD1_MASK != 0 {
        seq![Stroke::Modifier(press, Key::Level3Shift)]
    } else {
        Seq::empty()
    }) + (if km.modifiers & MOD5_MASK != 0 {
        seq![Stroke::Modifier(press, Key::Level3Shift)]
    } else {
        Seq::empty()
    }) + (if main {
        seq![Stroke::Main(press)]
    } else {
        Seq::empty()
    })
}

/// The events that send a key with its modifiers: a pass down, in which the
/// key goes down if `down`, and a pass up, in which it goes up if `release`.
pub fn send_key(km: KeycodeAndModifier, down: bool, release: bool) -> (strokes: Vec<Stroke>)
    ensures
        strokes@ == pass(km, true, down) + pass(km, false, release),
{
    let mut strokes: Vec<Stroke> = Vec::new();
    add_pass(&mut strokes, km, true, down);
    add_pass(&mut strokes, km, false, release);
    assert(strokes@ =~= pass(km, true, down) + pass(km, false, release));
    strokes
}

fn add_pass(strokes: &mut Vec<Stroke>, km: KeycodeAndModifier, press: bool, main: bool)
    ensures
        final(strokes)@ == old(strokes)@ + pass(km, press, main),
{
    if km.contains_shift() {
        strokes.push(Stroke::Modifier(press, Key::Shift));
    }
    if km.contains_control() {
        strokes.push(Stroke::Modifier(press, Key::Control));
    }
    if km.contains_mod1() {
        strokes.push(Stroke::Modifier(press, Key::Level3Shift));
    }
    if km.contains_mod5() {
        strokes.push(Stroke::Modifier(press, Key::Level3Shift));
    }
    if main {
        strokes.push(Stroke::Main(press));
    }
    assert(strokes@ =~= old(strokes)@ + pass(km, press, main));
}

} // verus!
