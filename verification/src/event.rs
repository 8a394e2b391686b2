//! Keys and the events that drive the user interface.
use vstd::prelude::*;
use crate::scan::Port;

verus! {

/// A key pressed on the terminal.
#[derive(Debug)]
pub enum Key {
    Char(char),
    Enter,
    Esc,
    Backspace,
    Up,
    Down,
    Left,
    Right,
    F(u8),
    Other,
}

impl Key {
    /// The character that the key types, if it is a character key.
    pub fn as_char(&self) -> (r: Option<char>)
        ensures
            r == (match *self {
                Key::Char(c) => Some(c),
                _ => None,
            }),
    {
        match self {
            Key::Char(c) => Some(*c),
            _ => None,
        }
    }
}

/// An event delivered to the application loop.
#[derive(Debug)]
pub enum Event {
    Tick,
    Key(Key),
    Popup(String),
    PortFound(Port),
    CurrentPort(u16),
    ScanFinished,
    ScanProgress { progress: u32, current_probe: String, pkts_s: u64 },
    PacketFound(Vec<u8>),
}

/// What happened to a key.
#[derive(Debug, Clone, Copy)]
pub enum KeyKind {
    Press,
    Repeat,
    Release,
}

/// The event for a key from the terminal: only presses are delivered.
pub fn key_event(key: Key, kind: KeyKind) -> (e: Option<Event>)
    ensures
        kind is Press ==> e == Some(Event::Key(key)),
        !(kind is Press) ==> e is None,
{
    match kind {
        KeyKind::Press => Some(Event::Key(key)),
        _ => None,
    }
}

/// How long to wait for terminal input before the next tick: what is left
/// of the tick period, or nothing once it has run out.
pub fn poll_timeout(tick_rate: u64, elapsed: u64) -> (t: u64)
    ensures
        t == if elapsed < tick_rate {
            tick_rate - elapsed
        } else {
            0
        },
{
    tick_rate.saturating_sub(elapsed)
}

/// Whether a tick is due: the whole tick period has passed.
pub fn tick_due(tick_rate: u64, elapsed: u64) -> (due: bool)
    ensures
        due == (elapsed >= tick_rate),
{
    elapsed >= tick_rate
}

} // verus!
