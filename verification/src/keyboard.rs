use vstd::prelude::*;

verus! {

/// A host input notification translated for the core: a quit signal, a
/// single-step signal, or one of the sixteen key codes.
#[derive(Debug, PartialEq, Eq, Structural, Clone, Copy)]
pub enum KeyBoardEvent {
    Quit,
    Next,
    KeyPressed(u8),
}

/// What the fixed keymap makes of the host key named by `c`: the digit
/// keys carry their own codes, the letter keys A to F carry 10 to 15, and
/// W is the single-step signal. Anything else is not recognized.
pub open spec fn key_event_of(c: char) -> Option<KeyBoardEvent> {
    if c == 'w' || c == 'W' {
        Some(KeyBoardEvent::Next)
    } else if c == '0' {
        Some(KeyBoardEvent::KeyPressed(0))
    } else if c == '1' {
        Some(KeyBoardEvent::KeyPressed(1))
    } else if c == '2' {
        Some(KeyBoardEvent::KeyPressed(2))
    } else if c == '3' {
        Some(KeyBoardEvent::KeyPressed(3))
    } else if c == '4' {
        Some(KeyBoardEvent::KeyPressed(4))
    } else if c == '5' {
        Some(KeyBoardEvent::KeyPressed(5))
    } else if c == '6' {
        Some(KeyBoardEvent::KeyPressed(6))
    } else if c == '7' {
        Some(KeyBoardEvent::KeyPressed(7))
    } else if c == '8' {
        Some(KeyBoardEvent::KeyPressed(8))
    } else if c == '9' {
        Some(KeyBoardEvent::KeyPressed(9))
    } else if c == 'a' || c == 'A' {
        Some(KeyBoardEvent::KeyPressed(10))
    } else if c == 'b' || c == 'B' {
        Some(KeyBoardEvent::KeyPressed(11))
    } else if c == 'c' || c == 'C' {
        Some(KeyBoardEvent::KeyPressed(12))
    } else if c == 'd' || c == 'D' {
        Some(KeyBoardEvent::KeyPressed(13))
    } else if c == 'e' || c == 'E' {
        Some(KeyBoardEvent::KeyPressed(14))
    } else if c == 'f' || c == 'F' {
        Some(KeyBoardEvent::KeyPressed(15))
    } else {
        None
    }
}

/// Tracks the most recent recognized host key event. The host event source
/// names keys by character; the run loop records them here and the CPU
/// queries and clears them.
pub struct Keyboard {
    pub key: Option<KeyBoardEvent>,
}

impl Keyboard {
    pub fn new() -> (k: Keyboard)
        ensures
            k.key.is_none(),
    {
        Keyboard { key: None }
    }

    /// True exactly when the tracked event is a press of `key`.
    pub fn is_key_pressed(&self, key: u8) -> (pressed: bool)
        ensures
            pressed == (self.key == Some(KeyBoardEvent::KeyPressed(key))),
    {
        match self.key {
            Some(KeyBoardEvent::KeyPressed(k)) => k == key,
            _ => false,
        }
    }

    /// Discards the tracked event.
    pub fn clear_key(&mut self)
        ensures
            final(self).key.is_none(),
    {
        self.key = None;
    }

    /// Records the host key named by `code` through the fixed keymap and
    /// returns the translation; an unrecognized key is ignored and leaves
    /// the tracked event as it was.
    pub fn map_code(&mut self, code: char) -> (ev: Option<KeyBoardEvent>)
        ensures
            ev == key_event_of(code),
            ev.is_some() ==> final(self).key == ev,
            ev.is_none() ==> final(self).key == old(self).key,
    {
        let ev = match code {
            'w' | 'W' => Some(KeyBoardEvent::Next),
            '0' => Some(KeyBoardEvent::KeyPressed(0)),
            '1' => Some(KeyBoardEvent::KeyPressed(1)),
            '2' => Some(KeyBoardEvent::KeyPressed(2)),
            '3' => Some(KeyBoardEvent::KeyPressed(3)),
            '4' => Some(KeyBoardEvent::KeyPressed(4)),
            '5' => Some(KeyBoardEvent::KeyPressed(5)),
            '6' => Some(KeyBoardEvent::KeyPressed(6)),
            '7' => Some(KeyBoardEvent::KeyPressed(7)),
            '8' => Some(KeyBoardEvent::KeyPressed(8)),
            '9' => Some(KeyBoardEvent::KeyPressed(9)),
            'a' | 'A' => Some(KeyBoardEvent::KeyPressed(10)),
            'b' | 'B' => Some(KeyBoardEvent::KeyPressed(11)),
            'c' | 'C' => Some(KeyBoardEvent::KeyPressed(12)),
            'd' | 'D' => Some(KeyBoardEvent::KeyPressed(13)),
            'e' | 'E' => Some(KeyBoardEvent::KeyPressed(14)),
            'f' | 'F' => Some(KeyBoardEvent::KeyPressed(15)),
            _ => None,
        };
        if ev.is_some() {
            self.key = ev;
        }
        ev
    }
}

} // verus!
