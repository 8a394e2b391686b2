//! Small interface parts: buttons, informational pop-ups and a text input.
use vstd::prelude::*;
use crate::event::Key;
use crate::text::push_char;

verus! {

/// A labelled button that may hold the keyboard focus.
pub struct Button {
    pub label: String,
    pub is_focused: bool,
}

impl Button {
    pub fn new(label: String, is_focused: bool) -> (b: Self)
        ensures
            b.label == label,
            b.is_focused == is_focused,
    {
        Self { label, is_focused }
    }
}

/// A pop-up that shows a message.
pub struct Popup {
    pub text: String,
}

impl Popup {
    pub fn new(text: String) -> (p: Self)
        ensures
            p.text == text,
    {
        Self { text }
    }
}

/// A single-line text input.
pub struct Input {
    pub input_buff: String,
}

impl Input {
    /// Types the key's character, if it has one, at the end of the buffer.
    pub fn control(&mut self, key: Key)
        ensures
            final(self).input_buff@ == (match key {
                Key::Char(c) => old(self).input_buff@.push(c),
                _ => old(self).input_buff@,
            }),
    {
        if let Some(c) = key.as_char() {
            push_char(&mut self.input_buff, c);
        }
    }
}

} // verus!
