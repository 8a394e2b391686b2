//! The start page: it records the characters typed on it.
use vstd::prelude::*;
use crate::event::{Event, Key};
use crate::text::push_char;

verus! {

broadcast use vstd::string::group_string_axioms;

/// The start page.
pub struct MainContent {
    pub content: String,
}

impl MainContent {
    /// Character keys are appended to the page's text; other events are
    /// ignored.
    pub fn update(&mut self, event: Event)
        ensures
            final(self).content@ == (match event {
                Event::Key(Key::Char(c)) => old(self).content@.push(c),
                _ => old(self).content@,
            }),
    {
        if let Event::Key(k) = event {
            if let Some(c) = k.as_char() {
                push_char(&mut self.content, c);
            }
        }
    }

    /// The key hints shown for the page.
    pub fn instructions(&self) -> (v: Vec<String>)
        ensures
            v@.len() == 1,
            v@[0]@ == "noting"@,
    {
        vec!["noting".to_string()]
    }
}

} // verus!
