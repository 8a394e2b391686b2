//! The start page of the `controls` interface.
use vstd::prelude::*;
use crate::event::Key;
use crate::text::push_char;

verus! {

/// The start page.
pub struct MainContent {
    pub content: String,
}

impl MainContent {
    /// Character keys are appended to the page's text.
    pub fn controls(&mut self, key: Key)
        ensures
            final(self).content@ == (match key {
                Key::Char(c) => old(self).content@.push(c),
                _ => old(self).content@,
            }),
    {
        if let Some(c) = key.as_char() {
            push_char(&mut self.content, c);
        }
    }
}

} // verus!
