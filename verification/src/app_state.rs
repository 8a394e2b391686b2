//! The application shell: page navigation, the message pop-up, the typed
//! line and the quit flag, and which events reach the current page.
use vstd::prelude::*;
use crate::event::{Event, Key};
use crate::text::{pop_char, push_char};

verus! {

/// The state of the application shell.  The pages themselves are kept by
/// the caller; `page_count` is how many there are.
pub struct App {
    pub exit: bool,
    pub content: String,
    pub page_count: usize,
    pub current_page: usize,
    pub popup: Option<String>,
}

/// The shell after moving to page `index`: pages that do not exist are
/// ignored.
pub open spec fn navigated(app: App, index: usize) -> App {
    if index < app.page_count {
        App { current_page: index, ..app }
    } else {
        app
    }
}

/// What key `k` does to the shell `old` when the current page does not take
/// the keyboard for itself.
pub open spec fn shell_key_step(old: App, k: Key, new: App) -> bool {
    if old.popup is Some {
        new == if k is Esc {
            App { popup: None, ..old }
        } else {
            old
        }
    } else if k == Key::Char('1') {
        new == navigated(old, 0)
    } else if k == Key::Char('2') {
        new == navigated(old, 1)
    } else if k == Key::Char('q') {
        new == (App { exit: true, ..old })
    } else if k is Backspace {
        new == (App { content: new.content, ..old }) && new.content@ == if old.content@.len() > 0 {
            old.content@.drop_last()
        } else {
            old.content@
        }
    } else if k is Char {
        new == (App { content: new.content, ..old }) && new.content@ == old.content@.push(k->Char_0)
    } else {
        new == old
    }
}

impl App {
    /// A shell over `page_count` pages, on the first page, with no pop-up.
    pub fn new(page_count: usize) -> (a: Self)
        ensures
            !a.exit,
            a.content@ == Seq::<char>::empty(),
            a.page_count == page_count,
            a.current_page == 0,
            a.popup is None,
    {
        Self { exit: false, content: String::new(), page_count, current_page: 0, popup: None }
    }

    /// Moves to page `index` if there is one.
    pub fn navigate(&mut self, index: usize)
        ensures
            *final(self) == navigated(*old(self), index),
    {
        if index < self.page_count {
            self.current_page = index;
        }
    }

    /// Takes an event before the current page sees it, and says whether the
    /// page gets it too.  While the page takes the keyboard for itself the
    /// shell leaves everything to it.  Otherwise a pop-up swallows keys
    /// (Esc closes it), `1` and `2` switch pages, `q` quits, Backspace and
    /// other characters edit the typed line, and a pop-up event opens a
    /// pop-up.  Every event other than a swallowed key reaches the page.
    pub fn handle_events(&mut self, event: &Event, page_captures_input: bool) -> (forward: bool)
        ensures
            forward == (!(*event is Key) || page_captures_input || old(self).popup is None),
            page_captures_input ==> *final(self) == *old(self),
            !page_captures_input ==> match *event {
                Event::Key(k) => shell_key_step(*old(self), k, *final(self)),
                Event::Popup(txt) => *final(self) == (App { popup: Some(txt), ..*old(self) }),
                _ => *final(self) == *old(self),
            },
    {
        let mut forward_key_to_page = true;
        if !page_captures_input {
            match event {
                Event::Key(k) => {
                    if self.popup.is_some() {
                        forward_key_to_page = false;
                        if let Key::Esc = k {
                            self.popup = None;
                        }
                    } else {
                        match k {
                            Key::Char('1') => self.navigate(0),
                            Key::Char('2') => self.navigate(1),
                            Key::Char('q') => self.exit = true,
                            Key::Backspace => {
                                pop_char(&mut self.content);
                            },
                            Key::Char(c) => push_char(&mut self.content, *c),
                            _ => {},
                        }
                    }
                },
                Event::Popup(txt) => {
                    self.popup = Some(txt.clone());
                },
                _ => {},
            }
        }
        let is_key = match event {
            Event::Key(_) => true,
            _ => false,
        };
        forward_key_to_page || !is_key
    }
}

/// Law: the shell never moves to a page that does not exist: from an
/// existing page, any key leaves it on an existing page.
pub proof fn lemma_shell_stays_on_pages(old: App, k: Key, new: App)
    requires
        old.current_page < old.page_count,
        shell_key_step(old, k, new),
    ensures
        new.current_page < new.page_count,
        new.page_count == old.page_count,
{
}

} // verus!
