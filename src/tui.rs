use vstd::prelude::*;

verus! {

/// The state of the interactive viewer.
#[derive(Debug, Clone, Copy, PartialEq, Eq, Structural)]
pub struct App {
    pub exit: bool,
}

impl App {
    /// Takes one key event: a press of `q` asks the viewer to exit.
    /// `code` is the character of the key, `None` for a key without one.
    pub fn handle_key(&mut self, pressed: bool, code: Option<char>)
        ensures
            final(self).exit == (old(self).exit || (pressed && code == Some('q'))),
    {
        if pressed && code == Some('q') {
            self.exit = true;
        }
    }
}

} // verus!
