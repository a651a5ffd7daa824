//! The state of the counter shell and how a keypress changes it.
use vstd::prelude::*;

verus! {

/// What the shell shows and whether it is about to stop.
#[derive(Clone, Copy, Debug, PartialEq, Eq, Structural)]
pub struct App {
    pub counter: i64,
    pub should_quit: bool,
}

/// The key that raises the counter.
pub const INCREMENT_KEY: char = 'j';

/// The key that lowers the counter.
pub const DECREMENT_KEY: char = 'k';

/// The key that stops the shell.
pub const QUIT_KEY: char = 'q';

impl App {
    /// The state after a press of `key`, where `None` stands for a poll that saw no
    /// keypress.
    pub open spec fn after(self, key: Option<char>) -> App {
        match key {
            Some(c) => if c == INCREMENT_KEY {
                App { counter: (self.counter + 1) as i64, ..self }
            } else if c == DECREMENT_KEY {
                App { counter: (self.counter - 1) as i64, ..self }
            } else if c == QUIT_KEY {
                App { should_quit: true, ..self }
            } else {
                self
            },
            None => self,
        }
    }

    /// Whether a press of `key` keeps the counter within `i64`.
    pub open spec fn can_take(self, key: Option<char>) -> bool {
        &&& key == Some(INCREMENT_KEY) ==> self.counter < i64::MAX
        &&& key == Some(DECREMENT_KEY) ==> self.counter > i64::MIN
    }

    /// The state the shell starts in: counter 0, running.
    pub fn new() -> (r: App)
        ensures
            r.counter == 0,
            !r.should_quit,
    {
        App { counter: 0, should_quit: false }
    }

    /// Takes the key pressed during one poll, if any.
    pub fn update(&mut self, key: Option<char>)
        requires
            old(self).can_take(key),
        ensures
            *final(self) == old(self).after(key),
    {
        match key {
            Some(c) => {
                if c == INCREMENT_KEY {
                    self.counter = self.counter + 1;
                } else if c == DECREMENT_KEY {
                    self.counter = self.counter - 1;
                } else if c == QUIT_KEY {
                    self.should_quit = true;
                }
            },
            None => {},
        }
    }

    /// Whether the loop goes on to another poll.
    pub fn keep_running(&self) -> (r: bool)
        ensures
            r == !self.should_quit,
    {
        !self.should_quit
    }
}

/// A press of the quit key ends the loop after the poll it came in; no later key
/// brings it back.
pub proof fn lemma_quit_stops(a: App, later: Option<char>)
    ensures
        a.after(Some(QUIT_KEY)).should_quit,
        a.after(Some(QUIT_KEY)).counter == a.counter,
        a.should_quit ==> a.after(later).should_quit,
{
}

/// A raise followed by a lowering leaves the counter where it was.
pub proof fn lemma_increment_then_decrement(a: App)
    requires
        a.can_take(Some(INCREMENT_KEY)),
    ensures
        a.after(Some(INCREMENT_KEY)).after(Some(DECREMENT_KEY)) == a,
{
}

} // verus!
