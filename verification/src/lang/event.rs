//! The interpreter's event loop context: commands arrive one line at a
//! time and are handed to an operation, step by step.

use vstd::prelude::*;

verus! {

/// How the loop cuts its input into commands.
pub enum EventMode {
    Line { sep: char },
}

/// An interpreter event loop: its input mode and whether it runs on a
/// thread of its own.
pub struct EventLoop {
    pub mode: EventMode,
    pub threaded: bool,
}

/// Why an event loop ended.
pub enum EventLoopTerm {
    Done,
}

impl EventLoop {
    /// Sets up a line-based interpreter loop with `;` as the command
    /// separator.
    pub fn init_interpreter_loop(threaded: bool) -> (r: Self)
        ensures
            r.threaded == threaded,
            r.mode == (EventMode::Line { sep: ';' }),
    {
        EventLoop { mode: EventMode::Line { sep: ';' }, threaded }
    }

    /// Runs the loop with the given operation; the loop currently ends
    /// at once.
    pub fn run<F: FnOnce(String)>(&self, _f: F) -> (r: EventLoopTerm)
        ensures
            r == EventLoopTerm::Done,
    {
        EventLoopTerm::Done
    }
}

} // verus!
