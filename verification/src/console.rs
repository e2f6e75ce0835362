//! The output sink injected into every pipeline stage. Notices are cosmetic:
//! no decision of the pipeline depends on them.

use vstd::prelude::*;
use std::io::Write;

verus! {

/// An output sink for human-readable progress notices.
pub trait Console {
    /// Reports one line of progress.
    fn say(&mut self, text: &str);
}

/// A sink that prints to the process's standard error stream.
pub struct EnvConsole {}

/// Relies on std::io::stderr and writeln: prints one line to standard error.
#[verifier::external_body]
fn emit_stderr(text: &str) {
    let _ = writeln!(std::io::stderr(), "{}", text);
}

impl Console for EnvConsole {
    fn say(&mut self, text: &str) {
        emit_stderr(text);
    }
}

/// A sink that keeps every notice in memory, for inspection by tests.
pub struct MemConsole {
    /// The notices reported so far, oldest first.
    pub buffer: Vec<String>,
}

impl MemConsole {
    /// An empty in-memory sink.
    pub fn new() -> (r: MemConsole)
        ensures
            r.buffer@.len() == 0,
    {
        MemConsole { buffer: Vec::new() }
    }
}

impl Console for MemConsole {
    fn say(&mut self, text: &str) {
        self.buffer.push(String::from_str(text));
    }
}

} // verus!
