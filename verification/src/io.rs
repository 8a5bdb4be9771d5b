//! The sink of the `print` builtin.
//!
//! Three modes: discard, write to the process's standard output, or
//! collect into an owned string.  `print` itself is responsible for
//! separators and the terminator; the writer only emits what it is
//! handed.

use vstd::prelude::*;

use crate::exceptions::RunError;
use crate::fmt::push_char;

verus! {

/// Custom output handling for the `print` builtin: implement this
/// and pass it via `PrintWriter::Callback` to capture or redirect
/// print output.
pub trait PrintWriterCallback {
    /// Called once for each formatted argument, with no separator and
    /// no terminator.
    fn stdout_write(&mut self, output: &str) -> Result<(), RunError>;

    /// Called for each separator or terminator character.
    fn stdout_push(&mut self, end: char) -> Result<(), RunError>;
}

/// Output handler for the `print` builtin.
pub enum PrintWriter {
    /// Silently discard all output.
    Disabled,
    /// Write to standard output.
    Stdout,
    /// Collect all output into a string.
    Collect(String),
    /// Delegate to a custom callback.
    Callback(Box<dyn PrintWriterCallback>),
}

/// The text a writer has collected: meaningful for the `Collect`
/// mode, empty otherwise.
pub open spec fn spec_collected(w: PrintWriter) -> Seq<char> {
    match w {
        PrintWriter::Collect(buf) => buf@,
        _ => Seq::empty(),
    }
}

/// Relies on std::io::Stdout::write_all: sends the bytes of the text
/// to the process's standard output; no runtime state is touched, and
/// a failing write is ignored, as `print` discards write errors.
#[verifier::external_body]
fn write_stdout(s: &str) {
    let _ = std::io::Write::write_all(&mut std::io::stdout(), s.as_bytes());
}

impl PrintWriter {
    /// Emits one formatted argument's text, with no separator and no
    /// terminator.  The built-in modes never fail; a callback may.
    pub fn stdout_write(&mut self, output: &str) -> (r: Result<(), RunError>)
        ensures
            !(*old(self) is Callback) ==> r is Ok,
            *old(self) is Collect ==> (*final(self) matches PrintWriter::Collect(buf) && buf@
                == (*old(self))->Collect_0@ + output@),
            *old(self) is Disabled || *old(self) is Stdout ==> *final(self) == *old(self),
            *old(self) is Callback ==> *final(self) is Callback,
    {
        match self {
            PrintWriter::Disabled => Ok(()),
            PrintWriter::Stdout => {
                write_stdout(output);
                Ok(())
            },
            PrintWriter::Collect(buf) => {
                buf.append(output);
                Ok(())
            },
            PrintWriter::Callback(cb) => cb.stdout_write(output),
        }
    }

    /// Emits a single separator or terminator character.
    pub fn stdout_push(&mut self, end: char) -> (r: Result<(), RunError>)
        ensures
            !(*old(self) is Callback) ==> r is Ok,
            *old(self) is Collect ==> (*final(self) matches PrintWriter::Collect(buf) && buf@
                == (*old(self))->Collect_0@.push(end)),
            *old(self) is Disabled || *old(self) is Stdout ==> *final(self) == *old(self),
            *old(self) is Callback ==> *final(self) is Callback,
    {
        match self {
            PrintWriter::Disabled => Ok(()),
            PrintWriter::Stdout => {
                let mut s = String::new();
                push_char(&mut s, end);
                write_stdout(s.as_str());
                Ok(())
            },
            PrintWriter::Collect(buf) => {
                push_char(buf, end);
                Ok(())
            },
            PrintWriter::Callback(cb) => cb.stdout_push(end),
        }
    }

    /// The collected output, for the `Collect` mode; `None` for the
    /// other modes.
    pub fn collected_output(&self) -> (r: Option<&str>)
        ensures
            *self is Collect ==> (r matches Some(s) && s@ == (*self)->Collect_0@),
            !(*self is Collect) ==> r is None,
    {
        match self {
            PrintWriter::Collect(buf) => Some(buf.as_str()),
            _ => None,
        }
    }
}

} // verus!
