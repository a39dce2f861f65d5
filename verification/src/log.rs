//! Where the debug log goes, and when its file is opened anew.

use crate::text::same_text;
use vstd::prelude::*;

verus! {

/// A string's text, if there is a string.
pub open spec fn text_of(s: Option<String>) -> Option<Seq<char>> {
    match s {
        Some(t) => Some(t@),
        None => None,
    }
}

/// The path to log to: what the environment says, else what the configuration of the
/// last open said. Without either nothing is logged.
pub fn log_path(env: Option<String>, configured: &Option<String>) -> (r: Option<String>)
    ensures
        text_of(r) == (if env is Some {
            text_of(env)
        } else {
            text_of(*configured)
        }),
{
    match env {
        Some(p) => Some(p),
        None => match configured {
            Some(p) => Some(p.clone()),
            None => None,
        },
    }
}

/// The path whose file is held open for appending, so that a busy log does not open
/// its file on every line.
pub struct LogCache {
    path: Option<String>,
}

impl View for LogCache {
    type V = Option<Seq<char>>;

    closed spec fn view(&self) -> Option<Seq<char>> {
        text_of(self.path)
    }
}

/// What to do for a line to be logged.
#[derive(Clone, Copy, PartialEq, Eq, Structural, Debug)]
pub enum LogFile {
    /// Append to the file that is open.
    Reuse,
    /// Open the file, and report what became of that.
    Open,
}

impl LogCache {
    /// No file is open.
    pub fn new() -> (r: LogCache)
        ensures
            r@ is None,
    {
        LogCache { path: None }
    }

    /// Whether a line for `path` goes to the file that is open: only when that is the
    /// file at this path.
    pub fn log_to(&self, path: &str) -> (r: LogFile)
        ensures
            r == (if self@ == Some(path@) {
                LogFile::Reuse
            } else {
                LogFile::Open
            }),
    {
        match &self.path {
            Some(p) => if same_text(p.as_str(), path) {
                LogFile::Reuse
            } else {
                LogFile::Open
            },
            None => LogFile::Open,
        }
    }

    /// Takes in what became of opening the file at `path`. A failure leaves no file open,
    /// so that the next line tries again.
    pub fn opened(&mut self, path: &str, ok: bool)
        ensures
            final(self)@ == (if ok {
                Some(path@)
            } else {
                None
            }),
    {
        self.path = if ok {
            Some(path.to_owned())
        } else {
            None
        };
    }

    /// The path whose file is open.
    pub fn path(&self) -> (r: &Option<String>)
        ensures
            text_of(*r) == self@,
    {
        &self.path
    }
}

} // verus!
