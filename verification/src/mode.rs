//! The ways a document's file can be opened.

use vstd::prelude::*;

verus! {

/// How a document's file is opened.
#[derive(Debug, Clone, Copy, PartialEq, Eq, Structural)]
pub enum Mode {
    Read,
    Replace,
    Append,
    ReadReplace,
    ReadAppend,
}

impl Mode {
    /// Whether a file opened in this mode can be read.
    pub open spec fn spec_readable(&self) -> bool {
        self is Read || self is ReadReplace || self is ReadAppend
    }

    /// Whether a file opened in this mode can be written.
    pub open spec fn spec_writable(&self) -> bool {
        !(self is Read)
    }

    /// Whether writes to a file opened in this mode go to its end.
    pub open spec fn spec_appendable(&self) -> bool {
        self is Append || self is ReadAppend
    }

    #[verifier::when_used_as_spec(spec_readable)]
    pub fn readable(&self) -> (r: bool)
        ensures
            r == self.spec_readable(),
    {
        match self {
            Mode::Read | Mode::ReadReplace | Mode::ReadAppend => true,
            _ => false,
        }
    }

    #[verifier::when_used_as_spec(spec_writable)]
    pub fn writable(&self) -> (r: bool)
        ensures
            r == self.spec_writable(),
    {
        match self {
            Mode::Replace | Mode::Append | Mode::ReadAppend | Mode::ReadReplace => true,
            _ => false,
        }
    }

    #[verifier::when_used_as_spec(spec_appendable)]
    pub fn appendable(&self) -> (r: bool)
        ensures
            r == self.spec_appendable(),
    {
        match self {
            Mode::Append | Mode::ReadAppend => true,
            _ => false,
        }
    }
}

} // verus!
