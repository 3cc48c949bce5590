//! Small error plumbing shared across the crate.
use vstd::prelude::*;

use crate::text::{spec_decimal_chars, u64_to_string};

verus! {

/// An error together with the place it was raised.
#[derive(Debug)]
pub struct ContextError {
    pub filename: &'static str,
    pub line: u32,
    pub error: String,
}

impl ContextError {
    /// The error flattened to one line: `[<file>:<line>] <error>`.
    pub fn to_generic(self) -> (r: String)
        ensures
            r@ == "["@ + self.filename@ + ":"@ + spec_decimal_chars(self.line as nat) + "] "@
                + self.error@,
    {
        let mut r = "[".to_owned();
        r.append(self.filename);
        r.append(":");
        r.append(u64_to_string(self.line as u64).as_str());
        r.append("] ");
        r.append(self.error.as_str());
        r
    }
}

/// For outcomes that are deliberately dropped.
pub trait ErrIgnore {
    fn ignore(self);

    fn bin(self) where Self: Sized {
        self.ignore();
    }

    fn debug_ignore(self) where Self: Sized {
        self.ignore();
    }
}

impl<T, E> ErrIgnore for Result<T, E> {
    fn ignore(self) {
    }
}

} // verus!
