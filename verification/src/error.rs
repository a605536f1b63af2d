//! Errors raised by the tutoring core.

use crate::chapter::dec_text;
use crate::chapter::u64_to_text;
use vstd::prelude::*;
use vstd::string::StringExecFns;

verus! {

/// An error of the tutoring core. Budget violations are fatal and raised at
/// construction; everything else fatal is carried as text.
#[derive(Debug)]
pub enum Error {
    /// The conversation would not fit the configured token budget.
    TokenTooMuch {
        /// The size that was measured.
        current: u64,
        /// The configured budget.
        budget: u64,
    },
    /// An unrecoverable failure, described in prose.
    Fatal(String),
}

/// The rendered text of an error.
pub open spec fn error_text(e: Error) -> Seq<char> {
    match e {
        Error::TokenTooMuch { current, budget } => "Token budget exceeded: current "@ + dec_text(
            current as nat,
        ) + ", budget "@ + dec_text(budget as nat),
        Error::Fatal(s) => "Fatal error: "@ + s@,
    }
}

impl Error {
    /// Renders the error as text.
    pub fn message(&self) -> (r: String)
        ensures
            r@ == error_text(*self),
    {
        match self {
            Error::TokenTooMuch { current, budget } => {
                let mut s = String::from_str("Token budget exceeded: current ");
                let c = u64_to_text(*current);
                s.append(c.as_str());
                s.append(", budget ");
                let b = u64_to_text(*budget);
                s.append(b.as_str());
                proof {
                    assert(s@ =~= error_text(*self));
                }
                s
            },
            Error::Fatal(text) => {
                let mut s = String::from_str("Fatal error: ");
                s.append(text.as_str());
                proof {
                    assert(s@ =~= error_text(*self));
                }
                s
            },
        }
    }
}

} // verus!
