//! Helpers for tests of the passes.

use vstd::prelude::*;
use vstd::string::*;
use crate::error::Error;

verus! {

/// The first line of the report of a failed test.
pub open spec fn report_heading() -> Seq<char> {
    "got an error:\n  "@
}

/// A value that a test returns and that says whether the test passed.
pub trait TestResult: Sized {
    /// Whether the value is that of a test that passed.
    spec fn passed(&self) -> bool;

    /// What to print of a test that failed: nothing for a test that passed.
    spec fn failure(&self) -> Option<Seq<char>>;

    /// What to print of the test, if it failed.
    fn report(&self) -> (text: Option<String>)
        ensures
            text is None <==> self.passed(),
            match text {
                Some(t) => self.failure() == Some(t@),
                None => self.failure() is None,
            },
    ;

    /// Accepts the value of a test that passed.
    fn handle(self)
        requires
            self.passed(),
    ;
}

impl TestResult for () {
    open spec fn passed(&self) -> bool {
        true
    }

    open spec fn failure(&self) -> Option<Seq<char>> {
        None
    }

    fn report(&self) -> (text: Option<String>) {
        None
    }

    fn handle(self) {
    }
}

impl TestResult for Result<(), Error> {
    open spec fn passed(&self) -> bool {
        self is Ok
    }

    open spec fn failure(&self) -> Option<Seq<char>> {
        match self {
            Ok(()) => None,
            Err(e) => Some(report_heading() + e.message_text()),
        }
    }

    fn report(&self) -> (text: Option<String>) {
        match self {
            Ok(()) => None,
            Err(e) => {
                let mut text = String::from_str("got an error:\n  ");
                text.append(e.message());
                Some(text)
            },
        }
    }

    fn handle(self) {
    }
}

/// Accepts the value of a test that passed.
pub fn handle<T: TestResult>(result: T)
    requires
        result.passed(),
{
    result.handle();
}

} // verus!
