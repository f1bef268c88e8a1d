//! Promises on how failures are told.
use vstd::prelude::*;

use crate::error::told;
use crate::error::Error;
use crate::text::decimal;

verus! {

/// A failure that has details tells all of them, as they are.
pub proof fn law_details_are_told(a: String, b: String, n: usize)
    ensures
        Error::ChromeNotFound(a).text() == "chrome not found at "@ + a@,
        Error::ChromeExited(a).text() == "chrome exited before ready: "@ + a@,
        Error::Refused(a, b).text() == "CDP error on "@ + a@ + ": "@ + b@,
        Error::BatchRefused(a).text() == "CDP batch error: "@ + a@,
        Error::Evaluation(a).text() == "eval error: "@ + a@,
        Error::SelectorTimeout(a).text() == "timeout waiting for selector "@ + a@,
        Error::UnknownCommand(a).text() == "unknown command: "@ + a@,
        Error::MissingArguments(n).text() == "expected "@ + decimal(n as nat) + " argument(s)"@,
        Error::Daemon(a).text() == a@,
        Error::Other(a).text() == a@,
{
}

/// An outcome is told by its value, and a failure by its text.
pub proof fn law_outcomes_are_told<T: View>(value: T, error: Error)
    ensures
        told(Ok::<T, Error>(value)) == Ok::<T::V, Seq<char>>(value@),
        told(Err::<T, Error>(error)) == Err::<T::V, Seq<char>>(error.text()),
{
}

} // verus!
