use vstd::prelude::*;

verus! {

/// The errors that a counter or a run can report.
#[derive(Debug, PartialEq)]
pub enum Error {
    /// Raised on purpose by the scripted counter used to exercise failures.
    MockError,
    /// The target could not be launched, or ran and failed.
    ExecError(String),
    /// A counter failed to start: the run cannot go on.
    StartError(Box<Error>),
    /// A counter failed to stop: its state is no longer known.
    StopError(Box<Error>),
}

/// The text that describes an error to a user.
pub open spec fn message_of(e: Error) -> Seq<char>
    decreases e,
{
    match e {
        Error::MockError => "unknown error"@,
        Error::ExecError(s) => s@,
        Error::StartError(inner) => "counter failed to start: "@ + message_of(*inner),
        Error::StopError(inner) => "counter failed to stop: "@ + message_of(*inner),
    }
}

impl Error {
    /// The text that describes the error to a user.
    pub fn message(&self) -> (r: String)
        ensures
            r@ == message_of(*self),
        decreases self,
    {
        match self {
            Error::MockError => String::from_str("unknown error"),
            Error::ExecError(s) => s.clone(),
            Error::StartError(inner) => {
                let text = inner.message();
                String::from_str("counter failed to start: ").concat(text.as_str())
            },
            Error::StopError(inner) => {
                let text = inner.message();
                String::from_str("counter failed to stop: ").concat(text.as_str())
            },
        }
    }
}

} // verus!
