use vstd::prelude::*;
use vstd::string::StringExecFns;

verus! {

/// The error type of `std::io`, carried through unopened.
#[verifier::external_type_specification]
#[verifier::external_body]
pub struct ExIoError(std::io::Error);

/// A failure of the machinery around the language rather than of a program
/// written in it.
#[derive(Debug)]
pub enum InterpreterError {
    Io(std::io::Error),
}

impl From<std::io::Error> for InterpreterError {
    fn from(value: std::io::Error) -> (error: Self) {
        Self::Io(value)
    }
}

impl vstd::std_specs::convert::FromSpecImpl<std::io::Error> for InterpreterError {
    open spec fn obeys_from_spec() -> bool {
        true
    }

    open spec fn from_spec(value: std::io::Error) -> Self {
        InterpreterError::Io(value)
    }
}

/// What `std::io::Error` says of itself through `Display`. Nothing is
/// claimed of the text: it may come from the operating system.
#[verifier::external_body]
fn describe(error: &std::io::Error) -> (detail: String) {
    format!("{}", error)
}

/// The message of an input or output error that describes itself as
/// `detail`.
pub open spec fn io_message(detail: Seq<char>) -> Seq<char> {
    "Io Error: "@ + detail
}

/// The message of an input or output error that describes itself as
/// `detail`.
pub fn io_error_message(detail: &str) -> (text: String)
    ensures
        text@ == io_message(detail@),
{
    let mut text = String::from_str("Io Error: ");
    text.append(detail);
    text
}

impl InterpreterError {
    /// The message of this error, for a reader: [`io_message`] of what the
    /// error says of itself.
    pub fn to_string(&self) -> (text: String)
        ensures
            exists|detail: Seq<char>| text@ == io_message(detail),
    {
        match self {
            InterpreterError::Io(error) => {
                let detail = describe(error);
                io_error_message(detail.as_str())
            },
        }
    }
}

} // verus!
