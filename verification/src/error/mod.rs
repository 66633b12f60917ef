pub mod interpreter;
pub mod parser;
pub mod syntax;

use vstd::prelude::*;
use vstd::string::StringExecFns;

pub use interpreter::{io_message, InterpreterError};
pub use parser::{ParserError, SpecParserError};
pub use syntax::SyntaxError;

verus! {

/// Any error of the toolchain, by the stage that raised it.
#[derive(Debug)]
pub enum Error {
    Interpreter(InterpreterError),
    Syntax(SyntaxError),
    Parser(ParserError),
}

impl From<InterpreterError> for Error {
    fn from(value: InterpreterError) -> (error: Self) {
        Self::Interpreter(value)
    }
}

impl vstd::std_specs::convert::FromSpecImpl<InterpreterError> for Error {
    open spec fn obeys_from_spec() -> bool {
        true
    }

    open spec fn from_spec(value: InterpreterError) -> Self {
        Error::Interpreter(value)
    }
}

impl From<SyntaxError> for Error {
    fn from(value: SyntaxError) -> (error: Self) {
        Self::Syntax(value)
    }
}

impl vstd::std_specs::convert::FromSpecImpl<SyntaxError> for Error {
    open spec fn obeys_from_spec() -> bool {
        true
    }

    open spec fn from_spec(value: SyntaxError) -> Self {
        Error::Syntax(value)
    }
}

impl From<ParserError> for Error {
    fn from(value: ParserError) -> (error: Self) {
        Self::Parser(value)
    }
}

impl vstd::std_specs::convert::FromSpecImpl<ParserError> for Error {
    open spec fn obeys_from_spec() -> bool {
        true
    }

    open spec fn from_spec(value: ParserError) -> Self {
        Error::Parser(value)
    }
}

impl From<std::io::Error> for Error {
    fn from(value: std::io::Error) -> (error: Self) {
        Self::Interpreter(InterpreterError::Io(value))
    }
}

impl vstd::std_specs::convert::FromSpecImpl<std::io::Error> for Error {
    open spec fn obeys_from_spec() -> bool {
        true
    }

    open spec fn from_spec(value: std::io::Error) -> Self {
        Error::Interpreter(InterpreterError::Io(value))
    }
}

impl Error {
    /// Whether `text` is a message of this error: the stage that raised it,
    /// then the message of the error itself.
    pub open spec fn has_message(self, text: Seq<char>) -> bool {
        match self {
            Error::Interpreter(_) => exists|detail: Seq<char>|
                text == "Interpreter Error: "@ + io_message(detail),
            Error::Syntax(error) => text == "Syntax Error: "@ + error.message(),
            Error::Parser(error) => text == "Parser Error: "@ + error@.message(),
        }
    }

    /// The message of this error, for a reader.
    pub fn to_string(&self) -> (text: String)
        ensures
            self.has_message(text@),
    {
        match self {
            Error::Interpreter(error) => {
                let mut text = String::from_str("Interpreter Error: ");
                let inner = error.to_string();
                text.append(inner.as_str());
                text
            },
            Error::Syntax(error) => {
                let mut text = String::from_str("Syntax Error: ");
                text.append(error.to_string().as_str());
                text
            },
            Error::Parser(error) => {
                let mut text = String::from_str("Parser Error: ");
                text.append(error.to_string().as_str());
                text
            },
        }
    }
}

/// Each scanner error as an [`Error`], in order.
pub open spec fn syntax_errors(errors: Seq<SyntaxError>) -> Seq<Error> {
    errors.map_values(|e: SyntaxError| Error::Syntax(e))
}

} // verus!
