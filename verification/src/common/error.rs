//! What can go wrong in a node. Every error is fatal to the process.

use vstd::prelude::*;
use vstd::string::StringExecFns;

verus! {

/// The errors of a node.
#[derive(Debug)]
pub enum Error {
    /// A protocol error: a message arrived that is not allowed at this
    /// point, such as an acknowledgement where a request is due. The text
    /// names the message.
    UnexpectedMessage(String),
    /// An I/O error: the underlying stream failed.
    Io(String),
    /// A codec error: a line was no JSON object, or stood for no envelope
    /// that the node knows.
    Serde(String),
    /// An I/O error: the bridge to the standard streams broke down.
    Console(String),
    /// A handler error: a handler found its own state violated, or ran out
    /// of numbers.
    UnexpectedError(String),
}

/// An error as a value: its kind and its text.
pub enum ErrorModel {
    UnexpectedMessage(Seq<char>),
    Io(Seq<char>),
    Serde(Seq<char>),
    Console(Seq<char>),
    UnexpectedError(Seq<char>),
}

impl DeepView for Error {
    type V = ErrorModel;

    open spec fn deep_view(&self) -> ErrorModel {
        match self {
            Error::UnexpectedMessage(text) => ErrorModel::UnexpectedMessage(text@),
            Error::Io(text) => ErrorModel::Io(text@),
            Error::Serde(text) => ErrorModel::Serde(text@),
            Error::Console(text) => ErrorModel::Console(text@),
            Error::UnexpectedError(text) => ErrorModel::UnexpectedError(text@),
        }
    }
}

impl Error {
    /// The text that a diagnostic shows for this error.
    pub open spec fn diagnostic(self) -> Seq<char> {
        match self {
            Error::UnexpectedMessage(text) => "Received an unexpected message: '"@ + text@ + "'"@,
            Error::Io(text) => text@,
            Error::Serde(text) => text@,
            Error::Console(text) => "Console error: '"@ + text@ + "'"@,
            Error::UnexpectedError(text) => "Unexpected error: '"@ + text@ + "'"@,
        }
    }

    /// A human-readable line for the error.
    pub fn to_string(&self) -> (line: String)
        ensures
            line@ == self.diagnostic(),
    {
        match self {
            Error::UnexpectedMessage(text) => quoted("Received an unexpected message: '", text),
            Error::Io(text) => text.clone(),
            Error::Serde(text) => text.clone(),
            Error::Console(text) => quoted("Console error: '", text),
            Error::UnexpectedError(text) => quoted("Unexpected error: '", text),
        }
    }
}

/// `lead`, then `text`, then a closing quote.
fn quoted(lead: &str, text: &String) -> (line: String)
    ensures
        line@ == lead@ + text@ + "'"@,
{
    let mut line = String::from_str(lead);
    line.append(text.as_str());
    line.append("'");
    line
}

} // verus!
