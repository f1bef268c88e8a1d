//! What can go wrong, and how it is told.
use vstd::prelude::*;

use crate::text::decimal;
use crate::text::decimal_text;

verus! {

/// A failure.
#[derive(Debug, PartialEq, Eq)]
pub enum Error {
    /// There is no browser at the path that was asked for.
    ChromeNotFound(String),
    /// There is no browser anywhere.
    NoChrome,
    /// The browser did not open its DevTools endpoint in time.
    EndpointTimeout,
    /// The browser ended, with this status, before it opened its endpoint.
    ChromeExited(String),
    /// The command line names no command.
    NoCommand,
    /// The daemon did not answer in time.
    DaemonNotStarted,
    /// The browser did not switch to the websocket protocol.
    HandshakeFailed,
    /// The browser closed the websocket.
    WebsocketClosed,
    /// Nothing more can be written to the websocket.
    TransportClosed,
    /// A command was not answered in time.
    CommandTimedOut,
    /// A command of a batch was not answered in time.
    BatchTimedOut,
    /// The answer to a command was lost.
    ReplyLost,
    /// The browser refused a command: the command, and what the browser said.
    Refused(String, String),
    /// The browser refused a command of a batch and said this.
    BatchRefused(String),
    /// An evaluation raised an exception, which the browser described so.
    Evaluation(String),
    /// The answer to an evaluation holds no result.
    NoEvalResult,
    /// No element matches a selector.
    ElementNotFound,
    /// The answer to a screenshot holds no data.
    NoScreenshotData,
    /// The answer to a print holds no data.
    NoPdfData,
    /// No element came to match this selector in time.
    SelectorTimeout(String),
    /// A request for a viewport names none.
    NoViewport,
    /// There is no such command.
    UnknownCommand(String),
    /// A line of a script holds nothing.
    EmptyLine,
    /// A command needs this many arguments.
    MissingArguments(usize),
    /// A viewport is not written as width, `x` and height.
    ExpectedSize,
    /// The daemon answered with this error.
    Daemon(String),
    /// A JSON text, a base64 text or a file brought this failure.
    Other(String),
}

impl Error {
    /// How the failure is told.
    pub open spec fn text(self) -> Seq<char> {
        match self {
            Error::ChromeNotFound(path) => "chrome not found at "@ + path@,
            Error::NoChrome => "no chrome found; set CHROME_PATH or pass --chrome"@,
            Error::EndpointTimeout => "timed out waiting for chrome DevTools endpoint"@,
            Error::ChromeExited(status) => "chrome exited before ready: "@ + status@,
            Error::NoCommand => "no command specified"@,
            Error::DaemonNotStarted => "daemon failed to start"@,
            Error::HandshakeFailed => "websocket handshake failed"@,
            Error::WebsocketClosed => "websocket closed"@,
            Error::TransportClosed => "transport closed"@,
            Error::CommandTimedOut => "command timed out"@,
            Error::BatchTimedOut => "batch command timed out"@,
            Error::ReplyLost => "channel closed"@,
            Error::Refused(method, detail) => "CDP error on "@ + method@ + ": "@ + detail@,
            Error::BatchRefused(detail) => "CDP batch error: "@ + detail@,
            Error::Evaluation(detail) => "eval error: "@ + detail@,
            Error::NoEvalResult => "no eval result"@,
            Error::ElementNotFound => "element not found or not visible"@,
            Error::NoScreenshotData => "no screenshot data"@,
            Error::NoPdfData => "no pdf data"@,
            Error::SelectorTimeout(selector) => "timeout waiting for selector "@ + selector@,
            Error::NoViewport => "no viewport specified"@,
            Error::UnknownCommand(command) => "unknown command: "@ + command@,
            Error::EmptyLine => "empty line"@,
            Error::MissingArguments(n) => "expected "@ + decimal(n as nat) + " argument(s)"@,
            Error::ExpectedSize => "expected WxH"@,
            Error::Daemon(detail) => detail@,
            Error::Other(message) => message@,
        }
    }

    /// Tells the failure.
    pub fn message(&self) -> (out: String)
        ensures
            out@ == self.text(),
    {
        match self {
            Error::ChromeNotFound(path) => joined("chrome not found at ", path.as_str()),
            Error::NoChrome => "no chrome found; set CHROME_PATH or pass --chrome".to_owned(),
            Error::EndpointTimeout => "timed out waiting for chrome DevTools endpoint".to_owned(),
            Error::ChromeExited(status) => joined("chrome exited before ready: ", status.as_str()),
            Error::NoCommand => "no command specified".to_owned(),
            Error::DaemonNotStarted => "daemon failed to start".to_owned(),
            Error::HandshakeFailed => "websocket handshake failed".to_owned(),
            Error::WebsocketClosed => "websocket closed".to_owned(),
            Error::TransportClosed => "transport closed".to_owned(),
            Error::CommandTimedOut => "command timed out".to_owned(),
            Error::BatchTimedOut => "batch command timed out".to_owned(),
            Error::ReplyLost => "channel closed".to_owned(),
            Error::Refused(method, detail) => {
                let mut out = joined("CDP error on ", method.as_str());
                out.append(": ");
                out.append(detail.as_str());
                out
            },
            Error::BatchRefused(detail) => joined("CDP batch error: ", detail.as_str()),
            Error::Evaluation(detail) => joined("eval error: ", detail.as_str()),
            Error::NoEvalResult => "no eval result".to_owned(),
            Error::ElementNotFound => "element not found or not visible".to_owned(),
            Error::NoScreenshotData => "no screenshot data".to_owned(),
            Error::NoPdfData => "no pdf data".to_owned(),
            Error::SelectorTimeout(selector) => joined(
                "timeout waiting for selector ",
                selector.as_str(),
            ),
            Error::NoViewport => "no viewport specified".to_owned(),
            Error::UnknownCommand(command) => joined("unknown command: ", command.as_str()),
            Error::EmptyLine => "empty line".to_owned(),
            Error::MissingArguments(n) => {
                let count = decimal_text(*n as u64);
                let mut out = joined("expected ", count.as_str());
                out.append(" argument(s)");
                out
            },
            Error::ExpectedSize => "expected WxH".to_owned(),
            Error::Daemon(detail) => detail.clone(),
            Error::Other(message) => message.clone(),
        }
    }
}

/// An outcome, a failure by how it is told.
pub open spec fn told<T: View>(out: Result<T, Error>) -> Result<T::V, Seq<char>> {
    match out {
        Ok(value) => Ok(value@),
        Err(error) => Err(error.text()),
    }
}

/// Two texts, one behind the other.
pub(crate) fn joined(first: &str, second: &str) -> (out: String)
    ensures
        out@ == first@ + second@,
{
    let mut out = first.to_owned();
    out.append(second);
    out
}

} // verus!
