//! The failures a boot run or the console mirror can end with.
use vstd::prelude::*;
use vstd::string::*;

verus! {

/// What is said when the loader is not given exactly one argument.
pub const INVOCATION_MESSAGE: &'static str = "expected exactly one argument";

/// What precedes the cause when a failure of the console mirror is reported.
pub const REDIRECT_PREFIX: &'static str = "serial interface error: ";

/// Why a boot run was abandoned.
#[derive(Debug, PartialEq, Eq)]
pub enum BootError {
    /// The loader was not given exactly one argument.
    Invocation,
    /// The executable could not be read; holds the cause.
    Read(String),
    /// The executable is malformed; holds the parser's message.
    Parse(String),
    /// No boot image could be made of the executable; holds the cause.
    Build(String),
    /// The device could not be opened, written to or started; holds the cause.
    Transport(String),
}

/// A [`BootError`] as a mathematical value.
pub enum BootErrorView {
    Invocation,
    Read(Seq<char>),
    Parse(Seq<char>),
    Build(Seq<char>),
    Transport(Seq<char>),
}

impl BootErrorView {
    /// The text shown to the operator.
    pub open spec fn message(self) -> Seq<char> {
        match self {
            BootErrorView::Invocation => INVOCATION_MESSAGE@,
            BootErrorView::Read(cause) => cause,
            BootErrorView::Parse(cause) => cause,
            BootErrorView::Build(cause) => cause,
            BootErrorView::Transport(cause) => cause,
        }
    }
}

impl View for BootError {
    type V = BootErrorView;

    open spec fn view(&self) -> BootErrorView {
        match *self {
            BootError::Invocation => BootErrorView::Invocation,
            BootError::Read(cause) => BootErrorView::Read(cause@),
            BootError::Parse(cause) => BootErrorView::Parse(cause@),
            BootError::Build(cause) => BootErrorView::Build(cause@),
            BootError::Transport(cause) => BootErrorView::Transport(cause@),
        }
    }
}

impl BootError {
    /// The text shown to the operator: a fixed sentence for a wrong
    /// invocation, the cause as it was reported for every other failure.
    pub fn message(&self) -> (text: String)
        ensures
            text@ == self@.message(),
    {
        match self {
            BootError::Invocation => String::from_str(INVOCATION_MESSAGE),
            BootError::Read(cause) => cause.clone(),
            BootError::Parse(cause) => cause.clone(),
            BootError::Build(cause) => cause.clone(),
            BootError::Transport(cause) => cause.clone(),
        }
    }
}

/// Why the console mirror gave up. A serial port that cannot be opened is not
/// among these: the mirror then only warns.
#[derive(Debug, PartialEq, Eq)]
pub enum RedirectError {
    /// Asking how many bytes are waiting failed; holds the cause.
    Poll(String),
    /// Reading from the serial port failed; holds the cause.
    Read(String),
    /// Writing to standard output failed; holds the cause.
    Write(String),
}

/// A [`RedirectError`] as a mathematical value.
pub enum RedirectErrorView {
    Poll(Seq<char>),
    Read(Seq<char>),
    Write(Seq<char>),
}

impl RedirectErrorView {
    /// The cause as it was reported.
    pub open spec fn cause(self) -> Seq<char> {
        match self {
            RedirectErrorView::Poll(cause) => cause,
            RedirectErrorView::Read(cause) => cause,
            RedirectErrorView::Write(cause) => cause,
        }
    }

    /// The line written to the error stream.
    pub open spec fn report(self) -> Seq<char> {
        REDIRECT_PREFIX@ + self.cause()
    }
}

impl View for RedirectError {
    type V = RedirectErrorView;

    open spec fn view(&self) -> RedirectErrorView {
        match *self {
            RedirectError::Poll(cause) => RedirectErrorView::Poll(cause@),
            RedirectError::Read(cause) => RedirectErrorView::Read(cause@),
            RedirectError::Write(cause) => RedirectErrorView::Write(cause@),
        }
    }
}

impl RedirectError {
    /// The line written to the error stream: the fixed prefix, then the cause.
    pub fn report(&self) -> (text: String)
        ensures
            text@ == self@.report(),
    {
        let mut text = String::from_str(REDIRECT_PREFIX);
        match self {
            RedirectError::Poll(cause) => text.append(cause.as_str()),
            RedirectError::Read(cause) => text.append(cause.as_str()),
            RedirectError::Write(cause) => text.append(cause.as_str()),
        }
        text
    }
}

} // verus!
