//! The values that cross the capability boundary of the shared bus: device
//! configuration, the operations a guest may ask for, what each gives back,
//! and the errors a guest can be handed.

use vstd::prelude::*;

verus! {

/// Clock phase and polarity of the bus.
#[derive(Clone, Copy, Debug, PartialEq, Eq, Structural)]
pub enum Mode {
    Mode0,
    Mode1,
    Mode2,
    Mode3,
}

impl Mode {
    /// Whether the clock idles high (modes 2 and 3) rather than low.
    pub fn idle_high(self) -> (high: bool)
        ensures
            high == (self is Mode2 || self is Mode3),
    {
        match self {
            Mode::Mode2 | Mode::Mode3 => true,
            _ => false,
        }
    }

    /// Whether data is captured on the second clock transition (modes 1
    /// and 3) rather than on the first.
    pub fn capture_on_second(self) -> (second: bool)
        ensures
            second == (self is Mode1 || self is Mode3),
    {
        match self {
            Mode::Mode1 | Mode::Mode3 => true,
            _ => false,
        }
    }
}

/// What a guest asks of a bus device before it talks to it.
#[derive(Clone, Copy, Debug, PartialEq, Eq, Structural)]
pub struct Config {
    pub frequency: u32,
    pub mode: Mode,
    pub lsb_first: bool,
}

/// An error handed to the guest.
#[derive(Debug, PartialEq, Eq)]
pub enum Error {
    /// No device of that name, or no open device behind that handle.
    NotFound,
    /// Any other failure, with a description.
    Other(String),
}

/// An [`Error`] as a mathematical value.
pub enum ErrorView {
    NotFound,
    Other(Seq<char>),
}

impl View for Error {
    type V = ErrorView;

    open spec fn view(&self) -> ErrorView {
        match self {
            Error::NotFound => ErrorView::NotFound,
            Error::Other(text) => ErrorView::Other(text@),
        }
    }
}

impl Error {
    /// The failure with the given description.
    pub fn other(text: &str) -> (e: Error)
        ensures
            e@ == ErrorView::Other(text@),
    {
        Error::Other(text.to_owned())
    }

    /// The description of the error.
    pub fn message(&self) -> (text: String)
        ensures
            text@ == match self@ {
                ErrorView::NotFound => "Device not found"@,
                ErrorView::Other(t) => t,
            },
    {
        match self {
            Error::NotFound => "Device not found".to_owned(),
            Error::Other(text) => text.clone(),
        }
    }
}

/// Whether a call was refused with `NotFound`.
pub open spec fn not_found<T>(outcome: Result<T, Error>) -> bool {
    outcome is Err && outcome->Err_0@ == ErrorView::NotFound
}

/// One sub-operation of a call on the bus.
#[derive(Debug, PartialEq, Eq)]
pub enum Operation {
    /// Read that many bytes.
    Read(u64),
    /// Write these bytes.
    Write(Vec<u8>),
    /// Write these bytes and read as many at the same time.
    Transfer(Vec<u8>),
    /// Wait that many nanoseconds with the device still selected.
    DelayNs(u32),
}

/// An [`Operation`] as a mathematical value.
pub enum OperationView {
    Read(u64),
    Write(Seq<u8>),
    Transfer(Seq<u8>),
    DelayNs(u32),
}

impl View for Operation {
    type V = OperationView;

    open spec fn view(&self) -> OperationView {
        match self {
            Operation::Read(len) => OperationView::Read(*len),
            Operation::Write(data) => OperationView::Write(data@),
            Operation::Transfer(data) => OperationView::Transfer(data@),
            Operation::DelayNs(ns) => OperationView::DelayNs(*ns),
        }
    }
}

impl DeepView for Operation {
    type V = OperationView;

    open spec fn deep_view(&self) -> OperationView {
        self@
    }
}

impl Operation {
    /// A copy of the operation.
    pub fn duplicate(&self) -> (copy: Operation)
        ensures
            copy@ == self@,
    {
        match self {
            Operation::Read(len) => Operation::Read(*len),
            Operation::Write(data) => {
                let bytes = data.clone();
                assert(bytes@ =~= data@);
                Operation::Write(bytes)
            },
            Operation::Transfer(data) => {
                let bytes = data.clone();
                assert(bytes@ =~= data@);
                Operation::Transfer(bytes)
            },
            Operation::DelayNs(ns) => Operation::DelayNs(*ns),
        }
    }
}

/// What one sub-operation gave back.
#[derive(Debug, PartialEq, Eq)]
pub enum OperationResult {
    Read(Vec<u8>),
    Write,
    Transfer(Vec<u8>),
    Delay,
}

/// An [`OperationResult`] as a mathematical value.
pub enum OperationResultView {
    Read(Seq<u8>),
    Write,
    Transfer(Seq<u8>),
    Delay,
}

impl View for OperationResult {
    type V = OperationResultView;

    open spec fn view(&self) -> OperationResultView {
        match self {
            OperationResult::Read(data) => OperationResultView::Read(data@),
            OperationResult::Write => OperationResultView::Write,
            OperationResult::Transfer(data) => OperationResultView::Transfer(data@),
            OperationResult::Delay => OperationResultView::Delay,
        }
    }
}

impl DeepView for OperationResult {
    type V = OperationResultView;

    open spec fn deep_view(&self) -> OperationResultView {
        self@
    }
}

/// The end of a call on the bus as a mathematical value.
pub open spec fn outcome_view(outcome: Result<Vec<OperationResult>, Error>) -> Result<
    Seq<OperationResultView>,
    ErrorView,
> {
    match outcome {
        Ok(results) => Ok(results.deep_view()),
        Err(e) => Err(e@),
    }
}

} // verus!
