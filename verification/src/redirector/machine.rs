//! The executable console mirror.
use crate::error::RedirectError;
use crate::redirector::model;
use crate::redirector::model::{ActionView, EventView, Stage};
use vstd::prelude::*;

verus! {

/// What the driver reports.
#[derive(Debug, PartialEq, Eq)]
pub enum Event {
    /// The action was carried out and has nothing to report.
    Done,
    /// Whether the stop signal is raised.
    Stop { raised: bool },
    /// How many bytes have arrived and wait to be read.
    Available { count: u32 },
    /// What was read.
    Data { bytes: Vec<u8> },
    /// The action failed.
    Failed { cause: String },
}

impl View for Event {
    type V = EventView;

    open spec fn view(&self) -> EventView {
        match *self {
            Event::Done => EventView::Done,
            Event::Stop { raised } => EventView::Stop { raised },
            Event::Available { count } => EventView::Available { count },
            Event::Data { bytes } => EventView::Data { bytes: bytes@ },
            Event::Failed { cause } => EventView::Failed { cause: cause@ },
        }
    }
}

/// What the driver is asked to do.
#[derive(Debug, PartialEq, Eq)]
pub enum Action {
    /// Open the serial port at `path` with the given speed.
    Open { path: &'static str, baud_rate: u32 },
    /// Write `text` to the error stream.
    Warn { text: &'static str },
    /// Look at the stop signal.
    CheckStop,
    /// Ask the port how many bytes have arrived.
    QueryAvailable,
    /// Read from the port what is there, `capacity` bytes at most.
    Read { capacity: usize },
    /// Write all of `bytes` to standard output.
    Write { bytes: Vec<u8> },
    /// Sleep.
    Sleep { micros: u64 },
    /// End the mirror with `outcome`.
    Exit { outcome: Result<(), RedirectError> },
    /// Nothing: the event was not asked for.
    Idle,
}

impl View for Action {
    type V = ActionView;

    open spec fn view(&self) -> ActionView {
        match *self {
            Action::Open { path, baud_rate } => ActionView::Open { path: path@, baud_rate },
            Action::Warn { text } => ActionView::Warn { text: text@ },
            Action::CheckStop => ActionView::CheckStop,
            Action::QueryAvailable => ActionView::QueryAvailable,
            Action::Read { capacity } => ActionView::Read { capacity },
            Action::Write { bytes } => ActionView::Write { bytes: bytes@ },
            Action::Sleep { micros } => ActionView::Sleep { micros },
            Action::Exit { outcome } => ActionView::Exit {
                outcome: match outcome {
                    Ok(_) => Ok(()),
                    Err(error) => Err(error@),
                },
            },
            Action::Idle => ActionView::Idle,
        }
    }
}

/// A console mirror in progress.
#[derive(Debug)]
pub struct Redirector {
    stage: Stage,
}

impl View for Redirector {
    type V = Stage;

    closed spec fn view(&self) -> Stage {
        self.stage
    }
}

impl Redirector {
    /// Begins the mirror: asks for the serial port to be opened.
    pub fn start() -> (r: (Redirector, Action))
        ensures
            (r.0@, r.1@) == model::start(),
    {
        (
            Redirector { stage: Stage::Opening },
            Action::Open { path: model::SERIAL_PATH, baud_rate: model::BAUD_RATE },
        )
    }

    /// Takes the outcome of the action last asked for and answers with the
    /// action that follows. An event that is not such an outcome changes
    /// nothing and is answered with [`Action::Idle`].
    pub fn step(self, event: Event) -> (r: (Redirector, Action))
        ensures
            (r.0@, r.1@) == model::next(self@, event@),
    {
        match self.stage {
            Stage::Opening => match event {
                Event::Done => Redirector::check(),
                Event::Failed { cause: _ } => (
                    Redirector { stage: Stage::Warning },
                    Action::Warn { text: model::UNOPENED_WARNING },
                ),
                _ => (self, Action::Idle),
            },
            Stage::Warning => match event {
                Event::Done => Redirector::finish(Ok(())),
                _ => (self, Action::Idle),
            },
            Stage::Checking => match event {
                Event::Stop { raised } => if raised {
                    Redirector::finish(Ok(()))
                } else {
                    (Redirector { stage: Stage::Querying }, Action::QueryAvailable)
                },
                _ => (self, Action::Idle),
            },
            Stage::Querying => match event {
                Event::Available { count } => if count == 0 {
                    (
                        Redirector { stage: Stage::Sleeping },
                        Action::Sleep { micros: model::IDLE_MICROS },
                    )
                } else {
                    (
                        Redirector { stage: Stage::Reading },
                        Action::Read { capacity: model::BUFFER_SIZE },
                    )
                },
                Event::Failed { cause } => Redirector::finish(Err(RedirectError::Poll(cause))),
                _ => (self, Action::Idle),
            },
            Stage::Reading => match event {
                Event::Data { bytes } => if bytes.len() <= model::BUFFER_SIZE {
                    (Redirector { stage: Stage::Writing }, Action::Write { bytes })
                } else {
                    (self, Action::Idle)
                },
                Event::Failed { cause } => Redirector::finish(Err(RedirectError::Read(cause))),
                _ => (self, Action::Idle),
            },
            Stage::Writing => match event {
                Event::Done => Redirector::check(),
                Event::Failed { cause } => Redirector::finish(Err(RedirectError::Write(cause))),
                _ => (self, Action::Idle),
            },
            Stage::Sleeping => match event {
                Event::Done => Redirector::check(),
                _ => (self, Action::Idle),
            },
            Stage::Finished => (self, Action::Idle),
        }
    }

    /// What the mirror is waiting for.
    pub fn stage(&self) -> (stage: Stage)
        ensures
            stage == self@,
    {
        self.stage
    }

    /// Whether the mirror is over.
    pub fn is_finished(&self) -> (over: bool)
        ensures
            over == (self@ == Stage::Finished),
    {
        match self.stage {
            Stage::Finished => true,
            _ => false,
        }
    }

    fn check() -> (r: (Redirector, Action))
        ensures
            (r.0@, r.1@) == model::check(),
    {
        (Redirector { stage: Stage::Checking }, Action::CheckStop)
    }

    fn finish(outcome: Result<(), RedirectError>) -> (r: (Redirector, Action))
        ensures
            r.0@ == Stage::Finished,
            r.1@ == (ActionView::Exit {
                outcome: match outcome {
                    Ok(_) => Ok(()),
                    Err(error) => Err(error@),
                },
            }),
    {
        (Redirector { stage: Stage::Finished }, Action::Exit { outcome })
    }
}

} // verus!
