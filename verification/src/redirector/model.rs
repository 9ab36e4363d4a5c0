//! The console mirror as a transition function.
//!
//! A run begins with [`start`], which asks for the serial port to be opened.
//! Whenever the driver has carried an action out it reports the outcome as an
//! event, and [`next`] answers with the action that follows. An event that
//! does not answer the action last asked for changes nothing and is answered
//! with [`ActionView::Idle`].
use crate::error::RedirectErrorView;
use vstd::prelude::*;

verus! {

/// Where the device's serial console is found on the host.
pub const SERIAL_PATH: &'static str = "/dev/ttyUSB2";

/// The speed of the serial console, in symbols per second.
pub const BAUD_RATE: u32 = 4_000_000;

/// The most that is read at once, in bytes: one packet of the serial adapter.
pub const BUFFER_SIZE: usize = 512;

/// How long the mirror sleeps when nothing has arrived, in microseconds: the
/// span of one USB micro-frame.
pub const IDLE_MICROS: u64 = 125;

/// What is said when the serial port cannot be opened.
pub const UNOPENED_WARNING: &'static str = "warning: serial interface couldn't be opened";

/// What the mirror is waiting for.
#[derive(Debug, Clone, Copy, PartialEq, Eq, Structural)]
pub enum Stage {
    /// The serial port is being opened.
    Opening,
    /// The port could not be opened; the warning is being written.
    Warning,
    /// The stop signal is being looked at.
    Checking,
    /// The port is being asked how many bytes have arrived.
    Querying,
    /// Bytes are being read from the port.
    Reading,
    /// The bytes read are being written to standard output.
    Writing,
    /// Nothing had arrived; the mirror sleeps.
    Sleeping,
    /// The mirror is over.
    Finished,
}

/// What the driver reports.
pub enum EventView {
    /// The action was carried out and has nothing to report.
    Done,
    /// Whether the stop signal is raised.
    Stop { raised: bool },
    /// How many bytes have arrived and wait to be read.
    Available { count: u32 },
    /// What was read.
    Data { bytes: Seq<u8> },
    /// The action failed.
    Failed { cause: Seq<char> },
}

/// What the driver is asked to do.
pub enum ActionView {
    /// Open the serial port at `path` with the given speed.
    Open { path: Seq<char>, baud_rate: u32 },
    /// Write `text` to the error stream.
    Warn { text: Seq<char> },
    /// Look at the stop signal.
    CheckStop,
    /// Ask the port how many bytes have arrived.
    QueryAvailable,
    /// Read from the port what is there, `capacity` bytes at most.
    Read { capacity: usize },
    /// Write all of `bytes` to standard output.
    Write { bytes: Seq<u8> },
    /// Sleep.
    Sleep { micros: u64 },
    /// End the mirror with `outcome`.
    Exit { outcome: Result<(), RedirectErrorView> },
    /// Nothing: the event was not asked for.
    Idle,
}

impl ActionView {
    /// Whether the action takes time that passes before the stop signal is
    /// looked at again: a sleep, a read or a write.
    pub open spec fn is_work(self) -> bool {
        self is Sleep || self is Read || self is Write
    }
}

/// The first state and action of the mirror.
pub open spec fn start() -> (Stage, ActionView) {
    (Stage::Opening, ActionView::Open { path: SERIAL_PATH@, baud_rate: BAUD_RATE })
}

/// Ends the mirror with `outcome`.
pub open spec fn finish(outcome: Result<(), RedirectErrorView>) -> (Stage, ActionView) {
    (Stage::Finished, ActionView::Exit { outcome })
}

/// Begins the next round with a look at the stop signal.
pub open spec fn check() -> (Stage, ActionView) {
    (Stage::Checking, ActionView::CheckStop)
}

/// The state and action that follow when `e` is reported in state `s`.
pub open spec fn next(s: Stage, e: EventView) -> (Stage, ActionView) {
    match s {
        Stage::Opening => match e {
            EventView::Done => check(),
            EventView::Failed { .. } => (Stage::Warning, ActionView::Warn { text: UNOPENED_WARNING@ }),
            _ => (s, ActionView::Idle),
        },
        Stage::Warning => match e {
            EventView::Done => finish(Ok(())),
            _ => (s, ActionView::Idle),
        },
        Stage::Checking => match e {
            EventView::Stop { raised } => if raised {
                finish(Ok(()))
            } else {
                (Stage::Querying, ActionView::QueryAvailable)
            },
            _ => (s, ActionView::Idle),
        },
        Stage::Querying => match e {
            EventView::Available { count } => if count == 0 {
                (Stage::Sleeping, ActionView::Sleep { micros: IDLE_MICROS })
            } else {
                (Stage::Reading, ActionView::Read { capacity: BUFFER_SIZE })
            },
            EventView::Failed { cause } => finish(Err(RedirectErrorView::Poll(cause))),
            _ => (s, ActionView::Idle),
        },
        Stage::Reading => match e {
            EventView::Data { bytes } => if bytes.len() <= BUFFER_SIZE {
                (Stage::Writing, ActionView::Write { bytes })
            } else {
                (s, ActionView::Idle)
            },
            EventView::Failed { cause } => finish(Err(RedirectErrorView::Read(cause))),
            _ => (s, ActionView::Idle),
        },
        Stage::Writing => match e {
            EventView::Done => check(),
            EventView::Failed { cause } => finish(Err(RedirectErrorView::Write(cause))),
            _ => (s, ActionView::Idle),
        },
        Stage::Sleeping => match e {
            EventView::Done => check(),
            _ => (s, ActionView::Idle),
        },
        Stage::Finished => (s, ActionView::Idle),
    }
}

/// Where the mirror stands, and everything it has asked for so far.
pub struct Run {
    pub stage: Stage,
    pub trace: Seq<ActionView>,
}

/// The mirror after it has been told `events`, in order. The trace holds the
/// first action and one more for each event, so `trace[k + 1]` is the answer
/// to `events[k]`.
pub open spec fn run(events: Seq<EventView>) -> Run
    decreases events.len(),
{
    if events.len() == 0 {
        Run { stage: start().0, trace: seq![start().1] }
    } else {
        let before = run(events.drop_last());
        let (stage, action) = next(before.stage, events.last());
        Run { stage, trace: before.trace.push(action) }
    }
}

/// Everything the mirror has asked for, in order.
pub open spec fn asked(events: Seq<EventView>) -> Seq<ActionView> {
    run(events).trace
}

/// Where the mirror stands.
pub open spec fn reached(events: Seq<EventView>) -> Stage {
    run(events).stage
}

/// All the bytes that the actions ask to be written, in order.
pub open spec fn written(trace: Seq<ActionView>) -> Seq<u8>
    decreases trace.len(),
{
    if trace.len() == 0 {
        Seq::empty()
    } else {
        match trace.last() {
            ActionView::Write { bytes } => written(trace.drop_last()) + bytes,
            _ => written(trace.drop_last()),
        }
    }
}

/// Whether event `k` of the run hands over bytes that the mirror had asked
/// to read.
pub open spec fn delivers(events: Seq<EventView>, k: int) -> bool {
    &&& told_at(events, k, Stage::Reading)
    &&& events[k] is Data
    &&& events[k]->bytes.len() <= BUFFER_SIZE
}

/// All the bytes that the driver has read for the mirror, in order.
pub open spec fn received(events: Seq<EventView>) -> Seq<u8>
    decreases events.len(),
{
    if events.len() == 0 {
        Seq::empty()
    } else if delivers(events, events.len() - 1) {
        received(events.drop_last()) + events.last()->bytes
    } else {
        received(events.drop_last())
    }
}

/// Whether the stop signal is looked at between actions `i` and `j`.
pub open spec fn checked_between(t: Seq<ActionView>, i: int, j: int) -> bool {
    exists|k: int| i < k < j && k < t.len() && (#[trigger] t[k]) is CheckStop
}

/// Whether event `k` of the run is reported while the mirror stands at
/// `stage`.
pub open spec fn told_at(events: Seq<EventView>, k: int, stage: Stage) -> bool {
    &&& 0 <= k < events.len()
    &&& reached(events.take(k)) == stage
}

/// Whether event `k` of the run tells the mirror, which had asked, that the
/// stop signal is raised.
pub open spec fn notices_stop(events: Seq<EventView>, k: int) -> bool {
    &&& told_at(events, k, Stage::Checking)
    &&& events[k] == (EventView::Stop { raised: true })
}

} // verus!
