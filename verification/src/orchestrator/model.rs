//! The boot sequence as a transition function.
//!
//! A run begins with [`start`], which looks at the arguments and asks for the
//! first action. Whenever the driver has carried an action out it reports the
//! outcome as an event, and [`next`] answers with the action that follows. An
//! event that does not answer the action last asked for changes nothing and is
//! answered with [`ActionView::Idle`].
use crate::error::BootErrorView;
use vstd::prelude::*;

verus! {

/// How long the driver sleeps between two looks at the bus, in milliseconds.
pub const POLL_INTERVAL_MILLIS: u64 = 100;

/// How long the driver sleeps before and after the console mirror is told to
/// stop, in milliseconds.
pub const GRACE_MILLIS: u64 = 100;

/// What is reported once the device has come back on the bus.
pub const RESET_NOTICE: &'static str = "(device has reset)";

/// What the run is waiting for.
#[derive(Debug, Clone, Copy, PartialEq, Eq, Structural)]
pub enum Stage {
    /// The executable is being read.
    Reading,
    /// The executable is being parsed.
    Parsing,
    /// The device is being opened.
    Opening,
    /// The console mirror is being started.
    StartingConsole,
    /// The boot image is being built.
    BuildingImage,
    /// The driver is finding out whether this is a cold boot.
    QueryingMode,
    /// The initialization data is being built.
    BuildingInitData,
    /// The initialization data is being written to the device.
    WritingInitData,
    /// The boot image is being written to the device.
    WritingImage,
    /// The device is being told to run the image.
    Jumping,
    /// The driver is looking whether the device has come back on the bus.
    Polling,
    /// The driver sleeps before it looks at the bus again.
    Waiting,
    /// The device has come back; the driver sleeps while the console drains.
    Draining,
    /// The console mirror is being told to stop.
    Stopping,
    /// The driver sleeps while the console mirror winds down.
    Settling,
    /// The reset is being reported.
    Reporting,
    /// The run is over.
    Finished,
}

/// Whether the device's DRAM has to be initialized first.
#[derive(Debug, Clone, Copy, PartialEq, Eq, Structural)]
pub enum Mode {
    /// The driver has not been asked yet, or has not answered.
    Undecided,
    /// DRAM is initialized already; sending the data again would hang the device.
    Warm,
    /// DRAM must be initialized before the image is written.
    Cold,
}

/// The state of a run.
pub struct StateView {
    pub stage: Stage,
    pub mode: Mode,
    /// Where initialization data is written on a cold boot.
    pub staging_address: u32,
    /// The device's bus address; zero until the device is opened.
    pub bus_address: u8,
    /// The image's load address; zero until the image is built.
    pub image_address: u32,
    /// The image while it waits to be written; empty before and after.
    pub image: Seq<u8>,
}

/// What the driver reports.
pub enum EventView {
    /// The action was carried out and has nothing to report.
    Done,
    /// The device is open.
    Opened { bus_address: u8 },
    /// The boot image is built.
    ImageBuilt { address: u32, bytes: Seq<u8> },
    /// Whether the cold-boot toggle is set.
    ColdBoot { requested: bool },
    /// The initialization data is built.
    InitDataBuilt { bytes: Seq<u8> },
    /// Whether the device has left the bus and come back since it was opened.
    Reenumerated { seen: bool },
    /// The action failed.
    Failed { cause: Seq<char> },
}

/// What the driver is asked to do.
pub enum ActionView {
    /// Read the file at `path`.
    ReadExecutable { path: Seq<char> },
    /// Parse what was read.
    ParseExecutable,
    /// Open the device, waiting until there is one.
    OpenDevice,
    /// Start the console mirror on an execution context of its own.
    StartConsole,
    /// Build the boot image, without initialization data if the flag is set.
    BuildImage { skip_init_data: bool },
    /// Look whether the cold-boot toggle is set.
    QueryColdBoot,
    /// Build the initialization data.
    BuildInitData,
    /// Write initialization data to the device.
    WriteInitData { address: u32, bytes: Seq<u8> },
    /// Write the boot image to the device.
    WriteImage { address: u32, bytes: Seq<u8> },
    /// Tell the device to run what is at `address`.
    Jump { address: u32 },
    /// Look whether the device that was at `bus_address` has come back.
    PollReenumeration { bus_address: u8 },
    /// Sleep.
    Sleep { millis: u64 },
    /// Tell the console mirror to stop.
    RaiseStop,
    /// Write `notice` to the error stream.
    Report { notice: Seq<char> },
    /// End the process with `outcome`.
    Exit { outcome: Result<(), BootErrorView> },
    /// Nothing: the event was not asked for.
    Idle,
}

impl ActionView {
    /// Whether carrying the action out touches a file, the device, the
    /// console mirror, the environment or the clock.
    pub open spec fn reaches_outside(self) -> bool {
        !(self is Exit || self is Idle)
    }

    /// Whether the action writes to the device's memory at `address`.
    pub open spec fn writes_to(self, address: u32) -> bool {
        ||| self is WriteInitData && self->WriteInitData_address == address
        ||| self is WriteImage && self->WriteImage_address == address
    }
}

/// Moves on to `stage` and asks for `action`.
pub open spec fn advance(s: StateView, stage: Stage, action: ActionView) -> (StateView, ActionView) {
    (StateView { stage, ..s }, action)
}

/// Gives the run up with `error`.
pub open spec fn abandon(s: StateView, error: BootErrorView) -> (StateView, ActionView) {
    (StateView { stage: Stage::Finished, ..s }, ActionView::Exit { outcome: Err(error) })
}

/// Leaves everything as it is.
pub open spec fn ignore(s: StateView) -> (StateView, ActionView) {
    (s, ActionView::Idle)
}

/// Hands the image over to be written.
pub open spec fn write_image(s: StateView) -> (StateView, ActionView) {
    (
        StateView { stage: Stage::WritingImage, image: Seq::empty(), ..s },
        ActionView::WriteImage { address: s.image_address, bytes: s.image },
    )
}

/// The first state and action of a run with the given arguments (the
/// program's own name not among them). Anything but exactly one argument ends
/// the run at once; one argument is the path of the executable.
pub open spec fn start(args: Seq<Seq<char>>, staging_address: u32) -> (StateView, ActionView) {
    let fresh = StateView {
        stage: Stage::Reading,
        mode: Mode::Undecided,
        staging_address,
        bus_address: 0,
        image_address: 0,
        image: Seq::empty(),
    };
    if args.len() == 1 {
        (fresh, ActionView::ReadExecutable { path: args[0] })
    } else {
        abandon(fresh, BootErrorView::Invocation)
    }
}

/// The state and action that follow when `e` is reported in state `s`.
pub open spec fn next(s: StateView, e: EventView) -> (StateView, ActionView) {
    match s.stage {
        Stage::Reading => match e {
            EventView::Done => advance(s, Stage::Parsing, ActionView::ParseExecutable),
            EventView::Failed { cause } => abandon(s, BootErrorView::Read(cause)),
            _ => ignore(s),
        },
        Stage::Parsing => match e {
            EventView::Done => advance(s, Stage::Opening, ActionView::OpenDevice),
            EventView::Failed { cause } => abandon(s, BootErrorView::Parse(cause)),
            _ => ignore(s),
        },
        Stage::Opening => match e {
            EventView::Opened { bus_address } => advance(
                StateView { bus_address, ..s },
                Stage::StartingConsole,
                ActionView::StartConsole,
            ),
            EventView::Failed { cause } => abandon(s, BootErrorView::Transport(cause)),
            _ => ignore(s),
        },
        Stage::StartingConsole => match e {
            EventView::Done => advance(
                s,
                Stage::BuildingImage,
                ActionView::BuildImage { skip_init_data: true },
            ),
            _ => ignore(s),
        },
        Stage::BuildingImage => match e {
            EventView::ImageBuilt { address, bytes } => advance(
                StateView { image_address: address, image: bytes, ..s },
                Stage::QueryingMode,
                ActionView::QueryColdBoot,
            ),
            EventView::Failed { cause } => abandon(s, BootErrorView::Build(cause)),
            _ => ignore(s),
        },
        Stage::QueryingMode => match e {
            EventView::ColdBoot { requested } => if requested {
                advance(
                    StateView { mode: Mode::Cold, ..s },
                    Stage::BuildingInitData,
                    ActionView::BuildInitData,
                )
            } else {
                write_image(StateView { mode: Mode::Warm, ..s })
            },
            _ => ignore(s),
        },
        Stage::BuildingInitData => match e {
            EventView::InitDataBuilt { bytes } => advance(
                s,
                Stage::WritingInitData,
                ActionView::WriteInitData { address: s.staging_address, bytes },
            ),
            _ => ignore(s),
        },
        Stage::WritingInitData => match e {
            EventView::Done => write_image(s),
            EventView::Failed { cause } => abandon(s, BootErrorView::Transport(cause)),
            _ => ignore(s),
        },
        Stage::WritingImage => match e {
            EventView::Done => advance(
                s,
                Stage::Jumping,
                ActionView::Jump { address: s.image_address },
            ),
            EventView::Failed { cause } => abandon(s, BootErrorView::Transport(cause)),
            _ => ignore(s),
        },
        Stage::Jumping => match e {
            EventView::Done => advance(
                s,
                Stage::Polling,
                ActionView::PollReenumeration { bus_address: s.bus_address },
            ),
            EventView::Failed { cause } => abandon(s, BootErrorView::Transport(cause)),
            _ => ignore(s),
        },
        Stage::Polling => match e {
            EventView::Reenumerated { seen } => if seen {
                advance(s, Stage::Draining, ActionView::Sleep { millis: GRACE_MILLIS })
            } else {
                advance(s, Stage::Waiting, ActionView::Sleep { millis: POLL_INTERVAL_MILLIS })
            },
            _ => ignore(s),
        },
        Stage::Waiting => match e {
            EventView::Done => advance(
                s,
                Stage::Polling,
                ActionView::PollReenumeration { bus_address: s.bus_address },
            ),
            _ => ignore(s),
        },
        Stage::Draining => match e {
            EventView::Done => advance(s, Stage::Stopping, ActionView::RaiseStop),
            _ => ignore(s),
        },
        Stage::Stopping => match e {
            EventView::Done => advance(
                s,
                Stage::Settling,
                ActionView::Sleep { millis: GRACE_MILLIS },
            ),
            _ => ignore(s),
        },
        Stage::Settling => match e {
            EventView::Done => advance(
                s,
                Stage::Reporting,
                ActionView::Report { notice: RESET_NOTICE@ },
            ),
            _ => ignore(s),
        },
        Stage::Reporting => match e {
            EventView::Done => advance(s, Stage::Finished, ActionView::Exit { outcome: Ok(()) }),
            _ => ignore(s),
        },
        Stage::Finished => ignore(s),
    }
}

/// Where a run stands, and everything it has asked for so far.
pub struct Run {
    pub state: StateView,
    pub trace: Seq<ActionView>,
}

/// The run that begins with `args` and has been told `events`, in order.
/// The trace holds the first action and one more for each event, so
/// `trace[k + 1]` is the answer to `events[k]`.
pub open spec fn run(args: Seq<Seq<char>>, staging_address: u32, events: Seq<EventView>) -> Run
    decreases events.len(),
{
    if events.len() == 0 {
        let (state, action) = start(args, staging_address);
        Run { state, trace: seq![action] }
    } else {
        let before = run(args, staging_address, events.drop_last());
        let (state, action) = next(before.state, events.last());
        Run { state, trace: before.trace.push(action) }
    }
}

/// Everything the run has asked for, in order.
pub open spec fn asked(
    args: Seq<Seq<char>>,
    staging_address: u32,
    events: Seq<EventView>,
) -> Seq<ActionView> {
    run(args, staging_address, events).trace
}

/// Where the run stands.
pub open spec fn reached(
    args: Seq<Seq<char>>,
    staging_address: u32,
    events: Seq<EventView>,
) -> StateView {
    run(args, staging_address, events).state
}

/// Whether event `k` of the run is reported while the run stands at `stage`.
pub open spec fn told_at(
    args: Seq<Seq<char>>,
    staging_address: u32,
    events: Seq<EventView>,
    k: int,
    stage: Stage,
) -> bool {
    &&& 0 <= k < events.len()
    &&& reached(args, staging_address, events.take(k)).stage == stage
}

/// Whether event `k` of the run is the answer to the question about the
/// cold-boot toggle, and says `requested`.
pub open spec fn answered(
    args: Seq<Seq<char>>,
    staging_address: u32,
    events: Seq<EventView>,
    k: int,
    requested: bool,
) -> bool {
    &&& told_at(args, staging_address, events, k, Stage::QueryingMode)
    &&& events[k] == (EventView::ColdBoot { requested })
}

/// Whether event `k` of the run hands over the boot image that had been
/// asked for, with the given load address and contents.
pub open spec fn built(
    args: Seq<Seq<char>>,
    staging_address: u32,
    events: Seq<EventView>,
    k: int,
    address: u32,
    bytes: Seq<u8>,
) -> bool {
    &&& told_at(args, staging_address, events, k, Stage::BuildingImage)
    &&& events[k] == (EventView::ImageBuilt { address, bytes })
}

/// Whether event `k` of the run reports the device open, as had been asked
/// for, at the given bus address.
pub open spec fn opened(
    args: Seq<Seq<char>>,
    staging_address: u32,
    events: Seq<EventView>,
    k: int,
    bus_address: u8,
) -> bool {
    &&& told_at(args, staging_address, events, k, Stage::Opening)
    &&& events[k] == (EventView::Opened { bus_address })
}

/// Whether the driver has reported, before event `j`, that the device left
/// the bus and came back.
pub open spec fn rebooted(events: Seq<EventView>, j: int) -> bool {
    exists|k: int|
        0 <= k < j && k < events.len() && (#[trigger] events[k]) == (EventView::Reenumerated {
            seen: true,
        })
}

} // verus!
