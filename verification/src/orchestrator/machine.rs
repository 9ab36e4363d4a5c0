//! The executable boot sequence.
use crate::error::BootError;
use crate::orchestrator::model;
use crate::orchestrator::model::{ActionView, EventView, Mode, Stage, StateView};
use vstd::prelude::*;

verus! {

/// What the driver reports.
#[derive(Debug, PartialEq, Eq)]
pub enum Event {
    /// The action was carried out and has nothing to report.
    Done,
    /// The device is open.
    Opened { bus_address: u8 },
    /// The boot image is built.
    ImageBuilt { address: u32, bytes: Vec<u8> },
    /// Whether the cold-boot toggle is set.
    ColdBoot { requested: bool },
    /// The initialization data is built.
    InitDataBuilt { bytes: Vec<u8> },
    /// Whether the device has left the bus and come back since it was opened.
    Reenumerated { seen: bool },
    /// The action failed.
    Failed { cause: String },
}

impl View for Event {
    type V = EventView;

    open spec fn view(&self) -> EventView {
        match *self {
            Event::Done => EventView::Done,
            Event::Opened { bus_address } => EventView::Opened { bus_address },
            Event::ImageBuilt { address, bytes } => EventView::ImageBuilt { address, bytes: bytes@ },
            Event::ColdBoot { requested } => EventView::ColdBoot { requested },
            Event::InitDataBuilt { bytes } => EventView::InitDataBuilt { bytes: bytes@ },
            Event::Reenumerated { seen } => EventView::Reenumerated { seen },
            Event::Failed { cause } => EventView::Failed { cause: cause@ },
        }
    }
}

/// What the driver is asked to do.
#[derive(Debug, PartialEq, Eq)]
pub enum Action {
    /// Read the file at `path`.
    ReadExecutable { path: String },
    /// Parse what was read.
    ParseExecutable,
    /// Open the device, waiting until there is one.
    OpenDevice,
    /// Start the console mirror on an execution context of its own.
    StartConsole,
    /// Build the boot image, without initialization data if the flag is set.
    BuildImage { skip_init_data: bool },
    /// Look whether the cold-boot toggle is set.
    QueryColdBoot,
    /// Build the initialization data.
    BuildInitData,
    /// Write initialization data to the device.
    WriteInitData { address: u32, bytes: Vec<u8> },
    /// Write the boot image to the device.
    WriteImage { address: u32, bytes: Vec<u8> },
    /// Tell the device to run what is at `address`.
    Jump { address: u32 },
    /// Look whether the device that was at `bus_address` has come back.
    PollReenumeration { bus_address: u8 },
    /// Sleep.
    Sleep { millis: u64 },
    /// Tell the console mirror to stop.
    RaiseStop,
    /// Write `notice` to the error stream.
    Report { notice: &'static str },
    /// End the process with `outcome`.
    Exit { outcome: Result<(), BootError> },
    /// Nothing: the event was not asked for.
    Idle,
}

impl View for Action {
    type V = ActionView;

    open spec fn view(&self) -> ActionView {
        match *self {
            Action::ReadExecutable { path } => ActionView::ReadExecutable { path: path@ },
            Action::ParseExecutable => ActionView::ParseExecutable,
            Action::OpenDevice => ActionView::OpenDevice,
            Action::StartConsole => ActionView::StartConsole,
            Action::BuildImage { skip_init_data } => ActionView::BuildImage { skip_init_data },
            Action::QueryColdBoot => ActionView::QueryColdBoot,
            Action::BuildInitData => ActionView::BuildInitData,
            Action::WriteInitData { address, bytes } => ActionView::WriteInitData {
                address,
                bytes: bytes@,
            },
            Action::WriteImage { address, bytes } => ActionView::WriteImage { address, bytes: bytes@ },
            Action::Jump { address } => ActionView::Jump { address },
            Action::PollReenumeration { bus_address } => ActionView::PollReenumeration {
                bus_address,
            },
            Action::Sleep { millis } => ActionView::Sleep { millis },
            Action::RaiseStop => ActionView::RaiseStop,
            Action::Report { notice } => ActionView::Report { notice: notice@ },
            Action::Exit { outcome } => ActionView::Exit {
                outcome: match outcome {
                    Ok(_) => Ok(()),
                    Err(error) => Err(error@),
                },
            },
            Action::Idle => ActionView::Idle,
        }
    }
}

/// A boot run in progress.
#[derive(Debug)]
pub struct Orchestrator {
    stage: Stage,
    mode: Mode,
    staging_address: u32,
    bus_address: u8,
    image_address: u32,
    image: Vec<u8>,
}

impl View for Orchestrator {
    type V = StateView;

    closed spec fn view(&self) -> StateView {
        StateView {
            stage: self.stage,
            mode: self.mode,
            staging_address: self.staging_address,
            bus_address: self.bus_address,
            image_address: self.image_address,
            image: self.image@,
        }
    }
}

impl Orchestrator {
    /// Begins a run. `args` are the program's arguments without its own
    /// name; `staging_address` is where the device takes initialization data.
    /// With exactly one argument the run asks for the file it names to be
    /// read; with any other number it is over at once, with
    /// [`BootError::Invocation`], before anything outside is touched.
    pub fn start(args: Vec<String>, staging_address: u32) -> (r: (Orchestrator, Action))
        ensures
            (r.0@, r.1@) == model::start(args.deep_view(), staging_address),
    {
        let mut args = args;
        let fresh = Orchestrator {
            stage: Stage::Reading,
            mode: Mode::Undecided,
            staging_address,
            bus_address: 0,
            image_address: 0,
            image: Vec::new(),
        };
        if args.len() == 1 {
            let path = args.pop().unwrap();
            (fresh, Action::ReadExecutable { path })
        } else {
            fresh.abandon(BootError::Invocation)
        }
    }

    /// Takes the outcome of the action last asked for and answers with the
    /// action that follows. An event that is not such an outcome changes
    /// nothing and is answered with [`Action::Idle`].
    pub fn step(self, event: Event) -> (r: (Orchestrator, Action))
        ensures
            (r.0@, r.1@) == model::next(self@, event@),
    {
        match self.stage {
            Stage::Reading => match event {
                Event::Done => self.advance(Stage::Parsing, Action::ParseExecutable),
                Event::Failed { cause } => self.abandon(BootError::Read(cause)),
                _ => self.ignore(),
            },
            Stage::Parsing => match event {
                Event::Done => self.advance(Stage::Opening, Action::OpenDevice),
                Event::Failed { cause } => self.abandon(BootError::Parse(cause)),
                _ => self.ignore(),
            },
            Stage::Opening => match event {
                Event::Opened { bus_address } => {
                    let opened = Orchestrator { bus_address, ..self };
                    opened.advance(Stage::StartingConsole, Action::StartConsole)
                },
                Event::Failed { cause } => self.abandon(BootError::Transport(cause)),
                _ => self.ignore(),
            },
            Stage::StartingConsole => match event {
                Event::Done => self.advance(
                    Stage::BuildingImage,
                    Action::BuildImage { skip_init_data: true },
                ),
                _ => self.ignore(),
            },
            Stage::BuildingImage => match event {
                Event::ImageBuilt { address, bytes } => {
                    let loaded = Orchestrator { image_address: address, image: bytes, ..self };
                    loaded.advance(Stage::QueryingMode, Action::QueryColdBoot)
                },
                Event::Failed { cause } => self.abandon(BootError::Build(cause)),
                _ => self.ignore(),
            },
            Stage::QueryingMode => match event {
                Event::ColdBoot { requested } => if requested {
                    let cold = Orchestrator { mode: Mode::Cold, ..self };
                    cold.advance(Stage::BuildingInitData, Action::BuildInitData)
                } else {
                    let warm = Orchestrator { mode: Mode::Warm, ..self };
                    warm.write_image()
                },
                _ => self.ignore(),
            },
            Stage::BuildingInitData => match event {
                Event::InitDataBuilt { bytes } => {
                    let address = self.staging_address;
                    self.advance(Stage::WritingInitData, Action::WriteInitData { address, bytes })
                },
                _ => self.ignore(),
            },
            Stage::WritingInitData => match event {
                Event::Done => self.write_image(),
                Event::Failed { cause } => self.abandon(BootError::Transport(cause)),
                _ => self.ignore(),
            },
            Stage::WritingImage => match event {
                Event::Done => {
                    let address = self.image_address;
                    self.advance(Stage::Jumping, Action::Jump { address })
                },
                Event::Failed { cause } => self.abandon(BootError::Transport(cause)),
                _ => self.ignore(),
            },
            Stage::Jumping => match event {
                Event::Done => {
                    let bus_address = self.bus_address;
                    self.advance(Stage::Polling, Action::PollReenumeration { bus_address })
                },
                Event::Failed { cause } => self.abandon(BootError::Transport(cause)),
                _ => self.ignore(),
            },
            Stage::Polling => match event {
                Event::Reenumerated { seen } => if seen {
                    self.advance(Stage::Draining, Action::Sleep { millis: model::GRACE_MILLIS })
                } else {
                    self.advance(
                        Stage::Waiting,
                        Action::Sleep { millis: model::POLL_INTERVAL_MILLIS },
                    )
                },
                _ => self.ignore(),
            },
            Stage::Waiting => match event {
                Event::Done => {
                    let bus_address = self.bus_address;
                    self.advance(Stage::Polling, Action::PollReenumeration { bus_address })
                },
                _ => self.ignore(),
            },
            Stage::Draining => match event {
                Event::Done => self.advance(Stage::Stopping, Action::RaiseStop),
                _ => self.ignore(),
            },
            Stage::Stopping => match event {
                Event::Done => self.advance(
                    Stage::Settling,
                    Action::Sleep { millis: model::GRACE_MILLIS },
                ),
                _ => self.ignore(),
            },
            Stage::Settling => match event {
                Event::Done => self.advance(
                    Stage::Reporting,
                    Action::Report { notice: model::RESET_NOTICE },
                ),
                _ => self.ignore(),
            },
            Stage::Reporting => match event {
                Event::Done => self.advance(Stage::Finished, Action::Exit { outcome: Ok(()) }),
                _ => self.ignore(),
            },
            Stage::Finished => self.ignore(),
        }
    }

    /// What the run is waiting for.
    pub fn stage(&self) -> (stage: Stage)
        ensures
            stage == self@.stage,
    {
        self.stage
    }

    /// Whether the run is over.
    pub fn is_finished(&self) -> (over: bool)
        ensures
            over == (self@.stage == Stage::Finished),
    {
        match self.stage {
            Stage::Finished => true,
            _ => false,
        }
    }

    fn advance(self, stage: Stage, action: Action) -> (r: (Orchestrator, Action))
        ensures
            (r.0@, r.1@) == model::advance(self@, stage, action@),
    {
        (Orchestrator { stage, ..self }, action)
    }

    fn abandon(self, error: BootError) -> (r: (Orchestrator, Action))
        ensures
            (r.0@, r.1@) == model::abandon(self@, error@),
    {
        (Orchestrator { stage: Stage::Finished, ..self }, Action::Exit { outcome: Err(error) })
    }

    fn ignore(self) -> (r: (Orchestrator, Action))
        ensures
            (r.0@, r.1@) == model::ignore(self@),
    {
        (self, Action::Idle)
    }

    fn write_image(self) -> (r: (Orchestrator, Action))
        ensures
            (r.0@, r.1@) == model::write_image(self@),
    {
        let Orchestrator { stage: _, mode, staging_address, bus_address, image_address, image } = self;
        (
            Orchestrator {
                stage: Stage::WritingImage,
                mode,
                staging_address,
                bus_address,
                image_address,
                image: Vec::new(),
            },
            Action::WriteImage { address: image_address, bytes: image },
        )
    }
}

} // verus!
