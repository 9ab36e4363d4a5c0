//! The boot sequence against a bench that stands in for the files, the
//! device and the clock, and keeps a record of what it was asked to do.
use usd_runner::error::BootError;
use usd_runner::orchestrator::machine::{Action, Event, Orchestrator};
use usd_runner::orchestrator::model::Stage;

const STAGING: u32 = 0x0090_7000;
const LOAD: u32 = 0x8000_0000;
const BUS: u8 = 23;

/// One thing the bench was asked to do.
#[derive(Debug, Clone, PartialEq, Eq)]
enum Call {
    Read(String),
    Parse,
    Open,
    StartConsole,
    BuildImage { skip_init_data: bool },
    QueryColdBoot,
    BuildInitData,
    WriteInitData(u32, Vec<u8>),
    WriteImage(u32, Vec<u8>),
    Jump(u32),
    Poll(u8),
    Sleep(u64),
    RaiseStop,
    Report(String),
}

/// What the bench pretends to be.
struct Bench {
    cold: bool,
    image: Vec<u8>,
    init_data: Vec<u8>,
    /// How many looks at the bus find nothing before the device is back.
    quiet_polls: usize,
    /// The call, counted from zero, that fails; none if `None`.
    failing: Option<usize>,
    calls: Vec<Call>,
    stop_raised: u32,
}

fn bench(cold: bool) -> Bench {
    Bench {
        cold,
        image: vec![0xde, 0xad, 0xbe, 0xef],
        init_data: vec![0x40, 0xd2, 0x00, 0x04],
        quiet_polls: 2,
        failing: None,
        calls: Vec::new(),
        stop_raised: 0,
    }
}

impl Bench {
    /// Carries `action` out and reports the outcome.
    fn perform(&mut self, action: Action) -> Event {
        let index: usize = self.calls.len();
        let fails: bool = self.failing == Some(index);
        let cause: String = format!("call {} failed", index);
        match action {
            Action::ReadExecutable { path } => {
                self.calls.push(Call::Read(path));
                if fails { Event::Failed { cause } } else { Event::Done }
            }
            Action::ParseExecutable => {
                self.calls.push(Call::Parse);
                if fails { Event::Failed { cause } } else { Event::Done }
            }
            Action::OpenDevice => {
                self.calls.push(Call::Open);
                if fails { Event::Failed { cause } } else { Event::Opened { bus_address: BUS } }
            }
            Action::StartConsole => {
                self.calls.push(Call::StartConsole);
                Event::Done
            }
            Action::BuildImage { skip_init_data } => {
                self.calls.push(Call::BuildImage { skip_init_data });
                if fails {
                    Event::Failed { cause }
                } else {
                    Event::ImageBuilt { address: LOAD, bytes: self.image.clone() }
                }
            }
            Action::QueryColdBoot => {
                self.calls.push(Call::QueryColdBoot);
                Event::ColdBoot { requested: self.cold }
            }
            Action::BuildInitData => {
                self.calls.push(Call::BuildInitData);
                Event::InitDataBuilt { bytes: self.init_data.clone() }
            }
            Action::WriteInitData { address, bytes } => {
                self.calls.push(Call::WriteInitData(address, bytes));
                if fails { Event::Failed { cause } } else { Event::Done }
            }
            Action::WriteImage { address, bytes } => {
                self.calls.push(Call::WriteImage(address, bytes));
                if fails { Event::Failed { cause } } else { Event::Done }
            }
            Action::Jump { address } => {
                self.calls.push(Call::Jump(address));
                if fails { Event::Failed { cause } } else { Event::Done }
            }
            Action::PollReenumeration { bus_address } => {
                self.calls.push(Call::Poll(bus_address));
                if self.quiet_polls == 0 {
                    Event::Reenumerated { seen: true }
                } else {
                    self.quiet_polls -= 1;
                    Event::Reenumerated { seen: false }
                }
            }
            Action::Sleep { millis } => {
                self.calls.push(Call::Sleep(millis));
                Event::Done
            }
            Action::RaiseStop => {
                self.calls.push(Call::RaiseStop);
                self.stop_raised += 1;
                Event::Done
            }
            Action::Report { notice } => {
                self.calls.push(Call::Report(notice.to_string()));
                Event::Done
            }
            Action::Exit { .. } | Action::Idle => unreachable!(),
        }
    }

    /// Runs the whole sequence and hands back how it ended.
    fn boot(&mut self, args: &[&str]) -> Result<(), BootError> {
        let args: Vec<String> = args.iter().map(|arg| arg.to_string()).collect();
        let (mut machine, mut action) = Orchestrator::start(args, STAGING);
        loop {
            if let Action::Exit { outcome } = action {
                assert!(machine.is_finished());
                return outcome;
            }
            assert!(!machine.is_finished());
            let event: Event = self.perform(action);
            let (next_machine, next_action) = machine.step(event);
            machine = next_machine;
            action = next_action;
        }
    }
}

fn position(calls: &[Call], wanted: &Call) -> Option<usize> {
    calls.iter().position(|call| call == wanted)
}

fn device_writes(calls: &[Call]) -> Vec<Call> {
    calls
        .iter()
        .filter(|call| matches!(call, Call::WriteInitData(..) | Call::WriteImage(..)))
        .cloned()
        .collect()
}

#[test]
fn warm_boot_writes_the_image_once_then_jumps() {
    let mut b = bench(false);
    assert_eq!(b.boot(&["app.elf"]), Ok(()));
    assert_eq!(
        b.calls,
        vec![
            Call::Read("app.elf".to_string()),
            Call::Parse,
            Call::Open,
            Call::StartConsole,
            Call::BuildImage { skip_init_data: true },
            Call::QueryColdBoot,
            Call::WriteImage(LOAD, vec![0xde, 0xad, 0xbe, 0xef]),
            Call::Jump(LOAD),
            Call::Poll(BUS),
            Call::Sleep(100),
            Call::Poll(BUS),
            Call::Sleep(100),
            Call::Poll(BUS),
            Call::Sleep(100),
            Call::RaiseStop,
            Call::Sleep(100),
            Call::Report("(device has reset)".to_string()),
        ]
    );
    assert_eq!(device_writes(&b.calls), vec![Call::WriteImage(LOAD, vec![0xde, 0xad, 0xbe, 0xef])]);
    assert!(!b.calls.iter().any(|call| matches!(call, Call::WriteInitData(..))));
    assert!(!b.calls.iter().any(|call| matches!(call, Call::BuildInitData)));
}

#[test]
fn cold_boot_writes_init_data_then_the_image_then_jumps() {
    let mut b = bench(true);
    assert_eq!(b.boot(&["app.elf"]), Ok(()));
    assert_eq!(
        b.calls,
        vec![
            Call::Read("app.elf".to_string()),
            Call::Parse,
            Call::Open,
            Call::StartConsole,
            Call::BuildImage { skip_init_data: true },
            Call::QueryColdBoot,
            Call::BuildInitData,
            Call::WriteInitData(STAGING, vec![0x40, 0xd2, 0x00, 0x04]),
            Call::WriteImage(LOAD, vec![0xde, 0xad, 0xbe, 0xef]),
            Call::Jump(LOAD),
            Call::Poll(BUS),
            Call::Sleep(100),
            Call::Poll(BUS),
            Call::Sleep(100),
            Call::Poll(BUS),
            Call::Sleep(100),
            Call::RaiseStop,
            Call::Sleep(100),
            Call::Report("(device has reset)".to_string()),
        ]
    );
    assert_eq!(
        device_writes(&b.calls),
        vec![
            Call::WriteInitData(STAGING, vec![0x40, 0xd2, 0x00, 0x04]),
            Call::WriteImage(LOAD, vec![0xde, 0xad, 0xbe, 0xef]),
        ]
    );
    let jumps: usize = b.calls.iter().filter(|call| matches!(call, Call::Jump(_))).count();
    assert_eq!(jumps, 1);
}

#[test]
fn image_is_built_without_init_data_in_both_modes() {
    for cold in [false, true] {
        let mut b = bench(cold);
        assert_eq!(b.boot(&["app.elf"]), Ok(()));
        let builds: Vec<&Call> =
            b.calls.iter().filter(|call| matches!(call, Call::BuildImage { .. })).collect();
        assert_eq!(builds, vec![&Call::BuildImage { skip_init_data: true }]);
    }
}

#[test]
fn image_write_comes_before_the_jump() {
    for cold in [false, true] {
        let mut b = bench(cold);
        assert_eq!(b.boot(&["app.elf"]), Ok(()));
        let write: usize =
            position(&b.calls, &Call::WriteImage(LOAD, vec![0xde, 0xad, 0xbe, 0xef])).unwrap();
        let jump: usize = position(&b.calls, &Call::Jump(LOAD)).unwrap();
        let poll: usize = position(&b.calls, &Call::Poll(BUS)).unwrap();
        assert!(write < jump);
        assert!(jump < poll);
    }
}

#[test]
fn stop_is_raised_exactly_once_in_a_finished_run() {
    for cold in [false, true] {
        let mut b = bench(cold);
        b.quiet_polls = 5;
        assert_eq!(b.boot(&["app.elf"]), Ok(()));
        assert_eq!(b.stop_raised, 1);
    }
}

#[test]
fn stop_is_not_raised_in_a_run_that_fails() {
    for failing in [0usize, 1, 2, 4, 6, 7] {
        let mut b = bench(false);
        b.failing = Some(failing);
        assert!(b.boot(&["app.elf"]).is_err());
        assert_eq!(b.stop_raised, 0);
    }
}

#[test]
fn no_argument_fails_before_anything_is_touched() {
    let mut b = bench(false);
    assert_eq!(b.boot(&[]), Err(BootError::Invocation));
    assert_eq!(b.calls, Vec::<Call>::new());
}

#[test]
fn two_arguments_fail_before_anything_is_touched() {
    let mut b = bench(true);
    assert_eq!(b.boot(&["app.elf", "other.elf"]), Err(BootError::Invocation));
    assert_eq!(b.calls, Vec::<Call>::new());
}

#[test]
fn wrong_invocation_exits_at_once_and_stays_finished() {
    let (machine, action) = Orchestrator::start(Vec::new(), STAGING);
    assert_eq!(action, Action::Exit { outcome: Err(BootError::Invocation) });
    assert_eq!(machine.stage(), Stage::Finished);
    let (machine, action) = machine.step(Event::Done);
    assert_eq!(action, Action::Idle);
    let (machine, action) = machine.step(Event::Opened { bus_address: BUS });
    assert_eq!(action, Action::Idle);
    assert!(machine.is_finished());
}

#[test]
fn invocation_error_has_its_fixed_message() {
    assert_eq!(BootError::Invocation.message(), "expected exactly one argument");
}

#[test]
fn other_errors_show_the_cause_as_reported() {
    assert_eq!(BootError::Read("no such file".to_string()).message(), "no such file");
    assert_eq!(
        BootError::Parse("Did not find ELF magic number".to_string()).message(),
        "Did not find ELF magic number"
    );
    assert_eq!(BootError::Build("segment outside RAM".to_string()).message(), "segment outside RAM");
    assert_eq!(BootError::Transport("pipe error".to_string()).message(), "pipe error");
}

#[test]
fn unreadable_executable_is_a_read_error() {
    let mut b = bench(false);
    b.failing = Some(0);
    assert_eq!(b.boot(&["app.elf"]), Err(BootError::Read("call 0 failed".to_string())));
    assert_eq!(b.calls, vec![Call::Read("app.elf".to_string())]);
}

#[test]
fn malformed_executable_is_a_parse_error_with_the_parsers_message() {
    let (machine, _) = Orchestrator::start(vec!["app.elf".to_string()], STAGING);
    let (machine, action) = machine.step(Event::Done);
    assert_eq!(action, Action::ParseExecutable);
    let (machine, action) =
        machine.step(Event::Failed { cause: "Did not find ELF magic number".to_string() });
    assert_eq!(
        action,
        Action::Exit { outcome: Err(BootError::Parse("Did not find ELF magic number".to_string())) }
    );
    assert!(machine.is_finished());
}

#[test]
fn parse_failure_comes_before_the_device_is_opened() {
    let mut b = bench(false);
    b.failing = Some(1);
    assert_eq!(b.boot(&["app.elf"]), Err(BootError::Parse("call 1 failed".to_string())));
    assert_eq!(b.calls, vec![Call::Read("app.elf".to_string()), Call::Parse]);
}

#[test]
fn device_that_cannot_be_opened_is_a_transport_error() {
    let mut b = bench(false);
    b.failing = Some(2);
    assert_eq!(b.boot(&["app.elf"]), Err(BootError::Transport("call 2 failed".to_string())));
    assert_eq!(b.calls.last(), Some(&Call::Open));
    assert!(!b.calls.contains(&Call::StartConsole));
}

#[test]
fn image_that_cannot_be_built_is_a_build_error() {
    let mut b = bench(true);
    b.failing = Some(4);
    assert_eq!(b.boot(&["app.elf"]), Err(BootError::Build("call 4 failed".to_string())));
    assert_eq!(b.calls.last(), Some(&Call::BuildImage { skip_init_data: true }));
    assert_eq!(device_writes(&b.calls), Vec::<Call>::new());
}

#[test]
fn failed_init_data_write_stops_before_the_image_is_written() {
    let mut b = bench(true);
    b.failing = Some(7);
    assert_eq!(b.boot(&["app.elf"]), Err(BootError::Transport("call 7 failed".to_string())));
    assert_eq!(
        device_writes(&b.calls),
        vec![Call::WriteInitData(STAGING, vec![0x40, 0xd2, 0x00, 0x04])]
    );
    assert!(!b.calls.iter().any(|call| matches!(call, Call::Jump(_))));
}

#[test]
fn failed_image_write_stops_before_the_jump() {
    let mut b = bench(false);
    b.failing = Some(6);
    assert_eq!(b.boot(&["app.elf"]), Err(BootError::Transport("call 6 failed".to_string())));
    assert_eq!(b.calls.last(), Some(&Call::WriteImage(LOAD, vec![0xde, 0xad, 0xbe, 0xef])));
    assert!(!b.calls.iter().any(|call| matches!(call, Call::Jump(_))));
}

#[test]
fn failed_jump_stops_before_the_bus_is_looked_at() {
    let mut b = bench(false);
    b.failing = Some(7);
    assert_eq!(b.boot(&["app.elf"]), Err(BootError::Transport("call 7 failed".to_string())));
    assert_eq!(b.calls.last(), Some(&Call::Jump(LOAD)));
    assert!(!b.calls.iter().any(|call| matches!(call, Call::Poll(_))));
}

#[test]
fn nothing_is_tried_again_after_a_failure() {
    let mut b = bench(false);
    b.failing = Some(6);
    assert!(b.boot(&["app.elf"]).is_err());
    let writes: usize = b.calls.iter().filter(|call| matches!(call, Call::WriteImage(..))).count();
    assert_eq!(writes, 1);
}

#[test]
fn device_back_at_the_first_look_skips_the_wait() {
    let mut b = bench(false);
    b.quiet_polls = 0;
    assert_eq!(b.boot(&["app.elf"]), Ok(()));
    let tail: Vec<Call> = b.calls[8..].to_vec();
    assert_eq!(
        tail,
        vec![
            Call::Poll(BUS),
            Call::Sleep(100),
            Call::RaiseStop,
            Call::Sleep(100),
            Call::Report("(device has reset)".to_string()),
        ]
    );
}

#[test]
fn bus_is_looked_at_again_after_every_wait() {
    let mut b = bench(false);
    b.quiet_polls = 4;
    assert_eq!(b.boot(&["app.elf"]), Ok(()));
    let polls: usize = b.calls.iter().filter(|call| matches!(call, Call::Poll(_))).count();
    assert_eq!(polls, 5);
    assert!(b.calls.iter().all(|call| !matches!(call, Call::Poll(bus) if *bus != BUS)));
}

#[test]
fn event_out_of_turn_changes_nothing() {
    let (machine, action) = Orchestrator::start(vec!["app.elf".to_string()], STAGING);
    assert_eq!(action, Action::ReadExecutable { path: "app.elf".to_string() });
    assert_eq!(machine.stage(), Stage::Reading);
    let (machine, action) = machine.step(Event::ColdBoot { requested: true });
    assert_eq!(action, Action::Idle);
    assert_eq!(machine.stage(), Stage::Reading);
    let (machine, action) = machine.step(Event::ImageBuilt { address: STAGING, bytes: vec![1] });
    assert_eq!(action, Action::Idle);
    assert_eq!(machine.stage(), Stage::Reading);
    let (machine, action) = machine.step(Event::Done);
    assert_eq!(action, Action::ParseExecutable);
    assert_eq!(machine.stage(), Stage::Parsing);
}

#[test]
fn failure_report_is_ignored_where_nothing_can_fail() {
    let mut b = bench(false);
    let (mut machine, mut action) = Orchestrator::start(vec!["app.elf".to_string()], STAGING);
    while action != Action::QueryColdBoot {
        let event: Event = b.perform(action);
        let (m, a) = machine.step(event);
        machine = m;
        action = a;
    }
    let (machine, action) = machine.step(Event::Failed { cause: "no such variable".to_string() });
    assert_eq!(action, Action::Idle);
    assert_eq!(machine.stage(), Stage::QueryingMode);
    let (machine, action) = machine.step(Event::ColdBoot { requested: false });
    assert_eq!(action, Action::WriteImage { address: LOAD, bytes: vec![0xde, 0xad, 0xbe, 0xef] });
    assert_eq!(machine.stage(), Stage::WritingImage);
}

#[test]
fn image_that_loads_at_the_staging_address_is_still_written_there() {
    let (machine, _) = Orchestrator::start(vec!["app.elf".to_string()], STAGING);
    let (machine, _) = machine.step(Event::Done);
    let (machine, _) = machine.step(Event::Done);
    let (machine, _) = machine.step(Event::Opened { bus_address: BUS });
    let (machine, _) = machine.step(Event::Done);
    let (machine, _) = machine.step(Event::ImageBuilt { address: STAGING, bytes: vec![9, 9] });
    let (machine, action) = machine.step(Event::ColdBoot { requested: false });
    assert_eq!(action, Action::WriteImage { address: STAGING, bytes: vec![9, 9] });
    let (_, action) = machine.step(Event::Done);
    assert_eq!(action, Action::Jump { address: STAGING });
}

#[test]
fn empty_image_is_written_as_it_is() {
    let mut b = bench(false);
    b.image = Vec::new();
    assert_eq!(b.boot(&["app.elf"]), Ok(()));
    assert_eq!(device_writes(&b.calls), vec![Call::WriteImage(LOAD, Vec::new())]);
}

#[test]
fn same_inputs_give_the_same_calls() {
    let mut first = bench(true);
    let mut second = bench(true);
    assert_eq!(first.boot(&["app.elf"]), Ok(()));
    assert_eq!(second.boot(&["app.elf"]), Ok(()));
    assert_eq!(first.calls, second.calls);
}
