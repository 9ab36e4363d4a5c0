//! What every run keeps true from one step to the next, and the inductions
//! that show it. The laws rest on these.
use crate::orchestrator::model::{
    asked, built, next, opened, reached, rebooted, run, start, ActionView, EventView, Mode, Run,
    Stage,
};
use vstd::prelude::*;

verus! {

/// How far along the sequence a stage lies. The two stages of the polling
/// loop share a place.
pub(crate) open spec fn rank(stage: Stage) -> int {
    match stage {
        Stage::Reading => 0,
        Stage::Parsing => 1,
        Stage::Opening => 2,
        Stage::StartingConsole => 3,
        Stage::BuildingImage => 4,
        Stage::QueryingMode => 5,
        Stage::BuildingInitData => 6,
        Stage::WritingInitData => 7,
        Stage::WritingImage => 8,
        Stage::Jumping => 9,
        Stage::Polling => 10,
        Stage::Waiting => 10,
        Stage::Draining => 11,
        Stage::Stopping => 12,
        Stage::Settling => 13,
        Stage::Reporting => 14,
        Stage::Finished => 15,
    }
}

/// Whether a run may ask for the action more than once.
pub(crate) open spec fn repeatable(a: ActionView) -> bool {
    a is PollReenumeration || a is Sleep || a is Idle
}

/// The place of the earliest stage that asking for the action leads to.
pub(crate) open spec fn turn(a: ActionView) -> int {
    match a {
        ActionView::ReadExecutable { .. } => 0,
        ActionView::ParseExecutable => 1,
        ActionView::OpenDevice => 2,
        ActionView::StartConsole => 3,
        ActionView::BuildImage { .. } => 4,
        ActionView::QueryColdBoot => 5,
        ActionView::BuildInitData => 6,
        ActionView::WriteInitData { .. } => 7,
        ActionView::WriteImage { .. } => 8,
        ActionView::Jump { .. } => 9,
        ActionView::PollReenumeration { .. } => 10,
        ActionView::Sleep { .. } => 10,
        ActionView::RaiseStop => 12,
        ActionView::Report { .. } => 14,
        ActionView::Exit { .. } => 15,
        ActionView::Idle => 0,
    }
}

/// The actions that can be asked for once only stand in the trace in the
/// order of the sequence, and none lies ahead of the stage reached.
pub(crate) open spec fn in_order(r: Run) -> bool {
    &&& forall|i: int| 0 <= i < r.trace.len() ==> turn(#[trigger] r.trace[i]) <= rank(r.state.stage)
    &&& forall|i: int, j: int|
        0 <= i < j < r.trace.len() && !repeatable(#[trigger] r.trace[i]) && !repeatable(
            #[trigger] r.trace[j],
        ) ==> turn(r.trace[i]) < turn(r.trace[j])
}

/// Every action in the trace carries what the state holds.
pub(crate) open spec fn faithful(r: Run, staging_address: u32) -> bool {
    &&& r.state.staging_address == staging_address
    &&& rank(r.state.stage) <= 5 ==> r.state.mode == Mode::Undecided
    &&& 6 <= rank(r.state.stage) <= 7 ==> r.state.mode == Mode::Cold
    &&& 8 <= rank(r.state.stage) <= 14 ==> r.state.mode != Mode::Undecided
    &&& forall|i: int|
        0 <= i < r.trace.len() ==> match #[trigger] r.trace[i] {
            ActionView::BuildImage { skip_init_data } => skip_init_data,
            ActionView::WriteInitData { address, .. } => address == staging_address && r.state.mode
                == Mode::Cold,
            ActionView::WriteImage { address, .. } => address == r.state.image_address
                && r.state.mode != Mode::Undecided,
            ActionView::Jump { address } => address == r.state.image_address,
            ActionView::PollReenumeration { bus_address } => bus_address == r.state.bus_address,
            _ => true,
        }
}

/// What an earlier action is looked for by.
pub(crate) enum Mark {
    InitWrite,
    ImageWrite { address: u32 },
    Jump,
    Stop,
}

/// Whether the action is one that the mark looks for.
pub(crate) open spec fn bears(a: ActionView, mark: Mark) -> bool {
    match mark {
        Mark::InitWrite => a is WriteInitData,
        Mark::ImageWrite { address } => a is WriteImage && a->WriteImage_address == address,
        Mark::Jump => a is Jump,
        Mark::Stop => a is RaiseStop,
    }
}

/// Whether an action with the mark stands in the trace before index `j`.
pub(crate) open spec fn seen(t: Seq<ActionView>, j: int, mark: Mark) -> bool {
    exists|i: int| 0 <= i < j && i < t.len() && bears(#[trigger] t[i], mark)
}

/// Every action in the trace, and the stage reached, has before it what the
/// sequence puts before it.
pub(crate) open spec fn grounded(r: Run) -> bool {
    let t = r.trace;
    let n = r.trace.len() as int;
    &&& r.state.stage == Stage::WritingInitData ==> seen(t, n, Mark::InitWrite)
    &&& r.state.stage == Stage::WritingImage ==> seen(
        t,
        n,
        Mark::ImageWrite { address: r.state.image_address },
    )
    &&& 9 <= rank(r.state.stage) <= 14 ==> seen(t, n, Mark::Jump)
    &&& 12 <= rank(r.state.stage) <= 14 ==> seen(t, n, Mark::Stop)
    &&& forall|j: int|
        0 <= j < n ==> match #[trigger] t[j] {
            ActionView::WriteImage { .. } => r.state.mode == Mode::Cold ==> seen(
                t,
                j,
                Mark::InitWrite,
            ),
            ActionView::Jump { address } => seen(t, j, Mark::ImageWrite { address }),
            ActionView::PollReenumeration { .. } => seen(t, j, Mark::Jump),
            ActionView::RaiseStop => seen(t, j, Mark::Jump),
            ActionView::Exit { outcome } => outcome is Ok ==> seen(t, j, Mark::Stop),
            _ => true,
        }
}

/// All that a run keeps true.
pub(crate) open spec fn sound(r: Run, staging_address: u32) -> bool {
    &&& r.trace.len() >= 1
    &&& in_order(r)
    &&& faithful(r, staging_address)
    &&& grounded(r)
}

/// What stands before an index still does when the trace grows.
proof fn lemma_seen_grows(t: Seq<ActionView>, j: int, mark: Mark, a: ActionView)
    requires
        seen(t, j, mark),
    ensures
        seen(t.push(a), j, mark),
{
    let i = choose|i: int| 0 <= i < j && i < t.len() && bears(#[trigger] t[i], mark);
    assert(t.push(a)[i] == t[i]);
}

/// What stands before an index stands before every later one.
proof fn lemma_seen_later(t: Seq<ActionView>, j: int, k: int, mark: Mark)
    requires
        seen(t, j, mark),
        j <= k,
    ensures
        seen(t, k, mark),
{
    let i = choose|i: int| 0 <= i < j && i < t.len() && bears(#[trigger] t[i], mark);
    assert(0 <= i < k && i < t.len() && bears(t[i], mark));
}

/// The action just asked for stands before the end of the trace.
proof fn lemma_seen_last(t: Seq<ActionView>, mark: Mark, a: ActionView)
    requires
        bears(a, mark),
    ensures
        seen(t.push(a), t.len() as int + 1, mark),
{
    let i = t.len() as int;
    assert(t.push(a)[i] == a);
}

/// A run that has been told nothing is sound.
proof fn lemma_start_sound(args: Seq<Seq<char>>, staging_address: u32)
    ensures
        sound(run(args, staging_address, Seq::empty()), staging_address),
{
    let r = run(args, staging_address, Seq::empty());
    let (state, action) = start(args, staging_address);
    assert(r.trace =~= seq![action]);
    assert(r.trace[0] == action);
}

/// A step keeps the trace in order.
proof fn lemma_step_in_order(before: Run, e: EventView)
    requires
        in_order(before),
    ensures
        in_order(Run { state: next(before.state, e).0, trace: before.trace.push(next(before.state, e).1) }),
{
    let (state, action) = next(before.state, e);
    let after = Run { state, trace: before.trace.push(action) };
    assert(rank(before.state.stage) <= rank(state.stage));
    assert(turn(action) <= rank(state.stage));
    assert(!repeatable(action) ==> rank(before.state.stage) < turn(action));
    assert forall|i: int| 0 <= i < after.trace.len() implies turn(#[trigger] after.trace[i]) <= rank(
        state.stage,
    ) by {
        if i < before.trace.len() {
            assert(after.trace[i] == before.trace[i]);
        }
    }
    assert forall|i: int, j: int|
        0 <= i < j < after.trace.len() && !repeatable(#[trigger] after.trace[i]) && !repeatable(
            #[trigger] after.trace[j],
        ) implies turn(after.trace[i]) < turn(after.trace[j]) by {
        assert(after.trace[i] == before.trace[i]);
        if j < before.trace.len() {
            assert(after.trace[j] == before.trace[j]);
        }
    }
}

/// A step keeps the trace faithful.
proof fn lemma_step_faithful(before: Run, e: EventView, staging_address: u32)
    requires
        in_order(before),
        faithful(before, staging_address),
    ensures
        faithful(
            Run { state: next(before.state, e).0, trace: before.trace.push(next(before.state, e).1) },
            staging_address,
        ),
{
    let (state, action) = next(before.state, e);
    let after = Run { state, trace: before.trace.push(action) };
    assert forall|i: int| 0 <= i < after.trace.len() implies match #[trigger] after.trace[i] {
        ActionView::BuildImage { skip_init_data } => skip_init_data,
        ActionView::WriteInitData { address, .. } => address == staging_address && state.mode
            == Mode::Cold,
        ActionView::WriteImage { address, .. } => address == state.image_address && state.mode
            != Mode::Undecided,
        ActionView::Jump { address } => address == state.image_address,
        ActionView::PollReenumeration { bus_address } => bus_address == state.bus_address,
        _ => true,
    } by {
        if i < before.trace.len() {
            assert(after.trace[i] == before.trace[i]);
            assert(turn(before.trace[i]) <= rank(before.state.stage));
        }
    }
}

/// A step keeps the trace grounded.
proof fn lemma_step_grounded(before: Run, e: EventView, staging_address: u32)
    requires
        in_order(before),
        faithful(before, staging_address),
        grounded(before),
    ensures
        grounded(
            Run { state: next(before.state, e).0, trace: before.trace.push(next(before.state, e).1) },
        ),
{
    let (state, action) = next(before.state, e);
    let t = before.trace;
    let n = t.len() as int;
    let after = Run { state, trace: t.push(action) };
    let here = Mark::ImageWrite { address: before.state.image_address };
    if seen(t, n, Mark::InitWrite) {
        lemma_seen_grows(t, n, Mark::InitWrite, action);
        lemma_seen_later(t.push(action), n, n + 1, Mark::InitWrite);
    }
    if seen(t, n, here) {
        lemma_seen_grows(t, n, here, action);
        lemma_seen_later(t.push(action), n, n + 1, here);
    }
    if seen(t, n, Mark::Jump) {
        lemma_seen_grows(t, n, Mark::Jump, action);
        lemma_seen_later(t.push(action), n, n + 1, Mark::Jump);
    }
    if seen(t, n, Mark::Stop) {
        lemma_seen_grows(t, n, Mark::Stop, action);
        lemma_seen_later(t.push(action), n, n + 1, Mark::Stop);
    }
    if action is WriteInitData {
        lemma_seen_last(t, Mark::InitWrite, action);
    }
    if action is WriteImage {
        lemma_seen_last(t, Mark::ImageWrite { address: state.image_address }, action);
    }
    if action is Jump {
        lemma_seen_last(t, Mark::Jump, action);
    }
    if action is RaiseStop {
        lemma_seen_last(t, Mark::Stop, action);
    }
    assert forall|j: int| 0 <= j < n + 1 implies match #[trigger] after.trace[j] {
        ActionView::WriteImage { .. } => state.mode == Mode::Cold ==> seen(
            after.trace,
            j,
            Mark::InitWrite,
        ),
        ActionView::Jump { address } => seen(after.trace, j, Mark::ImageWrite { address }),
        ActionView::PollReenumeration { .. } => seen(after.trace, j, Mark::Jump),
        ActionView::RaiseStop => seen(after.trace, j, Mark::Jump),
        ActionView::Exit { outcome } => outcome is Ok ==> seen(after.trace, j, Mark::Stop),
        _ => true,
    } by {
        if j < n {
            assert(after.trace[j] == t[j]);
            assert(turn(t[j]) <= rank(before.state.stage));
            match t[j] {
                ActionView::WriteImage { .. } => {
                    if state.mode == Mode::Cold {
                        lemma_seen_grows(t, j, Mark::InitWrite, action);
                    }
                },
                ActionView::Jump { address } => {
                    lemma_seen_grows(t, j, Mark::ImageWrite { address }, action);
                },
                ActionView::PollReenumeration { .. } => {
                    lemma_seen_grows(t, j, Mark::Jump, action);
                },
                ActionView::RaiseStop => {
                    lemma_seen_grows(t, j, Mark::Jump, action);
                },
                ActionView::Exit { outcome } => {
                    if outcome is Ok {
                        lemma_seen_grows(t, j, Mark::Stop, action);
                    }
                },
                _ => {},
            }
        } else {
            assert(after.trace[j] == action);
        }
    }
}

/// Every run is sound.
pub(crate) proof fn lemma_run_sound(args: Seq<Seq<char>>, staging_address: u32, events: Seq<EventView>)
    ensures
        sound(run(args, staging_address, events), staging_address),
    decreases events.len(),
{
    if events.len() == 0 {
        assert(events =~= Seq::empty());
        lemma_start_sound(args, staging_address);
    } else {
        let before = run(args, staging_address, events.drop_last());
        lemma_run_sound(args, staging_address, events.drop_last());
        lemma_step_in_order(before, events.last());
        lemma_step_faithful(before, events.last(), staging_address);
        lemma_step_grounded(before, events.last(), staging_address);
    }
}

/// A run told fewer events is the beginning of the run told all of them.
pub(crate) proof fn lemma_run_prefix(
    args: Seq<Seq<char>>,
    staging_address: u32,
    events: Seq<EventView>,
    k: int,
)
    requires
        0 <= k <= events.len(),
    ensures
        run(args, staging_address, events.take(k)).trace.len() == k + 1,
        run(args, staging_address, events).trace.len() == events.len() + 1,
        forall|i: int|
            0 <= i <= k ==> run(args, staging_address, events.take(k)).trace[i] == run(
                args,
                staging_address,
                events,
            ).trace[i],
        k < events.len() ==> run(args, staging_address, events).trace[k + 1] == next(
            run(args, staging_address, events.take(k)).state,
            events[k],
        ).1,
    decreases events.len(),
{
    if k == events.len() {
        assert(events.take(k) =~= events);
        if events.len() > 0 {
            lemma_run_prefix(args, staging_address, events.drop_last(), k - 1);
        }
    } else {
        lemma_run_prefix(args, staging_address, events.drop_last(), k);
        assert(events.drop_last().take(k) =~= events.take(k));
        if k == events.len() - 1 {
            assert(events.take(k) =~= events.drop_last());
        }
    }
}

/// Whether an event before `j` hands over the image with the given load
/// address and contents.
pub(crate) open spec fn built_before(
    args: Seq<Seq<char>>,
    staging_address: u32,
    events: Seq<EventView>,
    j: int,
    address: u32,
    bytes: Seq<u8>,
) -> bool {
    exists|k: int| k < j && #[trigger] built(args, staging_address, events, k, address, bytes)
}

/// Whether an event before `j` reports the device open at the given bus
/// address.
pub(crate) open spec fn opened_before(
    args: Seq<Seq<char>>,
    staging_address: u32,
    events: Seq<EventView>,
    j: int,
    bus_address: u8,
) -> bool {
    exists|k: int| k < j && #[trigger] opened(args, staging_address, events, k, bus_address)
}

/// An image handed over in a run is handed over in every longer run.
proof fn lemma_built_carries(
    args: Seq<Seq<char>>,
    staging_address: u32,
    events: Seq<EventView>,
    j: int,
    i: int,
    address: u32,
    bytes: Seq<u8>,
)
    requires
        events.len() > 0,
        built_before(args, staging_address, events.drop_last(), j, address, bytes),
        j <= i,
    ensures
        built_before(args, staging_address, events, i, address, bytes),
{
    let fewer = events.drop_last();
    let k = choose|k: int| k < j && #[trigger] built(args, staging_address, fewer, k, address, bytes);
    assert(fewer.take(k) =~= events.take(k));
    assert(built(args, staging_address, events, k, address, bytes));
}

/// A device reported open in a run is reported open in every longer run.
proof fn lemma_opened_carries(
    args: Seq<Seq<char>>,
    staging_address: u32,
    events: Seq<EventView>,
    j: int,
    i: int,
    bus_address: u8,
)
    requires
        events.len() > 0,
        opened_before(args, staging_address, events.drop_last(), j, bus_address),
        j <= i,
    ensures
        opened_before(args, staging_address, events, i, bus_address),
{
    let fewer = events.drop_last();
    let k = choose|k: int| k < j && #[trigger] opened(args, staging_address, fewer, k, bus_address);
    assert(fewer.take(k) =~= events.take(k));
    assert(opened(args, staging_address, events, k, bus_address));
}

/// What the state and the trace hold of the image and of the bus address
/// has been reported by the driver.
pub(crate) proof fn lemma_sources(args: Seq<Seq<char>>, staging_address: u32, events: Seq<EventView>)
    ensures
        5 <= rank(reached(args, staging_address, events).stage) <= 7 ==> built_before(
            args,
            staging_address,
            events,
            events.len() as int,
            reached(args, staging_address, events).image_address,
            reached(args, staging_address, events).image,
        ),
        3 <= rank(reached(args, staging_address, events).stage) <= 14 ==> opened_before(
            args,
            staging_address,
            events,
            events.len() as int,
            reached(args, staging_address, events).bus_address,
        ),
        forall|j: int|
            0 <= j < asked(args, staging_address, events).len() ==> match #[trigger] asked(
                args,
                staging_address,
                events,
            )[j] {
                ActionView::WriteImage { address, bytes } => built_before(
                    args,
                    staging_address,
                    events,
                    j,
                    address,
                    bytes,
                ),
                ActionView::PollReenumeration { bus_address } => opened_before(
                    args,
                    staging_address,
                    events,
                    j,
                    bus_address,
                ),
                _ => true,
            },
    decreases events.len(),
{
    if events.len() == 0 {
        assert(events =~= Seq::empty());
    } else {
        let n = events.len() - 1;
        let fewer = events.drop_last();
        let before = run(args, staging_address, fewer);
        let after = run(args, staging_address, events);
        let t = after.trace;
        lemma_sources(args, staging_address, fewer);
        lemma_run_prefix(args, staging_address, fewer, 0);
        assert(events.take(n) =~= fewer);
        if 5 <= rank(before.state.stage) <= 7 {
            lemma_built_carries(
                args,
                staging_address,
                events,
                n,
                n,
                before.state.image_address,
                before.state.image,
            );
            lemma_built_carries(
                args,
                staging_address,
                events,
                n,
                n + 1,
                before.state.image_address,
                before.state.image,
            );
        }
        if 3 <= rank(before.state.stage) <= 14 {
            lemma_opened_carries(args, staging_address, events, n, n, before.state.bus_address);
            lemma_opened_carries(
                args,
                staging_address,
                events,
                n,
                n + 1,
                before.state.bus_address,
            );
        }
        if before.state.stage == Stage::BuildingImage && events[n] is ImageBuilt {
            assert(built(
                args,
                staging_address,
                events,
                n,
                events[n]->address,
                events[n]->ImageBuilt_bytes,
            ));
        }
        if before.state.stage == Stage::Opening && events[n] is Opened {
            assert(opened(args, staging_address, events, n, events[n]->bus_address));
        }
        assert forall|j: int| 0 <= j < t.len() implies match #[trigger] t[j] {
            ActionView::WriteImage { address, bytes } => built_before(
                args,
                staging_address,
                events,
                j,
                address,
                bytes,
            ),
            ActionView::PollReenumeration { bus_address } => opened_before(
                args,
                staging_address,
                events,
                j,
                bus_address,
            ),
            _ => true,
        } by {
            if j <= n {
                assert(t[j] == before.trace[j]);
                match t[j] {
                    ActionView::WriteImage { address, bytes } => {
                        lemma_built_carries(args, staging_address, events, j, j, address, bytes);
                    },
                    ActionView::PollReenumeration { bus_address } => {
                        lemma_opened_carries(args, staging_address, events, j, j, bus_address);
                    },
                    _ => {},
                }
            }
        }
    }
}

/// Before the console mirror is told to stop, and from then on, the driver
/// has reported that the device left the bus and came back.
pub(crate) proof fn lemma_rebooted_before_stop(
    args: Seq<Seq<char>>,
    staging_address: u32,
    events: Seq<EventView>,
)
    ensures
        11 <= rank(reached(args, staging_address, events).stage) <= 14 ==> rebooted(
            events,
            events.len() as int,
        ),
        forall|j: int|
            0 <= j < asked(args, staging_address, events).len() && (#[trigger] asked(
                args,
                staging_address,
                events,
            )[j]) is RaiseStop ==> rebooted(events, j),
    decreases events.len(),
{
    if events.len() == 0 {
        assert(events =~= Seq::empty());
    } else {
        let n = events.len() - 1;
        let fewer = events.drop_last();
        let before = run(args, staging_address, fewer);
        let t = asked(args, staging_address, events);
        lemma_rebooted_before_stop(args, staging_address, fewer);
        lemma_run_prefix(args, staging_address, fewer, 0);
        if rebooted(fewer, n) {
            let k = choose|k: int|
                0 <= k < n && k < fewer.len() && (#[trigger] fewer[k]) == (
                EventView::Reenumerated { seen: true });
            assert(events[k] == fewer[k]);
            assert(rebooted(events, n + 1));
            assert(rebooted(events, n));
        }
        if before.state.stage == Stage::Polling && events[n] == (EventView::Reenumerated {
            seen: true,
        }) {
            assert(rebooted(events, n + 1));
        }
        assert forall|j: int| 0 <= j < t.len() && (#[trigger] t[j]) is RaiseStop implies rebooted(
            events,
            j,
        ) by {
            if j <= n {
                assert(t[j] == before.trace[j]);
                let k = choose|k: int|
                    0 <= k < j && k < fewer.len() && (#[trigger] fewer[k]) == (
                    EventView::Reenumerated { seen: true });
                assert(events[k] == fewer[k]);
            } else {
                assert(before.state.stage == Stage::Draining);
                let k = choose|k: int|
                    0 <= k < n && k < events.len() && (#[trigger] events[k]) == (
                    EventView::Reenumerated { seen: true });
                assert(0 <= k < j);
            }
        }
    }
}

} // verus!
