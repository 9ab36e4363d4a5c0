//! What holds of every run of the boot sequence, whatever the driver reports
//! and in whatever order.
//!
//! A run is given by the arguments it begins with and the events it is told;
//! [`asked`] is everything it has asked for and [`reached`] is where it
//! stands. Each law is stated of all runs.
use crate::error::BootErrorView;
use crate::orchestrator::invariants::{
    bears, lemma_rebooted_before_stop, lemma_run_prefix, lemma_run_sound, lemma_sources,
    repeatable, seen, turn, Mark,
};
use crate::orchestrator::model::{
    answered, asked, built, opened, reached, rebooted, run, told_at, ActionView, EventView, Mode,
    Stage,
};
use vstd::prelude::*;

verus! {

/// With anything but exactly one argument the run is over at once, with an
/// invocation error, and never asks for anything that reaches a file, the
/// device, the console or the clock.
pub proof fn law_wrong_invocation_touches_nothing(
    args: Seq<Seq<char>>,
    staging_address: u32,
    events: Seq<EventView>,
)
    requires
        args.len() != 1,
    ensures
        reached(args, staging_address, events).stage == Stage::Finished,
        asked(args, staging_address, events)[0] == (ActionView::Exit {
            outcome: Err(BootErrorView::Invocation),
        }),
        forall|i: int|
            0 <= i < asked(args, staging_address, events).len() ==> !(#[trigger] asked(
                args,
                staging_address,
                events,
            )[i]).reaches_outside(),
    decreases events.len(),
{
    if events.len() > 0 {
        law_wrong_invocation_touches_nothing(args, staging_address, events.drop_last());
        let before = run(args, staging_address, events.drop_last());
        let t = asked(args, staging_address, events);
        assert(t[0] == before.trace[0]);
        assert forall|i: int| 0 <= i < t.len() implies !(#[trigger] t[i]).reaches_outside() by {
            if i < before.trace.len() {
                assert(t[i] == before.trace[i]);
            }
        }
    }
}

/// The boot image is always built without initialization data, whatever the
/// mode: the data, where it is needed, travels on its own.
pub proof fn law_image_built_without_init_data(
    args: Seq<Seq<char>>,
    staging_address: u32,
    events: Seq<EventView>,
)
    ensures
        forall|i: int|
            0 <= i < asked(args, staging_address, events).len() && (#[trigger] asked(
                args,
                staging_address,
                events,
            )[i]) is BuildImage ==> asked(args, staging_address, events)[i]->skip_init_data,
{
    lemma_run_sound(args, staging_address, events);
}

/// The mode of a run is what the driver answered when it was asked about the
/// cold-boot toggle: cold if the toggle was set, warm if it was not, and
/// undecided as long as there is no answer.
pub proof fn law_mode_follows_toggle(
    args: Seq<Seq<char>>,
    staging_address: u32,
    events: Seq<EventView>,
)
    ensures
        reached(args, staging_address, events).mode == Mode::Cold <==> exists|k: int|
            #[trigger] answered(args, staging_address, events, k, true),
        reached(args, staging_address, events).mode == Mode::Warm <==> exists|k: int|
            #[trigger] answered(args, staging_address, events, k, false),
    decreases events.len(),
{
    if events.len() == 0 {
        assert(events =~= Seq::empty());
    } else {
        let n = events.len() - 1;
        let fewer = events.drop_last();
        let before = run(args, staging_address, fewer);
        law_mode_follows_toggle(args, staging_address, fewer);
        lemma_run_sound(args, staging_address, fewer);
        assert(events.take(n) =~= fewer);
        assert forall|k: int, requested: bool|
            #[trigger] answered(args, staging_address, fewer, k, requested) <==> k < n && answered(
                args,
                staging_address,
                events,
                k,
                requested,
            ) by {
            if 0 <= k < n {
                assert(fewer.take(k) =~= events.take(k));
            }
        }
        let cold = reached(args, staging_address, events).mode == Mode::Cold;
        let warm = reached(args, staging_address, events).mode == Mode::Warm;
        if before.state.stage == Stage::QueryingMode && events[n] is ColdBoot {
            let requested = events[n]->requested;
            assert(answered(args, staging_address, events, n, requested));
            assert(before.state.mode == Mode::Undecided);
            let other = !requested;
            assert forall|k: int| !#[trigger] answered(args, staging_address, events, k, other) by {
                if answered(args, staging_address, events, k, other) {
                    assert(k < n);
                    assert(answered(args, staging_address, fewer, k, other));
                }
            }
        } else {
            if cold {
                let k = choose|k: int| answered(args, staging_address, fewer, k, true);
                assert(answered(args, staging_address, events, k, true));
            }
            if warm {
                let k = choose|k: int| answered(args, staging_address, fewer, k, false);
                assert(answered(args, staging_address, events, k, false));
            }
            assert forall|k: int, requested: bool| #[trigger]
                answered(args, staging_address, events, k, requested) implies answered(
                args,
                staging_address,
                fewer,
                k,
                requested,
            ) by {
                assert(k != n);
            }
        }
    }
}

/// Initialization data is written on a cold boot only, and only to the
/// staging address: a run that is not a cold boot never asks for such a write.
pub proof fn law_init_data_written_on_cold_boot_only(
    args: Seq<Seq<char>>,
    staging_address: u32,
    events: Seq<EventView>,
)
    ensures
        forall|i: int|
            0 <= i < asked(args, staging_address, events).len() && (#[trigger] asked(
                args,
                staging_address,
                events,
            )[i]) is WriteInitData ==> reached(args, staging_address, events).mode == Mode::Cold
                && asked(args, staging_address, events)[i]->WriteInitData_address
                == staging_address,
{
    lemma_run_sound(args, staging_address, events);
}

/// On a cold boot the image is written only after initialization data has
/// been written to the staging address.
pub proof fn law_cold_boot_writes_init_data_first(
    args: Seq<Seq<char>>,
    staging_address: u32,
    events: Seq<EventView>,
    j: int,
)
    requires
        0 <= j < asked(args, staging_address, events).len(),
        asked(args, staging_address, events)[j] is WriteImage,
        reached(args, staging_address, events).mode == Mode::Cold,
    ensures
        exists|i: int|
            0 <= i < j && (#[trigger] asked(args, staging_address, events)[i]) is WriteInitData
                && asked(args, staging_address, events)[i]->WriteInitData_address
                == staging_address,
{
    lemma_run_sound(args, staging_address, events);
    let t = asked(args, staging_address, events);
    assert(seen(t, j, Mark::InitWrite));
    let i = choose|i: int| 0 <= i < j && i < t.len() && bears(#[trigger] t[i], Mark::InitWrite);
    assert(t[i] is WriteInitData);
}

/// The image is written once at most, to the load address it declares, and
/// on a boot that is not cold nothing else is written to the device. So
/// unless the image itself loads at the staging address, a warm boot writes
/// nothing there.
pub proof fn law_warm_boot_leaves_staging_alone(
    args: Seq<Seq<char>>,
    staging_address: u32,
    events: Seq<EventView>,
)
    requires
        reached(args, staging_address, events).mode != Mode::Cold,
        reached(args, staging_address, events).image_address != staging_address,
    ensures
        forall|i: int|
            0 <= i < asked(args, staging_address, events).len() ==> !(#[trigger] asked(
                args,
                staging_address,
                events,
            )[i]).writes_to(staging_address),
{
    lemma_run_sound(args, staging_address, events);
}

/// The device gets what was built: the image that is written is the image
/// that the driver built when asked, byte for byte, and goes to the load
/// address that came with it.
pub proof fn law_image_written_as_built(
    args: Seq<Seq<char>>,
    staging_address: u32,
    events: Seq<EventView>,
    j: int,
)
    requires
        0 <= j < asked(args, staging_address, events).len(),
        asked(args, staging_address, events)[j] is WriteImage,
    ensures
        exists|k: int|
            k < j && #[trigger] built(
                args,
                staging_address,
                events,
                k,
                asked(args, staging_address, events)[j]->WriteImage_address,
                asked(args, staging_address, events)[j]->WriteImage_bytes,
            ),
{
    lemma_sources(args, staging_address, events);
}

/// No jump without the image: whenever the device is told to run what is at
/// an address, the image has been written to that very address before.
pub proof fn law_image_written_before_jump(
    args: Seq<Seq<char>>,
    staging_address: u32,
    events: Seq<EventView>,
    j: int,
)
    requires
        0 <= j < asked(args, staging_address, events).len(),
        asked(args, staging_address, events)[j] is Jump,
    ensures
        exists|i: int|
            0 <= i < j && (#[trigger] asked(args, staging_address, events)[i]) is WriteImage
                && asked(args, staging_address, events)[i]->WriteImage_address == asked(
                args,
                staging_address,
                events,
            )[j]->Jump_address,
{
    lemma_run_sound(args, staging_address, events);
    let t = asked(args, staging_address, events);
    let mark = Mark::ImageWrite { address: t[j]->Jump_address };
    assert(seen(t, j, mark));
    let i = choose|i: int| 0 <= i < j && i < t.len() && bears(#[trigger] t[i], mark);
    assert(t[i] is WriteImage);
}

/// Whatever is written to the device comes before the jump, and the jump
/// before the wait for the device's return: every write of initialization
/// data stands before every write of the image, every write of the image
/// before every jump, and every jump before every look at the bus.
pub proof fn law_writes_precede_jump(
    args: Seq<Seq<char>>,
    staging_address: u32,
    events: Seq<EventView>,
    i: int,
    j: int,
)
    requires
        0 <= i < asked(args, staging_address, events).len(),
        0 <= j < asked(args, staging_address, events).len(),
    ensures
        asked(args, staging_address, events)[i] is WriteInitData && asked(
            args,
            staging_address,
            events,
        )[j] is WriteImage ==> i < j,
        asked(args, staging_address, events)[i] is WriteImage && asked(
            args,
            staging_address,
            events,
        )[j] is Jump ==> i < j,
        asked(args, staging_address, events)[i] is Jump && asked(
            args,
            staging_address,
            events,
        )[j] is PollReenumeration ==> i < j,
{
    lemma_run_sound(args, staging_address, events);
    let t = asked(args, staging_address, events);
    if t[j] is PollReenumeration && t[i] is Jump && j < i {
        lemma_run_prefix(args, staging_address, events, j);
        let part = run(args, staging_address, events.take(j));
        lemma_run_sound(args, staging_address, events.take(j));
        assert(part.trace[j] == t[j]);
        assert(seen(part.trace, j, Mark::Jump));
        let k = choose|k: int|
            0 <= k < j && k < part.trace.len() && bears(#[trigger] part.trace[k], Mark::Jump);
        assert(part.trace[k] == t[k]);
        assert(!repeatable(t[k]) && !repeatable(t[i]));
    }
}

/// Each step on the device waits for the one before it to be reported done.
/// Initialization data is written when it has been built, and is what was
/// built; the image is written when the driver has said that the boot is
/// warm, or that the initialization data is written; the jump is asked for
/// when the image is written; the bus is looked at when the jump is done, or
/// a wait is over; and the console mirror is told to stop when the wait
/// after the device's return is over.
pub proof fn law_steps_wait_for_completion(
    args: Seq<Seq<char>>,
    staging_address: u32,
    events: Seq<EventView>,
    j: int,
)
    requires
        0 <= j < asked(args, staging_address, events).len(),
    ensures
        asked(args, staging_address, events)[j] is WriteInitData ==> told_at(
            args,
            staging_address,
            events,
            j - 1,
            Stage::BuildingInitData,
        ) && events[j - 1] == (EventView::InitDataBuilt {
            bytes: asked(args, staging_address, events)[j]->WriteInitData_bytes,
        }),
        asked(args, staging_address, events)[j] is WriteImage ==> (told_at(
            args,
            staging_address,
            events,
            j - 1,
            Stage::WritingInitData,
        ) && events[j - 1] == EventView::Done) || (told_at(
            args,
            staging_address,
            events,
            j - 1,
            Stage::QueryingMode,
        ) && events[j - 1] == (EventView::ColdBoot { requested: false })),
        asked(args, staging_address, events)[j] is Jump ==> told_at(
            args,
            staging_address,
            events,
            j - 1,
            Stage::WritingImage,
        ) && events[j - 1] == EventView::Done,
        asked(args, staging_address, events)[j] is PollReenumeration ==> (told_at(
            args,
            staging_address,
            events,
            j - 1,
            Stage::Jumping,
        ) || told_at(args, staging_address, events, j - 1, Stage::Waiting)) && events[j - 1]
            == EventView::Done,
        asked(args, staging_address, events)[j] is RaiseStop ==> told_at(
            args,
            staging_address,
            events,
            j - 1,
            Stage::Draining,
        ) && events[j - 1] == EventView::Done,
{
    lemma_run_prefix(args, staging_address, events, 0);
    if j == 0 {
        assert(events.take(0) =~= Seq::empty());
    } else {
        lemma_run_prefix(args, staging_address, events, j - 1);
    }
}

/// The bus is looked at only after the jump, and always for the bus address
/// the device had when it was opened.
pub proof fn law_polling_follows_jump(
    args: Seq<Seq<char>>,
    staging_address: u32,
    events: Seq<EventView>,
    j: int,
)
    requires
        0 <= j < asked(args, staging_address, events).len(),
        asked(args, staging_address, events)[j] is PollReenumeration,
    ensures
        asked(args, staging_address, events)[j]->PollReenumeration_bus_address == reached(
            args,
            staging_address,
            events,
        ).bus_address,
        exists|i: int| 0 <= i < j && (#[trigger] asked(args, staging_address, events)[i]) is Jump,
{
    lemma_run_sound(args, staging_address, events);
    let t = asked(args, staging_address, events);
    assert(seen(t, j, Mark::Jump));
    let i = choose|i: int| 0 <= i < j && i < t.len() && bears(#[trigger] t[i], Mark::Jump);
    assert(t[i] is Jump);
}

/// The bus is watched for the device that was opened: every look at the bus
/// asks for the bus address that the driver reported when it opened the
/// device.
pub proof fn law_polls_watch_opened_device(
    args: Seq<Seq<char>>,
    staging_address: u32,
    events: Seq<EventView>,
    j: int,
)
    requires
        0 <= j < asked(args, staging_address, events).len(),
        asked(args, staging_address, events)[j] is PollReenumeration,
    ensures
        exists|k: int|
            k < j && #[trigger] opened(
                args,
                staging_address,
                events,
                k,
                asked(args, staging_address, events)[j]->PollReenumeration_bus_address,
            ),
{
    lemma_sources(args, staging_address, events);
}

/// Each step of the sequence but looking at the bus and sleeping is asked
/// for once at most in a run. In particular the console mirror is told to
/// stop once at most (and nothing a run can ask for takes that back), and
/// the device is written to and started once at most.
pub proof fn law_asked_once(
    args: Seq<Seq<char>>,
    staging_address: u32,
    events: Seq<EventView>,
    i: int,
    j: int,
)
    requires
        0 <= i < asked(args, staging_address, events).len(),
        0 <= j < asked(args, staging_address, events).len(),
        i != j,
    ensures
        !(asked(args, staging_address, events)[i] is RaiseStop && asked(
            args,
            staging_address,
            events,
        )[j] is RaiseStop),
        !(asked(args, staging_address, events)[i] is WriteInitData && asked(
            args,
            staging_address,
            events,
        )[j] is WriteInitData),
        !(asked(args, staging_address, events)[i] is WriteImage && asked(
            args,
            staging_address,
            events,
        )[j] is WriteImage),
        !(asked(args, staging_address, events)[i] is Jump && asked(
            args,
            staging_address,
            events,
        )[j] is Jump),
        !(asked(args, staging_address, events)[i] is BuildImage && asked(
            args,
            staging_address,
            events,
        )[j] is BuildImage),
        !(asked(args, staging_address, events)[i] is StartConsole && asked(
            args,
            staging_address,
            events,
        )[j] is StartConsole),
        !(asked(args, staging_address, events)[i] is Exit && asked(
            args,
            staging_address,
            events,
        )[j] is Exit),
{
    lemma_run_sound(args, staging_address, events);
    let t = asked(args, staging_address, events);
    if i < j {
        assert(!repeatable(t[i]) && !repeatable(t[j]) ==> turn(t[i]) < turn(t[j]));
    } else {
        assert(!repeatable(t[j]) && !repeatable(t[i]) ==> turn(t[j]) < turn(t[i]));
    }
}

/// A run ends well only after the console mirror has been told to stop, and
/// the mirror is told to stop only after the jump.
pub proof fn law_success_follows_stop(
    args: Seq<Seq<char>>,
    staging_address: u32,
    events: Seq<EventView>,
    j: int,
)
    requires
        0 <= j < asked(args, staging_address, events).len(),
    ensures
        asked(args, staging_address, events)[j] == (ActionView::Exit { outcome: Ok(()) })
            ==> exists|i: int|
            0 <= i < j && (#[trigger] asked(args, staging_address, events)[i]) is RaiseStop,
        asked(args, staging_address, events)[j] is RaiseStop ==> exists|i: int|
            0 <= i < j && (#[trigger] asked(args, staging_address, events)[i]) is Jump,
{
    lemma_run_sound(args, staging_address, events);
    let t = asked(args, staging_address, events);
    if t[j] == (ActionView::Exit { outcome: Ok(()) }) {
        assert(seen(t, j, Mark::Stop));
        let i = choose|i: int| 0 <= i < j && i < t.len() && bears(#[trigger] t[i], Mark::Stop);
        assert(t[i] is RaiseStop);
    }
    if t[j] is RaiseStop {
        assert(seen(t, j, Mark::Jump));
        let i = choose|i: int| 0 <= i < j && i < t.len() && bears(#[trigger] t[i], Mark::Jump);
        assert(t[i] is Jump);
    }
}

/// A run ends well only after the driver has reported that the device left
/// the bus and came back; before that report the console mirror is not told
/// to stop either.
pub proof fn law_success_needs_reenumeration(
    args: Seq<Seq<char>>,
    staging_address: u32,
    events: Seq<EventView>,
    j: int,
)
    requires
        0 <= j < asked(args, staging_address, events).len(),
        asked(args, staging_address, events)[j] is RaiseStop || asked(
            args,
            staging_address,
            events,
        )[j] == (ActionView::Exit { outcome: Ok(()) }),
    ensures
        rebooted(events, j),
{
    lemma_rebooted_before_stop(args, staging_address, events);
    lemma_run_sound(args, staging_address, events);
    let t = asked(args, staging_address, events);
    if !(t[j] is RaiseStop) {
        assert(seen(t, j, Mark::Stop));
        let i = choose|i: int| 0 <= i < j && i < t.len() && bears(#[trigger] t[i], Mark::Stop);
        assert(rebooted(events, i));
        let k = choose|k: int|
            0 <= k < i && k < events.len() && (#[trigger] events[k]) == (EventView::Reenumerated {
                seen: true,
            });
        assert(0 <= k < j);
    }
}

} // verus!
