//! What holds of every run of the console mirror, whatever the driver
//! reports and in whatever order.
//!
//! A run is given by the events the mirror is told; [`asked`] is everything
//! it has asked for and [`reached`] is where it stands. Each law is stated of
//! all runs.
use crate::redirector::invariants::{lemma_run_prefix, lemma_run_sound};
use crate::redirector::model::{
    asked, checked_between, notices_stop, reached, received, told_at, written, ActionView,
    EventView, Stage, BAUD_RATE, BUFFER_SIZE, IDLE_MICROS, SERIAL_PATH, UNOPENED_WARNING,
};
use vstd::prelude::*;

verus! {

/// Every round is short: a sleep lasts the idle interval, a read asks for
/// one buffer at most, and a write is of one buffer at most. The port is
/// always the fixed one at the fixed speed, and the only warning is the one
/// about the port.
pub proof fn law_fixed_parameters(events: Seq<EventView>, i: int)
    requires
        0 <= i < asked(events).len(),
    ensures
        asked(events)[i] is Open ==> asked(events)[i] == (ActionView::Open {
            path: SERIAL_PATH@,
            baud_rate: BAUD_RATE,
        }),
        asked(events)[i] is Warn ==> asked(events)[i] == (ActionView::Warn {
            text: UNOPENED_WARNING@,
        }),
        asked(events)[i] is Sleep ==> asked(events)[i] == (ActionView::Sleep {
            micros: IDLE_MICROS,
        }),
        asked(events)[i] is Read ==> asked(events)[i] == (ActionView::Read {
            capacity: BUFFER_SIZE,
        }),
        asked(events)[i] is Write ==> asked(events)[i]->bytes.len() <= BUFFER_SIZE,
{
    lemma_run_sound(events);
}

/// A serial port that cannot be opened is no failure: the mirror warns and
/// then ends well, without ever using the port.
pub proof fn law_unopened_port_only_warns(events: Seq<EventView>)
    requires
        events.len() >= 1,
        events[0] is Failed,
    ensures
        asked(events)[1] == (ActionView::Warn { text: UNOPENED_WARNING@ }),
        reached(events) == Stage::Warning || reached(events) == Stage::Finished,
        forall|j: int|
            2 <= j < asked(events).len() ==> (#[trigger] asked(events)[j]) is Idle || asked(
                events,
            )[j] == (ActionView::Exit { outcome: Ok(()) }),
    decreases events.len(),
{
    lemma_run_prefix(events, 0);
    if events.len() == 1 {
        assert(events.drop_last() =~= Seq::empty());
    } else {
        let fewer = events.drop_last();
        law_unopened_port_only_warns(fewer);
        lemma_run_prefix(fewer, 0);
        let t = asked(events);
        assert(t[1] == asked(fewer)[1]);
        assert forall|j: int| 2 <= j < t.len() implies (#[trigger] t[j]) is Idle || t[j] == (
        ActionView::Exit { outcome: Ok(()) }) by {
            if j < asked(fewer).len() {
                assert(t[j] == asked(fewer)[j]);
            }
        }
    }
}

/// Once the mirror sees the stop signal raised it ends, at once and well: it
/// asks for nothing more, neither a read nor a write nor a sleep.
pub proof fn law_stop_ends_mirror(events: Seq<EventView>, k: int)
    requires
        notices_stop(events, k),
    ensures
        reached(events) == Stage::Finished,
        asked(events)[k + 1] == (ActionView::Exit { outcome: Ok(()) }),
        forall|j: int| k + 1 < j < asked(events).len() ==> (#[trigger] asked(events)[j]) is Idle,
{
    lemma_run_prefix(events, k);
    lemma_run_sound(events);
}

/// Nothing but idling follows the end of the mirror, and the mirror that has
/// ended stays so.
pub proof fn law_nothing_follows_exit(events: Seq<EventView>, i: int, j: int)
    requires
        0 <= i < j < asked(events).len(),
        asked(events)[i] is Exit,
    ensures
        asked(events)[j] is Idle,
        reached(events) == Stage::Finished,
{
    lemma_run_sound(events);
}

/// The port is used only while the stop signal is down, and as it says: the
/// mirror asks what has arrived only when it has just seen the signal down,
/// reads only when something has arrived, sleeps only when nothing has, and
/// writes only what it has just been handed.
pub proof fn law_rounds_follow_the_port(events: Seq<EventView>, j: int)
    requires
        0 <= j < asked(events).len(),
    ensures
        asked(events)[j] is QueryAvailable ==> told_at(events, j - 1, Stage::Checking) && events[j
            - 1] == (EventView::Stop { raised: false }),
        asked(events)[j] is Read ==> told_at(events, j - 1, Stage::Querying) && events[j
            - 1] is Available && events[j - 1]->count != 0,
        asked(events)[j] is Sleep ==> told_at(events, j - 1, Stage::Querying) && events[j - 1] == (
        EventView::Available { count: 0 }),
        asked(events)[j] is Write ==> told_at(events, j - 1, Stage::Reading) && events[j - 1] == (
        EventView::Data { bytes: asked(events)[j]->bytes }),
{
    lemma_run_prefix(events, 0);
    if j == 0 {
        assert(events.take(0) =~= Seq::empty());
    } else {
        lemma_run_prefix(events, j - 1);
    }
}

/// The stop signal is looked at before every round: between two sleeps, two
/// reads, two writes, or a sleep and a read, the mirror always looks at the
/// signal. The only work done back to back is one read and the write of what
/// was read.
pub proof fn law_stop_checked_every_round(events: Seq<EventView>, i: int, j: int)
    requires
        0 <= i < j < asked(events).len(),
        asked(events)[i].is_work(),
        asked(events)[j].is_work(),
    ensures
        checked_between(asked(events), i, j) || (asked(events)[i] is Read && asked(
            events,
        )[j] is Write),
{
    lemma_run_sound(events);
}

/// The mirror passes the console's bytes on as they came: what it asks to be
/// written, taken together, is what was read for it, in the same order, with
/// nothing added, dropped or repeated.
pub proof fn law_bytes_pass_unchanged(events: Seq<EventView>)
    ensures
        written(asked(events)) == received(events),
    decreases events.len(),
{
    if events.len() == 0 {
        assert(asked(events).drop_last() =~= Seq::empty());
        assert(written(asked(events).drop_last()) == Seq::<u8>::empty());
    } else {
        let fewer = events.drop_last();
        law_bytes_pass_unchanged(fewer);
        let t = asked(events);
        assert(t.drop_last() =~= asked(fewer));
        assert(events.take(events.len() - 1) =~= fewer);
    }
}

} // verus!
