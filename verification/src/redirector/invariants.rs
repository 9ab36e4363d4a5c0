//! What every run of the mirror keeps true from one step to the next, and
//! the inductions that show it. The laws rest on these.
use crate::redirector::model::{
    checked_between, next, run, ActionView, EventView, Run, Stage, BAUD_RATE, BUFFER_SIZE,
    IDLE_MICROS, SERIAL_PATH, UNOPENED_WARNING,
};
use vstd::prelude::*;

verus! {

/// Whatever has been asked for since the stop signal was last looked at is
/// what the stage reached allows, and two pieces of work with no look at the
/// signal between them are a read and the write of what was read.
pub(crate) open spec fn paced(r: Run) -> bool {
    let t = r.trace;
    let n = r.trace.len() as int;
    &&& forall|i: int|
        0 <= i < n && (#[trigger] t[i]).is_work() && !checked_between(t, i, n) ==> match r.stage {
            Stage::Sleeping => t[i] is Sleep,
            Stage::Reading => t[i] is Read,
            Stage::Writing => true,
            Stage::Finished => true,
            _ => false,
        }
    &&& forall|i: int, j: int|
        0 <= i < j < n && (#[trigger] t[i]).is_work() && (#[trigger] t[j]).is_work()
            ==> checked_between(t, i, j) || (t[i] is Read && t[j] is Write)
}

/// Every action in the trace has the fixed parameters, and nothing but
/// idling follows the end.
pub(crate) open spec fn plain(r: Run) -> bool {
    let t = r.trace;
    &&& t.len() >= 1
    &&& forall|i: int|
        0 <= i < t.len() ==> match #[trigger] t[i] {
            ActionView::Open { path, baud_rate } => path == SERIAL_PATH@ && baud_rate == BAUD_RATE,
            ActionView::Warn { text } => text == UNOPENED_WARNING@,
            ActionView::Read { capacity } => capacity == BUFFER_SIZE,
            ActionView::Write { bytes } => bytes.len() <= BUFFER_SIZE,
            ActionView::Sleep { micros } => micros == IDLE_MICROS,
            ActionView::Exit { .. } => r.stage == Stage::Finished,
            _ => true,
        }
    &&& forall|i: int, j: int|
        0 <= i < j < t.len() && (#[trigger] t[i]) is Exit ==> (#[trigger] t[j]) is Idle
}

/// A look at the stop signal between two actions is still there when the
/// trace grows.
proof fn lemma_checked_grows(t: Seq<ActionView>, i: int, j: int, a: ActionView)
    requires
        0 <= i,
        checked_between(t, i, j),
    ensures
        checked_between(t.push(a), i, j),
        checked_between(t.push(a), i, j + 1),
{
    let k = choose|k: int| i < k < j && k < t.len() && (#[trigger] t[k]) is CheckStop;
    assert(t.push(a)[k] == t[k]);
}

/// A step keeps the trace paced.
proof fn lemma_step_paced(before: Run, e: EventView)
    requires
        paced(before),
    ensures
        paced(Run { stage: next(before.stage, e).0, trace: before.trace.push(next(before.stage, e).1) }),
{
    let (stage, action) = next(before.stage, e);
    let t = before.trace;
    let n = t.len() as int;
    let after = Run { stage, trace: t.push(action) };
    assert forall|i: int|
        0 <= i < n + 1 && (#[trigger] after.trace[i]).is_work() && !checked_between(
            after.trace,
            i,
            n + 1,
        ) implies match stage {
        Stage::Sleeping => after.trace[i] is Sleep,
        Stage::Reading => after.trace[i] is Read,
        Stage::Writing => true,
        Stage::Finished => true,
        _ => false,
    } by {
        if i < n {
            assert(after.trace[i] == t[i]);
            if action is CheckStop {
                assert(after.trace[n] is CheckStop);
            } else if checked_between(t, i, n) {
                lemma_checked_grows(t, i, n, action);
            }
        } else {
            assert(after.trace[i] == action);
        }
    }
    assert forall|i: int, j: int|
        0 <= i < j < n + 1 && (#[trigger] after.trace[i]).is_work() && (
        #[trigger] after.trace[j]).is_work() implies checked_between(after.trace, i, j) || (
    after.trace[i] is Read && after.trace[j] is Write) by {
        assert(after.trace[i] == t[i]);
        if j < n {
            assert(after.trace[j] == t[j]);
            if checked_between(t, i, j) {
                lemma_checked_grows(t, i, j, action);
            }
        } else {
            assert(after.trace[j] == action);
            if checked_between(t, i, n) {
                lemma_checked_grows(t, i, n, action);
            }
        }
    }
}

/// A step keeps the trace plain.
proof fn lemma_step_plain(before: Run, e: EventView)
    requires
        plain(before),
    ensures
        plain(Run { stage: next(before.stage, e).0, trace: before.trace.push(next(before.stage, e).1) }),
{
    let (stage, action) = next(before.stage, e);
    let t = before.trace;
    let after = Run { stage, trace: t.push(action) };
    assert forall|i: int| 0 <= i < after.trace.len() implies match #[trigger] after.trace[i] {
        ActionView::Open { path, baud_rate } => path == SERIAL_PATH@ && baud_rate == BAUD_RATE,
        ActionView::Warn { text } => text == UNOPENED_WARNING@,
        ActionView::Read { capacity } => capacity == BUFFER_SIZE,
        ActionView::Write { bytes } => bytes.len() <= BUFFER_SIZE,
        ActionView::Sleep { micros } => micros == IDLE_MICROS,
        ActionView::Exit { .. } => stage == Stage::Finished,
        _ => true,
    } by {
        if i < t.len() {
            assert(after.trace[i] == t[i]);
        }
    }
    assert forall|i: int, j: int|
        0 <= i < j < after.trace.len() && (#[trigger] after.trace[i]) is Exit implies (
    #[trigger] after.trace[j]) is Idle by {
        assert(after.trace[i] == t[i]);
        if j < t.len() {
            assert(after.trace[j] == t[j]);
        }
    }
}

/// Every run of the mirror is paced and plain.
pub(crate) proof fn lemma_run_sound(events: Seq<EventView>)
    ensures
        paced(run(events)),
        plain(run(events)),
        run(events).trace.len() == events.len() + 1,
    decreases events.len(),
{
    if events.len() == 0 {
        assert(events =~= Seq::empty());
    } else {
        lemma_run_sound(events.drop_last());
        lemma_step_paced(run(events.drop_last()), events.last());
        lemma_step_plain(run(events.drop_last()), events.last());
    }
}

/// A run told fewer events is the beginning of the run told all of them.
pub(crate) proof fn lemma_run_prefix(events: Seq<EventView>, k: int)
    requires
        0 <= k <= events.len(),
    ensures
        run(events.take(k)).trace.len() == k + 1,
        run(events).trace.len() == events.len() + 1,
        forall|i: int| 0 <= i <= k ==> run(events.take(k)).trace[i] == run(events).trace[i],
        k < events.len() ==> run(events).trace[k + 1] == next(
            run(events.take(k)).stage,
            events[k],
        ).1,
    decreases events.len(),
{
    if k == events.len() {
        assert(events.take(k) =~= events);
        if events.len() > 0 {
            lemma_run_prefix(events.drop_last(), k - 1);
        }
    } else {
        lemma_run_prefix(events.drop_last(), k);
        assert(events.drop_last().take(k) =~= events.take(k));
        if k == events.len() - 1 {
            assert(events.take(k) =~= events.drop_last());
        }
    }
}

} // verus!
