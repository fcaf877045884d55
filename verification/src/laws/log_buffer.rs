//! The log buffer of this device.
use crate::laws::connection::is_failure;
use crate::laws::runs::{turn_after, Events};
use crate::level::LevelFilter;
use crate::proto::Request;
use crate::step::{Action, ActionView, Next, NextView, StepView, TaskView};
use crate::worker::{resumed, Event, EventView, SessionView, TurnView};
use vstd::prelude::*;

verus! {

/// The buffer is held while the task waits, or will be once the action that the task
/// waits for has succeeded.
pub open spec fn task_holds_log(task: TaskView) -> bool {
    task is LocalGetLog || task is LocalPullLog
}

/// Whether the buffer is held once the action has succeeded.
pub open spec fn holds_log_after(held: bool, action: ActionView) -> bool {
    match action {
        Action::AcquireLog => true,
        Action::ReleaseLog => false,
        _ => held,
    }
}

/// The action may be performed: the buffer is asked for only when it is not held,
/// emptied and given up only when it is, and never held while the next request is
/// waited for or this device is started anew.
pub open spec fn may_perform(held: bool, action: ActionView) -> bool {
    match action {
        Action::AcquireLog => !held,
        Action::ClearLog => held,
        Action::ReleaseLog => held,
        Action::ReadRequest => !held,
        Action::Reload => !held,
        _ => true,
    }
}

/// The actions may be performed one after the other, and then what follows.
pub open spec fn may_follow<T>(held: bool, actions: Seq<ActionView>, next: NextView<T>) -> bool
    decreases actions.len(),
{
    if actions.len() == 0 {
        match next {
            Next::Resume(task) => held == task_holds_log(task),
            Next::Return(Ok(_)) => !held,
            Next::Return(Err(_)) => true,
        }
    } else {
        may_perform(held, actions[0]) && may_follow(
            holds_log_after(held, actions[0]),
            actions.drop_first(),
            next,
        )
    }
}

/// At every moment of a connection the log buffer is used as it may be. `held` says
/// whether it is held once the action that is being performed has succeeded.
pub proof fn law_log_buffer_is_held_properly<T>(
    session: SessionView<T>,
    held: bool,
    level: LevelFilter,
    event: EventView<T>,
)
    requires
        may_follow(held, session.step.actions, session.step.next),
        session.accepts(event),
    ensures
        session.advance(level, event) matches TurnView::Perform { action, session: after } ==> {
            &&& may_perform(held, action)
            &&& may_follow(holds_log_after(held, action), after.step.actions, after.step.next)
        },
{
    if !is_failure(event) && session.step.actions.len() == 0 {
        if let Next::Resume(task) = session.step.next {
            lemma_steps_hold_log_properly(session, level, task, event);
        }
    }
}

/// A connection that has just been opened does not hold the log buffer.
pub proof fn law_opening_holds_no_log<T>(table: Option<Seq<Seq<u8>>>, capacity: nat)
    ensures
        may_follow(
            false,
            SessionView::<T>::opened(table, capacity).step.actions,
            SessionView::<T>::opened(table, capacity).step.next,
        ),
{
    reveal_with_fuel(may_follow, 3);
}

/// Each event up to the `n`-th can come of the action that is being performed when it
/// comes in.
pub open spec fn accepts_all<T>(session: SessionView<T>, events: Events<T>, n: nat) -> bool {
    &&& session.accepts(events[0].1)
    &&& forall|i: nat|
        i < n ==> match #[trigger] turn_after(session, events, i) {
            TurnView::Perform { session: after, .. } => after.accepts(events[i as int + 1].1),
            TurnView::Return(_) => true,
        }
}

/// After the `i`-th event the connection performs the action.
pub open spec fn performs_after<T>(
    session: SessionView<T>,
    events: Events<T>,
    i: int,
    action: ActionView,
) -> bool {
    &&& i >= 0
    &&& turn_after(session, events, i as nat) matches TurnView::Perform { action: performed, .. }
    &&& performed == action
}

/// The buffer was acquired with some content by the `i`-th event, and right after that
/// this content was sent to the host.
pub open spec fn sends_content<T>(session: SessionView<T>, events: Events<T>, i: int) -> bool {
    &&& performs_after(session, events, i - 1, ActionView::AcquireLog)
    &&& events[i].1 matches Event::Log { empty, content }
    &&& !empty
    &&& performs_after(session, events, i, ActionView::SendString(content))
}

/// The host asked for the log to be emptied by the `i`-th event, and right after that
/// the buffer was asked for.
pub open spec fn is_asked_to_clear<T>(session: SessionView<T>, events: Events<T>, i: int) -> bool {
    &&& i >= 0
    &&& events[i].1 == EventView::<T>::Request(Request::ClearLog)
    &&& performs_after(session, events, i, ActionView::AcquireLog)
}

/// Nothing of the log is lost: over a whole connection the buffer is emptied only on
/// the request to do so, or after what it held when it was acquired has been sent to the
/// host, with at most a wait for the acknowledgement of the host in between.
pub proof fn law_log_is_sent_before_it_is_cleared<T>(
    table: Option<Seq<Seq<u8>>>,
    capacity: nat,
    events: Events<T>,
    i: nat,
)
    requires
        accepts_all(SessionView::<T>::opened(table, capacity), events, i),
        performs_after(
            SessionView::<T>::opened(table, capacity),
            events,
            i as int,
            ActionView::ClearLog,
        ),
    ensures
        ({
            let opened = SessionView::<T>::opened(table, capacity);
            ||| is_asked_to_clear(opened, events, i - 1)
            ||| sends_content(opened, events, i - 1)
            ||| performs_after(opened, events, i - 1, ActionView::Flush) && sends_content(
                opened,
                events,
                i - 2,
            )
        }),
{
    lemma_clearing_is_prepared(table, capacity, events, i);
}

/// The step is about to empty the buffer.
spec fn clears<T>(step: StepView<T>) -> bool {
    exists|j: int| 0 <= j < step.actions.len() && #[trigger] step.actions[j] is ClearLog
}

/// What is known after the `i`-th event of a connection that is about to empty the
/// buffer, or to take it for the host.
spec fn is_prepared<T>(opened: SessionView<T>, events: Events<T>, i: nat) -> bool {
    turn_after(opened, events, i) matches TurnView::Perform { action, session } ==> {
        let actions = session.step.actions;
        &&& clears(session.step) ==> {
            ||| actions.len() == 3 && actions[0] is ClearLog && !(actions[1] is ClearLog) && !(
            actions[2] is ClearLog) && is_asked_to_clear(opened, events, i as int)
            ||| actions.len() == 2 && actions[0] is ClearLog && !(actions[1] is ClearLog) && (
            sends_content(opened, events, i as int) || performs_after(
                opened,
                events,
                i as int,
                ActionView::Flush,
            ) && sends_content(opened, events, i - 1))
            ||| actions.len() == 3 && actions[0] is Flush && actions[1] is ClearLog && !(
            actions[2] is ClearLog) && sends_content(opened, events, i as int)
        }
        &&& session.step.next matches Next::Resume(task) ==> task is LocalPullLog
            ==> actions.len() == 0 && action is AcquireLog
        &&& action is ClearLog ==> {
            ||| is_asked_to_clear(opened, events, i - 1)
            ||| sends_content(opened, events, i - 1)
            ||| performs_after(opened, events, i - 1, ActionView::Flush) && sends_content(
                opened,
                events,
                i - 2,
            )
        }
    }
}

proof fn lemma_clearing_is_prepared<T>(
    table: Option<Seq<Seq<u8>>>,
    capacity: nat,
    events: Events<T>,
    i: nat,
)
    requires
        accepts_all(SessionView::<T>::opened(table, capacity), events, i),
    ensures
        is_prepared(SessionView::<T>::opened(table, capacity), events, i),
    decreases i,
{
    let opened = SessionView::<T>::opened(table, capacity);
    if i > 0 {
        let before = turn_after(opened, events, (i - 1) as nat);
        let event = events[i as int].1;
        assert forall|k: nat| k < i - 1 implies match #[trigger] turn_after(opened, events, k) {
            TurnView::Perform { session: after, .. } => after.accepts(events[k as int + 1].1),
            TurnView::Return(_) => true,
        } by {}
        lemma_clearing_is_prepared(table, capacity, events, (i - 1) as nat);
        if before is Perform && !is_failure(event) {
            let session = before->session;
            let actions = session.step.actions;
            assert(session.accepts(event));
            if actions.len() > 0 {
                assert(forall|j: int|
                    0 <= j < actions.drop_first().len() ==> #[trigger] actions.drop_first()[j]
                        == actions[j + 1]);
                if clears(StepView::<T> { actions: actions.drop_first(), next: session.step.next }) {
                    assert(clears(session.step));
                }
                if actions[0] is ClearLog {
                    assert(clears(session.step));
                }
            } else if let Next::Resume(task) = session.step.next {
                let step = resumed(session.route(), session.capacity, events[i as int].0, task, event);
                assert(step.actions.len() > 0 ==> forall|j: int|
                    0 <= j < step.actions.drop_first().len()
                        ==> #[trigger] step.actions.drop_first()[j] == step.actions[j + 1]);
            }
        }
    }
}

proof fn lemma_steps_hold_log_properly<T>(
    session: SessionView<T>,
    level: LevelFilter,
    task: TaskView,
    event: EventView<T>,
)
    requires
        session.can_take(task, event),
        !is_failure(event),
    ensures
        ({
            let step = resumed(session.route(), session.capacity, level, task, event);
            may_follow(task_holds_log(task), step.actions, step.next)
        }),
{
    reveal_with_fuel(may_follow, 5);
}

} // verus!
