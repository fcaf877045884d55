//! How a connection opens, goes on and ends.
use crate::level::LevelFilter;
use crate::listener::reported;
use crate::proto::{Error, IoError};
use crate::step::{Action, ActionView, Next, NextView, StepView, Task, TaskView};
use crate::worker::{resumed, Event, EventView, SessionView, TurnView};
use vstd::prelude::*;

verus! {

/// The event ends the connection.
pub open spec fn is_failure<T>(event: EventView<T>) -> bool {
    event is Interrupted || event is Failed
}

/// A connection ends only by a failure: it never returns successfully.
pub proof fn law_never_returns_ok<T>(session: SessionView<T>, level: LevelFilter, event: EventView<T>)
    ensures
        session.advance(level, event) matches TurnView::Return(result) ==> result is Err,
{
}

/// A failure of any action ends the connection at once, with that failure as the
/// reason. An interruption by the scheduler counts as a failure of input or output.
pub proof fn law_failure_ends_connection<T>(
    session: SessionView<T>,
    level: LevelFilter,
    event: EventView<T>,
)
    ensures
        event matches Event::Failed(error) ==> session.advance(level, event) == TurnView::<T>::Return(
            Err(error),
        ),
        event matches Event::Interrupted(error) ==> session.advance(level, event) == TurnView::<
            T,
        >::Return(Err(Error::Io(IoError::Other(error.0)))),
{
}

/// The limit of what is logged has no influence on a connection, except where it is
/// read: where the local log buffer is about to be asked for as part of an endless
/// transmission.
pub proof fn law_level_matters_only_to_pull_log<T>(
    session: SessionView<T>,
    level: LevelFilter,
    other: LevelFilter,
    event: EventView<T>,
)
    requires
        session.accepts(event),
        session.advance(level, event) != session.advance(other, event),
    ensures
        session.advance(level, event) matches TurnView::Perform { action, session: after }
            && action is AcquireLog && after.step.next == NextView::<T>::Resume(
            Task::LocalPullLog(level),
        ),
        session.reads_limit(event),
{
}

/// A connection that has just been opened is about to read the magic string and the
/// number of the device, and to greet the host when it has the number. It keeps the
/// table and the size of a payload that it was given.
pub proof fn law_opened<T>(table: Option<Seq<Seq<u8>>>, capacity: nat)
    ensures
        ({
            let opened = SessionView::<T>::opened(table, capacity);
            &&& opened.table == table
            &&& opened.capacity == capacity
            &&& opened.step.actions.len() == 2
            &&& opened.step.actions[0] == ActionView::ReadMagic
            &&& opened.step.actions[1] == ActionView::ReadDestination
            &&& opened.step.next == NextView::<T>::Resume(Task::Greeting)
        }),
{
}

/// How a connection opens: the magic string and the number of the device are read,
/// and the host is greeted before its first request is.
pub proof fn law_opening<T>(
    table: Option<Seq<Seq<u8>>>,
    capacity: nat,
    destination: u8,
    level: LevelFilter,
)
    ensures
        ({
            let opened = SessionView::<T>::opened(table, capacity);
            let magic = opened.advance(level, Event::Done);
            let number = magic->session.advance(level, Event::Done);
            let greeting = number->session.advance(level, Event::Destination(destination));
            let request = greeting->session.advance(level, Event::Done);
            &&& magic is Perform && magic->action is ReadMagic
            &&& number is Perform && number->action is ReadDestination
            &&& number->session.accepts(Event::Destination(destination))
            &&& greeting is Perform && greeting->action == ActionView::Greet("e"@)
            &&& request is Perform && request->action is ReadRequest
            &&& request->session == (SessionView {
                table,
                capacity,
                destination,
                step: StepView::<T>::resume(seq![], Task::Serving),
            })
        }),
{
    let opened = SessionView::<T>::opened(table, capacity);
    let magic = opened.advance(level, Event::Done);
    let number = magic->session.advance(level, Event::Done);
    let greeting = number->session.advance(level, Event::Destination(destination));
    let request = greeting->session.advance(level, Event::Done);
    assert(number->session.step.actions =~= seq![]);
    assert(greeting->session.step.actions =~= seq![]);
    assert(request->session.step.actions =~= seq![]);
}

/// The host has been greeted, or is just being greeted, and is not going to be again.
pub open spec fn is_greeted<T>(session: SessionView<T>) -> bool {
    &&& session.step.next != NextView::<T>::Resume(Task::Greeting)
    &&& forall|i: int|
        0 <= i < session.step.actions.len() ==> !((#[trigger] session.step.actions[i]) is Greet)
}

/// A host is greeted when the number of the device has been read.
pub proof fn law_greeting<T>(session: SessionView<T>, level: LevelFilter, event: EventView<T>)
    requires
        session.step == StepView::<T>::resume(seq![], Task::Greeting),
        session.accepts(event),
        !is_failure(event),
    ensures
        session.advance(level, event) matches TurnView::Perform { action, session: after }
            && action is Greet && is_greeted(after),
{
}

/// A host that has been greeted is not greeted again.
pub proof fn law_greeting_is_not_repeated<T>(
    session: SessionView<T>,
    level: LevelFilter,
    event: EventView<T>,
)
    requires
        is_greeted(session),
        session.accepts(event),
    ensures
        session.advance(level, event) matches TurnView::Perform { action, session: after } ==> {
            &&& !(action is Greet)
            &&& is_greeted(after)
        },
{
    if !is_failure(event) && session.step.actions.len() == 0 {
        if let Next::Resume(task) = session.step.next {
            let step = resumed(session.route(), session.capacity, level, task, event);
            assert(forall|i: int|
                0 <= i < step.actions.len() ==> !((#[trigger] step.actions[i]) is Greet));
        }
    }
}

/// A host that hangs up, at whatever moment, ends the connection without a message.
pub proof fn law_hang_up_is_not_reported<T>(session: SessionView<T>, level: LevelFilter)
    ensures
        session.advance(level, Event::Failed(Error::Io(IoError::UnexpectedEnd))) matches TurnView::Return(
            outcome,
        ) && reported(outcome) is None,
{
}

/// If the connection is about to end on its own account, it is for want of a remote
/// device.
pub open spec fn ends_only_for_device<T>(session: SessionView<T>) -> bool {
    session.step.next matches Next::Return(Err(error)) ==> error is DrtioError
}

/// A connection ends either by a failure of an action, with that as the reason, or
/// for want of a remote device.
pub proof fn law_reasons_to_end<T>(session: SessionView<T>, level: LevelFilter, event: EventView<T>)
    requires
        ends_only_for_device(session),
        session.accepts(event),
    ensures
        match session.advance(level, event) {
            TurnView::Perform { session: after, .. } => ends_only_for_device(after),
            TurnView::Return(result) => is_failure(event) || result == Err::<(), Error<T>>(
                Error::DrtioError,
            ),
        },
{
}

/// A connection that has just been opened is not about to end.
pub proof fn law_reasons_to_end_from_opening<T>(table: Option<Seq<Seq<u8>>>, capacity: nat)
    ensures
        ends_only_for_device(SessionView::<T>::opened(table, capacity)),
{
}

/// Any other end of a connection than that the host hung up is reported, with its
/// reason.
pub proof fn law_other_ends_are_reported<T>(
    session: SessionView<T>,
    level: LevelFilter,
    event: EventView<T>,
)
    requires
        event != EventView::<T>::Failed(Error::Io(IoError::UnexpectedEnd)),
        ends_only_for_device(session),
        session.accepts(event),
        session.advance(level, event) is Return,
    ensures
        session.advance(level, event) matches TurnView::Return(Err(reason)) && reported(
            Err::<(), Error<T>>(reason),
        ) == Some(reason),
{
}

// The action that is being performed, and what can come of it.

/// The event is a success of the action. There is none of a reload.
pub open spec fn answers<T>(action: ActionView, event: EventView<T>) -> bool {
    match action {
        Action::ReadDestination => event is Destination,
        Action::ReadRequest => event is Request,
        Action::AcquireLog => event is Log,
        Action::ReadConfig(_) => event is Config,
        Action::WriteConfig { .. } => event is ConfigChange,
        Action::RemoveConfig(_) => event is ConfigChange,
        Action::EraseConfig => event is ConfigChange,
        Action::Transact { .. } => event is Answer,
        Action::Transfer { .. } => event is Transfer,
        Action::Reload => false,
        _ => event is Done,
    }
}

/// The event holds nothing that cannot be handled: a request can be taken up, and
/// what a device sends lies within the payload.
pub open spec fn is_sound<T>(session: SessionView<T>, event: EventView<T>) -> bool {
    match event {
        Event::Request(request) => session.can_serve(request),
        Event::Answer(Ok(packet)) => packet.log_in_bounds() && packet.value_in_bounds(),
        _ => true,
    }
}

/// The task waits for the outcome of the action.
pub open spec fn waits_for(task: TaskView, action: ActionView) -> bool {
    match task {
        Task::Greeting => action is ReadDestination,
        Task::Serving => action is ReadRequest,
        Task::LocalGetLog => action is AcquireLog,
        Task::LocalPullLog(_) => action is AcquireLog,
        Task::LocalPullAgain => action is ReleaseLog,
        Task::LocalConfigRead => action is ReadConfig,
        Task::LocalConfigChange { .. } => action is WriteConfig || action is RemoveConfig
            || action is EraseConfig,
        Task::RemoteConfigWrite => action is Transfer,
        _ => action is Transact,
    }
}

/// The connection is performing the action.
pub open spec fn performs<T>(session: SessionView<T>, action: ActionView) -> bool {
    session.step.next matches Next::Resume(task) ==> waits_for(
        task,
        if session.step.actions.len() > 0 {
            session.step.actions.last()
        } else {
            action
        },
    )
}

/// The driver can always go on: whatever comes of the action that it was told to
/// perform is accepted, and the next action is again one of which that holds.
pub proof fn law_progress<T>(
    session: SessionView<T>,
    action: ActionView,
    level: LevelFilter,
    event: EventView<T>,
)
    requires
        performs(session, action),
        answers(action, event) || is_failure(event),
        is_sound(session, event),
    ensures
        session.accepts(event),
        session.advance(level, event) matches TurnView::Perform { action: next, session: after }
            ==> performs(after, next),
{
    if !is_failure(event) && session.step.actions.len() == 0 {
        if let Next::Resume(task) = session.step.next {
            let step = resumed(session.route(), session.capacity, level, task, event);
            assert(step.actions.len() > 0 ==> step.actions.drop_first().len() > 0
                ==> step.actions.drop_first().last() == step.actions.last());
        }
    }
}

/// A connection that has just been opened is ready to read the magic string.
pub proof fn law_progress_from_opening<T>(
    table: Option<Seq<Seq<u8>>>,
    capacity: nat,
    level: LevelFilter,
)
    ensures
        SessionView::<T>::opened(table, capacity).accepts(Event::Done),
        SessionView::<T>::opened(table, capacity).advance(level, Event::Done) matches TurnView::Perform {
            action,
            session,
        } && performs(session, action),
{
}

} // verus!
