//! How often the host is answered.
use crate::laws::connection::is_failure;
use crate::level::LevelFilter;
use crate::proto::RequestView;
use crate::step::{ActionView, Next, NextView, Task, TaskView};
use crate::worker::{resumed, EventView, SessionView, TurnView};
use vstd::prelude::*;

verus! {

/// How many replies the host is sent on a request that is not refused by a device.
/// The endless transmission of the log is not made of replies, and a printout of the
/// state of the allocator is not confirmed.
pub open spec fn replies_to(request: RequestView) -> nat {
    if request is PullLog || request is DebugAllocator {
        0
    } else {
        1
    }
}

/// How many of the actions send a reply.
pub open spec fn replies_in(actions: Seq<ActionView>) -> nat
    decreases actions.len(),
{
    if actions.len() == 0 {
        0
    } else {
        (if actions[0] is Send {
            1nat
        } else {
            0
        }) + replies_in(actions.drop_first())
    }
}

/// How many replies a task still owes.
pub open spec fn task_owes(task: TaskView) -> nat {
    match task {
        Task::Greeting => 0,
        Task::Serving => 0,
        Task::LocalPullLog(_) => 0,
        Task::LocalPullAgain => 0,
        Task::RemotePullLog { .. } => 0,
        Task::RemoteDebugAllocator => 0,
        _ => 1,
    }
}

/// How many replies a connection still owes on the request that it deals with.
pub open spec fn owes<T>(session: SessionView<T>) -> nat {
    replies_in(session.step.actions) + match session.step.next {
        Next::Resume(task) => task_owes(task),
        Next::Return(_) => 0,
    }
}

/// Each request gets the replies that it is owed, no more and no fewer, before the
/// next one is read, as long as the connection goes on. What is owed becomes less by
/// one with each reply that is sent, is none when a request is waited for, and is
/// what the request is owed when one arrives.
pub proof fn law_requests_are_answered<T>(
    session: SessionView<T>,
    level: LevelFilter,
    event: EventView<T>,
)
    requires
        session.accepts(event),
    ensures
        session.advance(level, event) matches TurnView::Perform { action, session: after } ==> {
            let owed = if session.step.actions.len() == 0 && session.step.next == NextView::<
                T,
            >::Resume(Task::Serving) {
                replies_to(event->Request_0)
            } else {
                owes(session)
            };
            &&& owes(after) + (if action is Send {
                1nat
            } else {
                0
            }) == owed
            &&& action is ReadRequest && session.step.actions.len() == 0 ==> owed == 0
        },
{
    if !is_failure(event) && session.step.actions.len() == 0 {
        if let Next::Resume(task) = session.step.next {
            lemma_steps_answer(session, level, task, event);
        }
    }
}

proof fn lemma_steps_answer<T>(
    session: SessionView<T>,
    level: LevelFilter,
    task: TaskView,
    event: EventView<T>,
)
    requires
        session.can_take(task, event),
        !is_failure(event),
    ensures
        ({
            let step = resumed(session.route(), session.capacity, level, task, event);
            let owed = if task is Serving {
                replies_to(event->Request_0)
            } else {
                task_owes(task)
            };
            ||| step.actions.len() == 0 && step.next matches Next::Return(Err(_))
            ||| replies_in(step.actions) + (match step.next {
                Next::Resume(task) => task_owes(task),
                Next::Return(_) => 0nat,
            }) == owed
        }),
{
    reveal_with_fuel(replies_in, 5);
}

} // verus!
