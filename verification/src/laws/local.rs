//! What happens on a request about this device.
use crate::drtio::Route;
use crate::laws::requests::{is_about_this_device, waits};
use crate::laws::runs::{
    is_serving, last_turn, last_turn_from, lemma_performed_after, none_fails, reads_request, trail,
    trail_from, Events,
};
use crate::level::LevelFilter;
use crate::local_coremgmt::{
    config_changed, config_read_answered, get_log_acquired, is_idle_kernel, pull_log_acquired,
    reboot_step,
};
use crate::proto::{Reply, Request, RequestView};
use crate::step::{Action, ActionView, NextView, StepView, Task, TaskView};
use crate::worker::{serve, EventView, SessionView, TurnView};
use vstd::prelude::*;

verus! {

/// How a change of the configuration of this device goes.
pub open spec fn change_trail(change: ActionView, restart: bool, result: Result<(), ()>) -> Seq<
    ActionView,
> {
    if result is Err {
        seq![change, Action::Send(Reply::Error), Action::ReadRequest]
    } else if restart {
        seq![
            change,
            Action::AwaitIdle,
            Action::RestartIdle,
            Action::Send(Reply::Success),
            Action::ReadRequest,
        ]
    } else {
        seq![change, Action::Send(Reply::Success), Action::ReadRequest]
    }
}

/// The change of the configuration that a request asks for.
pub open spec fn change_of(request: RequestView) -> Option<ActionView> {
    match request {
        Request::ConfigWrite { key, value } => Some(Action::WriteConfig { key, value }),
        Request::ConfigRemove { key } => Some(Action::RemoveConfig(key)),
        Request::ConfigErase => Some(Action::EraseConfig),
        _ => None,
    }
}

/// The change concerns the idle kernel.
pub open spec fn changes_idle_kernel(request: RequestView) -> bool {
    match request {
        Request::ConfigWrite { key, .. } => is_idle_kernel(key),
        Request::ConfigRemove { key } => is_idle_kernel(key),
        Request::ConfigErase => true,
        _ => false,
    }
}

/// A change of the configuration of this device is confirmed if it was made and
/// refused if it was not, and either way the connection goes on. The idle kernel is
/// restarted exactly if the change was made and concerns it: if its key was set or
/// removed or all keys were removed. The restart is asked for when none is
/// outstanding, and before the host is told.
pub proof fn law_local_config_changes<T>(
    session: SessionView<T>,
    request: RequestView,
    result: Result<(), ()>,
    events: Events<T>,
)
    requires
        is_serving(session),
        session.routed(),
        session.route() is Local,
        change_of(request) is Some,
        events.len() == change_trail(
            change_of(request)->0,
            changes_idle_kernel(request),
            result,
        ).len(),
        events[0].1 == EventView::<T>::Request(request),
        events[1].1 == EventView::<T>::ConfigChange(result),
        none_fails(events, 2),
    ensures
        trail(session, events) == change_trail(
            change_of(request)->0,
            changes_idle_kernel(request),
            result,
        ),
        last_turn(session, events) == reads_request(session),
{
    let restart = changes_idle_kernel(request);
    let change = change_of(request)->0;
    let asked = session.advance(events[0].0, events[0].1);
    let changed = SessionView { step: config_changed::<T>(restart, result), ..asked->session };
    assert(asked->session.step.actions =~= seq![]);
    assert(asked->session.advance(events[1].0, events[1].1) == changed.go_on());
    lemma_performed_after(changed, events, 1);
    assert(trail(session, events) =~= change_trail(change, restart, result));
}

/// After a key of this device has been set or removed, the idle kernel is restarted if
/// and only if the key is `idle_kernel`. If the change was not made, it never is.
pub proof fn law_idle_kernel_is_restarted_for_its_key<T>(
    session: SessionView<T>,
    request: RequestView,
    key: Seq<char>,
    result: Result<(), ()>,
    events: Events<T>,
)
    requires
        waits(session, TaskView::Serving),
        is_about_this_device(session),
        request == (RequestView::ConfigRemove { key }) || (request is ConfigWrite
            && request->ConfigWrite_key == key),
        events.len() == if result is Ok && key == "idle_kernel"@ {
            5int
        } else {
            3
        },
        events[0].1 == EventView::<T>::Request(request),
        events[1].1 == EventView::<T>::ConfigChange(result),
        none_fails(events, 2),
    ensures
        trail(session, events).last() == ActionView::ReadRequest,
        trail(session, events).contains(ActionView::RestartIdle) <==> result is Ok && key
            == "idle_kernel"@,
        trail(session, events).contains(ActionView::AwaitIdle) <==> result is Ok && key
            == "idle_kernel"@,
        trail(session, events).contains(ActionView::Send(Reply::Success)) <==> result is Ok,
        trail(session, events).contains(ActionView::Send(Reply::Error)) <==> result is Err,
{
    assert(session.step.actions =~= seq![]);
    law_local_config_changes(session, request, result, events);
    let actions = trail(session, events);
    if result is Ok && key == "idle_kernel"@ {
        assert(actions[1] == ActionView::AwaitIdle);
        assert(actions[2] == ActionView::RestartIdle);
        assert(actions[3] == ActionView::Send(Reply::Success));
    } else {
        assert(actions[1] is Send);
    }
}

/// A look-up in the configuration of this device is answered with the value, or
/// refused if there is none to be had, and either way the connection goes on.
pub proof fn law_local_config_read<T>(
    session: SessionView<T>,
    key: Seq<char>,
    value: Result<Seq<u8>, ()>,
    events: Events<T>,
)
    requires
        is_serving(session),
        session.routed(),
        session.route() is Local,
        events.len() == 3,
        events[0].1 == EventView::<T>::Request(Request::ConfigRead { key }),
        events[1].1 == EventView::<T>::Config(value),
        none_fails(events, 2),
    ensures
        trail(session, events) == seq![
            ActionView::ReadConfig(key),
            Action::Send(
                match value {
                    Ok(value) => Reply::ConfigData(value),
                    Err(_) => Reply::Error,
                },
            ),
            Action::ReadRequest,
        ],
        last_turn(session, events) == reads_request(session),
{
    let asked = session.advance(events[0].0, events[0].1);
    assert(asked->session.step.actions =~= seq![]);
    let answered = SessionView { step: config_read_answered::<T>(value), ..asked->session };
    assert(asked->session.advance(events[1].0, events[1].1) == answered.go_on());
    lemma_performed_after(answered, events, 1);
}

/// The log of this device goes to the host in one reply, during which the buffer is
/// held, and is not changed by that.
pub proof fn law_local_get_log<T>(
    session: SessionView<T>,
    empty: bool,
    content: Seq<char>,
    events: Events<T>,
)
    requires
        is_serving(session),
        session.routed(),
        session.route() is Local,
        events.len() == 4,
        events[0].1 == EventView::<T>::Request(Request::GetLog),
        events[1].1 == (EventView::<T>::Log { empty, content }),
        none_fails(events, 2),
    ensures
        trail(session, events) == seq![
            ActionView::AcquireLog,
            Action::Send(Reply::LogContent(content)),
            Action::ReleaseLog,
            Action::ReadRequest,
        ],
        last_turn(session, events) == reads_request(session),
{
    let asked = session.advance(events[0].0, events[0].1);
    assert(asked->session.step.actions =~= seq![]);
    let answered = SessionView { step: get_log_acquired::<T>(content), ..asked->session };
    assert(asked->session.advance(events[1].0, events[1].1) == answered.go_on());
    lemma_performed_after(answered, events, 1);
}

/// What this device does on a request that needs nothing to be looked up first.
pub open spec fn immediate_trail(request: RequestView) -> Option<Seq<ActionView>> {
    match request {
        Request::ClearLog => Some(
            seq![
                Action::AcquireLog,
                Action::ClearLog,
                Action::ReleaseLog,
                Action::Send(Reply::Success),
                Action::ReadRequest,
            ],
        ),
        Request::SetLogFilter(level) => Some(
            seq![
                Action::SetLogLevel(level),
                Action::Send(Reply::Success),
                Action::ReadRequest,
            ],
        ),
        Request::SetUartLogFilter(level) => Some(
            seq![
                Action::SetUartLogLevel(level),
                Action::Send(Reply::Success),
                Action::ReadRequest,
            ],
        ),
        Request::DebugAllocator => Some(seq![Action::PrintAllocator, Action::ReadRequest]),
        _ => None,
    }
}

/// The log of this device is emptied, and the buffer given up, before the host is told
/// so. The limits of what is logged are set before the host is told so. A printout of
/// the state of the allocator is made without a reply.
pub proof fn law_local_immediate_requests<T>(
    session: SessionView<T>,
    request: RequestView,
    events: Events<T>,
)
    requires
        is_serving(session),
        session.routed(),
        session.route() is Local,
        immediate_trail(request) is Some,
        events.len() == immediate_trail(request)->0.len(),
        events[0].1 == EventView::<T>::Request(request),
        none_fails(events, 1),
    ensures
        trail(session, events) == immediate_trail(request)->0,
        last_turn(session, events) == reads_request(session),
{
    let served = SessionView {
        step: serve::<T>(Route::Local, session.capacity, events[0].0, request),
        ..session
    };
    assert(session.advance(events[0].0, events[0].1) == served.go_on());
    assert(served.step.actions.push(Action::ReadRequest) =~= immediate_trail(request)->0);
    lemma_performed_after(served, events, 0);
}

/// This device starts anew only after the host has been told so, the connection has
/// been closed and the host has acknowledged that.
pub proof fn law_local_reboot<T>(session: SessionView<T>, events: Events<T>)
    requires
        is_serving(session),
        session.routed(),
        session.route() is Local,
        events.len() == 4,
        events[0].1 == EventView::<T>::Request(Request::Reboot),
        none_fails(events, 1),
    ensures
        trail(session, events) == seq![
            ActionView::Send(Reply::RebootImminent),
            Action::Close,
            Action::Flush,
            Action::Reload,
        ],
{
    let told = SessionView { step: reboot_step::<T>(), ..session };
    assert(session.advance(events[0].0, events[0].1) == told.go_on());
    reveal_with_fuel(trail_from, 4);
    let closing = told.go_on()->session;
    assert(closing.advance(events[1].0, events[1].1) == closing.go_on());
    let flushing = closing.go_on()->session;
    assert(flushing.advance(events[2].0, events[2].1) == flushing.go_on());
    let reloading = flushing.go_on()->session;
    assert(reloading.advance(events[3].0, events[3].1) == reloading.go_on());
    assert(trail(session, events) =~= seq![
        ActionView::Send(Reply::RebootImminent),
        Action::Close,
        Action::Flush,
        Action::Reload,
    ]);
}

/// How the endless transmission of the log of this device begins, at every limit: the
/// buffer is asked for, and as soon as it is there, what it holds goes to the host. It is
/// not emptied before that.
pub proof fn law_local_pull_log_begins<T>(
    session: SessionView<T>,
    content: Seq<char>,
    events: Events<T>,
)
    requires
        waits(session, TaskView::Serving),
        is_about_this_device(session),
        events.len() == 2,
        events[0].1 == EventView::<T>::Request(Request::PullLog),
        events[1].1 == (EventView::<T>::Log { empty: false, content }),
    ensures
        trail(session, events) == seq![ActionView::AcquireLog, ActionView::SendString(content)],
{
    reveal_with_fuel(trail_from, 2);
    let asked = session.advance(events[0].0, events[0].1);
    assert(asked->session.step.actions =~= seq![]);
    assert(trail(session, events) =~= seq![
        ActionView::AcquireLog,
        ActionView::SendString(content),
    ]);
}

/// A round of the endless transmission of the log of this device. An empty log is not
/// sent. Any other is emptied only after it has been sent, and if the limit before
/// the buffer was asked for was that of a trace, after the host has acknowledged it
/// too. The buffer is given up and asked for anew in every round, under the limit in
/// force between the two.
pub proof fn law_local_pull_log_round<T>(
    session: SessionView<T>,
    limit: LevelFilter,
    empty: bool,
    content: Seq<char>,
    events: Events<T>,
)
    requires
        session.step == StepView::<T>::resume(seq![], Task::LocalPullLog(limit)),
        events.len() == pull_log_acquired::<T>(limit, empty, content).actions.len() + 1,
        events[0].1 == (EventView::<T>::Log { empty, content }),
        none_fails(events, 1),
    ensures
        trail(session, events) == (if empty {
            seq![ActionView::ReleaseLog, Action::AcquireLog]
        } else if limit == LevelFilter::Trace {
            seq![
                ActionView::SendString(content),
                Action::Flush,
                Action::ClearLog,
                Action::ReleaseLog,
                Action::AcquireLog,
            ]
        } else {
            seq![
                ActionView::SendString(content),
                Action::ClearLog,
                Action::ReleaseLog,
                Action::AcquireLog,
            ]
        }),
        last_turn(session, events) == (TurnView::Perform {
            action: Action::AcquireLog,
            session: SessionView {
                step: StepView::<T>::resume(seq![], Task::LocalPullLog(events.last().0)),
                ..session
            },
        }),
{
    let acquired = SessionView { step: pull_log_acquired::<T>(limit, empty, content), ..session };
    assert(session.advance(events[0].0, events[0].1) == acquired.go_on());
    lemma_pulled_again(acquired, events, 0);
}

proof fn lemma_pulled_again<T>(session: SessionView<T>, events: Events<T>, i: nat)
    requires
        session.step.next == NextView::<T>::Resume(Task::LocalPullAgain),
        session.step.actions.len() > 0,
        none_fails(events, i as int + 1),
        events.len() == i + session.step.actions.len() + 1,
    ensures
        trail_from(session.go_on(), events, i + 1) == session.step.actions.push(Action::AcquireLog),
        last_turn_from(session.go_on(), events, i + 1) == (TurnView::Perform {
            action: Action::AcquireLog,
            session: SessionView {
                step: StepView::<T>::resume(seq![], Task::LocalPullLog(events.last().0)),
                ..session
            },
        }),
    decreases session.step.actions.len(),
{
    let actions = session.step.actions;
    let after = session.go_on()->session;
    let turn = after.advance(events[i as int + 1].0, events[i as int + 1].1);
    if actions.len() > 1 {
        assert(turn == after.go_on());
        lemma_pulled_again(after, events, i + 1);
        assert(seq![actions[0]] + actions.drop_first().push(Action::AcquireLog) =~= actions.push(
            Action::AcquireLog,
        ));
    } else {
        assert(actions.drop_first() =~= seq![]);
        assert(turn->session.step.actions =~= seq![]);
        assert(last_turn_from(turn, events, i + 2) == turn);
        assert(trail_from(turn, events, i + 2) =~= seq![ActionView::AcquireLog]);
        assert(actions.push(Action::AcquireLog) =~= seq![actions[0]] + seq![ActionView::AcquireLog]);
    }
}

} // verus!
