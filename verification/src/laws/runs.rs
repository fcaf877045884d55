//! What a connection does as events come in.
use crate::laws::connection::{
    is_failure, is_greeted, law_greeting, law_greeting_is_not_repeated,
};
use crate::level::LevelFilter;
use crate::step::{Action, ActionView, NextView, StepView, Task};
use crate::worker::{EventView, SessionView, TurnView};
use vstd::prelude::*;

verus! {

/// Events, each with the limit of what is logged at that moment.
pub type Events<T> = Seq<(LevelFilter, EventView<T>)>;

/// The actions that are performed from a turn on, as the events from the `i`-th on
/// come in one by one.
pub open spec fn trail_from<T>(turn: TurnView<T>, events: Events<T>, i: nat) -> Seq<ActionView>
    decreases events.len() - i,
{
    match turn {
        TurnView::Perform { action, session } => if i < events.len() {
            seq![action] + trail_from(
                session.advance(events[i as int].0, events[i as int].1),
                events,
                i + 1,
            )
        } else {
            seq![action]
        },
        TurnView::Return(_) => seq![],
    }
}

/// The actions that a connection performs as the events come in one by one. The
/// first event is what came of the action that is being performed.
pub open spec fn trail<T>(session: SessionView<T>, events: Events<T>) -> Seq<ActionView>
    recommends
        events.len() > 0,
{
    trail_from(session.advance(events[0].0, events[0].1), events, 1)
}

/// The last of the turns that follow as the events from the `i`-th on come in.
pub open spec fn last_turn_from<T>(turn: TurnView<T>, events: Events<T>, i: nat) -> TurnView<T>
    decreases events.len() - i,
{
    match turn {
        TurnView::Perform { session, .. } if i < events.len() => last_turn_from(
            session.advance(events[i as int].0, events[i as int].1),
            events,
            i + 1,
        ),
        _ => turn,
    }
}

/// The last of the turns that follow as the events come in one by one.
pub open spec fn last_turn<T>(session: SessionView<T>, events: Events<T>) -> TurnView<T>
    recommends
        events.len() > 0,
{
    last_turn_from(session.advance(events[0].0, events[0].1), events, 1)
}

/// The turn that follows the `i`-th event.
pub open spec fn turn_after<T>(session: SessionView<T>, events: Events<T>, i: nat) -> TurnView<T>
    decreases i,
{
    if i == 0 {
        session.advance(events[0].0, events[0].1)
    } else {
        match turn_after(session, events, (i - 1) as nat) {
            TurnView::Perform { session: after, .. } => after.advance(
                events[i as int].0,
                events[i as int].1,
            ),
            TurnView::Return(result) => TurnView::Return(result),
        }
    }
}

/// The turns that follow the events are those of the trail.
pub proof fn law_trail_is_made_of_turns<T>(session: SessionView<T>, events: Events<T>, i: nat)
    requires
        i < events.len(),
    ensures
        match turn_after(session, events, i) {
            TurnView::Perform { action, .. } => i < trail(session, events).len() && trail(
                session,
                events,
            )[i as int] == action,
            TurnView::Return(_) => trail(session, events).len() <= i,
        },
{
    lemma_trail_from_turn(session, events, i);
}

/// The trail goes on from each turn.
proof fn lemma_trail_from_turn<T>(session: SessionView<T>, events: Events<T>, i: nat)
    requires
        i < events.len(),
    ensures
        match turn_after(session, events, i) {
            TurnView::Perform { action, .. } => {
                &&& trail(session, events).len() == i + trail_from(
                    turn_after(session, events, i),
                    events,
                    i + 1,
                ).len()
                &&& trail(session, events).skip(i as int) == trail_from(
                    turn_after(session, events, i),
                    events,
                    i + 1,
                )
                &&& i < trail(session, events).len()
                &&& trail(session, events)[i as int] == action
            },
            TurnView::Return(_) => trail(session, events).len() <= i,
        },
    decreases i,
{
    let all = trail(session, events);
    if i == 0 {
        assert(all.skip(0) =~= all);
    } else {
        let before = turn_after(session, events, (i - 1) as nat);
        let turn = turn_after(session, events, i);
        lemma_trail_from_turn(session, events, (i - 1) as nat);
        if before is Perform {
            let rest = trail_from(turn, events, i + 1);
            assert(all.skip(i - 1) == seq![before->action] + rest);
            assert(all.skip(i as int) =~= all.skip(i - 1).skip(1));
            assert(all.skip(i as int) =~= rest);
            if turn is Perform {
                assert(all[i as int] == all.skip(i as int)[0]);
            }
        }
    }
}

/// Each event from the `i`-th on can come of the action that is being performed then.
pub open spec fn all_accepted_from<T>(turn: TurnView<T>, events: Events<T>, i: nat) -> bool
    decreases events.len() - i,
{
    turn matches TurnView::Perform { session, .. } ==> i < events.len() ==> {
        &&& session.accepts(events[i as int].1)
        &&& all_accepted_from(
            session.advance(events[i as int].0, events[i as int].1),
            events,
            i + 1,
        )
    }
}

/// Each event can come of the action that is being performed when it comes in.
pub open spec fn all_accepted<T>(session: SessionView<T>, events: Events<T>) -> bool
    recommends
        events.len() > 0,
{
    &&& session.accepts(events[0].1)
    &&& all_accepted_from(session.advance(events[0].0, events[0].1), events, 1)
}

/// The connection waits for a request.
pub open spec fn is_serving<T>(session: SessionView<T>) -> bool {
    session.step == StepView::<T>::resume(seq![], Task::Serving)
}

/// The next request is read, by a connection that is as before but waits for it.
pub open spec fn reads_request<T>(session: SessionView<T>) -> TurnView<T> {
    TurnView::Perform {
        action: Action::ReadRequest,
        session: SessionView { step: StepView::resume(seq![], Task::Serving), ..session },
    }
}

/// No event from the `first` on is a failure.
pub open spec fn none_fails<T>(events: Events<T>, first: int) -> bool {
    forall|i: int| first <= i < events.len() ==> !is_failure((#[trigger] events[i]).1)
}

/// The actions of a step are performed in order, each after the one before has
/// succeeded. When the step completes a request, the next request is read after that.
pub proof fn law_steps_are_performed_in_order<T>(session: SessionView<T>, events: Events<T>)
    requires
        session.step.next == NextView::<T>::Return(Ok(())),
        none_fails(events, 0),
        events.len() == session.step.actions.len() + 1,
    ensures
        trail(session, events) == session.step.actions.push(Action::ReadRequest),
        last_turn(session, events) == reads_request(session),
{
    lemma_performed_after(session, events, 0);
    assert(session.advance(events[0].0, events[0].1) == session.go_on());
}

/// However long a connection goes on, a host that has been greeted is not greeted
/// again.
pub proof fn law_no_greeting_after_the_first<T>(session: SessionView<T>, events: Events<T>)
    requires
        is_greeted(session),
        events.len() > 0,
        all_accepted(session, events),
    ensures
        forall|i: int|
            0 <= i < trail(session, events).len() ==> !((#[trigger] trail(
                session,
                events,
            )[i]) is Greet),
{
    law_greeting_is_not_repeated(session, events[0].0, events[0].1);
    lemma_no_greeting_from(session.advance(events[0].0, events[0].1), events, 1);
}

proof fn lemma_no_greeting_from<T>(turn: TurnView<T>, events: Events<T>, i: nat)
    requires
        turn matches TurnView::Perform { action, session } ==> !(action is Greet) && is_greeted(
            session,
        ),
        all_accepted_from(turn, events, i),
    ensures
        forall|j: int|
            0 <= j < trail_from(turn, events, i).len() ==> !((#[trigger] trail_from(
                turn,
                events,
                i,
            )[j]) is Greet),
    decreases events.len() - i,
{
    if let TurnView::Perform { action, session } = turn {
        if i < events.len() {
            let next = session.advance(events[i as int].0, events[i as int].1);
            law_greeting_is_not_repeated(session, events[i as int].0, events[i as int].1);
            lemma_no_greeting_from(next, events, i + 1);
            assert forall|j: int| 0 <= j < trail_from(turn, events, i).len() implies !((
            #[trigger] trail_from(turn, events, i)[j]) is Greet) by {
                if j > 0 {
                    assert(trail_from(turn, events, i)[j] == trail_from(next, events, i + 1)[j - 1]);
                }
            }
        }
    }
}

/// A host is greeted once: of all that is done for a connection, only the third action
/// is a greeting.
pub proof fn law_host_is_greeted_once<T>(
    table: Option<Seq<Seq<u8>>>,
    capacity: nat,
    events: Events<T>,
    i: int,
)
    requires
        events.len() > 0,
        all_accepted(SessionView::<T>::opened(table, capacity), events),
        0 <= i < trail(SessionView::<T>::opened(table, capacity), events).len(),
        trail(SessionView::<T>::opened(table, capacity), events)[i] is Greet,
    ensures
        i == 2,
{
    reveal_with_fuel(trail_from, 4);
    reveal_with_fuel(all_accepted_from, 4);
    let session = SessionView::<T>::opened(table, capacity);
    let first = session.advance(events[0].0, events[0].1);
    if i > 2 {
        let second = first->session.advance(events[1].0, events[1].1);
        let third = second->session.advance(events[2].0, events[2].1);
        let fourth = third->session.advance(events[3].0, events[3].1);
        assert(second->session.step.actions =~= seq![]);
        law_greeting(second->session, events[2].0, events[2].1);
        law_greeting_is_not_repeated(third->session, events[3].0, events[3].1);
        lemma_no_greeting_from(fourth, events, 4);
        assert(trail(session, events)[i] == trail_from(fourth, events, 4)[i - 3]);
    }
}

/// The events are the same, but for the number of the device where one is sent.
pub open spec fn same_but_for_number<T>(events: Events<T>, others: Events<T>) -> bool {
    &&& events.len() == others.len()
    &&& forall|i: int|
        0 <= i < events.len() ==> {
            &&& (#[trigger] events[i]).0 == others[i].0
            &&& events[i].1 == others[i].1 || events[i].1 is Destination
                && others[i].1 is Destination
        }
}

/// Without a table the number of the device makes no difference: two connections that
/// differ in nothing else, whether it was sent before or is sent yet, do the same.
pub proof fn law_number_is_irrelevant_without_table<T>(
    session: SessionView<T>,
    number: u8,
    events: Events<T>,
    others: Events<T>,
)
    requires
        session.table is None,
        events.len() > 0,
        same_but_for_number(events, others),
    ensures
        trail(SessionView { destination: number, ..session }, others) == trail(session, events),
{
    lemma_same_turn(session, number, events[0].0, events[0].1, others[0].1);
    lemma_same_trail(
        session.advance(events[0].0, events[0].1),
        SessionView { destination: number, ..session }.advance(others[0].0, others[0].1),
        events,
        others,
        1,
    );
}

/// The turns differ at most in the number of the device, and there is no table.
spec fn is_same_turn<T>(turn: TurnView<T>, other: TurnView<T>) -> bool {
    match (turn, other) {
        (
            TurnView::Perform { action, session },
            TurnView::Perform { action: other_action, session: other_session },
        ) => {
            &&& action == other_action
            &&& session.table is None
            &&& other_session == SessionView { destination: other_session.destination, ..session }
        },
        _ => turn == other,
    }
}

proof fn lemma_same_turn<T>(
    session: SessionView<T>,
    number: u8,
    level: LevelFilter,
    event: EventView<T>,
    other: EventView<T>,
)
    requires
        session.table is None,
        event == other || event is Destination && other is Destination,
    ensures
        is_same_turn(
            session.advance(level, event),
            SessionView { destination: number, ..session }.advance(level, other),
        ),
{
}

proof fn lemma_same_trail<T>(
    turn: TurnView<T>,
    other: TurnView<T>,
    events: Events<T>,
    others: Events<T>,
    i: nat,
)
    requires
        is_same_turn(turn, other),
        same_but_for_number(events, others),
    ensures
        trail_from(other, others, i) == trail_from(turn, events, i),
    decreases events.len() - i,
{
    if let (
        TurnView::Perform { session, .. },
        TurnView::Perform { session: other_session, .. },
    ) = (turn, other) {
        if i < events.len() {
            let (level, event) = events[i as int];
            let other_event = others[i as int].1;
            lemma_same_turn(session, other_session.destination, level, event, other_event);
            lemma_same_trail(
                session.advance(level, event),
                other_session.advance(level, other_event),
                events,
                others,
                i + 1,
            );
        }
    }
}

/// After a failure nothing more is performed, whatever was still to be done.
pub proof fn law_nothing_follows_a_failure<T>(session: SessionView<T>, events: Events<T>)
    requires
        events.len() > 0,
        is_failure(events[0].1),
    ensures
        trail(session, events) == Seq::<ActionView>::empty(),
{
}

/// The actions of a step are performed in order from the `i`-th event on.
pub proof fn lemma_performed_after<T>(session: SessionView<T>, events: Events<T>, i: nat)
    requires
        session.step.next == NextView::<T>::Return(Ok(())),
        none_fails(events, i as int + 1),
        events.len() == i + session.step.actions.len() + 1,
    ensures
        trail_from(session.go_on(), events, i + 1) == session.step.actions.push(Action::ReadRequest),
        last_turn_from(session.go_on(), events, i + 1) == reads_request(session),
    decreases session.step.actions.len(),
{
    let actions = session.step.actions;
    if actions.len() > 0 {
        let after = session.go_on()->session;
        assert(after.advance(events[i as int + 1].0, events[i as int + 1].1) == after.go_on());
        lemma_performed_after(after, events, i + 1);
        assert(seq![actions[0]] + actions.drop_first().push(Action::ReadRequest) =~= actions.push(
            Action::ReadRequest,
        ));
    } else {
        assert(actions.push(Action::ReadRequest) =~= seq![Action::ReadRequest]);
    }
}

} // verus!
