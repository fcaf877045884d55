//! A connection with a host, from the first byte to the last.
use crate::drtio::{covers, route_in, Packet, Route, RoutingTable};
use crate::level::{latest, LevelFilter, LimitUse, LogLimit};
use crate::local_coremgmt;
use crate::local_coremgmt::value_view;
use crate::proto::{DrtioError, Error, IoError, Reply, Request, RequestView, SchedError};
use crate::remote_coremgmt;
use crate::remote_coremgmt::answer_view;
use crate::step::{Action, ActionView, Next, Step, StepView, Task, TaskView};
use vstd::prelude::*;
use vstd::utf8::encode_utf8;

verus! {

/// What came of an action.
#[derive(Debug, PartialEq, Eq)]
pub enum Event<T, S = String, B = Vec<u8>> {
    /// It succeeded, and there is nothing more to say.
    Done,
    /// The number of the device was read.
    Destination(u8),
    /// A request was read.
    Request(Request<S, B>),
    /// The log buffer was acquired, with this content.
    Log { empty: bool, content: S },
    /// A key was looked up.
    Config(Result<B, ()>),
    /// The configuration was changed, or not.
    ConfigChange(Result<(), ()>),
    /// A packet was sent, with this answer.
    Answer(Result<Packet<B>, DrtioError>),
    /// The pieces of a transfer were sent, or not.
    Transfer(Result<(), DrtioError>),
    /// It was interrupted by the scheduler.
    Interrupted(SchedError<T>),
    /// It failed.
    Failed(Error<T>),
}

pub type EventView<T> = Event<T, Seq<char>, Seq<u8>>;

impl<T> View for Event<T> {
    type V = EventView<T>;

    open spec fn view(&self) -> EventView<T> {
        match *self {
            Event::Done => Event::Done,
            Event::Destination(destination) => Event::Destination(destination),
            Event::Request(request) => Event::Request(request@),
            Event::Log { empty, content } => Event::Log { empty, content: content@ },
            Event::Config(value) => Event::Config(value_view(value)),
            Event::ConfigChange(result) => Event::ConfigChange(result),
            Event::Answer(answer) => Event::Answer(answer_view(answer)),
            Event::Transfer(result) => Event::Transfer(result),
            Event::Interrupted(error) => Event::Interrupted(error),
            Event::Failed(error) => Event::Failed(error),
        }
    }
}

/// A connection that waits for the outcome of an action.
pub struct Session<T> {
    /// Without a table all requests are about this device.
    table: Option<RoutingTable>,
    /// The size of the payload of a packet.
    capacity: usize,
    /// The number of the device that requests are about.
    destination: u8,
    /// The actions that are still to be performed, and what follows.
    step: Step<T>,
}

#[verifier::ext_equal]
pub struct SessionView<T> {
    pub table: Option<Seq<Seq<u8>>>,
    pub capacity: nat,
    pub destination: u8,
    pub step: StepView<T>,
}

impl<T> View for Session<T> {
    type V = SessionView<T>;

    closed spec fn view(&self) -> SessionView<T> {
        SessionView {
            table: match self.table {
                Some(table) => Some(table@),
                None => None,
            },
            capacity: self.capacity as nat,
            destination: self.destination,
            step: self.step@,
        }
    }
}

/// What the driver is to do: an action, or to close the connection.
pub enum Turn<T> {
    Perform { action: Action, session: Session<T> },
    Return(Result<(), Error<T>>),
}

pub enum TurnView<T> {
    Perform { action: ActionView, session: SessionView<T> },
    Return(Result<(), Error<T>>),
}

impl<T> View for Turn<T> {
    type V = TurnView<T>;

    open spec fn view(&self) -> TurnView<T> {
        match *self {
            Turn::Perform { action, session } => TurnView::Perform {
                action: action@,
                session: session@,
            },
            Turn::Return(result) => TurnView::Return(result),
        }
    }
}

/// How a request is taken up, by the device that it is about. The level is the limit
/// of what is logged at that moment.
pub open spec fn serve<T>(
    route: Route,
    capacity: nat,
    level: LevelFilter,
    request: RequestView,
) -> StepView<T> {
    match route {
        Route::Local => match request {
            Request::GetLog => local_coremgmt::get_log_step(),
            Request::ClearLog => local_coremgmt::clear_log_step(),
            Request::PullLog => local_coremgmt::pull_log_step(level),
            Request::SetLogFilter(filter) => local_coremgmt::set_log_filter_step(filter),
            Request::SetUartLogFilter(filter) => local_coremgmt::set_uart_log_filter_step(filter),
            Request::ConfigRead { key } => local_coremgmt::config_read_step(key),
            Request::ConfigWrite { key, value } => local_coremgmt::config_write_step(key, value),
            Request::ConfigRemove { key } => local_coremgmt::config_remove_step(key),
            Request::ConfigErase => local_coremgmt::config_erase_step(),
            Request::Reboot => local_coremgmt::reboot_step(),
            Request::DebugAllocator => local_coremgmt::debug_allocator_step(),
        },
        Route::Remote(link) => match request {
            Request::GetLog => remote_coremgmt::get_log_step(link, seq![]),
            Request::ClearLog => remote_coremgmt::clear_log_step(link),
            Request::PullLog => remote_coremgmt::pull_log_step(link),
            Request::SetLogFilter(filter) => remote_coremgmt::set_log_filter_step(link, filter),
            Request::SetUartLogFilter(filter) => remote_coremgmt::set_uart_log_filter_step(
                link,
                filter,
            ),
            Request::ConfigRead { key } => remote_coremgmt::config_read_step(link, capacity, key),
            Request::ConfigWrite { key, value } => remote_coremgmt::config_write_step(
                link,
                key,
                value,
            ),
            Request::ConfigRemove { key } => remote_coremgmt::config_remove_step(
                link,
                capacity,
                key,
            ),
            Request::ConfigErase => remote_coremgmt::config_erase_step(link),
            Request::Reboot => remote_coremgmt::reboot_step(link),
            Request::DebugAllocator => remote_coremgmt::debug_allocator_step(link),
        },
    }
}

/// The host is told that its opening was understood.
pub open spec fn greeting<T>() -> StepView<T> {
    StepView::finish(seq![Action::Greet("e"@)])
}

/// What a task makes of an event that it can take.
pub open spec fn resumed<T>(
    route: Route,
    capacity: nat,
    level: LevelFilter,
    task: TaskView,
    event: EventView<T>,
) -> StepView<T> {
    match (task, event) {
        (Task::Greeting, Event::Destination(_)) => greeting(),
        (Task::Serving, Event::Request(request)) => serve(route, capacity, level, request),
        (Task::LocalGetLog, Event::Log { content, .. }) => local_coremgmt::get_log_acquired(content),
        (Task::LocalPullLog(limit), Event::Log { empty, content }) => {
            local_coremgmt::pull_log_acquired(limit, empty, content)
        },
        (Task::LocalPullAgain, _) => local_coremgmt::pull_log_step(level),
        (Task::LocalConfigRead, Event::Config(value)) => local_coremgmt::config_read_answered(value),
        (Task::LocalConfigChange { restart }, Event::ConfigChange(result)) => {
            local_coremgmt::config_changed(restart, result)
        },
        (Task::RemoteGetLog { link, buffer }, Event::Answer(answer)) => {
            remote_coremgmt::get_log_answered(link, buffer, answer)
        },
        (Task::RemotePullLog { link }, Event::Answer(answer)) => {
            remote_coremgmt::pull_log_answered(link, answer)
        },
        (Task::RemoteConfigRead { link, value }, Event::Answer(answer)) => {
            remote_coremgmt::config_read_answered(link, value, answer)
        },
        (Task::RemoteConfigWrite, Event::Transfer(result)) => {
            remote_coremgmt::config_write_transferred(result)
        },
        (Task::RemoteAck, Event::Answer(answer)) => {
            remote_coremgmt::confirmed(answer, Reply::Success)
        },
        (Task::RemoteReboot, Event::Answer(answer)) => {
            remote_coremgmt::confirmed(answer, Reply::RebootImminent)
        },
        (Task::RemoteDebugAllocator, Event::Answer(answer)) => {
            remote_coremgmt::debug_allocator_answered(answer)
        },
        _ => arbitrary(),
    }
}

impl<T> SessionView<T> {
    /// A connection that has just been opened.
    pub open spec fn opened(table: Option<Seq<Seq<u8>>>, capacity: nat) -> SessionView<T> {
        SessionView {
            table,
            capacity,
            destination: 0,
            step: StepView::resume(
                seq![Action::ReadMagic, Action::ReadDestination],
                Task::Greeting,
            ),
        }
    }

    /// The device that requests are about.
    pub open spec fn route(self) -> Route {
        match self.table {
            Some(table) => route_in(table, self.destination),
            None => Route::Local,
        }
    }

    /// The way to the device is known.
    pub open spec fn routed(self) -> bool {
        self.table is Some ==> covers(self.table->0, self.destination)
    }

    /// The request can be taken up: the way to the device is known, and where the
    /// request is passed on in a packet, its key fits.
    pub open spec fn can_serve(self, request: RequestView) -> bool {
        &&& self.routed()
        &&& self.route() is Remote ==> match request {
            Request::ConfigRead { key } => encode_utf8(key).len() <= self.capacity,
            Request::ConfigRemove { key } => encode_utf8(key).len() <= self.capacity,
            _ => true,
        }
    }

    /// The event is an outcome of what the task waits for.
    pub open spec fn can_take(self, task: TaskView, event: EventView<T>) -> bool {
        match task {
            Task::Greeting => event is Destination,
            Task::Serving => event matches Event::Request(request) && self.can_serve(request),
            Task::LocalGetLog => event is Log,
            Task::LocalPullLog(_) => event is Log,
            Task::LocalPullAgain => true,
            Task::LocalConfigRead => event is Config,
            Task::LocalConfigChange { .. } => event is ConfigChange,
            Task::RemoteGetLog { .. } => event matches Event::Answer(answer) && (answer is Ok
                ==> answer->Ok_0.log_in_bounds()),
            Task::RemotePullLog { .. } => event matches Event::Answer(answer) && (answer is Ok
                ==> answer->Ok_0.log_in_bounds()),
            Task::RemoteConfigRead { .. } => event matches Event::Answer(answer) && (answer is Ok
                ==> answer->Ok_0.value_in_bounds()),
            Task::RemoteConfigWrite => event is Transfer,
            Task::RemoteAck => event is Answer,
            Task::RemoteReboot => event is Answer,
            Task::RemoteDebugAllocator => event is Answer,
        }
    }

    /// The event can come of the action that is being performed. Any action may fail.
    /// The outcome of one that is not the last of its step makes no difference.
    pub open spec fn accepts(self, event: EventView<T>) -> bool {
        ||| event is Interrupted
        ||| event is Failed
        ||| self.step.actions.len() > 0
        ||| self.step.next matches Next::Resume(task) ==> self.can_take(task, event)
    }

    /// The event has the limit of what is logged read: the local log is about to be
    /// asked for as part of an endless transmission.
    pub open spec fn reads_limit(self, event: EventView<T>) -> bool {
        &&& !(event is Interrupted)
        &&& !(event is Failed)
        &&& self.step.actions.len() == 0
        &&& self.step.next matches Next::Resume(task) && self.pulls_log(task, event)
    }

    /// The event has the task ask for the local log as part of an endless transmission.
    pub open spec fn pulls_log(self, task: TaskView, event: EventView<T>) -> bool {
        ||| task is LocalPullAgain
        ||| task is Serving && self.route() is Local && event == EventView::<T>::Request(
            Request::PullLog,
        )
    }

    /// The connection goes on with the next action. When a request has been dealt
    /// with, that is to read another one.
    pub open spec fn go_on(self) -> TurnView<T> {
        if self.step.actions.len() > 0 {
            TurnView::Perform {
                action: self.step.actions[0],
                session: SessionView {
                    step: StepView {
                        actions: self.step.actions.drop_first(),
                        next: self.step.next,
                    },
                    ..self
                },
            }
        } else {
            match self.step.next {
                Next::Return(Err(error)) => TurnView::Return(Err(error)),
                _ => TurnView::Perform {
                    action: Action::ReadRequest,
                    session: SessionView { step: StepView::resume(seq![], Task::Serving), ..self },
                },
            }
        }
    }

    /// What follows an event. A failure ends the connection. The level is the limit
    /// of what is logged, which makes a difference only where the log buffer is about
    /// to be asked for.
    pub open spec fn advance(self, level: LevelFilter, event: EventView<T>) -> TurnView<T> {
        match event {
            Event::Interrupted(error) => TurnView::Return(Err(Error::Io(IoError::Other(error.0)))),
            Event::Failed(error) => TurnView::Return(Err(error)),
            _ => match self.step.next {
                Next::Resume(task) if self.step.actions.len() == 0 => {
                    SessionView {
                        destination: match event {
                            Event::Destination(destination) if task is Greeting => destination,
                            _ => self.destination,
                        },
                        step: resumed(self.route(), self.capacity, level, task, event),
                        ..self
                    }.go_on()
                },
                _ => self.go_on(),
            },
        }
    }
}

impl<T> Session<T> {
    /// Opens a connection. `capacity` is the size of the payload of a packet.
    pub fn new(table: Option<RoutingTable>, capacity: usize) -> (session: Session<T>)
        ensures
            session@ == SessionView::<T>::opened(
                match table {
                    Some(table) => Some(table@),
                    None => None,
                },
                capacity as nat,
            ),
    {
        let session = Session {
            table,
            capacity,
            destination: 0,
            step: Step {
                actions: vec![Action::ReadMagic, Action::ReadDestination],
                next: Next::Resume(Task::Greeting),
            },
        };
        assert(session.step@.actions =~= seq![Action::ReadMagic, Action::ReadDestination]);
        session
    }

    /// The device that requests are about.
    pub fn route(&self) -> (route: Route)
        requires
            self@.routed(),
        ensures
            route == self@.route(),
    {
        match &self.table {
            Some(table) => table.route(self.destination),
            None => Route::Local,
        }
    }

    fn can_serve(&self, request: &Request) -> (yes: bool)
        ensures
            yes == self@.can_serve(request@),
    {
        let routed = match &self.table {
            Some(table) => table.covers(self.destination),
            None => true,
        };
        if !routed {
            return false;
        }
        match self.route() {
            Route::Local => true,
            Route::Remote(_) => match request {
                Request::ConfigRead { key } => key.as_str().as_bytes().len() <= self.capacity,
                Request::ConfigRemove { key } => key.as_str().as_bytes().len() <= self.capacity,
                _ => true,
            },
        }
    }

    /// Whether the event can come of the action that is being performed.
    pub fn accepts(&self, event: &Event<T>) -> (yes: bool)
        ensures
            yes == self@.accepts(event@),
    {
        match event {
            Event::Interrupted(_) => true,
            Event::Failed(_) => true,
            _ => if self.step.actions.len() > 0 {
                true
            } else {
                match (&self.step.next, event) {
                    (Next::Return(_), _) => true,
                    (Next::Resume(Task::Greeting), Event::Destination(_)) => true,
                    (Next::Resume(Task::Serving), Event::Request(request)) => self.can_serve(request),
                    (Next::Resume(Task::LocalGetLog), Event::Log { .. }) => true,
                    (Next::Resume(Task::LocalPullLog(_)), Event::Log { .. }) => true,
                    (Next::Resume(Task::LocalPullAgain), _) => true,
                    (Next::Resume(Task::LocalConfigRead), Event::Config(_)) => true,
                    (Next::Resume(Task::LocalConfigChange { .. }), Event::ConfigChange(_)) => true,
                    (Next::Resume(Task::RemoteGetLog { .. }), Event::Answer(answer)) => match answer {
                        Ok(packet) => packet.log_in_bounds(),
                        Err(_) => true,
                    },
                    (Next::Resume(Task::RemotePullLog { .. }), Event::Answer(answer)) => match answer {
                        Ok(packet) => packet.log_in_bounds(),
                        Err(_) => true,
                    },
                    (Next::Resume(Task::RemoteConfigRead { .. }), Event::Answer(answer)) => {
                        match answer {
                            Ok(packet) => packet.value_in_bounds(),
                            Err(_) => true,
                        }
                    },
                    (Next::Resume(Task::RemoteConfigWrite), Event::Transfer(_)) => true,
                    (Next::Resume(Task::RemoteAck), Event::Answer(_)) => true,
                    (Next::Resume(Task::RemoteReboot), Event::Answer(_)) => true,
                    (Next::Resume(Task::RemoteDebugAllocator), Event::Answer(_)) => true,
                    _ => false,
                }
            },
        }
    }

    /// Whether the packet is of the kind that a remote device is to answer with.
    pub fn expects(&self, packet: &Packet) -> (yes: bool)
        ensures
            yes == (self@.step.next matches Next::Resume(task) && task.expects(packet@)),
    {
        match (&self.step.next, packet) {
            (Next::Resume(Task::RemoteGetLog { .. }), Packet::CoreMgmtGetLogReply { .. }) => true,
            (Next::Resume(Task::RemotePullLog { .. }), Packet::CoreMgmtGetLogReply { .. }) => true,
            (
                Next::Resume(Task::RemoteConfigRead { .. }),
                Packet::CoreMgmtConfigReadReply { .. },
            ) => true,
            (Next::Resume(Task::RemoteAck), Packet::CoreMgmtAck) => true,
            (Next::Resume(Task::RemoteReboot), Packet::CoreMgmtAck) => true,
            (Next::Resume(Task::RemoteDebugAllocator), Packet::CoreMgmtAck) => true,
            _ => false,
        }
    }

    /// Takes up a request.
    fn serve(&self, limit: &mut LogLimit, request: Request) -> (step: Step<T>)
        requires
            self@.can_serve(request@),
        ensures
            step@ == serve::<T>(
                self@.route(),
                self@.capacity,
                latest(final(limit)@),
                request@,
            ),
            final(limit)@ == if self@.route() is Local && request@ is PullLog {
                old(limit)@.push(LimitUse::Read(latest(final(limit)@)))
            } else {
                old(limit)@
            },
    {
        match self.route() {
            Route::Local => match request {
                Request::GetLog => local_coremgmt::get_log(),
                Request::ClearLog => local_coremgmt::clear_log(),
                Request::PullLog => local_coremgmt::pull_log(limit),
                Request::SetLogFilter(level) => local_coremgmt::set_log_filter(level),
                Request::SetUartLogFilter(level) => local_coremgmt::set_uart_log_filter(level),
                Request::ConfigRead { key } => local_coremgmt::config_read(key),
                Request::ConfigWrite { key, value } => local_coremgmt::config_write(key, value),
                Request::ConfigRemove { key } => local_coremgmt::config_remove(key),
                Request::ConfigErase => local_coremgmt::config_erase(),
                Request::Reboot => local_coremgmt::reboot(),
                Request::DebugAllocator => local_coremgmt::debug_allocator(),
            },
            Route::Remote(link) => match request {
                Request::GetLog => remote_coremgmt::get_log(link),
                Request::ClearLog => remote_coremgmt::clear_log(link),
                Request::PullLog => remote_coremgmt::pull_log(link),
                Request::SetLogFilter(level) => remote_coremgmt::set_log_filter(link, level),
                Request::SetUartLogFilter(level) => remote_coremgmt::set_uart_log_filter(link, level),
                Request::ConfigRead { key } => {
                    remote_coremgmt::config_read(link, self.capacity, key.as_str())
                },
                Request::ConfigWrite { key, value } => remote_coremgmt::config_write(link, key, value),
                Request::ConfigRemove { key } => {
                    remote_coremgmt::config_remove(link, self.capacity, key.as_str())
                },
                Request::ConfigErase => remote_coremgmt::config_erase(link),
                Request::Reboot => remote_coremgmt::reboot(link),
                Request::DebugAllocator => remote_coremgmt::debug_allocator(link),
            },
        }
    }

    /// Hands an event to the task that waits for it.
    fn resume(&self, limit: &mut LogLimit, task: Task, event: Event<T>) -> (step: Step<T>)
        requires
            self@.can_take(task@, event@),
            !(event is Interrupted),
            !(event is Failed),
        ensures
            step@ == resumed::<T>(
                self@.route(),
                self@.capacity,
                latest(final(limit)@),
                task@,
                event@,
            ),
            final(limit)@ == if self@.pulls_log(task@, event@) {
                old(limit)@.push(LimitUse::Read(latest(final(limit)@)))
            } else {
                old(limit)@
            },
    {
        match (task, event) {
            (Task::Greeting, Event::Destination(_)) => {
                let step = Step {
                    actions: vec![Action::Greet("e".to_owned())],
                    next: Next::Return(Ok(())),
                };
                assert(step@ =~= greeting::<T>());
                step
            },
            (Task::Serving, Event::Request(request)) => self.serve(limit, request),
            (Task::LocalGetLog, Event::Log { content, .. }) => local_coremgmt::get_log_resume(content),
            (Task::LocalPullLog(level), Event::Log { empty, content }) => {
                local_coremgmt::pull_log_resume(level, empty, content)
            },
            (Task::LocalPullAgain, _) => local_coremgmt::pull_log(limit),
            (Task::LocalConfigRead, Event::Config(value)) => {
                local_coremgmt::config_read_resume(value)
            },
            (Task::LocalConfigChange { restart }, Event::ConfigChange(result)) => {
                local_coremgmt::config_change_resume(restart, result)
            },
            (Task::RemoteGetLog { link, buffer }, Event::Answer(answer)) => {
                remote_coremgmt::get_log_resume(link, buffer, answer)
            },
            (Task::RemotePullLog { link }, Event::Answer(answer)) => {
                remote_coremgmt::pull_log_resume(link, answer)
            },
            (Task::RemoteConfigRead { link, value }, Event::Answer(answer)) => {
                remote_coremgmt::config_read_resume(link, value, answer)
            },
            (Task::RemoteConfigWrite, Event::Transfer(result)) => {
                remote_coremgmt::config_write_resume(result)
            },
            (Task::RemoteAck, Event::Answer(answer)) => remote_coremgmt::acknowledge(answer),
            (Task::RemoteReboot, Event::Answer(answer)) => remote_coremgmt::reboot_resume(answer),
            (Task::RemoteDebugAllocator, Event::Answer(answer)) => {
                remote_coremgmt::debug_allocator_resume(answer)
            },
            _ => vstd::pervasive::unreached(),
        }
    }

    /// Goes on with the next action.
    fn go_on(self) -> (turn: Turn<T>)
        ensures
            turn@ == self@.go_on(),
    {
        let Session { table, capacity, destination, step: Step { actions, next } } = self;
        if actions.len() > 0 {
            let mut actions = actions;
            let action = actions.remove(0);
            let session = Session { table, capacity, destination, step: Step { actions, next } };
            assert(session@.step.actions =~= self@.step.actions.drop_first());
            Turn::Perform { action, session }
        } else {
            match next {
                Next::Return(Err(error)) => Turn::Return(Err(error)),
                _ => {
                    let step = Step { actions: Vec::new(), next: Next::Resume(Task::Serving) };
                    assert(step@.actions =~= seq![]);
                    Turn::Perform {
                        action: Action::ReadRequest,
                        session: Session { table, capacity, destination, step },
                    }
                },
            }
        }
    }
}

/// Takes what came of the last action of a connection, and says how to go on. To set
/// a connection going, let the first event be [`Event::Done`].
///
/// Through `limit`, the limit of what is logged is read where it makes a difference,
/// once, and nowhere else. It is never set through `limit`.
pub fn worker<T>(limit: &mut LogLimit, session: Session<T>, event: Event<T>) -> (turn: Turn<T>)
    requires
        session@.accepts(event@),
    ensures
        turn@ == session@.advance(latest(final(limit)@), event@),
        final(limit)@ == if session@.reads_limit(event@) {
            old(limit)@.push(LimitUse::Read(latest(final(limit)@)))
        } else {
            old(limit)@
        },
{
    match event {
        Event::Interrupted(error) => Turn::Return(Err(Error::from(error))),
        Event::Failed(error) => Turn::Return(Err(error)),
        _ => {
            if session.step.actions.len() > 0 {
                return session.go_on();
            }
            let number: u8 = match (&session.step.next, &event) {
                (Next::Resume(Task::Greeting), Event::Destination(destination)) => *destination,
                _ => session.destination,
            };
            let Session { table, capacity, destination, step: Step { actions, next } } = session;
            match next {
                Next::Resume(task) => {
                    let done = Step { actions, next: Next::Return(Ok(())) };
                    let idle = Session { table, capacity, destination, step: done };
                    let step = idle.resume(limit, task, event);
                    let table = idle.table;
                    Session { table, capacity, destination: number, step }.go_on()
                },
                Next::Return(result) => {
                    let step = Step { actions, next: Next::Return(result) };
                    Session { table, capacity, destination, step }.go_on()
                },
            }
        },
    }
}

} // verus!
