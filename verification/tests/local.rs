use mgmt::level::{LevelFilter, LogLimit};
use mgmt::local_coremgmt;
use mgmt::proto::{Error, IoError, Reply, Request};
use mgmt::step::{Action, Next, Step, Task};
use mgmt::worker::{worker, Event, Session, Turn};

type Outcome = Option<Result<(), Error<u32>>>;

/// The actions after the opening of a connection about this device.
fn run(events: Vec<Event<u32>>) -> (Vec<Action>, Outcome) {
    let mut limit = LogLimit::new();
    let mut session = Session::new(None, 8);
    for event in vec![Event::Done, Event::Done, Event::Destination(0), Event::Done] {
        session = match worker(&mut limit, session, event) {
            Turn::Perform { session, .. } => session,
            Turn::Return(_) => panic!("the connection ended"),
        };
    }
    let mut actions = Vec::new();
    for event in events {
        assert!(session.accepts(&event));
        match worker(&mut limit, session, event) {
            Turn::Perform { action, session: after } => {
                actions.push(action);
                session = after;
            }
            Turn::Return(result) => return (actions, Some(result)),
        }
    }
    (actions, None)
}

fn text(s: &str) -> String {
    s.to_string()
}

#[test]
fn get_log_sends_the_buffer_and_keeps_it() {
    let log = Event::Log { empty: false, content: text("a line\n") };
    let (actions, outcome) =
        run(vec![Event::Request(Request::GetLog), log, Event::Done, Event::Done]);
    assert_eq!(
        actions,
        vec![
            Action::AcquireLog,
            Action::Send(Reply::LogContent(text("a line\n"))),
            Action::ReleaseLog,
            Action::ReadRequest,
        ]
    );
    assert_eq!(outcome, None);
}

#[test]
fn get_log_sends_an_empty_log_too() {
    let log = Event::Log { empty: true, content: text("") };
    let (actions, _) = run(vec![Event::Request(Request::GetLog), log]);
    assert_eq!(actions[1], Action::Send(Reply::LogContent(text(""))));
}

#[test]
fn clear_log_empties_the_buffer_before_the_reply() {
    let log = Event::Log { empty: false, content: text("x") };
    let events =
        vec![Event::Request(Request::ClearLog), log, Event::Done, Event::Done, Event::Done];
    let (actions, _) = run(events);
    assert_eq!(
        actions,
        vec![
            Action::AcquireLog,
            Action::ClearLog,
            Action::ReleaseLog,
            Action::Send(Reply::Success),
            Action::ReadRequest,
        ]
    );
}

#[test]
fn pulled_log_is_flushed_only_when_tracing() {
    let levels = vec![
        LevelFilter::Off,
        LevelFilter::Error,
        LevelFilter::Warn,
        LevelFilter::Info,
        LevelFilter::Debug,
    ];
    for level in levels {
        let step: Step<u32> = local_coremgmt::pull_log_resume(level, false, text("m"));
        assert_eq!(
            step.actions,
            vec![Action::SendString(text("m")), Action::ClearLog, Action::ReleaseLog]
        );
        assert_eq!(step.next, Next::Resume(Task::LocalPullAgain));
    }
    let step: Step<u32> = local_coremgmt::pull_log_resume(LevelFilter::Trace, false, text("m"));
    assert_eq!(
        step.actions,
        vec![
            Action::SendString(text("m")),
            Action::Flush,
            Action::ClearLog,
            Action::ReleaseLog,
        ]
    );
}

#[test]
fn empty_log_is_not_pulled() {
    let step: Step<u32> = local_coremgmt::pull_log_resume(LevelFilter::Trace, true, text(""));
    assert_eq!(step.actions, vec![Action::ReleaseLog]);
    assert_eq!(step.next, Next::Resume(Task::LocalPullAgain));
}

#[test]
fn pull_log_waits_under_the_given_limit() {
    let step: Step<u32> = local_coremgmt::pull_log_under(LevelFilter::Info);
    assert_eq!(step.actions, vec![Action::AcquireLog]);
    assert_eq!(step.next, Next::Resume(Task::LocalPullLog(LevelFilter::Info)));
}

#[test]
fn log_is_not_cleared_when_sending_fails() {
    let log = Event::Log { empty: false, content: text("m") };
    let failed = Event::Failed(Error::Io(IoError::Other(1)));
    let (actions, outcome) = run(vec![Event::Request(Request::PullLog), log, failed]);
    assert_eq!(actions, vec![Action::AcquireLog, Action::SendString(text("m"))]);
    assert_eq!(outcome, Some(Err(Error::Io(IoError::Other(1)))));
}

#[test]
fn uart_log_filter() {
    let request = Event::Request(Request::SetUartLogFilter(LevelFilter::Debug));
    let (actions, _) = run(vec![request, Event::Done, Event::Done]);
    assert_eq!(
        actions,
        vec![
            Action::SetUartLogLevel(LevelFilter::Debug),
            Action::Send(Reply::Success),
            Action::ReadRequest,
        ]
    );
}

#[test]
fn log_filter() {
    let request = Event::Request(Request::SetLogFilter(LevelFilter::Warn));
    let (actions, _) = run(vec![request, Event::Done, Event::Done]);
    assert_eq!(
        actions,
        vec![
            Action::SetLogLevel(LevelFilter::Warn),
            Action::Send(Reply::Success),
            Action::ReadRequest,
        ]
    );
}

#[test]
fn config_read() {
    let request = || Event::Request(Request::ConfigRead { key: text("ip") });
    let (actions, _) = run(vec![request(), Event::Config(Ok(vec![1, 2])), Event::Done]);
    assert_eq!(
        actions,
        vec![
            Action::ReadConfig(text("ip")),
            Action::Send(Reply::ConfigData(vec![1, 2])),
            Action::ReadRequest,
        ]
    );
    let (actions, outcome) = run(vec![request(), Event::Config(Err(())), Event::Done]);
    assert_eq!(actions[1..], [Action::Send(Reply::Error), Action::ReadRequest]);
    assert_eq!(outcome, None);
}

#[test]
fn config_write() {
    let request = |key: &str| {
        Event::Request(Request::ConfigWrite { key: text(key), value: vec![7] })
    };
    let (actions, _) = run(vec![request("ip"), Event::ConfigChange(Ok(())), Event::Done]);
    assert_eq!(
        actions,
        vec![
            Action::WriteConfig { key: text("ip"), value: vec![7] },
            Action::Send(Reply::Success),
            Action::ReadRequest,
        ]
    );
    let (actions, outcome) =
        run(vec![request("idle_kernel"), Event::ConfigChange(Err(())), Event::Done]);
    assert_eq!(actions[1..], [Action::Send(Reply::Error), Action::ReadRequest]);
    assert_eq!(outcome, None);
}

#[test]
fn writing_the_idle_kernel_restarts_it() {
    let request =
        Event::Request(Request::ConfigWrite { key: text("idle_kernel"), value: vec![7] });
    let changed = Event::ConfigChange(Ok(()));
    let (actions, _) = run(vec![request, changed, Event::Done, Event::Done, Event::Done]);
    assert_eq!(
        actions[1..],
        [
            Action::AwaitIdle,
            Action::RestartIdle,
            Action::Send(Reply::Success),
            Action::ReadRequest,
        ]
    );
}

#[test]
fn removing_the_idle_kernel_restarts_it() {
    let request = |key: &str| Event::Request(Request::ConfigRemove { key: text(key) });
    let changed = || Event::ConfigChange(Ok(()));
    let (actions, _) = run(vec![request("idle_kernel"), changed(), Event::Done]);
    assert_eq!(
        actions,
        vec![
            Action::RemoveConfig(text("idle_kernel")),
            Action::AwaitIdle,
            Action::RestartIdle,
        ]
    );
    let (actions, _) = run(vec![request("idle_kernel2"), changed()]);
    assert_eq!(actions[1], Action::Send(Reply::Success));
    let (actions, _) = run(vec![request("Idle_kernel"), changed()]);
    assert_eq!(actions[1], Action::Send(Reply::Success));
}

#[test]
fn erasing_restarts_the_idle_kernel() {
    let request = || Event::Request(Request::ConfigErase);
    let (actions, _) = run(vec![request(), Event::ConfigChange(Ok(())), Event::Done]);
    assert_eq!(actions, vec![Action::EraseConfig, Action::AwaitIdle, Action::RestartIdle]);
    let (actions, _) = run(vec![request(), Event::ConfigChange(Err(()))]);
    assert_eq!(actions[1], Action::Send(Reply::Error));
}

#[test]
fn interrupted_wait_does_not_restart_the_idle_kernel() {
    let events = vec![
        Event::Request(Request::ConfigErase),
        Event::ConfigChange(Ok(())),
        Event::Interrupted(mgmt::proto::SchedError(5)),
    ];
    let (actions, outcome) = run(events);
    assert_eq!(actions, vec![Action::EraseConfig, Action::AwaitIdle]);
    assert_eq!(outcome, Some(Err(Error::Io(IoError::Other(5)))));
}

#[test]
fn reboot_closes_the_connection_first() {
    let events = vec![Event::Request(Request::Reboot), Event::Done, Event::Done, Event::Done];
    let (actions, _) = run(events);
    assert_eq!(
        actions,
        vec![
            Action::Send(Reply::RebootImminent),
            Action::Close,
            Action::Flush,
            Action::Reload,
        ]
    );
}

#[test]
fn failed_close_does_not_reboot() {
    let failed = Event::Failed(Error::Io(IoError::Other(2)));
    let (actions, outcome) = run(vec![Event::Request(Request::Reboot), Event::Done, failed]);
    assert_eq!(actions, vec![Action::Send(Reply::RebootImminent), Action::Close]);
    assert_eq!(outcome, Some(Err(Error::Io(IoError::Other(2)))));
}

#[test]
fn debug_allocator_is_not_answered() {
    let (actions, _) = run(vec![Event::Request(Request::DebugAllocator), Event::Done]);
    assert_eq!(actions, vec![Action::PrintAllocator, Action::ReadRequest]);
}
