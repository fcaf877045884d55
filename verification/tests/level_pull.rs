use mgmt::level::{LevelFilter, LogLimit};
use mgmt::local_coremgmt::pull_log;
use mgmt::proto::Request;
use mgmt::step::{Action, Next, Step, Task};
use mgmt::worker::{worker, Event, Session, Turn};

fn perform(session: Session<u32>, event: Event<u32>) -> (Action, Session<u32>) {
    let mut limit = LogLimit::new();
    match worker(&mut limit, session, event) {
        Turn::Perform { action, session } => (action, session),
        Turn::Return(_) => panic!("the connection ended"),
    }
}

#[test]
fn limit_is_read_before_the_buffer_is_asked_for() {
    let levels = vec![
        (LevelFilter::Off, log::LevelFilter::Off),
        (LevelFilter::Error, log::LevelFilter::Error),
        (LevelFilter::Warn, log::LevelFilter::Warn),
        (LevelFilter::Info, log::LevelFilter::Info),
        (LevelFilter::Debug, log::LevelFilter::Debug),
        (LevelFilter::Trace, log::LevelFilter::Trace),
    ];
    for (level, limit) in levels {
        log::set_max_level(limit);
        let step: Step<u32> = pull_log(&mut LogLimit::new());
        assert_eq!(step.actions, vec![Action::AcquireLog]);
        assert_eq!(step.next, Next::Resume(Task::LocalPullLog(level)));
    }

    let mut session = Session::new(None, 8);
    for event in vec![Event::Done, Event::Done, Event::Destination(0), Event::Done] {
        session = perform(session, event).1;
    }
    let line = || Event::Log { empty: false, content: "m".to_string() };

    log::set_max_level(log::LevelFilter::Trace);
    let (action, session) = perform(session, Event::Request(Request::PullLog));
    assert_eq!(action, Action::AcquireLog);
    log::set_max_level(log::LevelFilter::Off);
    let (action, session) = perform(session, line());
    assert_eq!(action, Action::SendString("m".to_string()));
    let (action, session) = perform(session, Event::Done);
    assert_eq!(action, Action::Flush);
    let (action, session) = perform(session, Event::Done);
    assert_eq!(action, Action::ClearLog);
    let (action, session) = perform(session, Event::Done);
    assert_eq!(action, Action::ReleaseLog);

    log::set_max_level(log::LevelFilter::Debug);
    let (action, session) = perform(session, Event::Done);
    assert_eq!(action, Action::AcquireLog);
    log::set_max_level(log::LevelFilter::Off);
    let (action, session) = perform(session, line());
    assert_eq!(action, Action::SendString("m".to_string()));
    let (action, session) = perform(session, Event::Done);
    assert_eq!(action, Action::ClearLog);
    let (action, session) = perform(session, Event::Done);
    assert_eq!(action, Action::ReleaseLog);

    let (action, session) = perform(session, Event::Done);
    assert_eq!(action, Action::AcquireLog);
    let (action, session) =
        perform(session, Event::Log { empty: true, content: String::new() });
    assert_eq!(action, Action::ReleaseLog);
    let (action, _) = perform(session, Event::Done);
    assert_eq!(action, Action::AcquireLog);
}
