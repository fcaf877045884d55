use mgmt::drtio::{Link, Packet, Route, RoutingTable};
use mgmt::level::LogLimit;
use mgmt::listener::{thread, BUFFER_SIZE, PORT, STACK_SIZE};
use mgmt::proto::{DrtioError, Error, IoError, Request, SchedError};
use mgmt::step::Action;
use mgmt::worker::{worker, Event, Session, Turn};

type Outcome = Option<Result<(), Error<u32>>>;

fn table() -> RoutingTable {
    let mut hops: Vec<Vec<u8>> = vec![vec![0, 0]; 256];
    hops[3] = vec![2, 5];
    RoutingTable(hops)
}

fn drive(events: Vec<Event<u32>>, table: Option<RoutingTable>) -> (Vec<Action>, Outcome) {
    let mut limit = LogLimit::new();
    let mut actions = Vec::new();
    let mut session = Session::new(table, 8);
    for event in events {
        assert!(session.accepts(&event));
        match worker(&mut limit, session, event) {
            Turn::Perform { action, session: after } => {
                actions.push(action);
                session = after;
            }
            Turn::Return(result) => return (actions, Some(result)),
        }
    }
    (actions, None)
}

#[test]
fn opening_reads_magic_and_destination_and_greets() {
    let events = vec![Event::Done, Event::Done, Event::Destination(3), Event::Done];
    let (actions, outcome) = drive(events, Some(table()));
    assert_eq!(
        actions,
        vec![
            Action::ReadMagic,
            Action::ReadDestination,
            Action::Greet("e".to_string()),
            Action::ReadRequest,
        ]
    );
    assert_eq!(outcome, None);
}

#[test]
fn wrong_magic_ends_the_connection() {
    let events = vec![Event::Done, Event::Failed(Error::Protocol(7))];
    let (actions, outcome) = drive(events, None);
    assert_eq!(actions, vec![Action::ReadMagic]);
    assert_eq!(outcome, Some(Err(Error::Protocol(7))));
}

#[test]
fn interruption_is_an_input_output_failure() {
    let events = vec![Event::Done, Event::Interrupted(SchedError(9))];
    let (_, outcome) = drive(events, None);
    assert_eq!(outcome, Some(Err(Error::Io(IoError::Other(9)))));
}

#[test]
fn connection_never_returns_ok() {
    let events = vec![
        Event::Done,
        Event::Done,
        Event::Destination(0),
        Event::Done,
        Event::Request(Request::DebugAllocator),
        Event::Done,
        Event::Failed(Error::Io(IoError::UnexpectedEnd)),
    ];
    let (actions, outcome) = drive(events, None);
    assert_eq!(actions[3..], [Action::ReadRequest, Action::PrintAllocator, Action::ReadRequest]);
    assert_eq!(outcome, Some(Err(Error::Io(IoError::UnexpectedEnd))));
}

#[test]
fn errors_convert() {
    let interrupted: Error<u32> = Error::from(SchedError(4));
    assert_eq!(interrupted, Error::Io(IoError::Other(4)));
    let unexpected: Error<u32> = Error::from(DrtioError::UnexpectedReply);
    assert_eq!(unexpected, Error::DrtioError);
    let lost: Error<u32> = Error::from(DrtioError::Transaction);
    assert_eq!(lost, Error::DrtioError);
}

#[test]
fn hang_up_is_not_reported() {
    assert_eq!(thread::<u32>(Ok(())), None);
    assert_eq!(thread::<u32>(Err(Error::Io(IoError::UnexpectedEnd))), None);
    assert_eq!(thread(Err(Error::Io(IoError::Other(3)))), Some(Error::Io(IoError::Other(3))));
    assert_eq!(thread(Err(Error::Protocol(2))), Some(Error::Protocol(2)));
    assert_eq!(thread::<u32>(Err(Error::DrtioError)), Some(Error::DrtioError));
}

#[test]
fn listener_constants() {
    assert_eq!((PORT, BUFFER_SIZE, STACK_SIZE), (1380, 8192, 16384));
}

#[test]
fn routes() {
    let table = table();
    assert_eq!(table.route(0), Route::Local);
    assert_eq!(table.route(255), Route::Local);
    assert_eq!(table.route(3), Route::Remote(Link { linkno: 1, destination: 3 }));
    assert!(table.covers(255));
    assert!(!RoutingTable(vec![vec![0]]).covers(1));
    assert!(!RoutingTable(vec![vec![]]).covers(0));
    assert_eq!(
        RoutingTable(vec![vec![255]]).route(0),
        Route::Remote(Link { linkno: 254, destination: 0 })
    );
}

#[test]
fn without_a_table_the_number_makes_no_difference() {
    let events = |number| {
        vec![
            Event::Done,
            Event::Done,
            Event::Destination(number),
            Event::Done,
            Event::Request(Request::Reboot),
            Event::Done,
        ]
    };
    assert_eq!(drive(events(3), None), drive(events(200), None));
}

#[test]
fn host_is_greeted_once() {
    let mut events = vec![Event::Done, Event::Done, Event::Destination(0), Event::Done];
    for _ in 0..3 {
        events.push(Event::Request(Request::DebugAllocator));
        events.push(Event::Done);
    }
    let (actions, _) = drive(events, None);
    let greetings = actions.iter().filter(|action| matches!(action, Action::Greet(_))).count();
    assert_eq!((actions.len(), greetings), (10, 1));
}

#[test]
fn without_a_table_all_requests_are_local() {
    let events = vec![
        Event::Done,
        Event::Done,
        Event::Destination(3),
        Event::Done,
        Event::Request(Request::ConfigErase),
    ];
    let (actions, _) = drive(events, None);
    assert_eq!(actions[4], Action::EraseConfig);
}

#[test]
fn session_route_follows_the_destination() {
    let mut limit = LogLimit::new();
    let mut session: Session<u32> = Session::new(Some(table()), 8);
    for event in vec![Event::Done, Event::Done, Event::Destination(3)] {
        session = match worker(&mut limit, session, event) {
            Turn::Perform { session, .. } => session,
            Turn::Return(_) => panic!("the connection ended"),
        };
    }
    assert_eq!(session.route(), Route::Remote(Link { linkno: 1, destination: 3 }));
}

fn serving(destination: u8, table: Option<RoutingTable>) -> Session<u32> {
    let mut limit = LogLimit::new();
    let mut session = Session::new(table, 8);
    for event in vec![Event::Done, Event::Done, Event::Destination(destination), Event::Done] {
        session = match worker(&mut limit, session, event) {
            Turn::Perform { session, .. } => session,
            Turn::Return(_) => panic!("the connection ended"),
        };
    }
    session
}

#[test]
fn events_that_cannot_come_are_not_accepted() {
    let session = serving(3, Some(table()));
    assert!(!session.accepts(&Event::Done));
    assert!(!session.accepts(&Event::Destination(1)));
    assert!(session.accepts(&Event::Failed(Error::DrtioError)));
    assert!(session.accepts(&Event::Interrupted(SchedError(1))));
    let short = Request::ConfigRead { key: "12345678".to_string() };
    assert!(session.accepts(&Event::Request(short)));
    let long = Request::ConfigRead { key: "123456789".to_string() };
    assert!(!session.accepts(&Event::Request(long)));
    let long = Request::ConfigRemove { key: "123456789".to_string() };
    assert!(!session.accepts(&Event::Request(long)));
    let local = serving(0, Some(table()));
    let long = Request::ConfigRead { key: "123456789".to_string() };
    assert!(local.accepts(&Event::Request(long)));
    let unknown = serving(1, Some(RoutingTable(vec![vec![0]])));
    assert!(!unknown.accepts(&Event::Request(Request::GetLog)));
}

#[test]
fn pieces_beyond_their_payload_are_not_accepted() {
    let session = serving(3, Some(table()));
    let mut limit = LogLimit::new();
    let session = match worker(&mut limit, session, Event::Request(Request::GetLog)) {
        Turn::Perform { session, .. } => session,
        Turn::Return(_) => panic!("the connection ended"),
    };
    let log = |length| {
        Event::Answer(Ok(Packet::CoreMgmtGetLogReply { last: true, length, data: vec![65, 66] }))
    };
    assert!(session.accepts(&log(2)));
    assert!(!session.accepts(&log(3)));
    let value = Packet::CoreMgmtConfigReadReply { length: 9, last: true, value: vec![] };
    assert!(session.accepts(&Event::Answer(Ok(value))));
    assert!(session.accepts(&Event::Answer(Err(DrtioError::Transaction))));
    assert!(session.expects(&Packet::CoreMgmtGetLogReply { last: true, length: 0, data: vec![] }));
    assert!(!session.expects(&Packet::CoreMgmtAck));
    assert!(!session.expects(&Packet::Other));
}
