use mgmt::drtio::{key_payload, Link, Packet, RoutingTable};
use mgmt::level::{LevelFilter, LogLimit};
use mgmt::proto::{DrtioError, Error, Reply, Request};
use mgmt::remote_coremgmt::{
    config_write_answered, config_write_message, config_write_request,
};
use mgmt::step::{Action, Field};
use mgmt::worker::{worker, Event, Session, Turn};

type Outcome = Option<Result<(), Error<u32>>>;

const LINK: Link = Link { linkno: 1, destination: 3 };

/// The actions after the opening of a connection about device 3 on link 1.
fn run(events: Vec<Event<u32>>) -> (Vec<Action>, Outcome) {
    let mut limit = LogLimit::new();
    let mut hops: Vec<Vec<u8>> = vec![vec![0]; 256];
    hops[3] = vec![2, 0];
    let mut session = Session::new(Some(RoutingTable(hops)), 8);
    for event in vec![Event::Done, Event::Done, Event::Destination(3), Event::Done] {
        session = match worker(&mut limit, session, event) {
            Turn::Perform { session, .. } => session,
            Turn::Return(_) => panic!("the connection ended"),
        };
    }
    let mut actions = Vec::new();
    for event in events {
        assert!(session.accepts(&event));
        match worker(&mut limit, session, event) {
            Turn::Perform { action, session: after } => {
                actions.push(action);
                session = after;
            }
            Turn::Return(result) => return (actions, Some(result)),
        }
    }
    (actions, None)
}

fn transact(packet: Packet) -> Action {
    Action::Transact { linkno: 1, packet }
}

fn ask(request: Request) -> Event<u32> {
    Event::Request(request)
}

fn answer(packet: Packet) -> Event<u32> {
    Event::Answer(Ok(packet))
}

fn log(last: bool, length: u16, data: &[u8]) -> Event<u32> {
    answer(Packet::CoreMgmtGetLogReply { last, length, data: data.to_vec() })
}

fn value(last: bool, length: u16, data: &[u8]) -> Event<u32> {
    answer(Packet::CoreMgmtConfigReadReply { length, last, value: data.to_vec() })
}

fn key() -> String {
    "ip".to_string()
}

#[test]
fn get_log_joins_the_pieces() {
    let events = vec![
        ask(Request::GetLog),
        log(false, 3, b"one\0\0"),
        log(false, 2, "\u{e9}xx".as_bytes()),
        log(true, 4, b"two\n"),
        Event::Done,
    ];
    let (actions, outcome) = run(events);
    let question = || {
        transact(Packet::CoreMgmtGetLogRequest { destination: 3, clear: false })
    };
    assert_eq!(
        actions,
        vec![
            question(),
            question(),
            question(),
            Action::Send(Reply::LogContent("one\u{e9}two\n".to_string())),
            Action::ReadRequest,
        ]
    );
    assert_eq!(outcome, None);
}

#[test]
fn empty_log() {
    let (actions, _) = run(vec![ask(Request::GetLog), log(true, 0, b"junk")]);
    assert_eq!(actions[1], Action::Send(Reply::LogContent(String::new())));
}

#[test]
fn log_that_is_no_text_ends_the_connection_without_a_reply() {
    let (actions, outcome) =
        run(vec![ask(Request::GetLog), log(false, 2, b"ok"), log(true, 1, &[0xff])]);
    assert_eq!(actions.len(), 2);
    assert_eq!(outcome, Some(Err(Error::DrtioError)));
    let (actions, outcome) = run(vec![ask(Request::GetLog), log(false, 1, "\u{e9}".as_bytes())]);
    assert_eq!(actions.len(), 1);
    assert_eq!(outcome, Some(Err(Error::DrtioError)));
}

#[test]
fn pull_log_passes_bytes_on_and_clears() {
    let events = vec![
        ask(Request::PullLog),
        log(true, 2, &[0xff, 0xfe, 0xfd]),
        Event::Done,
        log(false, 0, b""),
        Event::Done,
    ];
    let (actions, _) = run(events);
    let question = || {
        transact(Packet::CoreMgmtGetLogRequest { destination: 3, clear: true })
    };
    assert_eq!(
        actions,
        vec![
            question(),
            Action::SendBytes(vec![0xff, 0xfe]),
            question(),
            Action::SendBytes(vec![]),
            question(),
        ]
    );
}

#[test]
fn confirmed_requests() {
    let requests = vec![
        (Request::ClearLog, Packet::CoreMgmtClearLogRequest { destination: 3 }, Reply::Success),
        (
            Request::SetLogFilter(LevelFilter::Trace),
            Packet::CoreMgmtSetLogLevelRequest { destination: 3, log_level: 5 },
            Reply::Success,
        ),
        (
            Request::SetUartLogFilter(LevelFilter::Off),
            Packet::CoreMgmtSetUartLogLevelRequest { destination: 3, log_level: 0 },
            Reply::Success,
        ),
        (
            Request::ConfigRemove { key: key() },
            Packet::CoreMgmtConfigRemoveRequest {
                destination: 3,
                length: 2,
                key: vec![105, 112, 0, 0, 0, 0, 0, 0],
            },
            Reply::Success,
        ),
        (Request::ConfigErase, Packet::CoreMgmtConfigEraseRequest { destination: 3 }, Reply::Success),
        (Request::Reboot, Packet::CoreMgmtRebootRequest { destination: 3 }, Reply::RebootImminent),
    ];
    for (request, packet, reply) in requests {
        let (actions, outcome) =
            run(vec![ask(request), answer(Packet::CoreMgmtAck), Event::Done]);
        assert_eq!(actions, vec![transact(packet), Action::Send(reply), Action::ReadRequest]);
        assert_eq!(outcome, None);
    }
}

#[test]
fn level_numbers() {
    let levels = vec![
        (LevelFilter::Off, 0),
        (LevelFilter::Error, 1),
        (LevelFilter::Warn, 2),
        (LevelFilter::Info, 3),
        (LevelFilter::Debug, 4),
        (LevelFilter::Trace, 5),
    ];
    for (level, log_level) in levels {
        let (actions, _) = run(vec![ask(Request::SetLogFilter(level))]);
        let packet = Packet::CoreMgmtSetLogLevelRequest { destination: 3, log_level };
        assert_eq!(actions, vec![transact(packet)]);
        let (actions, _) = run(vec![ask(Request::SetUartLogFilter(level))]);
        let packet = Packet::CoreMgmtSetUartLogLevelRequest { destination: 3, log_level };
        assert_eq!(actions, vec![transact(packet)]);
    }
}

fn answered_requests() -> Vec<Request> {
    vec![
        Request::GetLog,
        Request::ClearLog,
        Request::SetLogFilter(LevelFilter::Info),
        Request::SetUartLogFilter(LevelFilter::Info),
        Request::ConfigRead { key: key() },
        Request::ConfigRemove { key: key() },
        Request::ConfigErase,
        Request::Reboot,
    ]
}

#[test]
fn unexpected_packet_is_answered_with_an_error() {
    for request in answered_requests() {
        let (actions, outcome) = run(vec![ask(request), answer(Packet::Other), Event::Done]);
        assert_eq!(actions[1..], [Action::Send(Reply::Error)]);
        assert_eq!(outcome, Some(Err(Error::DrtioError)));
    }
    for request in answered_requests() {
        let stray = answer(Packet::CoreMgmtRebootRequest { destination: 3 });
        let (actions, _) = run(vec![ask(request), stray]);
        assert_eq!(actions[1..], [Action::Send(Reply::Error)]);
    }
}

#[test]
fn failed_transaction_is_answered_with_an_error() {
    for request in answered_requests() {
        let lost = Event::Answer(Err(DrtioError::Transaction));
        let (actions, outcome) = run(vec![ask(request), lost, Event::Done]);
        assert_eq!(actions[1..], [Action::Send(Reply::Error)]);
        assert_eq!(outcome, Some(Err(Error::DrtioError)));
    }
}

#[test]
fn failures_that_the_host_is_not_told() {
    for request in vec![Request::PullLog, Request::DebugAllocator] {
        let (actions, outcome) = run(vec![ask(request), answer(Packet::Other)]);
        assert_eq!(actions.len(), 1);
        assert_eq!(outcome, Some(Err(Error::DrtioError)));
    }
    for request in vec![Request::PullLog, Request::DebugAllocator] {
        let lost = Event::Answer(Err(DrtioError::Transaction));
        let (actions, outcome) = run(vec![ask(request), lost]);
        assert_eq!(actions.len(), 1);
        assert_eq!(outcome, Some(Err(Error::DrtioError)));
    }
}

#[test]
fn remote_debug_allocator_is_not_answered() {
    let (actions, _) = run(vec![ask(Request::DebugAllocator), answer(Packet::CoreMgmtAck)]);
    let packet = Packet::CoreMgmtAllocatorDebugRequest { destination: 3 };
    assert_eq!(actions, vec![transact(packet), Action::ReadRequest]);
}

#[test]
fn config_read_joins_the_pieces() {
    let events = vec![
        ask(Request::ConfigRead { key: key() }),
        value(false, 2, &[1, 2, 9]),
        value(false, 0, &[]),
        value(true, 1, &[0xff]),
        Event::Done,
    ];
    let (actions, outcome) = run(events);
    let first = Packet::CoreMgmtConfigReadRequest {
        destination: 3,
        length: 2,
        key: vec![105, 112, 0, 0, 0, 0, 0, 0],
    };
    let more = || transact(Packet::CoreMgmtConfigReadContinue { destination: 3 });
    assert_eq!(
        actions,
        vec![
            transact(first),
            more(),
            more(),
            Action::Send(Reply::ConfigData(vec![1, 2, 0xff])),
            Action::ReadRequest,
        ]
    );
    assert_eq!(outcome, None);
}

#[test]
fn config_read_refused_midway() {
    let events = vec![
        ask(Request::ConfigRead { key: key() }),
        value(false, 2, &[1, 2]),
        answer(Packet::CoreMgmtAck),
        Event::Done,
    ];
    let (actions, outcome) = run(events);
    assert_eq!(actions[2..], [Action::Send(Reply::Error)]);
    assert_eq!(outcome, Some(Err(Error::DrtioError)));
}

#[test]
fn config_write_is_handed_over() {
    let request = || Request::ConfigWrite { key: key(), value: vec![4, 5] };
    let message = || vec![Field::Text(key()), Field::Bytes(vec![4, 5])];
    let transfer = || Action::Transfer { link: LINK, message: message() };
    let (actions, outcome) = run(vec![ask(request()), Event::Transfer(Ok(())), Event::Done]);
    assert_eq!(actions, vec![transfer(), Action::Send(Reply::Success), Action::ReadRequest]);
    assert_eq!(outcome, None);
    for error in vec![DrtioError::UnexpectedReply, DrtioError::Transaction] {
        let (actions, outcome) = run(vec![ask(request()), Event::Transfer(Err(error)), Event::Done]);
        assert_eq!(actions, vec![transfer(), Action::Send(Reply::Error)]);
        assert_eq!(outcome, Some(Err(Error::DrtioError)));
    }
}

#[test]
fn config_write_message_is_key_and_value() {
    let message = config_write_message("ip".to_string(), vec![7, 0]);
    assert_eq!(message, vec![Field::Text("ip".to_string()), Field::Bytes(vec![7, 0])]);
    assert_ne!(message, config_write_message("ip".to_string(), vec![7]));
    assert_ne!(message, config_write_message("i".to_string(), vec![7, 0]));
    assert_eq!(
        config_write_message(String::new(), vec![]),
        vec![Field::Text(String::new()), Field::Bytes(vec![])]
    );
}

#[test]
fn config_write_pieces() {
    assert_eq!(
        config_write_request(LINK, vec![1, 2, 0], true, 2),
        Packet::CoreMgmtConfigWriteRequest {
            destination: 3,
            length: 2,
            last: true,
            data: vec![1, 2, 0],
        }
    );
    match config_write_request(LINK, vec![], false, 65537) {
        Packet::CoreMgmtConfigWriteRequest { length, last, .. } => {
            assert_eq!((length, last), (1, false));
        }
        _ => panic!("another packet"),
    }
    assert_eq!(config_write_answered(Ok(Packet::CoreMgmtAck)), Ok(()));
    assert_eq!(config_write_answered(Ok(Packet::Other)), Err(DrtioError::UnexpectedReply));
    assert_eq!(
        config_write_answered(Err(DrtioError::Transaction)),
        Err(DrtioError::Transaction)
    );
}

#[test]
fn key_payloads() {
    assert_eq!(key_payload("", 2), vec![0, 0]);
    assert_eq!(key_payload("ab", 2), vec![97, 98]);
    assert_eq!(key_payload("\u{e9}", 4), vec![0xc3, 0xa9, 0, 0]);
}

#[test]
fn key_that_fills_the_payload() {
    let request = Request::ConfigRead { key: "12345678".to_string() };
    let (actions, _) = run(vec![ask(request)]);
    let packet = Packet::CoreMgmtConfigReadRequest {
        destination: 3,
        length: 8,
        key: b"12345678".to_vec(),
    };
    assert_eq!(actions, vec![transact(packet)]);
}
