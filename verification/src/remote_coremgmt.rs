//! Requests about a device at the far end of a link.
//!
//! A request is passed on in a packet, and the answer is handed back to the host. A
//! device that does not answer, or answers with another packet than it should, ends
//! the connection. The host is told so first, unless it is not owed a reply.
use crate::drtio::{from_utf8, key_payload, padded, Link, Packet, PacketView};
use crate::level::{level_number, LevelFilter};
use crate::proto::{DrtioError, Error, Reply, ReplyView};
use crate::step::{
    message_view, Action, ActionView, Field, FieldView, Next, Step, StepView, Task,
};
use vstd::prelude::*;
use vstd::slice::slice_subrange;
use vstd::string::StringExecFns;
use vstd::utf8::{decode_utf8, encode_utf8, valid_utf8};

verus! {

/// The answer to a packet in terms of byte sequences.
pub open spec fn answer_view(answer: Result<Packet, DrtioError>) -> Result<PacketView, DrtioError> {
    match answer {
        Ok(packet) => Ok(packet@),
        Err(error) => Err(error),
    }
}

/// The exchange of a packet over the link.
pub open spec fn transact(link: Link, packet: PacketView) -> ActionView {
    Action::Transact { linkno: link.linkno, packet }
}

/// The first `length` bytes of a payload.
pub open spec fn piece(payload: Seq<u8>, length: u16) -> Seq<u8> {
    payload.subrange(0, length as int)
}

/// The host is told of a failure, and the connection ends.
pub open spec fn refused<T>() -> StepView<T> {
    StepView::abort(seq![Action::Send(Reply::Error)])
}

/// A confirmation of the device is passed on as `reply`.
pub open spec fn confirmed<T>(answer: Result<PacketView, DrtioError>, reply: ReplyView) -> StepView<
    T,
> {
    if answer == Ok::<PacketView, DrtioError>(Packet::CoreMgmtAck) {
        StepView::finish(seq![Action::Send(reply)])
    } else {
        refused()
    }
}

/// A step that tells the host of the failure and ends the connection.
fn refuse<T>(error: DrtioError) -> (step: Step<T>)
    ensures
        step@ == refused::<T>(),
{
    let step = Step {
        actions: vec![Action::Send(Reply::Error)],
        next: Next::Return(Err(Error::from(error))),
    };
    assert(step@.actions =~= seq![Action::Send(Reply::Error)]);
    step
}

/// A step that ends the connection without a word.
fn give_up<T>(error: Error<T>) -> (step: Step<T>)
    ensures
        step@ == (StepView { actions: seq![], next: Next::Return(Err(error)) }),
{
    let step = Step { actions: Vec::new(), next: Next::Return(Err(error)) };
    assert(step@.actions =~= seq![]);
    step
}

/// Asks for the log, a piece at a time.
pub fn get_log<T>(link: Link) -> (step: Step<T>)
    ensures
        step@ == get_log_step::<T>(link, seq![]),
{
    get_log_on(link, String::new())
}

/// The next piece of the log is asked for, to be put behind the text so far. The
/// device keeps its log.
pub open spec fn get_log_step<T>(link: Link, buffer: Seq<char>) -> StepView<T> {
    StepView::resume(
        seq![
            transact(
                link,
                Packet::CoreMgmtGetLogRequest { destination: link.destination, clear: false },
            ),
        ],
        Task::RemoteGetLog { link, buffer },
    )
}

fn get_log_on<T>(link: Link, buffer: String) -> (step: Step<T>)
    ensures
        step@ == get_log_step::<T>(link, buffer@),
{
    Step::resume_after(
        Action::Transact {
            linkno: link.linkno,
            packet: Packet::CoreMgmtGetLogRequest { destination: link.destination, clear: false },
        },
        Task::RemoteGetLog { link, buffer },
    )
}

/// What becomes of a piece of the log: the last one completes the reply, any other
/// is followed by a request for the next. A piece that is no text ends the
/// connection.
pub open spec fn get_log_answered<T>(
    link: Link,
    buffer: Seq<char>,
    answer: Result<PacketView, DrtioError>,
) -> StepView<T> {
    match answer {
        Ok(Packet::CoreMgmtGetLogReply { last, length, data }) => {
            let text = buffer + decode_utf8(piece(data, length));
            if !valid_utf8(piece(data, length)) {
                StepView::abort(seq![])
            } else if last {
                StepView::finish(seq![Action::Send(Reply::LogContent(text))])
            } else {
                get_log_step(link, text)
            }
        },
        _ => refused(),
    }
}

/// Takes a piece of the log.
pub fn get_log_resume<T>(link: Link, buffer: String, answer: Result<Packet, DrtioError>) -> (step:
    Step<T>)
    requires
        answer is Ok ==> answer->Ok_0@.log_in_bounds(),
    ensures
        step@ == get_log_answered::<T>(link, buffer@, answer_view(answer)),
{
    match answer {
        Ok(Packet::CoreMgmtGetLogReply { last, length, data }) => {
            match from_utf8(slice_subrange(data.as_slice(), 0, length as usize)) {
                Some(text) => {
                    let buffer = buffer.concat(text);
                    if last {
                        Step::finish_with(Reply::LogContent(buffer))
                    } else {
                        get_log_on(link, buffer)
                    }
                },
                None => give_up(Error::DrtioError),
            }
        },
        Ok(_) => refuse(DrtioError::UnexpectedReply),
        Err(error) => refuse(error),
    }
}

/// Asks the device to empty its log.
pub fn clear_log<T>(link: Link) -> (step: Step<T>)
    ensures
        step@ == clear_log_step::<T>(link),
{
    Step::resume_after(
        Action::Transact {
            linkno: link.linkno,
            packet: Packet::CoreMgmtClearLogRequest { destination: link.destination },
        },
        Task::RemoteAck,
    )
}

pub open spec fn clear_log_step<T>(link: Link) -> StepView<T> {
    StepView::resume(
        seq![transact(link, Packet::CoreMgmtClearLogRequest { destination: link.destination })],
        Task::RemoteAck,
    )
}

/// Passes a confirmation of the device on to the host.
pub fn acknowledge<T>(answer: Result<Packet, DrtioError>) -> (step: Step<T>)
    ensures
        step@ == confirmed::<T>(answer_view(answer), Reply::Success),
{
    match answer {
        Ok(Packet::CoreMgmtAck) => Step::finish_with(Reply::Success),
        Ok(_) => refuse(DrtioError::UnexpectedReply),
        Err(error) => refuse(error),
    }
}

/// Asks for the log over and over, and has the device empty it each time.
pub fn pull_log<T>(link: Link) -> (step: Step<T>)
    ensures
        step@ == pull_log_step::<T>(link),
{
    Step::resume_after(pull_request(link), Task::RemotePullLog { link })
}

pub open spec fn pull_log_packet(link: Link) -> PacketView {
    Packet::CoreMgmtGetLogRequest { destination: link.destination, clear: true }
}

pub open spec fn pull_log_step<T>(link: Link) -> StepView<T> {
    StepView::resume(seq![transact(link, pull_log_packet(link))], Task::RemotePullLog { link })
}

fn pull_request(link: Link) -> (action: Action)
    ensures
        action@ == transact(link, pull_log_packet(link)),
{
    Action::Transact {
        linkno: link.linkno,
        packet: Packet::CoreMgmtGetLogRequest { destination: link.destination, clear: true },
    }
}

/// What becomes of a piece of the log: it goes to the host as it is, and the next
/// one is asked for, without an end. The host is not told of a failure.
pub open spec fn pull_log_answered<T>(link: Link, answer: Result<PacketView, DrtioError>) -> StepView<
    T,
> {
    match answer {
        Ok(Packet::CoreMgmtGetLogReply { last, length, data }) => StepView::resume(
            seq![Action::SendBytes(piece(data, length)), transact(link, pull_log_packet(link))],
            Task::RemotePullLog { link },
        ),
        _ => StepView::abort(seq![]),
    }
}

/// Takes a piece of the log.
pub fn pull_log_resume<T>(link: Link, answer: Result<Packet, DrtioError>) -> (step: Step<T>)
    requires
        answer is Ok ==> answer->Ok_0@.log_in_bounds(),
    ensures
        step@ == pull_log_answered::<T>(link, answer_view(answer)),
{
    match answer {
        Ok(Packet::CoreMgmtGetLogReply { last: _, length, data }) => {
            let mut bytes = data;
            bytes.truncate(length as usize);
            let step = Step {
                actions: vec![Action::SendBytes(bytes), pull_request(link)],
                next: Next::Resume(Task::RemotePullLog { link }),
            };
            assert(step@.actions =~= seq![
                Action::SendBytes(piece(data@, length)),
                transact(link, pull_log_packet(link)),
            ]);
            step
        },
        Ok(_) => give_up(Error::from(DrtioError::UnexpectedReply)),
        Err(error) => give_up(Error::from(error)),
    }
}

/// Sets the limit of what the device logs.
pub fn set_log_filter<T>(link: Link, level: LevelFilter) -> (step: Step<T>)
    ensures
        step@ == set_log_filter_step::<T>(link, level),
{
    Step::resume_after(
        Action::Transact {
            linkno: link.linkno,
            packet: Packet::CoreMgmtSetLogLevelRequest {
                destination: link.destination,
                log_level: level_number(level),
            },
        },
        Task::RemoteAck,
    )
}

pub open spec fn set_log_filter_step<T>(link: Link, level: LevelFilter) -> StepView<T> {
    StepView::resume(
        seq![
            transact(
                link,
                Packet::CoreMgmtSetLogLevelRequest {
                    destination: link.destination,
                    log_level: level.number(),
                },
            ),
        ],
        Task::RemoteAck,
    )
}

/// Sets the limit of what the device logs to its serial port.
pub fn set_uart_log_filter<T>(link: Link, level: LevelFilter) -> (step: Step<T>)
    ensures
        step@ == set_uart_log_filter_step::<T>(link, level),
{
    Step::resume_after(
        Action::Transact {
            linkno: link.linkno,
            packet: Packet::CoreMgmtSetUartLogLevelRequest {
                destination: link.destination,
                log_level: level_number(level),
            },
        },
        Task::RemoteAck,
    )
}

pub open spec fn set_uart_log_filter_step<T>(link: Link, level: LevelFilter) -> StepView<T> {
    StepView::resume(
        seq![
            transact(
                link,
                Packet::CoreMgmtSetUartLogLevelRequest {
                    destination: link.destination,
                    log_level: level.number(),
                },
            ),
        ],
        Task::RemoteAck,
    )
}

/// Asks for the value of a key, a piece at a time. `capacity` is the size of the
/// payload of a packet, which the key has to fit.
pub fn config_read<T>(link: Link, capacity: usize, key: &str) -> (step: Step<T>)
    requires
        encode_utf8(key@).len() <= capacity,
    ensures
        step@ == config_read_step::<T>(link, capacity as nat, key@),
{
    Step::resume_after(
        Action::Transact {
            linkno: link.linkno,
            packet: Packet::CoreMgmtConfigReadRequest {
                destination: link.destination,
                length: key_length(key),
                key: key_payload(key, capacity),
            },
        },
        Task::RemoteConfigRead { link, value: Vec::new() },
    )
}

/// The size of a key in bytes, as far as two bytes hold it.
fn key_length(key: &str) -> (length: u16)
    requires
        encode_utf8(key@).len() <= usize::MAX,
    ensures
        length == encode_utf8(key@).len() as u16,
{
    #[verifier::truncate]
    let length: u16 = key.len() as u16;
    length
}

pub open spec fn config_read_packet(link: Link, capacity: nat, key: Seq<char>) -> PacketView {
    Packet::CoreMgmtConfigReadRequest {
        destination: link.destination,
        length: encode_utf8(key).len() as u16,
        key: padded(encode_utf8(key), capacity),
    }
}

pub open spec fn config_read_step<T>(link: Link, capacity: nat, key: Seq<char>) -> StepView<T> {
    StepView::resume(
        seq![transact(link, config_read_packet(link, capacity, key))],
        Task::RemoteConfigRead { link, value: seq![] },
    )
}

/// What becomes of a piece of a value: the last one completes the reply, any other
/// is followed by a request for the next.
pub open spec fn config_read_answered<T>(
    link: Link,
    value: Seq<u8>,
    answer: Result<PacketView, DrtioError>,
) -> StepView<T> {
    match answer {
        Ok(Packet::CoreMgmtConfigReadReply { length, last, value: payload }) => {
            let bytes = value + piece(payload, length);
            if last {
                StepView::finish(seq![Action::Send(Reply::ConfigData(bytes))])
            } else {
                StepView::resume(
                    seq![
                        transact(
                            link,
                            Packet::CoreMgmtConfigReadContinue { destination: link.destination },
                        ),
                    ],
                    Task::RemoteConfigRead { link, value: bytes },
                )
            }
        },
        _ => refused(),
    }
}

/// Takes a piece of a value.
pub fn config_read_resume<T>(link: Link, value: Vec<u8>, answer: Result<Packet, DrtioError>) -> (step:
    Step<T>)
    requires
        answer is Ok ==> answer->Ok_0@.value_in_bounds(),
    ensures
        step@ == config_read_answered::<T>(link, value@, answer_view(answer)),
{
    match answer {
        Ok(Packet::CoreMgmtConfigReadReply { length, last, value: payload }) => {
            let mut bytes = value;
            bytes.extend_from_slice(slice_subrange(payload.as_slice(), 0, length as usize));
            assert(bytes@ =~= value@ + piece(payload@, length));
            if last {
                Step::finish_with(Reply::ConfigData(bytes))
            } else {
                Step::resume_after(
                    Action::Transact {
                        linkno: link.linkno,
                        packet: Packet::CoreMgmtConfigReadContinue { destination: link.destination },
                    },
                    Task::RemoteConfigRead { link, value: bytes },
                )
            }
        },
        Ok(_) => refuse(DrtioError::UnexpectedReply),
        Err(error) => refuse(error),
    }
}

/// Sends a key and its value to the device, in one message.
pub fn config_write<T>(link: Link, key: String, value: Vec<u8>) -> (step: Step<T>)
    ensures
        step@ == config_write_step::<T>(link, key@, value@),
{
    let message = config_write_message(key, value);
    Step::resume_after(Action::Transfer { link, message }, Task::RemoteConfigWrite)
}

pub open spec fn config_write_step<T>(link: Link, key: Seq<char>, value: Seq<u8>) -> StepView<T> {
    StepView::resume(
        seq![Action::Transfer { link, message: config_write_fields(key, value) }],
        Task::RemoteConfigWrite,
    )
}

/// What a device is sent to set a key: the key as text, and then the value as bytes.
pub open spec fn config_write_fields(key: Seq<char>, value: Seq<u8>) -> Seq<FieldView> {
    seq![Field::Text(key), Field::Bytes(value)]
}

/// The message that sets a key.
pub fn config_write_message(key: String, value: Vec<u8>) -> (message: Vec<Field>)
    ensures
        message_view(message) == config_write_fields(key@, value@),
{
    let message = vec![Field::Text(key), Field::Bytes(value)];
    assert(message_view(message) =~= config_write_fields(key@, value@));
    message
}

/// The packet for a piece of a transfer: a whole payload, of which the first `len`
/// bytes count.
pub fn config_write_request(link: Link, data: Vec<u8>, last: bool, len: usize) -> (packet: Packet)
    ensures
        packet@ == (Packet::CoreMgmtConfigWriteRequest {
            destination: link.destination,
            length: len as u16,
            last,
            data: data@,
        }),
{
    #[verifier::truncate]
    let length: u16 = len as u16;
    Packet::CoreMgmtConfigWriteRequest { destination: link.destination, length, last, data }
}

/// Whether a piece of a transfer has arrived.
pub fn config_write_answered(answer: Result<Packet, DrtioError>) -> (result: Result<(), DrtioError>)
    ensures
        result == (match answer {
            Ok(Packet::CoreMgmtAck) => Ok(()),
            Ok(_) => Err(DrtioError::UnexpectedReply),
            Err(error) => Err(error),
        }),
{
    match answer {
        Ok(Packet::CoreMgmtAck) => Ok(()),
        Ok(_) => Err(DrtioError::UnexpectedReply),
        Err(error) => Err(error),
    }
}

/// What becomes of a transfer.
pub open spec fn config_write_transferred<T>(result: Result<(), DrtioError>) -> StepView<T> {
    if result is Ok {
        StepView::finish(seq![Action::Send(Reply::Success)])
    } else {
        refused()
    }
}

/// Tells the host what came of a transfer.
pub fn config_write_resume<T>(result: Result<(), DrtioError>) -> (step: Step<T>)
    ensures
        step@ == config_write_transferred::<T>(result),
{
    match result {
        Ok(()) => Step::finish_with(Reply::Success),
        Err(error) => refuse(error),
    }
}

/// Asks the device to remove a key. `capacity` is the size of the payload of a
/// packet, which the key has to fit.
pub fn config_remove<T>(link: Link, capacity: usize, key: &str) -> (step: Step<T>)
    requires
        encode_utf8(key@).len() <= capacity,
    ensures
        step@ == config_remove_step::<T>(link, capacity as nat, key@),
{
    Step::resume_after(
        Action::Transact {
            linkno: link.linkno,
            packet: Packet::CoreMgmtConfigRemoveRequest {
                destination: link.destination,
                length: key_length(key),
                key: key_payload(key, capacity),
            },
        },
        Task::RemoteAck,
    )
}

pub open spec fn config_remove_packet(link: Link, capacity: nat, key: Seq<char>) -> PacketView {
    Packet::CoreMgmtConfigRemoveRequest {
        destination: link.destination,
        length: encode_utf8(key).len() as u16,
        key: padded(encode_utf8(key), capacity),
    }
}

pub open spec fn config_remove_step<T>(link: Link, capacity: nat, key: Seq<char>) -> StepView<T> {
    StepView::resume(
        seq![transact(link, config_remove_packet(link, capacity, key))],
        Task::RemoteAck,
    )
}

/// Asks the device to remove all keys.
pub fn config_erase<T>(link: Link) -> (step: Step<T>)
    ensures
        step@ == config_erase_step::<T>(link),
{
    Step::resume_after(
        Action::Transact {
            linkno: link.linkno,
            packet: Packet::CoreMgmtConfigEraseRequest { destination: link.destination },
        },
        Task::RemoteAck,
    )
}

pub open spec fn config_erase_step<T>(link: Link) -> StepView<T> {
    StepView::resume(
        seq![transact(link, Packet::CoreMgmtConfigEraseRequest { destination: link.destination })],
        Task::RemoteAck,
    )
}

/// Asks the device to start anew.
pub fn reboot<T>(link: Link) -> (step: Step<T>)
    ensures
        step@ == reboot_step::<T>(link),
{
    Step::resume_after(
        Action::Transact {
            linkno: link.linkno,
            packet: Packet::CoreMgmtRebootRequest { destination: link.destination },
        },
        Task::RemoteReboot,
    )
}

pub open spec fn reboot_step<T>(link: Link) -> StepView<T> {
    StepView::resume(
        seq![transact(link, Packet::CoreMgmtRebootRequest { destination: link.destination })],
        Task::RemoteReboot,
    )
}

/// Tells the host that the device is about to start anew.
pub fn reboot_resume<T>(answer: Result<Packet, DrtioError>) -> (step: Step<T>)
    ensures
        step@ == confirmed::<T>(answer_view(answer), Reply::RebootImminent),
{
    match answer {
        Ok(Packet::CoreMgmtAck) => Step::finish_with(Reply::RebootImminent),
        Ok(_) => refuse(DrtioError::UnexpectedReply),
        Err(error) => refuse(error),
    }
}

/// Asks the device to print the state of its allocator.
pub fn debug_allocator<T>(link: Link) -> (step: Step<T>)
    ensures
        step@ == debug_allocator_step::<T>(link),
{
    Step::resume_after(
        Action::Transact {
            linkno: link.linkno,
            packet: Packet::CoreMgmtAllocatorDebugRequest { destination: link.destination },
        },
        Task::RemoteDebugAllocator,
    )
}

pub open spec fn debug_allocator_step<T>(link: Link) -> StepView<T> {
    StepView::resume(
        seq![transact(link, Packet::CoreMgmtAllocatorDebugRequest { destination: link.destination })],
        Task::RemoteDebugAllocator,
    )
}

/// What becomes of the answer: the host is told neither of success nor of failure.
pub open spec fn debug_allocator_answered<T>(answer: Result<PacketView, DrtioError>) -> StepView<T> {
    if answer == Ok::<PacketView, DrtioError>(Packet::CoreMgmtAck) {
        StepView::finish(seq![])
    } else {
        StepView::abort(seq![])
    }
}

/// Takes the confirmation of a printout.
pub fn debug_allocator_resume<T>(answer: Result<Packet, DrtioError>) -> (step: Step<T>)
    ensures
        step@ == debug_allocator_answered::<T>(answer_view(answer)),
{
    match answer {
        Ok(Packet::CoreMgmtAck) => {
            let step = Step { actions: Vec::new(), next: Next::Return(Ok(())) };
            assert(step@.actions =~= seq![]);
            step
        },
        Ok(_) => give_up(Error::from(DrtioError::UnexpectedReply)),
        Err(error) => give_up(Error::from(error)),
    }
}

} // verus!
