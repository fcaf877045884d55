//! What the functions of the crate give, in terms of their own arguments and results.
use crate::drtio::{key_payload, Link, Packet, Route, RoutingTable};
use crate::laws::connection::law_level_matters_only_to_pull_log;
use crate::laws::outcomes::{is_expected, law_where_limit_is_read};
use crate::laws::requests::{is_about, is_about_this_device, waits};
use crate::level::{latest, LevelFilter, LimitUse, LogLimit};
use crate::listener;
use crate::local_coremgmt::limit_log;
use crate::proto::{DrtioError, Error, IoError, Request};
use crate::remote_coremgmt::{config_write_answered, config_write_request};
use crate::step::{ActionView, Next, NextView, Task, TaskView};
use crate::worker::{worker, Event, Session, Turn};
use vstd::prelude::*;
use vstd::utf8::encode_utf8;

verus! {

/// A piece of a transfer goes to the device with the number of the link, with all of its
/// payload as it is. The length is cut to what two bytes hold.
pub proof fn law_config_write_request(
    link: Link,
    data: Vec<u8>,
    last: bool,
    len: usize,
    packet: Packet,
)
    requires
        call_ensures(config_write_request, (link, data, last, len), packet),
    ensures
        packet matches Packet::CoreMgmtConfigWriteRequest {
            destination,
            length,
            last: is_last,
            data: payload,
        } && destination == link.destination && length == len as u16 && is_last == last
            && payload@ == data@,
{
}

/// A piece of a transfer has arrived if and only if the device confirms it. Any other
/// packet is unexpected, and a failure of the exchange is passed on as it is.
pub proof fn law_config_write_answered(
    answer: Result<Packet, DrtioError>,
    result: Result<(), DrtioError>,
)
    requires
        call_ensures(config_write_answered, (answer,), result),
    ensures
        result is Ok <==> answer is Ok && answer->Ok_0 is CoreMgmtAck,
        answer is Ok && !(answer->Ok_0 is CoreMgmtAck) ==> result == Err::<(), DrtioError>(
            DrtioError::UnexpectedReply,
        ),
        answer matches Err(error) ==> result == Err::<(), DrtioError>(error),
{
}

/// A table has a way to a destination exactly if it has a first hop for it.
pub proof fn law_covers(table: &RoutingTable, destination: u8, yes: bool)
    requires
        call_ensures(RoutingTable::covers, (table, destination), yes),
    ensures
        yes <==> destination < table.0@.len() && table.0@[destination as int]@.len() > 0,
{
}

/// A first hop of 0 is this device. Any other is one more than the number of the link.
pub proof fn law_route(table: &RoutingTable, destination: u8, route: Route)
    requires
        destination < table.0@.len(),
        table.0@[destination as int]@.len() > 0,
        call_ensures(RoutingTable::route, (table, destination), route),
    ensures
        match route {
            Route::Local => table.0@[destination as int]@[0] == 0,
            Route::Remote(link) => {
                &&& table.0@[destination as int]@[0] == link.linkno + 1
                &&& link.destination == destination
            },
        },
{
}

/// A key lies at the front of a payload, with zeros behind it.
pub proof fn law_key_payload(key: &str, capacity: usize, payload: Vec<u8>)
    requires
        encode_utf8(key@).len() <= capacity,
        call_ensures(key_payload, (key, capacity), payload),
    ensures
        payload@.len() == capacity,
        forall|i: int|
            0 <= i < capacity ==> #[trigger] payload@[i] == if i < encode_utf8(key@).len() {
                encode_utf8(key@)[i]
            } else {
                0
            },
{
}

/// Of a connection that has ended, its error is reported, unless the host hung up.
pub proof fn law_thread<T>(outcome: Result<(), Error<T>>, report: Option<Error<T>>)
    requires
        call_ensures(listener::thread::<T>, (outcome,), report),
    ensures
        report is None <==> outcome is Ok || outcome == Err::<(), Error<T>>(
            Error::Io(IoError::UnexpectedEnd),
        ),
        report is Some ==> outcome == Err::<(), Error<T>>(report->0),
{
}

/// A connection is opened with the hops of the table and the size of a payload that it
/// is given. It is about to read the magic string and the number of the device.
pub proof fn law_new<T>(table: Option<RoutingTable>, capacity: usize, session: Session<T>)
    requires
        call_ensures(Session::<T>::new, (table, capacity), session),
    ensures
        match table {
            None => session@.table is None,
            Some(hops) => {
                &&& session@.table is Some
                &&& session@.table->0.len() == hops.0@.len()
                &&& forall|i: int|
                    0 <= i < hops.0@.len() ==> #[trigger] session@.table->0[i] == hops.0@[i]@
            },
        },
        session@.capacity == capacity,
        session@.step.actions.len() == 2,
        session@.step.actions[0] == ActionView::ReadMagic,
        session@.step.actions[1] == ActionView::ReadDestination,
        session@.step.next == NextView::<T>::Resume(Task::Greeting),
{
}

/// The device that requests are about is the one that the first hop leads to.
pub proof fn law_session_route<T>(session: &Session<T>, route: Route)
    requires
        is_about_this_device(session@) || exists|link: Link| is_about(session@, link),
        call_ensures(Session::<T>::route, (session,), route),
    ensures
        match route {
            Route::Local => is_about_this_device(session@),
            Route::Remote(link) => is_about(session@, link),
        },
{
}

/// Whether an event can come of the action that is being performed is said of each
/// event, with all that it holds.
pub proof fn law_accepts<T>(session: &Session<T>, event: &Event<T>, yes: bool)
    requires
        call_ensures(Session::<T>::accepts, (session, event), yes),
    ensures
        yes == session@.accepts(event@),
{
}

/// A packet is expected exactly if it is of the kind that the task waits for.
pub proof fn law_expects<T>(session: &Session<T>, packet: &Packet, yes: bool)
    requires
        call_ensures(Session::<T>::expects, (session, packet), yes),
    ensures
        yes == (session@.step.next matches Next::Resume(task) && is_expected(task, packet@)),
{
}

/// A turn follows from the connection and the event, and where the limit of what is
/// logged is read, from the level that was read. It is read where an endless transmission
/// of the log of this device begins or goes on, and never set.
pub proof fn law_worker<T>(
    limit: &mut LogLimit,
    session: Session<T>,
    event: Event<T>,
    turn: Turn<T>,
    level: LevelFilter,
)
    requires
        session@.accepts(event@),
        call_ensures(worker::<T>, (limit, session, event), turn),
    ensures
        ({
            let reads = !(event is Interrupted) && !(event is Failed) && (waits(
                session@,
                TaskView::LocalPullAgain,
            ) || waits(session@, TaskView::Serving) && is_about_this_device(session@) && event
                == Event::<T>::Request(Request::PullLog));
            &&& !reads ==> final(limit)@ == old(limit)@
            &&& !reads ==> turn@ == session@.advance(level, event@)
            &&& reads ==> exists|read: LevelFilter|
                final(limit)@ == old(limit)@.push(LimitUse::Read(read)) && turn@
                    == #[trigger] session@.advance(read, event@)
        }),
{
    law_where_limit_is_read(session@, event@);
    if session@.reads_limit(event@) {
        assert(turn@ == session@.advance(latest(final(limit)@), event@));
    } else if session@.advance(latest(old(limit)@), event@) != session@.advance(level, event@) {
        law_level_matters_only_to_pull_log(
            session@,
            latest(old(limit)@),
            level,
            event@,
        );
    }
}

/// To set the limit of what is logged is to make one call, with the given level.
pub proof fn law_limit_log(limit: &mut LogLimit, level: LevelFilter)
    requires
        call_ensures(limit_log, (limit, level), ()),
    ensures
        final(limit)@ == old(limit)@.push(LimitUse::Write(level)),
{
}

} // verus!
