//! Requests about this device.
use crate::level::{latest, max_level, set_max_level, LevelFilter, LimitUse, LogLimit};
use crate::proto::Reply;
use crate::step::{Action, Next, Step, StepView, Task};
use vstd::prelude::*;

verus! {

/// The key of the configuration that holds the idle kernel.
pub open spec fn is_idle_kernel(key: Seq<char>) -> bool {
    key == "idle_kernel"@
}

fn names_idle_kernel(key: &String) -> (yes: bool)
    ensures
        yes == is_idle_kernel(key@),
{
    *key == "idle_kernel".to_owned()
}

/// Asks for the log buffer, to send what it holds in one reply.
pub fn get_log<T>() -> (step: Step<T>)
    ensures
        step@ == get_log_step::<T>(),
{
    Step::resume_after(Action::AcquireLog, Task::LocalGetLog)
}

pub open spec fn get_log_step<T>() -> StepView<T> {
    StepView::resume(seq![Action::AcquireLog], Task::LocalGetLog)
}

/// The log goes to the host while the buffer is held, and stays in the buffer.
pub open spec fn get_log_acquired<T>(content: Seq<char>) -> StepView<T> {
    StepView::finish(seq![Action::Send(Reply::LogContent(content)), Action::ReleaseLog])
}

/// Sends what the log buffer holds.
pub fn get_log_resume<T>(content: String) -> (step: Step<T>)
    ensures
        step@ == get_log_acquired::<T>(content@),
{
    let step = Step {
        actions: vec![Action::Send(Reply::LogContent(content)), Action::ReleaseLog],
        next: Next::Return(Ok(())),
    };
    assert(step@.actions =~= seq![Action::Send(Reply::LogContent(content@)), Action::ReleaseLog]);
    step
}

/// Empties the log buffer, and tells the host once the buffer has been given up.
pub fn clear_log<T>() -> (step: Step<T>)
    ensures
        step@ == clear_log_step::<T>(),
{
    let step = Step {
        actions: vec![
            Action::AcquireLog,
            Action::ClearLog,
            Action::ReleaseLog,
            Action::Send(Reply::Success),
        ],
        next: Next::Return(Ok(())),
    };
    assert(step@ =~= clear_log_step::<T>());
    step
}

pub open spec fn clear_log_step<T>() -> StepView<T> {
    StepView::finish(
        seq![
            Action::AcquireLog,
            Action::ClearLog,
            Action::ReleaseLog,
            Action::Send(Reply::Success),
        ],
    )
}

/// Sends the log over and over, and empties the buffer each time.
///
/// The limit of what is logged is taken before the buffer is asked for, since that
/// turns logging off.
pub fn pull_log<T>(limit: &mut LogLimit) -> (step: Step<T>)
    ensures
        final(limit)@ == old(limit)@.push(LimitUse::Read(latest(final(limit)@))),
        step@ == pull_log_step::<T>(latest(final(limit)@)),
{
    let level = max_level(limit);
    pull_log_under(level)
}

/// The log buffer is asked for under the given limit.
pub open spec fn pull_log_step<T>(level: LevelFilter) -> StepView<T> {
    StepView::resume(seq![Action::AcquireLog], Task::LocalPullLog(level))
}

/// Asks for the log buffer under the given limit.
pub fn pull_log_under<T>(level: LevelFilter) -> (step: Step<T>)
    ensures
        step@ == pull_log_step::<T>(level),
{
    Step::resume_after(Action::AcquireLog, Task::LocalPullLog(level))
}

/// What is done with the log buffer before it is given up and asked for again.
///
/// At the level of a trace the host has to acknowledge what it was sent while the
/// buffer is still held: sending makes for trace messages, which would make for more
/// to send. The buffer is emptied only after that, or those messages would be sent
/// the next time.
pub open spec fn pull_log_acquired<T>(level: LevelFilter, empty: bool, content: Seq<char>) -> StepView<
    T,
> {
    StepView::resume(
        if empty {
            seq![Action::ReleaseLog]
        } else if level == LevelFilter::Trace {
            seq![Action::SendString(content), Action::Flush, Action::ClearLog, Action::ReleaseLog]
        } else {
            seq![Action::SendString(content), Action::ClearLog, Action::ReleaseLog]
        },
        Task::LocalPullAgain,
    )
}

/// Sends what the log buffer holds and empties it.
pub fn pull_log_resume<T>(level: LevelFilter, empty: bool, content: String) -> (step: Step<T>)
    ensures
        step@ == pull_log_acquired::<T>(level, empty, content@),
{
    let actions = if empty {
        vec![Action::ReleaseLog]
    } else if level == LevelFilter::Trace {
        vec![Action::SendString(content), Action::Flush, Action::ClearLog, Action::ReleaseLog]
    } else {
        vec![Action::SendString(content), Action::ClearLog, Action::ReleaseLog]
    };
    let step = Step { actions, next: Next::Resume(Task::LocalPullAgain) };
    assert(step@ =~= pull_log_acquired::<T>(level, empty, content@));
    step
}

/// Sets the limit of what is logged.
pub fn set_log_filter<T>(level: LevelFilter) -> (step: Step<T>)
    ensures
        step@ == set_log_filter_step::<T>(level),
{
    let step = Step {
        actions: vec![Action::SetLogLevel(level), Action::Send(Reply::Success)],
        next: Next::Return(Ok(())),
    };
    assert(step@ =~= set_log_filter_step::<T>(level));
    step
}

pub open spec fn set_log_filter_step<T>(level: LevelFilter) -> StepView<T> {
    StepView::finish(seq![Action::SetLogLevel(level), Action::Send(Reply::Success)])
}

/// Performs [`Action::SetLogLevel`], which cannot fail: makes `level` the limit of what
/// the whole process logs. Another thread may set another limit right after.
pub fn limit_log(limit: &mut LogLimit, level: LevelFilter)
    ensures
        final(limit)@ == old(limit)@.push(LimitUse::Write(level)),
{
    set_max_level(limit, level);
}

/// Sets the limit of what is logged to the serial port.
pub fn set_uart_log_filter<T>(level: LevelFilter) -> (step: Step<T>)
    ensures
        step@ == set_uart_log_filter_step::<T>(level),
{
    let step = Step {
        actions: vec![Action::SetUartLogLevel(level), Action::Send(Reply::Success)],
        next: Next::Return(Ok(())),
    };
    assert(step@ =~= set_uart_log_filter_step::<T>(level));
    step
}

pub open spec fn set_uart_log_filter_step<T>(level: LevelFilter) -> StepView<T> {
    StepView::finish(seq![Action::SetUartLogLevel(level), Action::Send(Reply::Success)])
}

/// Looks up a key.
pub fn config_read<T>(key: String) -> (step: Step<T>)
    ensures
        step@ == config_read_step::<T>(key@),
{
    Step::resume_after(Action::ReadConfig(key), Task::LocalConfigRead)
}

pub open spec fn config_read_step<T>(key: Seq<char>) -> StepView<T> {
    StepView::resume(seq![Action::ReadConfig(key)], Task::LocalConfigRead)
}

/// The host is sent the value, or told that there is none to be had.
pub open spec fn config_read_answered<T>(value: Result<Seq<u8>, ()>) -> StepView<T> {
    StepView::finish(
        match value {
            Ok(value) => seq![Action::Send(Reply::ConfigData(value))],
            Err(_) => seq![Action::Send(Reply::Error)],
        },
    )
}

/// A looked-up value in terms of a byte sequence.
pub open spec fn value_view(value: Result<Vec<u8>, ()>) -> Result<Seq<u8>, ()> {
    match value {
        Ok(value) => Ok(value@),
        Err(error) => Err(error),
    }
}

/// Sends the value of a key.
pub fn config_read_resume<T>(value: Result<Vec<u8>, ()>) -> (step: Step<T>)
    ensures
        step@ == config_read_answered::<T>(value_view(value)),
{
    match value {
        Ok(value) => Step::finish_with(Reply::ConfigData(value)),
        Err(_) => Step::finish_with(Reply::Error),
    }
}

/// Sets a key.
pub fn config_write<T>(key: String, value: Vec<u8>) -> (step: Step<T>)
    ensures
        step@ == config_write_step::<T>(key@, value@),
{
    let restart = names_idle_kernel(&key);
    Step::resume_after(Action::WriteConfig { key, value }, Task::LocalConfigChange { restart })
}

pub open spec fn config_write_step<T>(key: Seq<char>, value: Seq<u8>) -> StepView<T> {
    StepView::resume(
        seq![Action::WriteConfig { key, value }],
        Task::LocalConfigChange { restart: is_idle_kernel(key) },
    )
}

/// The host is told whether the configuration was changed. If that concerns the idle
/// kernel, a restart of it is asked for before, and not while an earlier one is
/// outstanding.
pub open spec fn config_changed<T>(restart: bool, result: Result<(), ()>) -> StepView<T> {
    StepView::finish(
        if result is Err {
            seq![Action::Send(Reply::Error)]
        } else if restart {
            seq![Action::AwaitIdle, Action::RestartIdle, Action::Send(Reply::Success)]
        } else {
            seq![Action::Send(Reply::Success)]
        },
    )
}

/// Takes the outcome of a change of the configuration.
pub fn config_change_resume<T>(restart: bool, result: Result<(), ()>) -> (step: Step<T>)
    ensures
        step@ == config_changed::<T>(restart, result),
{
    match result {
        Ok(()) => {
            if restart {
                let step = Step {
                    actions: vec![
                        Action::AwaitIdle,
                        Action::RestartIdle,
                        Action::Send(Reply::Success),
                    ],
                    next: Next::Return(Ok(())),
                };
                assert(step@ =~= config_changed::<T>(restart, result));
                step
            } else {
                Step::finish_with(Reply::Success)
            }
        },
        Err(_) => Step::finish_with(Reply::Error),
    }
}

/// Removes a key.
pub fn config_remove<T>(key: String) -> (step: Step<T>)
    ensures
        step@ == config_remove_step::<T>(key@),
{
    let restart = names_idle_kernel(&key);
    Step::resume_after(Action::RemoveConfig(key), Task::LocalConfigChange { restart })
}

pub open spec fn config_remove_step<T>(key: Seq<char>) -> StepView<T> {
    StepView::resume(
        seq![Action::RemoveConfig(key)],
        Task::LocalConfigChange { restart: is_idle_kernel(key) },
    )
}

/// Removes all keys, that of the idle kernel among them.
pub fn config_erase<T>() -> (step: Step<T>)
    ensures
        step@ == config_erase_step::<T>(),
{
    Step::resume_after(Action::EraseConfig, Task::LocalConfigChange { restart: true })
}

pub open spec fn config_erase_step<T>() -> StepView<T> {
    StepView::resume(seq![Action::EraseConfig], Task::LocalConfigChange { restart: true })
}

/// Starts the device anew, once the host has been told and the connection is closed.
pub fn reboot<T>() -> (step: Step<T>)
    ensures
        step@ == reboot_step::<T>(),
{
    let step = Step {
        actions: vec![
            Action::Send(Reply::RebootImminent),
            Action::Close,
            Action::Flush,
            Action::Reload,
        ],
        next: Next::Return(Ok(())),
    };
    assert(step@ =~= reboot_step::<T>());
    step
}

pub open spec fn reboot_step<T>() -> StepView<T> {
    StepView::finish(
        seq![
            Action::Send(Reply::RebootImminent),
            Action::Close,
            Action::Flush,
            Action::Reload,
        ],
    )
}

/// Prints the state of the allocator. The host is not told.
pub fn debug_allocator<T>() -> (step: Step<T>)
    ensures
        step@ == debug_allocator_step::<T>(),
{
    let step = Step { actions: vec![Action::PrintAllocator], next: Next::Return(Ok(())) };
    assert(step@ =~= debug_allocator_step::<T>());
    step
}

pub open spec fn debug_allocator_step<T>() -> StepView<T> {
    StepView::finish(seq![Action::PrintAllocator])
}

} // verus!
