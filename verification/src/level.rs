//! Log levels, and the process-wide limit that the `log` crate keeps.
use vstd::prelude::*;

verus! {

/// The levels to which logging can be limited, from nothing to everything.
#[derive(Clone, Copy, Debug, PartialEq, Eq, Structural)]
pub enum LevelFilter {
    Off,
    Error,
    Warn,
    Info,
    Debug,
    Trace,
}

impl LevelFilter {
    /// The byte that stands for the level in a packet.
    pub open spec fn number(self) -> u8 {
        match self {
            LevelFilter::Off => 0,
            LevelFilter::Error => 1,
            LevelFilter::Warn => 2,
            LevelFilter::Info => 3,
            LevelFilter::Debug => 4,
            LevelFilter::Trace => 5,
        }
    }
}

/// A use of the limit of the process.
pub enum LimitUse {
    /// It was asked for, and was this level.
    Read(LevelFilter),
    /// It was set to this level.
    Write(LevelFilter),
}

/// Access to the limit of what the process logs. Its view is what it has been used
/// for, from the first use to the last.
///
/// The limit itself is shared by all threads, so that it may differ at any time from
/// what was last read or set here.
pub struct LogLimit {
    uses: Ghost<Seq<LimitUse>>,
}

impl View for LogLimit {
    type V = Seq<LimitUse>;

    closed spec fn view(&self) -> Seq<LimitUse> {
        self.uses@
    }
}

/// The level of the last use.
pub open spec fn latest(uses: Seq<LimitUse>) -> LevelFilter {
    match uses.last() {
        LimitUse::Read(level) => level,
        LimitUse::Write(level) => level,
    }
}

impl LogLimit {
    /// Access that has not been used yet.
    pub fn new() -> (limit: LogLimit)
        ensures
            limit@ == Seq::<LimitUse>::empty(),
    {
        LogLimit { uses: Ghost(Seq::empty()) }
    }
}

/// The discriminant of the `log::LevelFilter` of the same name, which counts the
/// levels from `Off` in the order of their declaration.
#[verifier::external_body]
pub(crate) fn level_number(level: LevelFilter) -> (number: u8)
    ensures
        number == level.number(),
{
    let filter = match level {
        LevelFilter::Off => log::LevelFilter::Off,
        LevelFilter::Error => log::LevelFilter::Error,
        LevelFilter::Warn => log::LevelFilter::Warn,
        LevelFilter::Info => log::LevelFilter::Info,
        LevelFilter::Debug => log::LevelFilter::Debug,
        LevelFilter::Trace => log::LevelFilter::Trace,
    };
    filter as u8
}

/// `log::max_level`: the limit in force at the moment of the call. Any thread may
/// change that limit at any time, so nothing is claimed of the level returned. What is
/// claimed is that the call is made once and that its result is the level returned.
#[verifier::external_body]
pub(crate) fn max_level(limit: &mut LogLimit) -> (level: LevelFilter)
    ensures
        final(limit)@ == old(limit)@.push(LimitUse::Read(level)),
{
    match log::max_level() {
        log::LevelFilter::Off => LevelFilter::Off,
        log::LevelFilter::Error => LevelFilter::Error,
        log::LevelFilter::Warn => LevelFilter::Warn,
        log::LevelFilter::Info => LevelFilter::Info,
        log::LevelFilter::Debug => LevelFilter::Debug,
        log::LevelFilter::Trace => LevelFilter::Trace,
    }
}

/// `log::set_max_level`: makes `level` the limit of the whole process. That limit
/// is no value of the program, so no clause can speak of it. What is claimed is that
/// the call is made once, and made with `level`.
#[verifier::external_body]
pub(crate) fn set_max_level(limit: &mut LogLimit, level: LevelFilter)
    ensures
        final(limit)@ == old(limit)@.push(LimitUse::Write(level)),
{
    log::set_max_level(match level {
        LevelFilter::Off => log::LevelFilter::Off,
        LevelFilter::Error => log::LevelFilter::Error,
        LevelFilter::Warn => log::LevelFilter::Warn,
        LevelFilter::Info => log::LevelFilter::Info,
        LevelFilter::Debug => log::LevelFilter::Debug,
        LevelFilter::Trace => log::LevelFilter::Trace,
    })
}

} // verus!
