//! The logging front door: the one place through which the rest of a
//! program writes to the scrollback of the running session. Before a log is
//! bound to it every call does nothing.

use crate::messages::{entries, keep_last, MessageLogger};
use vstd::prelude::*;
use vstd::string::StringExecFns;

verus! {

/// The binding between the logging calls and the log of the session.
pub struct GlobalLogger {
    logger: Option<MessageLogger>,
}

impl GlobalLogger {
    /// The lines of the bound log, oldest first; `None` while no log is
    /// bound.
    pub closed spec fn lines(&self) -> Option<Seq<Seq<char>>> {
        match self.logger {
            Some(log) => Some(log.lines()),
            None => None,
        }
    }

    /// The most lines the bound log keeps; zero while no log is bound.
    pub closed spec fn limit(&self) -> nat {
        match self.logger {
            Some(log) => log.limit(),
            None => 0,
        }
    }

    /// A binding with no log behind it.
    pub fn new() -> (slot: Self)
        ensures
            slot.lines() is None,
    {
        GlobalLogger { logger: None }
    }

    /// A copy of the bound log as it stands, if one is bound.
    pub fn logger(&self) -> (log: Option<MessageLogger>)
        ensures
            log is Some <==> self.lines() is Some,
            log is Some ==> log->0.lines() == self.lines()->0 && log->0.limit() == self.limit(),
    {
        match &self.logger {
            Some(log) => Some(log.clone()),
            None => None,
        }
    }
}

/// What logging `message` makes of the lines `before` of a binding whose
/// log keeps `limit` lines: an unbound one stays unbound.
pub open spec fn logged(before: Option<Seq<Seq<char>>>, limit: nat, message: Seq<char>) -> Option<
    Seq<Seq<char>>,
> {
    match before {
        Some(lines) => Some(keep_last(lines + entries(message), limit)),
        None => None,
    }
}

/// Binds `logger`: from now on the logging calls write to it. A log bound
/// before is let go.
pub fn set_logger(slot: &mut GlobalLogger, logger: MessageLogger)
    ensures
        final(slot).lines() == Some(logger.lines()),
        final(slot).limit() == logger.limit(),
{
    slot.logger = Some(logger);
}

/// Appends `message` to the bound log, line by line.
pub fn log(slot: &mut GlobalLogger, message: String)
    ensures
        final(slot).lines() == logged(old(slot).lines(), old(slot).limit(), message@),
        final(slot).limit() == old(slot).limit(),
{
    match &mut slot.logger {
        Some(bound) => {
            bound.log(message);
        },
        None => {},
    }
}

/// Appends `message` to the bound log, line by line.
pub fn print_line(slot: &mut GlobalLogger, message: &str)
    ensures
        final(slot).lines() == logged(old(slot).lines(), old(slot).limit(), message@),
        final(slot).limit() == old(slot).limit(),
{
    log(slot, message.to_owned());
}

/// Logs `message` behind the tag `[INFO]`.
pub fn info(slot: &mut GlobalLogger, message: &str)
    ensures
        final(slot).lines() == logged(
            old(slot).lines(),
            old(slot).limit(),
            "[INFO] "@ + message@,
        ),
        final(slot).limit() == old(slot).limit(),
{
    log(slot, String::from_str("[INFO] ").concat(message));
}

/// Logs `message` behind the tag `[ERROR]`.
pub fn error(slot: &mut GlobalLogger, message: &str)
    ensures
        final(slot).lines() == logged(
            old(slot).lines(),
            old(slot).limit(),
            "[ERROR] "@ + message@,
        ),
        final(slot).limit() == old(slot).limit(),
{
    log(slot, String::from_str("[ERROR] ").concat(message));
}

/// Logs `message` behind the tag `[SUCCESS]`.
pub fn success(slot: &mut GlobalLogger, message: &str)
    ensures
        final(slot).lines() == logged(
            old(slot).lines(),
            old(slot).limit(),
            "[SUCCESS] "@ + message@,
        ),
        final(slot).limit() == old(slot).limit(),
{
    log(slot, String::from_str("[SUCCESS] ").concat(message));
}

/// Logs `message` behind the tag `[WARNING]`.
pub fn warning(slot: &mut GlobalLogger, message: &str)
    ensures
        final(slot).lines() == logged(
            old(slot).lines(),
            old(slot).limit(),
            "[WARNING] "@ + message@,
        ),
        final(slot).limit() == old(slot).limit(),
{
    log(slot, String::from_str("[WARNING] ").concat(message));
}

/// Logs `message` behind the tag `[DEBUG]`.
pub fn debug(slot: &mut GlobalLogger, message: &str)
    ensures
        final(slot).lines() == logged(
            old(slot).lines(),
            old(slot).limit(),
            "[DEBUG] "@ + message@,
        ),
        final(slot).limit() == old(slot).limit(),
{
    log(slot, String::from_str("[DEBUG] ").concat(message));
}

} // verus!
