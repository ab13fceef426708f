//! Asynchrony of local clocks: the offset that is added to a timer when a
//! process schedules it.

use vstd::prelude::*;
use crate::event::Time;

verus! {

/// Perfectly synchronous clocks: no timer is ever shifted.
#[derive(Clone, Copy, Debug, PartialEq, Eq, Structural)]
pub struct NoAsynchrony;

impl NoAsynchrony {
    pub fn new() -> (a: NoAsynchrony)
        ensures
            a == NoAsynchrony,
    {
        NoAsynchrony
    }

    /// The offset of a timer, which is always zero.
    pub fn get_async(&self, op_duration: Time) -> (offset: Time)
        ensures
            offset == 0,
    {
        0
    }
}

/// The distribution that the offsets of timers are drawn from.
#[derive(Clone, Copy, Debug, PartialEq, Eq, Structural)]
pub enum AsynchronyKind {
    NoAsynchrony,
    UniformAsynchrony,
    NormalAsynchrony,
    WeibullAsynchrony,
}

/// Why a configuration does not give the duration of an operation.
#[derive(Clone, Copy, Debug, PartialEq, Eq, Structural)]
pub enum OpDurationError {
    /// Asynchrony is enabled and no duration is configured.
    Missing,
    /// Asynchrony is enabled and the configured duration is not positive.
    NotPositive,
}

/// The duration that offsets are scaled by, for a kind of asynchrony and the
/// duration that the configuration holds, if any.
pub open spec fn op_duration_of(kind: AsynchronyKind, configured: Option<Time>) -> Result<
    Time,
    OpDurationError,
> {
    if kind == AsynchronyKind::NoAsynchrony {
        Ok(0)
    } else {
        match configured {
            None => Err(OpDurationError::Missing),
            Some(d) => if d > 0 {
                Ok(d)
            } else {
                Err(OpDurationError::NotPositive)
            },
        }
    }
}

/// Resolves the duration of an operation. Without asynchrony it is zero,
/// whatever is configured; with asynchrony a positive duration must be
/// configured.
pub fn get_op_duration(kind: AsynchronyKind, configured: Option<Time>) -> (r: Result<
    Time,
    OpDurationError,
>)
    ensures
        r == op_duration_of(kind, configured),
{
    match kind {
        AsynchronyKind::NoAsynchrony => Ok(0),
        _ => match configured {
            None => Err(OpDurationError::Missing),
            Some(d) => if d > 0 {
                Ok(d)
            } else {
                Err(OpDurationError::NotPositive)
            },
        },
    }
}

} // verus!
