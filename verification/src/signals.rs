//! The signals a block may subscribe to.
//!
//! A block names a signal by its offset from the first real-time signal of
//! the machine. The range of real-time signals is read by the caller.

use crate::error::{Error, ErrorKind, ErrorView};
use vstd::prelude::*;

verus! {

/// `signal` is an offset that stays within the real-time signals
/// `rt_min ..= rt_max`.
pub open spec fn valid_signal(signal: i32, rt_min: i32, rt_max: i32) -> bool {
    0 <= signal <= rt_max - rt_min
}

/// The error for a signal that is out of range.
pub open spec fn signal_error() -> ErrorView {
    ErrorView {
        kind: ErrorKind::Config,
        block: "custom"@,
        message: "a provided signal was out of bounds"@,
    }
}

/// The number of the signal that lies `signal` after the first real-time
/// signal `rt_min`; an error if that is not one of the real-time signals
/// `rt_min ..= rt_max`.
pub fn convert_to_valid_signal(signal: i32, rt_min: i32, rt_max: i32) -> (r: Result<i32, Error>)
    ensures
        match r {
            Ok(number) => valid_signal(signal, rt_min, rt_max) && number == signal + rt_min,
            Err(e) => !valid_signal(signal, rt_min, rt_max) && e@ == signal_error(),
        },
{
    let span: i64 = rt_max as i64 - rt_min as i64;
    if signal < 0 || signal as i64 > span {
        Err(
            Error::new(
                ErrorKind::Config,
                "custom",
                "a provided signal was out of bounds".to_owned(),
            ),
        )
    } else {
        Ok(signal + rt_min)
    }
}

} // verus!
