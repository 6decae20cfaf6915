use vstd::prelude::*;
use std::time::SystemTime;
use crate::error::{LoxError, LoxErrorKind};
use crate::number::{FloatUnit, NumberOp};
use crate::text::{decimal, decimal_text};
use crate::value::{runtime_error, value_outcome, Value, ValueModel};

verus! {

/// `SystemTime::now().duration_since(SystemTime::UNIX_EPOCH)`, in whole
/// seconds; `None` where the system clock stands before the epoch.  Nothing
/// is claimed of the reading.
#[verifier::external_body]
pub(crate) fn unix_seconds() -> Option<u64> {
    match SystemTime::now().duration_since(SystemTime::UNIX_EPOCH) {
        Ok(elapsed) => Some(elapsed.as_secs()),
        Err(_) => None,
    }
}

/// What `clock()` gives for a reading of the system clock: the number that
/// the float unit reads from the decimal numeral of the seconds.
pub open spec fn clock_result<P: Fn(String) -> Option<u64>, A: Fn(NumberOp, u64, u64) -> u64, R: Fn(u64) -> String>(
    unit: &FloatUnit<P, A, R>,
    reading: Option<u64>,
) -> Result<ValueModel, LoxError> {
    match reading {
        None => Err(runtime_error("System time before unix epoch")),
        Some(seconds) => match unit.parsed(decimal(seconds as nat)) {
            Some(bits) => Ok(ValueModel::Number(bits)),
            None => Err(runtime_error("System time is no number")),
        },
    }
}

/// The value of `clock()` for a reading of the system clock.
pub fn clock_value<P: Fn(String) -> Option<u64>, A: Fn(NumberOp, u64, u64) -> u64, R: Fn(u64) -> String>(
    reading: Option<u64>,
    unit: &FloatUnit<P, A, R>,
) -> (res: Result<Value, LoxError>)
    requires
        unit.dependable(),
    ensures
        value_outcome(res) == clock_result(unit, reading),
{
    match reading {
        None => Err(LoxError { kind: LoxErrorKind::RuntimeError, message: "System time before unix epoch" }),
        Some(seconds) => match unit.read(decimal_text(seconds)) {
            Some(bits) => Ok(Value::NumberValue(bits)),
            None => Err(LoxError { kind: LoxErrorKind::RuntimeError, message: "System time is no number" }),
        },
    }
}

} // verus!
